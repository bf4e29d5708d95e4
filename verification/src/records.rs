//! The note records of a project (`.data/entries.jsonl`) and the edits that
//! keep them consistent: fresh ids, one record per id, moves and removals.
use vstd::prelude::*;
use crate::text::str_eq;
use crate::value::{Node, find_field, key_index, lemma_key_index, lookup};

verus! {

pub open spec fn has_id(e: Node, id: i64) -> bool {
    e.int_at("id"@) == Some(id)
}

/// The largest integer id among the records, if any record has one.
pub open spec fn max_id(s: Seq<Node>) -> Option<i64>
    decreases s.len(),
{
    if s.len() == 0 {
        None
    } else {
        let rest = max_id(s.drop_last());
        match s.last().int_at("id"@) {
            None => rest,
            Some(n) => match rest {
                None => Some(n),
                Some(m) => if n > m {
                    Some(n)
                } else {
                    Some(m)
                },
            },
        }
    }
}

/// The id a new record gets: one more than the largest id, or 1.
pub open spec fn next_id(s: Seq<Node>) -> Option<i64> {
    let base: int = match max_id(s) {
        Some(m) => m as int,
        None => 0,
    };
    if base + 1 <= i64::MAX {
        Some((base + 1) as i64)
    } else {
        None
    }
}

/// The records without those whose id is `id`.
pub open spec fn without_id(s: Seq<Node>, id: i64) -> Seq<Node>
    decreases s.len(),
{
    if s.len() == 0 {
        s
    } else if has_id(s.last(), id) {
        without_id(s.drop_last(), id)
    } else {
        without_id(s.drop_last(), id).push(s.last())
    }
}

/// Index of the first record whose id is `id`, or the number of records.
pub open spec fn id_index(s: Seq<Node>, id: i64) -> int
    decreases s.len(),
{
    if s.len() == 0 {
        0
    } else if has_id(s[0], id) {
        0
    } else {
        1 + id_index(s.drop_first(), id)
    }
}

pub proof fn lemma_id_index(s: Seq<Node>, id: i64)
    ensures
        0 <= id_index(s, id) <= s.len(),
        id_index(s, id) < s.len() ==> has_id(s[id_index(s, id)], id),
        forall|j: int| 0 <= j < id_index(s, id) ==> !has_id(#[trigger] s[j], id),
    decreases s.len(),
{
    if s.len() > 0 && !has_id(s[0], id) {
        let rest = s.drop_first();
        lemma_id_index(rest, id);
        assert forall|j: int| 0 <= j < id_index(s, id) implies !has_id(#[trigger] s[j], id) by {
            if j > 0 {
                assert(s[j] == rest[j - 1]);
            }
        }
        if id_index(s, id) < s.len() {
            assert(s[id_index(s, id)] == rest[id_index(rest, id)]);
        }
    }
}

/// The first record whose id is `id`.
pub open spec fn entry_with_id(s: Seq<Node>, id: i64) -> Option<Node> {
    if id_index(s, id) < s.len() {
        Some(s[id_index(s, id)])
    } else {
        None
    }
}

/// Why the records cannot be changed as asked.
#[derive(Debug, PartialEq, Eq, Structural)]
pub enum RecordError {
    /// Every id up to `i64::MAX` is taken.
    IdsExhausted,
    /// No record has the id.
    NotFound(i64),
}

/// The id for a new record.
pub fn next_entry_id(entries: &Vec<Node>) -> (r: Result<i64, RecordError>)
    ensures
        match r {
            Ok(id) => next_id(entries@) == Some(id),
            Err(e) => next_id(entries@) is None && e == RecordError::IdsExhausted,
        },
{
    let mut best: Option<i64> = None;
    let mut i: usize = 0;
    assert(entries@.take(0) =~= Seq::<Node>::empty());
    while i < entries.len()
        invariant
            i <= entries.len(),
            best == max_id(entries@.take(i as int)),
        decreases entries.len() - i,
    {
        assert(entries@.take(i + 1).drop_last() =~= entries@.take(i as int));
        match entries[i].get_i64("id") {
            None => {},
            Some(n) => {
                best = match best {
                    None => Some(n),
                    Some(m) => if n > m {
                        Some(n)
                    } else {
                        Some(m)
                    },
                };
            },
        }
        i = i + 1;
    }
    assert(entries@.take(i as int) =~= entries@);
    let base: i64 = match best {
        Some(m) => m,
        None => 0,
    };
    if base == i64::MAX {
        Err(RecordError::IdsExhausted)
    } else {
        Ok(base + 1)
    }
}

/// Position of the first record whose id is `id`, or the number of records.
pub fn position_of(entries: &Vec<Node>, id: i64) -> (r: usize)
    ensures
        r as int == id_index(entries@, id),
        r <= entries.len(),
{
    let mut i: usize = 0;
    assert(entries@.skip(0) =~= entries@);
    while i < entries.len()
        invariant
            i <= entries.len(),
            id_index(entries@, id) == i + id_index(entries@.skip(i as int), id),
        decreases entries.len() - i,
    {
        assert(entries@.skip(i as int)[0] == entries@[i as int]);
        if entries[i].get_i64("id") == Some(id) {
            return i;
        }
        assert(entries@.skip(i as int).drop_first() =~= entries@.skip(i + 1));
        i = i + 1;
    }
    i
}

proof fn lemma_without_id_append(s: Seq<Node>, t: Seq<Node>, id: i64)
    ensures
        without_id(s + t, id) == without_id(s, id) + without_id(t, id),
    decreases t.len(),
{
    if t.len() == 0 {
        assert(s + t =~= s);
        assert(without_id(s, id) + without_id(t, id) =~= without_id(s, id));
    } else {
        lemma_without_id_append(s, t.drop_last(), id);
        assert((s + t).drop_last() =~= s + t.drop_last());
        assert((s + t).last() == t.last());
        if has_id(t.last(), id) {
        } else {
            assert(without_id(s, id) + without_id(t.drop_last(), id).push(t.last()) =~= (
            without_id(s, id) + without_id(t.drop_last(), id)).push(t.last()));
        }
    }
}

/// Removes every record at or after `start` whose id is `id`.
pub fn remove_id_from(entries: &mut Vec<Node>, start: usize, id: i64)
    requires
        start <= old(entries).len(),
    ensures
        final(entries)@ == old(entries)@.take(start as int) + without_id(
            old(entries)@.skip(start as int),
            id,
        ),
{
    let ghost s = entries@;
    let ghost tail = s.skip(start as int);
    let mut i: usize = start;
    let ghost mut k: int = 0;
    assert(tail.take(0) =~= Seq::<Node>::empty());
    assert(entries@ =~= s.take(start as int) + without_id(tail.take(0), id) + tail.skip(0));
    while i < entries.len()
        invariant
            0 <= k <= tail.len(),
            start <= s.len(),
            tail.len() == s.len() - start,
            start <= i <= entries.len(),
            tail == s.skip(start as int),
            i == start + without_id(tail.take(k), id).len(),
            entries@ == s.take(start as int) + without_id(tail.take(k), id) + tail.skip(k),
        decreases entries.len() - i,
    {
        let ghost before = entries@;
        assert(k < tail.len());
        assert(tail.take(k + 1).drop_last() =~= tail.take(k));
        assert(entries@[i as int] == tail[k]);
        if entries[i].get_i64("id") == Some(id) {
            entries.remove(i);
            assert(entries@ =~= s.take(start as int) + without_id(tail.take(k + 1), id)
                + tail.skip(k + 1));
        } else {
            assert(entries@ =~= s.take(start as int) + without_id(tail.take(k + 1), id)
                + tail.skip(k + 1));
            i = i + 1;
        }
        proof {
            k = k + 1;
        }
    }
    proof {
        assert(k == tail.len()) by {
            if k < tail.len() {
                assert(entries@.len() > i);
            }
        }
        assert(tail.take(k) =~= tail);
        assert(tail.skip(k) =~= Seq::<Node>::empty());
        assert(entries@ =~= s.take(start as int) + without_id(tail, id));
    }
}

/// Removes every record whose id is `id`.
pub fn remove_entry(entries: &mut Vec<Node>, id: i64)
    ensures
        final(entries)@ == without_id(old(entries)@, id),
{
    remove_id_from(entries, 0, id);
    assert(old(entries)@.skip(0) =~= old(entries)@);
    assert(old(entries)@.take(0) + without_id(old(entries)@, id) =~= without_id(
        old(entries)@,
        id,
    ));
}

/// The records after storing `r` as the record with id `id`.
pub open spec fn rewritten(s: Seq<Node>, id: i64, r: Node) -> Seq<Node> {
    let f = id_index(s, id);
    if f < s.len() {
        s.take(f) + seq![r] + without_id(s.skip(f + 1), id)
    } else {
        s.push(r)
    }
}

/// Stores `replacement` as the record with id `id`: it takes the place of the
/// first such record, later ones are dropped, and it is appended when there
/// was none.
pub fn rewrite_entry(entries: &mut Vec<Node>, id: i64, replacement: Node)
    ensures
        final(entries)@ == rewritten(old(entries)@, id, replacement),
{
    let f = position_of(entries, id);
    if f == entries.len() {
        entries.push(replacement);
    } else {
        let ghost s = entries@;
        remove_id_from(entries, f + 1, id);
        entries.set(f, replacement);
        assert(entries@ =~= s.take(f as int) + seq![replacement] + without_id(s.skip(f + 1), id));
    }
}

/// Replaces the record with id `id` by `replacement`, which moves to the end;
/// any other record with that id is dropped.
pub fn move_entry_to_end(entries: &mut Vec<Node>, id: i64, replacement: Node) -> (r: Result<
    (),
    RecordError,
>)
    ensures
        match r {
            Ok(_) => id_index(old(entries)@, id) < old(entries)@.len() && final(entries)@
                == without_id(old(entries)@, id).push(replacement),
            Err(e) => id_index(old(entries)@, id) == old(entries)@.len() && final(entries)@
                == old(entries)@ && e == RecordError::NotFound(id),
        },
{
    let f = position_of(entries, id);
    if f == entries.len() {
        return Err(RecordError::NotFound(id));
    }
    remove_entry(entries, id);
    entries.push(replacement);
    Ok(())
}

/// The record with id `id`.
pub fn find_entry(entries: &Vec<Node>, id: i64) -> (r: Option<&Node>)
    ensures
        match r {
            Some(e) => entry_with_id(entries@, id) == Some(*e),
            None => entry_with_id(entries@, id) is None,
        },
{
    let f = position_of(entries, id);
    if f < entries.len() {
        Some(&entries[f])
    } else {
        None
    }
}

} // verus!

verus! {

pub open spec fn any_busy(s: Seq<Node>) -> bool {
    exists|i: int| 0 <= i < s.len() && crate::markdown::is_busy_status(#[trigger] s[i].str_at("status"@))
}

/// Whether a note is still being recorded or transcribed.
pub fn has_busy_entry(entries: &Vec<Node>) -> (r: bool)
    ensures
        r == any_busy(entries@),
{
    let mut i: usize = 0;
    while i < entries.len()
        invariant
            i <= entries.len(),
            forall|k: int|
                0 <= k < i ==> !crate::markdown::is_busy_status(#[trigger] entries@[k].str_at("status"@)),
        decreases entries.len() - i,
    {
        if entries[i].str_is("status", "recording") || entries[i].str_is("status", "transcribing") {
            return true;
        }
        i = i + 1;
    }
    false
}

/// A note (not a section or other kind) that is being recorded.
pub open spec fn is_recording_note(e: Node) -> bool {
    e.field("kind"@) is None && e.str_at("status"@) == Some("recording"@)
}

/// The largest id among the notes that are being recorded.
pub open spec fn latest_recording_id(s: Seq<Node>) -> Option<i64>
    decreases s.len(),
{
    if s.len() == 0 {
        None
    } else {
        let rest = latest_recording_id(s.drop_last());
        if is_recording_note(s.last()) {
            match s.last().int_at("id"@) {
                None => rest,
                Some(n) => match rest {
                    None => Some(n),
                    Some(m) => if n > m {
                        Some(n)
                    } else {
                        Some(m)
                    },
                },
            }
        } else {
            rest
        }
    }
}

/// The note whose recording a push-to-talk release ends.
pub fn latest_recording(entries: &Vec<Node>) -> (r: Option<i64>)
    ensures
        r == latest_recording_id(entries@),
{
    let mut best: Option<i64> = None;
    let mut i: usize = 0;
    assert(entries@.take(0) =~= Seq::<Node>::empty());
    while i < entries.len()
        invariant
            i <= entries.len(),
            best == latest_recording_id(entries@.take(i as int)),
        decreases entries.len() - i,
    {
        assert(entries@.take(i + 1).drop_last() =~= entries@.take(i as int));
        let e = &entries[i];
        if e.get("kind").is_none() && e.str_is("status", "recording") {
            match e.get_i64("id") {
                None => {},
                Some(n) => {
                    best = match best {
                        None => Some(n),
                        Some(m) => if n > m {
                            Some(n)
                        } else {
                            Some(m)
                        },
                    };
                },
            }
        }
        i = i + 1;
    }
    assert(entries@.take(i as int) =~= entries@);
    best
}

/// Every record is an object with an integer id of at least 1.
pub open spec fn ids_valid(s: Seq<Node>) -> bool {
    forall|i: int|
        0 <= i < s.len() ==> (#[trigger] s[i]).is_object() && (match s[i].int_at("id"@) {
            Some(n) => n >= 1,
            None => false,
        })
}

/// Whether every record is an object with a positive integer id.
pub fn entries_have_valid_ids(entries: &Vec<Node>) -> (r: bool)
    ensures
        r == ids_valid(entries@),
{
    let mut i: usize = 0;
    while i < entries.len()
        invariant
            i <= entries.len(),
            forall|k: int|
                0 <= k < i ==> (#[trigger] entries@[k]).is_object() && (match entries@[k].int_at(
                    "id"@,
                ) {
                    Some(n) => n >= 1,
                    None => false,
                }),
        decreases entries.len() - i,
    {
        let ok = match &entries[i] {
            Node::Object(_) => match entries[i].get_i64("id") {
                Some(n) => n >= 1,
                None => false,
            },
            _ => false,
        };
        if !ok {
            return false;
        }
        i = i + 1;
    }
    true
}

pub open spec fn section_count(s: Seq<Node>) -> nat
    decreases s.len(),
{
    if s.len() == 0 {
        0
    } else {
        section_count(s.drop_last()) + if crate::markdown::is_section(s.last()) {
            1nat
        } else {
            0nat
        }
    }
}

proof fn lemma_section_count_bound(s: Seq<Node>)
    ensures
        section_count(s) <= s.len(),
    decreases s.len(),
{
    if s.len() > 0 {
        lemma_section_count_bound(s.drop_last());
    }
}

/// A section heading record: `{"id", "kind": "section", "ts", "title"}`.
pub open spec fn is_section_record(e: Node, id: i64, ts: Seq<char>, title: Seq<char>) -> bool {
    match e {
        Node::Object(f) => {
            &&& f@.len() == 4
            &&& crate::mutation::value_field(f@[0], "id"@, Node::Int(id))
            &&& crate::mutation::str_field(f@[1], "kind"@, "section"@)
            &&& crate::mutation::str_field(f@[2], "ts"@, ts)
            &&& crate::mutation::str_field(f@[3], "title"@, title)
        },
        _ => false,
    }
}

/// The title of a new section: the given one, or `Section N` for the N-th section.
pub open spec fn section_title_for(s: Seq<Node>, title: Option<Seq<char>>) -> Seq<char> {
    match title {
        Some(t) => t,
        None => "Section "@ + crate::text::decimal(section_count(s) + 1),
    }
}

/// A new section heading after the records `entries`.
pub fn new_section(entries: &Vec<Node>, title: Option<&str>, ts: &str) -> (r: Result<
    (i64, Node),
    RecordError,
>)
    ensures
        match r {
            Ok((id, e)) => next_id(entries@) == Some(id) && is_section_record(
                e,
                id,
                ts@,
                section_title_for(
                    entries@,
                    match title {
                        Some(t) => Some(t@),
                        None => None,
                    },
                ),
            ),
            Err(e) => next_id(entries@) is None && e == RecordError::IdsExhausted,
        },
{
    let id = next_entry_id(entries)?;
    let name = match title {
        Some(t) => String::from_str(t),
        None => {
            let mut count: usize = 0;
            let mut i: usize = 0;
            assert(entries@.take(0) =~= Seq::<Node>::empty());
            while i < entries.len()
                invariant
                    i <= entries.len(),
                    count == section_count(entries@.take(i as int)),
                    count <= i,
                decreases entries.len() - i,
            {
                assert(entries@.take(i + 1).drop_last() =~= entries@.take(i as int));
                if entries[i].str_is("kind", "section") {
                    count = count + 1;
                }
                i = i + 1;
            }
            assert(entries@.take(i as int) =~= entries@);
            let mut out: Vec<char> = Vec::new();
            push_str_lit(&mut out, "Section ");
            crate::text::push_decimal(&mut out, (count as u128) + 1);
            crate::text::string_of(&out)
        },
    };
    let mut f: Vec<(String, Node)> = Vec::new();
    f.push((String::from_str("id"), Node::Int(id)));
    f.push((String::from_str("kind"), Node::Str(String::from_str("section"))));
    f.push((String::from_str("ts"), Node::Str(String::from_str(ts))));
    f.push((String::from_str("title"), Node::Str(name)));
    Ok((id, Node::Object(f)))
}

fn push_str_lit(out: &mut Vec<char>, s: &str)
    ensures
        final(out)@ == old(out)@ + s@,
{
    crate::text::push_str(out, s)
}

} // verus!

verus! {

/// Takes out the record with id `id`; every record with that id leaves.
pub fn take_entry(entries: &mut Vec<Node>, id: i64) -> (r: Result<Node, RecordError>)
    ensures
        match r {
            Ok(e) => entry_with_id(old(entries)@, id) == Some(e) && final(entries)@ == without_id(
                old(entries)@,
                id,
            ),
            Err(e) => entry_with_id(old(entries)@, id) is None && final(entries)@ == old(
                entries,
            )@ && e == RecordError::NotFound(id),
        },
{
    let f = position_of(entries, id);
    if f == entries.len() {
        return Err(RecordError::NotFound(id));
    }
    let ghost s = entries@;
    let e = entries.remove(f);
    proof {
        lemma_id_index(s, id);
        lemma_without_prefix(s, f as int, id);
    }
    remove_entry(entries, id);
    Ok(e)
}

/// Dropping a record with the id does not change what removing the id gives.
proof fn lemma_without_prefix(s: Seq<Node>, f: int, id: i64)
    requires
        0 <= f < s.len(),
        has_id(s[f], id),
    ensures
        without_id(s.remove(f), id) == without_id(s, id),
    decreases s.len(),
{
    if f == s.len() - 1 {
        assert(s.remove(f) =~= s.drop_last());
    } else {
        lemma_without_prefix(s.drop_last(), f, id);
        assert(s.remove(f).drop_last() =~= s.drop_last().remove(f));
        assert(s.remove(f).last() == s.last());
    }
}

} // verus!
