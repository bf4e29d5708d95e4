//! Properties of the rendered `notes.md`: its frame, the blocks of the
//! records, and its independence of the order of the records file.
use vstd::prelude::*;
use crate::markdown::{
    analysis_md, body_md, comment_md, date_of, entry_md, has_section, heading_title, image_md,
    is_plain, is_section, label_of, missing_id, notes_md, section_title, sort_by_id, sort_key,
    strip_blank_tail,
};
use crate::text::{replace_char, signed_decimal};
use crate::value::Node;

verus! {

/// Cutting the final blank lines keeps every character up to a line end
/// that follows some other character.
proof fn lemma_strip_keeps_prefix(s: Seq<char>, k: int)
    requires
        2 <= k <= s.len(),
        s[k - 1] == '\n',
        s[k - 2] != '\n',
    ensures
        k <= strip_blank_tail(s).len() <= s.len(),
        strip_blank_tail(s) == s.take(strip_blank_tail(s).len() as int),
    decreases s.len(),
{
    if s.len() >= 2 && s.last() == '\n' && s[s.len() - 2] == '\n' {
        let d = s.drop_last();
        lemma_strip_keeps_prefix(d, k);
        assert(d.take(strip_blank_tail(d).len() as int) =~= s.take(strip_blank_tail(d).len() as int));
    } else {
        assert(s.take(s.len() as int) =~= s);
    }
}

/// Text that ends a line ends, after the cut, with exactly one line end.
proof fn lemma_strip_one_line_end(s: Seq<char>)
    requires
        s.len() >= 1,
        s.last() == '\n',
    ensures
        strip_blank_tail(s).len() >= 1,
        strip_blank_tail(s).last() == '\n',
        !(strip_blank_tail(s).len() >= 2 && strip_blank_tail(s)[strip_blank_tail(s).len() - 2]
            == '\n'),
    decreases s.len(),
{
    if s.len() >= 2 && s.last() == '\n' && s[s.len() - 2] == '\n' {
        lemma_strip_one_line_end(s.drop_last());
    }
}

/// Every block ends with a blank line.
proof fn lemma_body_ends(s: Seq<Node>, sections: bool)
    ensures
        body_md(s, sections).len() == 0 || body_md(s, sections).last() == '\n',
{
    if s.len() > 0 {
        reveal_strlit("\n\n");
        let e = entry_md(s.last(), sections);
        assert(e.len() >= 2 && e.last() == '\n');
    }
}

/// `notes.md` starts with the heading line `# UI review — LABEL · DATE` and
/// ends with exactly one line end, unless the date itself ends a line.
pub proof fn law_notes_frame(name: Seq<char>, today: Seq<char>, entries: Seq<Node>)
    requires
        !(date_of(name, today).len() > 0 && date_of(name, today).last() == '\n'),
    ensures
        notes_md(name, today, entries) matches Ok(t) ==> {
            let h = "# UI review — "@ + label_of(name) + " · "@ + date_of(name, today) + "\n"@;
            &&& t.len() >= h.len()
            &&& t.take(h.len() as int) == h
            &&& t.last() == '\n'
            &&& !(t[t.len() - 2] == '\n')
        },
{
    if let Ok(t) = notes_md(name, today, entries) {
        reveal_strlit("# UI review — ");
        reveal_strlit(" · ");
        reveal_strlit("\n");
        reveal_strlit("\n\n");
        let d = date_of(name, today);
        let header = "# UI review — "@ + label_of(name) + " · "@ + d + "\n\n"@;
        let body = body_md(sort_by_id(entries), has_section(entries));
        let full = header + body;
        let h = "# UI review — "@ + label_of(name) + " · "@ + d + "\n"@;
        let k = h.len() as int;
        assert(full[k - 1] == '\n');
        assert(full[k - 2] != '\n');
        lemma_strip_keeps_prefix(full, k);
        assert(full.take(k) =~= h);
        assert(t.take(k) =~= full.take(k));
        lemma_body_ends(sort_by_id(entries), has_section(entries));
        assert(full.last() == '\n');
        lemma_strip_one_line_end(full);
    }
}

/// The blocks of the records: a section is `## TITLE`; a plain note is its
/// image link, if any, then its text; any other note has a numbered heading
/// (`###` when the notes have sections, else `##`) titled by its analysis or
/// `Entry N`, then its analysis summary or state, then its text quoted.
/// The text is the trimmed transcript, else `_transcribing…_` while it is
/// recorded or transcribed, else `_no transcript_`.
pub proof fn law_entry_blocks(e: Node, sections: bool)
    ensures
        is_section(e) ==> entry_md(e, sections) == "## "@ + section_title(e) + "\n\n"@,
        !is_section(e) && is_plain(e) ==> entry_md(e, sections) == image_md(e) + comment_md(e)
            + "\n\n"@,
        !is_section(e) && !is_plain(e) ==> entry_md(e, sections) == image_md(e) + (if sections {
            "###"@
        } else {
            "##"@
        }) + " "@ + signed_decimal(sort_key(e)) + ". "@ + heading_title(e) + "\n"@ + analysis_md(e)
            + "\n\n> "@ + replace_char(comment_md(e), '\n', "\n> "@) + "\n\n"@,
        image_md(e) == (match e.str_at("asset"@) {
            Some(a) => if a.len() > 0 {
                "![Screen capture]("@ + a + ")\n\n"@
            } else {
                seq![]
            },
            None => seq![],
        }),
        comment_md(e) == ({
            let t = crate::text::trim(
                match e.str_at("transcript"@) {
                    Some(t) => t,
                    None => seq![],
                },
            );
            if t.len() > 0 {
                t
            } else if e.str_at("status"@) == Some("recording"@) || e.str_at("status"@) == Some(
                "transcribing"@,
            ) {
                "_transcribing…_"@
            } else {
                "_no transcript_"@
            }
        }),
        analysis_md(e) == (match crate::markdown::context_of(e) {
            Some(f) => match crate::value::lookup(f, "summary"@) {
                Some(Node::Str(s)) => s@,
                _ => if e.str_at("context_status"@) == Some("error"@) {
                    "_analysis failed_"@
                } else {
                    "_analysis pending…_"@
                },
            },
            None => if e.str_at("context_status"@) == Some("error"@) {
                "_analysis failed_"@
            } else {
                "_analysis pending…_"@
            },
        }),
{
}

} // verus!

verus! {

broadcast use vstd::seq_lib::group_to_multiset_ensures;

/// Every record has an integer id, and no two records share one.
pub open spec fn integer_ids_distinct(s: Seq<Node>) -> bool {
    &&& forall|i: int| 0 <= i < s.len() ==> (#[trigger] s[i]).int_at("id"@) is Some
    &&& forall|i: int, j: int|
        0 <= i < j < s.len() ==> (#[trigger] s[i]).int_at("id"@) != (#[trigger] s[j]).int_at(
            "id"@,
        )
}

/// Records of `s` with the same ordering key are the same record.
spec fn key_injective(s: Seq<Node>) -> bool {
    forall|x: Node, y: Node|
        s.contains(x) && s.contains(y) && sort_key(x) == sort_key(y) ==> x == y
}

/// Two sorted orders of the same records are the same when no two records
/// share an ordering key.
proof fn lemma_sorted_unique(a: Seq<Node>, b: Seq<Node>)
    requires
        crate::laws::sorted_by_id(a),
        crate::laws::sorted_by_id(b),
        a.to_multiset() == b.to_multiset(),
        key_injective(a),
    ensures
        a == b,
    decreases a.len(),
{
    assert(a.len() == a.to_multiset().len());
    assert(b.len() == b.to_multiset().len());
    if a.len() > 0 {
        let x = a.last();
        let y = b.last();
        assert(a.contains(x));
        assert(a.to_multiset().count(x) > 0);
        assert(b.contains(x));
        assert(b.contains(y));
        assert(b.to_multiset().count(y) > 0);
        assert(a.contains(y));
        let iy = choose|i: int| 0 <= i < a.len() && a[i] == y;
        let ix = choose|i: int| 0 <= i < b.len() && b[i] == x;
        if iy < a.len() - 1 {
            assert(sort_key(a[iy]) <= sort_key(a[a.len() - 1]));
        }
        if ix < b.len() - 1 {
            assert(sort_key(b[ix]) <= sort_key(b[b.len() - 1]));
        }
        assert(sort_key(x) == sort_key(y));
        assert(x == y);
        let da = a.drop_last();
        let db = b.drop_last();
        assert(a =~= da.push(x));
        assert(b =~= db.push(y));
        assert(da.to_multiset() =~= a.to_multiset().remove(x)) by {
            assert(a.to_multiset() =~= da.to_multiset().insert(x));
        }
        assert(db.to_multiset() =~= b.to_multiset().remove(y)) by {
            assert(b.to_multiset() =~= db.to_multiset().insert(y));
        }
        assert forall|p: Node, q: Node|
            da.contains(p) && da.contains(q) && sort_key(p) == sort_key(q) implies p == q by {
            let i = choose|i: int| 0 <= i < da.len() && da[i] == p;
            let j = choose|j: int| 0 <= j < da.len() && da[j] == q;
            assert(a[i] == p);
            assert(a[j] == q);
            assert(a.contains(p));
            assert(a.contains(q));
        }
        lemma_sorted_unique(da, db);
    }
}

/// `notes.md` does not depend on the order of the records in the records
/// file, when every record has its own integer id.
pub proof fn law_notes_ignore_record_order(
    name: Seq<char>,
    today: Seq<char>,
    s: Seq<Node>,
    p: Seq<Node>,
)
    requires
        integer_ids_distinct(s),
        p.to_multiset() == s.to_multiset(),
    ensures
        notes_md(name, today, p) == notes_md(name, today, s),
{
    assert forall|x: Node| p.contains(x) <==> s.contains(x) by {
        assert(p.contains(x) <==> p.to_multiset().count(x) > 0);
        assert(s.contains(x) <==> s.to_multiset().count(x) > 0);
    }
    assert forall|i: int| 0 <= i < s.len() implies !missing_id(#[trigger] s[i]) by {
        assert(s[i].int_at("id"@) is Some);
    }
    assert forall|j: int| 0 <= j < p.len() implies !missing_id(#[trigger] p[j]) by {
        assert(p.contains(p[j]));
        let i = choose|i: int| 0 <= i < s.len() && s[i] == p[j];
        assert(!missing_id(s[i]));
    }
    if has_section(s) {
        let i = choose|i: int| 0 <= i < s.len() && crate::markdown::is_section(#[trigger] s[i]);
        assert(s.contains(s[i]));
        let j = choose|j: int| 0 <= j < p.len() && p[j] == s[i];
        assert(crate::markdown::is_section(p[j]));
    }
    if has_section(p) {
        let j = choose|j: int| 0 <= j < p.len() && crate::markdown::is_section(#[trigger] p[j]);
        assert(p.contains(p[j]));
        let i = choose|i: int| 0 <= i < s.len() && s[i] == p[j];
        assert(crate::markdown::is_section(s[i]));
    }
    crate::laws::law_records_ordered_by_id(s);
    crate::laws::law_records_ordered_by_id(p);
    let a = sort_by_id(s);
    let b = sort_by_id(p);
    assert forall|x: Node, y: Node|
        a.contains(x) && a.contains(y) && sort_key(x) == sort_key(y) implies x == y by {
        assert(a.to_multiset().count(x) > 0);
        assert(a.to_multiset().count(y) > 0);
        assert(s.contains(x));
        assert(s.contains(y));
        let i = choose|i: int| 0 <= i < s.len() && s[i] == x;
        let j = choose|j: int| 0 <= j < s.len() && s[j] == y;
        if i < j {
            assert(s[i].int_at("id"@) != s[j].int_at("id"@));
        } else if j < i {
            assert(s[j].int_at("id"@) != s[i].int_at("id"@));
        }
    }
    lemma_sorted_unique(a, b);
}

} // verus!
