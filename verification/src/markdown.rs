//! `notes.md`: the Markdown that is generated from the note records.
use vstd::prelude::*;
use crate::text::{
    all_digits, chars_of, digits_in, push_chars, push_replaced, push_signed, push_str,
    replace_char, signed_decimal, slice_chars, string_of, trim, trim_chars,
};
use crate::value::{Node, find_field, lookup};

verus! {

/// Why `notes.md` cannot be generated.
#[derive(Debug, PartialEq, Eq, Structural)]
pub enum RenderError {
    /// A note that is not plain has no integer `id`.
    MissingId,
}

impl RenderError {
    pub fn message(&self) -> (r: String)
        ensures
            r@ == "entry missing integer id"@,
    {
        String::from_str("entry missing integer id")
    }
}

pub open spec fn is_section(e: Node) -> bool {
    e.str_at("kind"@) == Some("section"@)
}

/// The id by which records are ordered; 0 when there is none.
pub open spec fn sort_key(e: Node) -> int {
    match e.int_at("id"@) {
        Some(n) => n as int,
        None => 0,
    }
}

/// Inserts `x` after every element whose key is at most its own.
pub open spec fn insert_by_id(x: Node, s: Seq<Node>) -> Seq<Node>
    decreases s.len(),
{
    if s.len() == 0 {
        seq![x]
    } else if sort_key(s.last()) <= sort_key(x) {
        s.push(x)
    } else {
        insert_by_id(x, s.drop_last()).push(s.last())
    }
}

/// The records ordered by id; records with equal ids keep their order.
pub open spec fn sort_by_id(s: Seq<Node>) -> Seq<Node>
    decreases s.len(),
{
    if s.len() == 0 {
        s
    } else {
        insert_by_id(s.last(), sort_by_id(s.drop_last()))
    }
}

pub open spec fn has_section(s: Seq<Node>) -> bool {
    exists|i: int| 0 <= i < s.len() && is_section(#[trigger] s[i])
}

pub open spec fn is_busy_status(status: Option<Seq<char>>) -> bool {
    status == Some("recording"@) || status == Some("transcribing"@)
}

pub open spec fn is_plain(e: Node) -> bool {
    e.bool_at("ai"@) == Some(false)
}

/// A record that is rendered with a numbered heading, which needs its id.
pub open spec fn missing_id(e: Node) -> bool {
    !is_section(e) && !is_plain(e) && e.int_at("id"@) is None
}

/// The spoken or typed text of a note, or a placeholder.
pub open spec fn comment_md(e: Node) -> Seq<char> {
    let t = trim(
        match e.str_at("transcript"@) {
            Some(t) => t,
            None => seq![],
        },
    );
    if t.len() > 0 {
        t
    } else if is_busy_status(e.str_at("status"@)) {
        "_transcribing…_"@
    } else {
        "_no transcript_"@
    }
}

pub open spec fn image_md(e: Node) -> Seq<char> {
    match e.str_at("asset"@) {
        Some(a) => if a.len() > 0 {
            "![Screen capture]("@ + a + ")\n\n"@
        } else {
            seq![]
        },
        None => seq![],
    }
}

/// The fields of a nonempty `context` object.
pub open spec fn context_of(e: Node) -> Option<Seq<(String, Node)>> {
    match e.field("context"@) {
        Some(Node::Object(f)) => if f@.len() > 0 {
            Some(f@)
        } else {
            None
        },
        _ => None,
    }
}

pub open spec fn heading_title(e: Node) -> Seq<char> {
    let fallback = "Entry "@ + signed_decimal(sort_key(e));
    match context_of(e) {
        Some(f) => match lookup(f, "title"@) {
            Some(Node::Str(t)) => if t@.len() > 0 {
                t@
            } else {
                fallback
            },
            _ => fallback,
        },
        None => fallback,
    }
}

pub open spec fn analysis_md(e: Node) -> Seq<char> {
    let summary = match context_of(e) {
        Some(f) => match lookup(f, "summary"@) {
            Some(Node::Str(s)) => Some(s@),
            _ => None,
        },
        None => None,
    };
    match summary {
        Some(s) => s,
        None => if e.str_at("context_status"@) == Some("error"@) {
            "_analysis failed_"@
        } else {
            "_analysis pending…_"@
        },
    }
}

pub open spec fn section_title(e: Node) -> Seq<char> {
    match e.str_at("title"@) {
        Some(t) => t,
        None => seq![],
    }
}

/// The Markdown block of one record.
pub open spec fn entry_md(e: Node, sections: bool) -> Seq<char> {
    if is_section(e) {
        "## "@ + section_title(e) + "\n\n"@
    } else if is_plain(e) {
        image_md(e) + comment_md(e) + "\n\n"@
    } else {
        image_md(e) + (if sections {
            "###"@
        } else {
            "##"@
        }) + " "@ + signed_decimal(sort_key(e)) + ". "@ + heading_title(e) + "\n"@ + analysis_md(
            e,
        ) + "\n\n> "@ + replace_char(comment_md(e), '\n', "\n> "@) + "\n\n"@
    }
}

pub open spec fn body_md(s: Seq<Node>, sections: bool) -> Seq<char>
    decreases s.len(),
{
    if s.len() == 0 {
        seq![]
    } else {
        body_md(s.drop_last(), sections) + entry_md(s.last(), sections)
    }
}

/// `s` with its final run of blank lines cut down to one line end.
pub open spec fn strip_blank_tail(s: Seq<char>) -> Seq<char>
    decreases s.len(),
{
    if s.len() >= 2 && s.last() == '\n' && s[s.len() - 2] == '\n' {
        strip_blank_tail(s.drop_last())
    } else {
        s
    }
}

/// A folder name made by `start`: `YYYYMMDD-HHMMSS`, alone or followed by `-`.
pub open spec fn is_stamped(n: Seq<char>) -> bool {
    &&& n.len() >= 15
    &&& n[8] == '-'
    &&& all_digits(n.take(8))
    &&& all_digits(n.subrange(9, 15))
    &&& (n.len() == 15 || n[15] == '-')
}

/// The heading label of a project folder name.
pub open spec fn label_of(n: Seq<char>) -> Seq<char> {
    if is_stamped(n) && n.len() > 16 {
        n.skip(16)
    } else {
        n
    }
}

/// The heading date: the folder's stamp, or `today`.
pub open spec fn date_of(n: Seq<char>, today: Seq<char>) -> Seq<char> {
    if is_stamped(n) {
        n.take(4) + seq!['-'] + n.subrange(4, 6) + seq!['-'] + n.subrange(6, 8)
    } else {
        today
    }
}

/// The whole of `notes.md` for a project folder named `name`.
pub open spec fn notes_md(name: Seq<char>, today: Seq<char>, entries: Seq<Node>) -> Result<
    Seq<char>,
    (),
> {
    if exists|i: int| 0 <= i < entries.len() && missing_id(#[trigger] entries[i]) {
        Err(())
    } else {
        Ok(
            strip_blank_tail(
                "# UI review — "@ + label_of(name) + " · "@ + date_of(name, today) + "\n\n"@
                    + body_md(sort_by_id(entries), has_section(entries)),
            ),
        )
    }
}

/// Splits a project folder name into the heading label and date.
pub fn label_date(name: &str, today: &str) -> (r: (String, String))
    ensures
        r.0@ == label_of(name@),
        r.1@ == date_of(name@, today@),
{
    let n = chars_of(name);
    let stamped = n.len() >= 15 && n[8] == '-' && digits_in(&n, 0, 8) && digits_in(&n, 9, 15) && (
    n.len() == 15 || n[15] == '-');
    proof {
        if n.len() >= 15 {
            assert(n@.take(8) =~= n@.subrange(0, 8));
        }
    }
    if stamped {
        let label = if n.len() > 16 {
            slice_chars(&n, 16, n.len())
        } else {
            slice_chars(&n, 0, n.len())
        };
        let mut date = slice_chars(&n, 0, 4);
        date.push('-');
        push_chars(&mut date, &slice_chars(&n, 4, 6));
        date.push('-');
        push_chars(&mut date, &slice_chars(&n, 6, 8));
        proof {
            assert(n@.subrange(16, n@.len() as int) =~= n@.skip(16));
            assert(n@.subrange(0, n@.len() as int) =~= n@);
            assert(n@.subrange(0, 4) =~= n@.take(4));
            assert(date@ =~= date_of(name@, today@));
        }
        (string_of(&label), string_of(&date))
    } else {
        (String::from_str(name), String::from_str(today))
    }
}

/// Whether `name` is a folder name made by `start`.
pub fn is_generated_name(name: &str) -> (r: bool)
    ensures
        r == (name@.len() >= 15 && name@[8] == '-' && all_digits(name@.take(8)) && all_digits(
            name@.subrange(9, 15),
        )),
{
    let n = chars_of(name);
    proof {
        if n.len() >= 15 {
            assert(n@.take(8) =~= n@.subrange(0, 8));
        }
    }
    n.len() >= 15 && n[8] == '-' && digits_in(&n, 0, 8) && digits_in(&n, 9, 15)
}


/// The id by which a record is ordered.
pub fn entry_key(e: &Node) -> (k: i64)
    ensures
        k as int == sort_key(*e),
{
    match e.get_i64("id") {
        Some(n) => n,
        None => 0,
    }
}

pub open spec fn pick(entries: Seq<Node>, order: Seq<usize>) -> Seq<Node> {
    order.map_values(|k: usize| entries[k as int])
}

proof fn lemma_insert_at(x: Node, s: Seq<Node>, j: int)
    requires
        0 <= j <= s.len(),
        forall|k: int| j <= k < s.len() ==> sort_key(#[trigger] s[k]) > sort_key(x),
        j == 0 || sort_key(s[j - 1]) <= sort_key(x),
    ensures
        insert_by_id(x, s) == s.insert(j, x),
    decreases s.len(),
{
    if s.len() == 0 {
        assert(s.insert(j, x) =~= seq![x]);
    } else if sort_key(s.last()) <= sort_key(x) {
        assert(s.insert(j, x) =~= s.push(x));
    } else {
        lemma_insert_at(x, s.drop_last(), j);
        assert(s.drop_last().insert(j, x).push(s.last()) =~= s.insert(j, x));
    }
}

/// Positions of `entries` in the order of their ids, stable among equal ids.
pub fn order_by_id(entries: &Vec<Node>) -> (order: Vec<usize>)
    ensures
        order.len() == entries.len(),
        forall|k: int| 0 <= k < order.len() ==> order[k] < entries.len(),
        pick(entries@, order@) == sort_by_id(entries@),
{
    let n = entries.len();
    let mut order: Vec<usize> = Vec::new();
    assert(entries@.take(0) =~= Seq::<Node>::empty());
    assert(pick(entries@, order@) =~= Seq::<Node>::empty());
    let mut i: usize = 0;
    while i < n
        invariant
            i <= n == entries.len(),
            order.len() == i,
            forall|k: int| 0 <= k < order.len() ==> order[k] < i,
            pick(entries@, order@) == sort_by_id(entries@.take(i as int)),
        decreases n - i,
    {
        let key = entry_key(&entries[i]);
        let mut j = order.len();
        while j > 0 && entry_key(&entries[order[j - 1]]) > key
            invariant
                j <= order.len() == i < n == entries.len(),
                forall|k: int| 0 <= k < order.len() ==> order[k] < i,
                forall|k: int|
                    j <= k < order.len() ==> sort_key(#[trigger] entries@[order@[k] as int])
                        > key,
            decreases j,
        {
            j = j - 1;
        }
        let ghost before = pick(entries@, order@);
        proof {
            assert forall|k: int| j <= k < before.len() implies sort_key(#[trigger] before[k])
                > sort_key(entries@[i as int]) by {
                assert(before[k] == entries@[order@[k] as int]);
            }
            if j > 0 {
                assert(before[j - 1] == entries@[order@[j - 1] as int]);
            }
            lemma_insert_at(entries@[i as int], before, j as int);
            let t = entries@.take(i + 1);
            assert(t.drop_last() =~= entries@.take(i as int));
            assert(t.last() == entries@[i as int]);
        }
        order.insert(j, i);
        assert(pick(entries@, order@) =~= before.insert(j as int, entries@[i as int]));
        i = i + 1;
    }
    assert(entries@.take(n as int) =~= entries@);
    order
}

/// The spoken or typed text of a note, or its placeholder.
fn comment_of(e: &Node) -> (r: Vec<char>)
    ensures
        r@ == comment_md(*e),
{
    let t = match e.get_str("transcript") {
        Some(s) => chars_of(s.as_str()),
        None => Vec::new(),
    };
    let t = trim_chars(&t);
    if t.len() > 0 {
        t
    } else if e.str_is("status", "recording") || e.str_is("status", "transcribing") {
        chars_of("_transcribing…_")
    } else {
        chars_of("_no transcript_")
    }
}

fn context_fields(e: &Node) -> (r: Option<&Vec<(String, Node)>>)
    ensures
        match r {
            Some(f) => context_of(*e) == Some(f@),
            None => context_of(*e) is None,
        },
{
    match e.get("context") {
        Some(Node::Object(f)) => if f.len() > 0 {
            Some(f)
        } else {
            None
        },
        _ => None,
    }
}

fn push_image(out: &mut Vec<char>, e: &Node)
    ensures
        final(out)@ == old(out)@ + image_md(*e),
{
    match e.get_str("asset") {
        Some(a) => if !a.as_str().is_empty() {
            push_str(out, "![Screen capture](");
            push_str(out, a.as_str());
            push_str(out, ")\n\n");
        } else {
            assert(old(out)@ + image_md(*e) =~= old(out)@);
        },
        None => {
            assert(old(out)@ + image_md(*e) =~= old(out)@);
        },
    }
}

fn push_heading_title(out: &mut Vec<char>, e: &Node, id: i64)
    requires
        sort_key(*e) == id,
    ensures
        final(out)@ == old(out)@ + heading_title(*e),
{
    let titled = match context_fields(e) {
        Some(f) => match find_field(f, "title") {
            Some(Node::Str(t)) => if !t.as_str().is_empty() {
                push_str(out, t.as_str());
                true
            } else {
                false
            },
            _ => false,
        },
        None => false,
    };
    if !titled {
        push_str(out, "Entry ");
        push_signed(out, id);
    }
}

fn push_analysis(out: &mut Vec<char>, e: &Node)
    ensures
        final(out)@ == old(out)@ + analysis_md(*e),
{
    let summarized = match context_fields(e) {
        Some(f) => match find_field(f, "summary") {
            Some(Node::Str(s)) => {
                push_str(out, s.as_str());
                true
            },
            _ => false,
        },
        None => false,
    };
    if !summarized {
        if e.str_is("context_status", "error") {
            push_str(out, "_analysis failed_");
        } else {
            push_str(out, "_analysis pending…_");
        }
    }
}

/// Appends the Markdown block of one record.
fn push_entry(out: &mut Vec<char>, e: &Node, sections: bool)
    requires
        !missing_id(*e),
    ensures
        final(out)@ == old(out)@ + entry_md(*e, sections),
{
    let ghost start = out@;
    if e.str_is("kind", "section") {
        push_str(out, "## ");
        match e.get_str("title") {
            Some(t) => push_str(out, t.as_str()),
            None => {},
        }
        push_str(out, "\n\n");
        assert(out@ =~= start + entry_md(*e, sections));
        return;
    }
    let comment = comment_of(e);
    push_image(out, e);
    let ghost after_image = out@;
    if e.get_bool("ai") == Some(false) {
        push_chars(out, &comment);
        push_str(out, "\n\n");
        assert(out@ =~= start + entry_md(*e, sections));
        return;
    }
    let id = match e.get_i64("id") {
        Some(n) => n,
        None => 0,
    };
    if sections {
        push_str(out, "###");
    } else {
        push_str(out, "##");
    }
    push_str(out, " ");
    push_signed(out, id);
    push_str(out, ". ");
    push_heading_title(out, e, id);
    push_str(out, "\n");
    push_analysis(out, e);
    push_str(out, "\n\n> ");
    push_replaced(out, &comment, '\n', "\n> ");
    push_str(out, "\n\n");
    assert(out@ =~= start + entry_md(*e, sections));
}

/// Cuts the final run of blank lines down to one line end.
fn strip_tail(out: &mut Vec<char>)
    ensures
        final(out)@ == strip_blank_tail(old(out)@),
{
    while out.len() >= 2 && out[out.len() - 1] == '\n' && out[out.len() - 2] == '\n'
        invariant
            strip_blank_tail(out@) == strip_blank_tail(old(out)@),
        decreases out.len(),
    {
        let ghost prev = out@;
        out.pop();
        assert(out@ =~= prev.drop_last());
    }
}

/// Renders `notes.md` for the project folder `name` from its records; `today`
/// stands in the heading when the folder name carries no date.
pub fn render_entries(name: &str, today: &str, entries: &Vec<Node>) -> (r: Result<
    String,
    RenderError,
>)
    ensures
        match r {
            Ok(text) => notes_md(name@, today@, entries@) == Ok::<Seq<char>, ()>(text@),
            Err(_) => notes_md(name@, today@, entries@) is Err,
        },
{
    let n = entries.len();
    let mut sections = false;
    let mut i: usize = 0;
    while i < n
        invariant
            i <= n == entries.len(),
            forall|k: int| 0 <= k < i ==> !missing_id(#[trigger] entries@[k]),
            sections == exists|k: int| 0 <= k < i && is_section(#[trigger] entries@[k]),
        decreases n - i,
    {
        let e = &entries[i];
        let section = e.str_is("kind", "section");
        if !section && e.get_bool("ai") != Some(false) && e.get_i64("id").is_none() {
            return Err(RenderError::MissingId);
        }
        sections = sections || section;
        i = i + 1;
    }
    assert(sections == has_section(entries@));
    let order = order_by_id(entries);
    let ghost sorted = pick(entries@, order@);
    let (label, date) = label_date(name, today);
    let mut out: Vec<char> = Vec::new();
    push_str(&mut out, "# UI review — ");
    push_str(&mut out, label.as_str());
    push_str(&mut out, " · ");
    push_str(&mut out, date.as_str());
    push_str(&mut out, "\n\n");
    let ghost head = out@;
    proof {
        assert forall|k: int| 0 <= k < sorted.len() implies !missing_id(#[trigger] sorted[k]) by {
            assert(sorted[k] == entries@[order@[k] as int]);
        }
    }
    assert(sorted.take(0) =~= Seq::<Node>::empty());
    let mut t: usize = 0;
    while t < n
        invariant
            t <= n == entries.len() == order.len() == sorted.len(),
            sorted == pick(entries@, order@),
            forall|k: int| 0 <= k < order.len() ==> order[k] < entries.len(),
            forall|k: int| 0 <= k < sorted.len() ==> !missing_id(#[trigger] sorted[k]),
            out@ == head + body_md(sorted.take(t as int), sections),
        decreases n - t,
    {
        assert(sorted[t as int] == entries@[order@[t as int] as int]);
        push_entry(&mut out, &entries[order[t]], sections);
        assert(sorted.take(t + 1).drop_last() =~= sorted.take(t as int));
        assert(out@ =~= head + body_md(sorted.take(t + 1), sections));
        t = t + 1;
    }
    assert(sorted.take(n as int) =~= sorted);
    let ghost full = out@;
    strip_tail(&mut out);
    assert(full =~= "# UI review — "@ + label_of(name@) + " · "@ + date_of(name@, today@)
        + "\n\n"@ + body_md(sort_by_id(entries@), has_section(entries@)));
    Ok(string_of(&out))
}

} // verus!
