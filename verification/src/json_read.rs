//! Reading JSON text with `serde_json` into the library's `Node`: single
//! documents, the records file, and the first document that starts a text.
use vstd::prelude::*;
use crate::context::context_ok;
use crate::text::{chars_of, slice_chars, string_of};
use crate::value::Node;
use crate::workflow::{record_lines, record_lines_spec};

verus! {

/// What `serde_json::from_str` reads from a text: the document as a
/// `Node` (integers that fit in `i64` as `Int`, other numbers by their
/// text, object fields in serde_json's key order), or serde_json's error text.
pub uninterp spec fn json_value(text: Seq<char>) -> Result<Node, Seq<char>>;

/// The first document that serde_json's stream deserializer reads from the
/// start of a text, when it reads one without error; the rest of the text
/// may hold anything.
pub uninterp spec fn json_prefix_value(text: Seq<char>) -> Option<Node>;

/// Copies a parsed serde_json document into a `Node`, variant by variant.
#[verifier::external_body]
fn json_to_value(v: &serde_json::Value) -> Node {
    match v {
        serde_json::Value::Null => Node::Null,
        serde_json::Value::Bool(b) => Node::Bool(*b),
        serde_json::Value::Number(n) => match n.as_i64() {
            Some(i) => Node::Int(i),
            None => Node::Number(n.to_string()),
        },
        serde_json::Value::String(s) => Node::Str(s.clone()),
        serde_json::Value::Array(a) => Node::Array(a.iter().map(json_to_value).collect()),
        serde_json::Value::Object(m) => Node::Object(
            m.iter().map(|(k, v)| (k.clone(), json_to_value(v))).collect(),
        ),
    }
}

/// Calls `serde_json::from_str` for a document. The contract names the
/// result; serde_json's grammar and error texts are not restated.
#[verifier::external_body]
fn parse_json(text: &str) -> (r: Result<Node, String>)
    ensures
        match r {
            Ok(v) => json_value(text@) == Ok::<Node, Seq<char>>(v),
            Err(e) => json_value(text@) == Err::<Node, Seq<char>>(e@),
        },
{
    match serde_json::from_str::<serde_json::Value>(text) {
        Ok(v) => Ok(json_to_value(&v)),
        Err(e) => Err(e.to_string()),
    }
}

/// Calls `serde_json::Deserializer::from_str(text).into_iter().next()` and
/// keeps a document read without error. The contract names the result.
#[verifier::external_body]
fn parse_json_prefix(text: &str) -> (r: Option<Node>)
    ensures
        r == json_prefix_value(text@),
{
    match serde_json::Deserializer::from_str(text).into_iter::<serde_json::Value>().next() {
        Some(Ok(v)) => Some(json_to_value(&v)),
        _ => None,
    }
}

/// A JSON document, or the parser's error text.
pub fn read_json(text: &str) -> (r: Result<Node, String>)
    ensures
        match r {
            Ok(v) => json_value(text@) == Ok::<Node, Seq<char>>(v),
            Err(e) => json_value(text@) == Err::<Node, Seq<char>>(e@),
        },
{
    parse_json(text)
}

/// The records of the record lines, in order, or the error of the first
/// line that is not a JSON document.
pub open spec fn records_of(ls: Seq<Seq<char>>) -> Result<Seq<Node>, Seq<char>>
    decreases ls.len(),
{
    if ls.len() == 0 {
        Ok(seq![])
    } else {
        match records_of(ls.drop_last()) {
            Err(e) => Err(e),
            Ok(prev) => match json_value(ls.last()) {
                Ok(v) => Ok(prev.push(v)),
                Err(e) => Err(e),
            },
        }
    }
}

/// Once a line fails, the records of longer prefixes fail with its error.
proof fn lemma_records_err(ls: Seq<Seq<char>>, i: int)
    requires
        0 <= i <= ls.len(),
        records_of(ls.take(i)) is Err,
    ensures
        records_of(ls) == records_of(ls.take(i)),
    decreases ls.len() - i,
{
    if i < ls.len() {
        assert(ls.take(i + 1).drop_last() =~= ls.take(i));
        lemma_records_err(ls, i + 1);
    } else {
        assert(ls.take(i) =~= ls);
    }
}

/// The records of a records file: one JSON document per non-blank line.
pub fn parse_records(text: &str) -> (r: Result<Vec<Node>, String>)
    ensures
        match r {
            Ok(v) => records_of(record_lines_spec(crate::text::lines(text@))) == Ok::<
                Seq<Node>,
                Seq<char>,
            >(v@),
            Err(e) => records_of(record_lines_spec(crate::text::lines(text@))) == Err::<
                Seq<Node>,
                Seq<char>,
            >(e@),
        },
{
    let ls = record_lines(text);
    let ghost lv = ls@.map_values(|s: String| s@);
    let mut out: Vec<Node> = Vec::new();
    let mut i: usize = 0;
    assert(lv.take(0) =~= Seq::<Seq<char>>::empty());
    while i < ls.len()
        invariant
            i <= ls.len(),
            lv == ls@.map_values(|s: String| s@),
            lv == record_lines_spec(crate::text::lines(text@)),
            records_of(lv.take(i as int)) == Ok::<Seq<Node>, Seq<char>>(out@),
        decreases ls.len() - i,
    {
        assert(lv.take(i + 1).drop_last() =~= lv.take(i as int));
        assert(lv.take(i + 1).last() == ls@[i as int]@);
        match parse_json(ls[i].as_str()) {
            Ok(v) => out.push(v),
            Err(e) => {
                proof {
                    assert(records_of(lv.take(i + 1)) == Err::<Seq<Node>, Seq<char>>(e@));
                    lemma_records_err(lv, i + 1);
                }
                return Err(e);
            },
        }
        i = i + 1;
    }
    assert(lv.take(i as int) =~= lv);
    Ok(out)
}

/// A document that is a valid analysis context.
pub open spec fn is_context(o: Option<Node>) -> bool {
    match o {
        Some(v) => context_ok(v),
        None => false,
    }
}

/// The first valid analysis context that starts at a `{` at or after `k`.
pub open spec fn context_scan(s: Seq<char>, k: int) -> Option<Node>
    decreases s.len() - k,
{
    if k < 0 || k >= s.len() {
        None
    } else if s[k] == '{' && is_context(json_prefix_value(s.skip(k))) {
        json_prefix_value(s.skip(k))
    } else {
        context_scan(s, k + 1)
    }
}

/// The analysis context in the analysis tool's output: the whole output when
/// it is a valid context, else the first valid context that starts at a `{`.
pub open spec fn context_in(s: Seq<char>) -> Option<Node> {
    match json_value(s) {
        Ok(v) => if context_ok(v) {
            Some(v)
        } else {
            context_scan(s, 0)
        },
        Err(_) => context_scan(s, 0),
    }
}

/// Finds the analysis context in the analysis tool's output.
pub fn extract_context(s: &str) -> (r: Option<Node>)
    ensures
        r == context_in(s@),
{
    match parse_json(s) {
        Ok(v) => if crate::context::valid_context(&v) {
            return Some(v);
        },
        Err(_) => {},
    }
    let c = chars_of(s);
    let mut k: usize = 0;
    while k < c.len()
        invariant
            k <= c.len(),
            c@ == s@,
            context_scan(s@, 0) == context_scan(s@, k as int),
            context_in(s@) == context_scan(s@, 0),
        decreases c.len() - k,
    {
        if c[k] == '{' {
            let rest = string_of(&slice_chars(&c, k, c.len()));
            assert(rest@ =~= s@.skip(k as int));
            match parse_json_prefix(rest.as_str()) {
                Some(v) => if crate::context::valid_context(&v) {
                    assert(context_scan(s@, k as int) == Some(v));
                    return Some(v);
                },
                None => {},
            }
        }
        k = k + 1;
    }
    None
}

} // verus!
