//! The structured description that screen analysis returns for a note.
use vstd::prelude::*;
use crate::value::{Node, find_field, lookup};

verus! {

pub open spec fn is_str_value(v: Option<Node>) -> bool {
    match v {
        Some(Node::Str(_)) => true,
        _ => false,
    }
}

/// A region: exactly the string fields `name` and `contents`.
pub open spec fn region_ok(r: Node) -> bool {
    match r {
        Node::Object(m) => m@.len() == 2 && is_str_value(lookup(m@, "name"@)) && is_str_value(
            lookup(m@, "contents"@),
        ),
        _ => false,
    }
}

pub open spec fn all_strings(a: Seq<Node>) -> bool {
    forall|i: int| 0 <= i < a.len() ==> (#[trigger] a[i]) is Str
}

pub open spec fn all_regions(a: Seq<Node>) -> bool {
    forall|i: int| 0 <= i < a.len() ==> region_ok(#[trigger] a[i])
}

/// A context: exactly `title` and `summary` strings, `regions` (an array of
/// regions) and `notable` (an array of strings).
pub open spec fn context_ok(v: Node) -> bool {
    match v {
        Node::Object(o) => {
            &&& o@.len() == 4
            &&& is_str_value(lookup(o@, "title"@))
            &&& is_str_value(lookup(o@, "summary"@))
            &&& match lookup(o@, "notable"@) {
                Some(Node::Array(a)) => all_strings(a@),
                _ => false,
            }
            &&& match lookup(o@, "regions"@) {
                Some(Node::Array(a)) => all_regions(a@),
                _ => false,
            }
        },
        _ => false,
    }
}

fn str_field_present(m: &Vec<(String, Node)>, key: &str) -> (r: bool)
    ensures
        r == is_str_value(lookup(m@, key@)),
{
    match find_field(m, key) {
        Some(Node::Str(_)) => true,
        _ => false,
    }
}

/// Whether `v` has the shape of an analysis result.
pub fn valid_context(v: &Node) -> (r: bool)
    ensures
        r == context_ok(*v),
{
    let o = match v {
        Node::Object(o) => o,
        _ => return false,
    };
    if o.len() != 4 || !str_field_present(o, "title") || !str_field_present(o, "summary") {
        return false;
    }
    let notable_ok = match find_field(o, "notable") {
        Some(Node::Array(a)) => {
            let mut i: usize = 0;
            let mut ok = true;
            while i < a.len()
                invariant
                    i <= a.len(),
                    ok == forall|k: int| 0 <= k < i ==> (#[trigger] a@[k]) is Str,
                decreases a.len() - i,
            {
                match &a[i] {
                    Node::Str(_) => {},
                    _ => {
                        ok = false;
                    },
                }
                i = i + 1;
            }
            ok
        },
        _ => false,
    };
    if !notable_ok {
        return false;
    }
    match find_field(o, "regions") {
        Some(Node::Array(a)) => {
            let mut i: usize = 0;
            let mut ok = true;
            while i < a.len()
                invariant
                    i <= a.len(),
                    ok == forall|k: int| 0 <= k < i ==> region_ok(#[trigger] a@[k]),
                decreases a.len() - i,
            {
                let good = match &a[i] {
                    Node::Object(m) => m.len() == 2 && str_field_present(m, "name")
                        && str_field_present(m, "contents"),
                    _ => false,
                };
                ok = ok && good;
                i = i + 1;
            }
            ok
        },
        _ => false,
    }
}

} // verus!
