//! Which generated session folders hold nothing worth keeping, decided from
//! listings of the folder and of its `.data` folder.
use vstd::prelude::*;
use crate::text::str_eq;

verus! {

/// What a listed name is, without following links.
#[derive(Clone, Copy, Debug, PartialEq, Eq, Structural)]
pub enum ItemKind {
    File,
    Dir,
    Other,
}

/// One item of a folder listing. `empty` says, for a file, that it has no
/// content, and for a folder, that no file lies anywhere below it.
#[derive(Debug)]
pub struct Item {
    pub name: String,
    pub kind: ItemKind,
    pub empty: bool,
}

/// An item that a session folder may hold and still count as unused.
pub open spec fn top_item_ok(e: Item) -> bool {
    ||| e.name@ == "notes.md"@ && e.kind == ItemKind::File
    ||| e.name@ == ".data"@ && e.kind == ItemKind::Dir
    ||| e.name@ == "assets"@ && e.kind == ItemKind::Dir && e.empty
}

/// An item that a session's `.data` folder may hold and still count as unused.
pub open spec fn data_item_ok(e: Item) -> bool {
    ||| (e.name@ == "entries.jsonl"@ || e.name@ == "draft.txt"@) && e.kind == ItemKind::File
        && e.empty
    ||| e.name@ == "id"@ && e.kind == ItemKind::File
    ||| (e.name@ == "transcripts"@ || e.name@ == "context"@ || e.name@ == "logs"@) && e.kind
        == ItemKind::Dir && e.empty
}

/// The listing holds an item with this name and kind.
pub open spec fn has_item(items: Seq<Item>, name: Seq<char>, kind: ItemKind) -> bool {
    exists|i: int| 0 <= i < items.len() && (#[trigger] items[i]).name@ == name && items[i].kind == kind
}

/// A generated session folder that can be removed when its session stops:
/// only its notes, its data and empty assets; in the data, the identity, an
/// empty record file and draft, and the three work folders without files.
pub open spec fn unused_session(top: Seq<Item>, data: Seq<Item>) -> bool {
    &&& forall|i: int| 0 <= i < top.len() ==> top_item_ok(#[trigger] top[i])
    &&& has_item(top, "notes.md"@, ItemKind::File)
    &&& has_item(top, ".data"@, ItemKind::Dir)
    &&& forall|i: int| 0 <= i < data.len() ==> data_item_ok(#[trigger] data[i])
    &&& has_item(data, "entries.jsonl"@, ItemKind::File)
    &&& has_item(data, "id"@, ItemKind::File)
    &&& has_item(data, "transcripts"@, ItemKind::Dir)
    &&& has_item(data, "context"@, ItemKind::Dir)
    &&& has_item(data, "logs"@, ItemKind::Dir)
}

fn top_ok(e: &Item) -> (r: bool)
    ensures
        r == top_item_ok(*e),
{
    let n = e.name.as_str();
    (str_eq(n, "notes.md") && e.kind == ItemKind::File) || (str_eq(n, ".data") && e.kind
        == ItemKind::Dir) || (str_eq(n, "assets") && e.kind == ItemKind::Dir && e.empty)
}

fn data_ok(e: &Item) -> (r: bool)
    ensures
        r == data_item_ok(*e),
{
    let n = e.name.as_str();
    ((str_eq(n, "entries.jsonl") || str_eq(n, "draft.txt")) && e.kind == ItemKind::File
        && e.empty) || (str_eq(n, "id") && e.kind == ItemKind::File) || ((str_eq(n, "transcripts")
        || str_eq(n, "context") || str_eq(n, "logs")) && e.kind == ItemKind::Dir && e.empty)
}

fn all_top_ok(items: &Vec<Item>) -> (r: bool)
    ensures
        r == forall|i: int| 0 <= i < items@.len() ==> top_item_ok(#[trigger] items@[i]),
{
    let mut i: usize = 0;
    while i < items.len()
        invariant
            i <= items.len(),
            forall|k: int| 0 <= k < i ==> top_item_ok(#[trigger] items@[k]),
        decreases items.len() - i,
    {
        if !top_ok(&items[i]) {
            return false;
        }
        i = i + 1;
    }
    true
}

fn all_data_ok(items: &Vec<Item>) -> (r: bool)
    ensures
        r == forall|i: int| 0 <= i < items@.len() ==> data_item_ok(#[trigger] items@[i]),
{
    let mut i: usize = 0;
    while i < items.len()
        invariant
            i <= items.len(),
            forall|k: int| 0 <= k < i ==> data_item_ok(#[trigger] items@[k]),
        decreases items.len() - i,
    {
        if !data_ok(&items[i]) {
            return false;
        }
        i = i + 1;
    }
    true
}

fn has(items: &Vec<Item>, name: &str, kind: ItemKind) -> (r: bool)
    ensures
        r == has_item(items@, name@, kind),
{
    let mut i: usize = 0;
    while i < items.len()
        invariant
            i <= items.len(),
            forall|k: int| 0 <= k < i ==> !((#[trigger] items@[k]).name@ == name@ && items@[k].kind
                == kind),
        decreases items.len() - i,
    {
        if str_eq(items[i].name.as_str(), name) && items[i].kind == kind {
            return true;
        }
        i = i + 1;
    }
    false
}

/// Whether a generated session folder, listed as `top` with its `.data`
/// folder listed as `data`, holds nothing worth keeping.
pub fn is_unused_session(top: &Vec<Item>, data: &Vec<Item>) -> (r: bool)
    ensures
        r == unused_session(top@, data@),
{
    all_top_ok(top) && has(top, "notes.md", ItemKind::File) && has(top, ".data", ItemKind::Dir)
        && all_data_ok(data) && has(data, "entries.jsonl", ItemKind::File) && has(
        data,
        "id",
        ItemKind::File,
    ) && has(data, "transcripts", ItemKind::Dir) && has(data, "context", ItemKind::Dir) && has(
        data,
        "logs",
        ItemKind::Dir,
    )
}

} // verus!
