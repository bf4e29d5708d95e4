//! Verified core of a notes panel: note records, their Markdown rendering,
//! keyboard shortcut parsing, session bookkeeping and terminal color rules.
use vstd::prelude::*;

pub mod text;
pub mod value;
pub mod markdown;
pub mod shortcuts;
pub mod bindings;
pub mod records;
pub mod mutation;
pub mod session;
pub mod clock;
pub mod theme;
pub mod context;
pub mod command;
pub mod workflow;
pub mod paths;
pub mod json;
pub mod json_read;
pub mod toml_read;
pub mod replies;
pub mod folders;
pub mod laws;
pub mod laws_notes;
pub mod laws_ops;

verus! {

} // verus!
