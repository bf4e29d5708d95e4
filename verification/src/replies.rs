//! The commands that the panel backend accepts and the warnings of its replies.
use vstd::prelude::*;
use crate::text::{push_str, str_eq, string_of};

verus! {

/// The commands that change a project's records or draft.
pub open spec fn is_edit_spec(cmd: Seq<char>) -> bool {
    cmd == "draft"@ || cmd == "note"@ || cmd == "edit"@ || cmd == "delete-section"@ || cmd
        == "delete-note"@
}

/// Whether the backend treats `cmd` as an edit.
pub fn is_edit_command(cmd: &str) -> (r: bool)
    ensures
        r == is_edit_spec(cmd@),
{
    str_eq(cmd, "draft") || str_eq(cmd, "note") || str_eq(cmd, "edit") || str_eq(
        cmd,
        "delete-section",
    ) || str_eq(cmd, "delete-note")
}

/// The warning of an edit whose records were saved but whose notes could not be rendered.
pub fn render_warning(error: &str) -> (r: String)
    ensures
        r@ == "Entries saved but cannot render notes.md: "@ + error@,
{
    let mut out: Vec<char> = Vec::new();
    push_str(&mut out, "Entries saved but cannot render notes.md: ");
    push_str(&mut out, error);
    string_of(&out)
}

/// The warning of an edit after which the panel's state could not be read,
/// after any earlier warning.
pub fn refresh_warning(previous: Option<String>, error: &str) -> (r: String)
    ensures
        ({
            let message = "Saved, but cannot refresh panel: "@ + error@;
            r@ == match previous {
                Some(p) => p@ + "; "@ + message,
                None => message,
            }
        }),
{
    let mut out: Vec<char> = Vec::new();
    match &previous {
        Some(p) => {
            push_str(&mut out, p.as_str());
            push_str(&mut out, "; ");
        },
        None => {},
    }
    push_str(&mut out, "Saved, but cannot refresh panel: ");
    push_str(&mut out, error);
    let r = string_of(&out);
    proof {
        let message = "Saved, but cannot refresh panel: "@ + error@;
        match previous {
            Some(p) => assert(r@ =~= p@ + "; "@ + message),
            None => assert(r@ =~= message),
        }
    }
    r
}

/// The error of a typed note that was saved but whose draft could not be
/// cleared, when removing the note again failed too.
pub fn rollback_error(error: &str, rollback: &str) -> (r: String)
    ensures
        r@ == error@ + "; cannot roll back saved note: "@ + rollback@,
{
    let mut out: Vec<char> = Vec::new();
    push_str(&mut out, error);
    push_str(&mut out, "; cannot roll back saved note: ");
    push_str(&mut out, rollback);
    string_of(&out)
}

} // verus!

verus! {

/// What an edit does once its records are saved and, for a typed note, the
/// draft was cleared (`clear` is the outcome of clearing, `None` when the
/// command clears nothing).
#[derive(Debug)]
pub enum AfterClear {
    /// The draft of a saved note could not be cleared: the note is taken out
    /// again, so that a retry does not save it twice, and the edit fails
    /// with this error.
    RollBack(String),
    /// The edit stands; the notes are rendered next.
    Render,
}

/// A note is saved before its draft is cleared, and a failed clear undoes the note.
pub fn after_clear(command: &str, clear: Option<Result<(), String>>) -> (r: AfterClear)
    ensures
        match r {
            AfterClear::RollBack(e) => command@ == "note"@ && clear == Some(
                Err::<(), String>(e),
            ),
            AfterClear::Render => !(command@ == "note"@ && clear matches Some(Err(_))),
        },
{
    if str_eq(command, "note") {
        match clear {
            Some(Err(e)) => AfterClear::RollBack(e),
            _ => AfterClear::Render,
        }
    } else {
        AfterClear::Render
    }
}

/// A saved edit is reported saved whatever the rendering of the notes gave:
/// a failed render only adds a warning.
pub fn saved_warning(render: Result<(), String>) -> (r: Option<String>)
    ensures
        match render {
            Ok(_) => r is None,
            Err(e) => r matches Some(w) && w@ == "Entries saved but cannot render notes.md: "@ + e@,
        },
{
    match render {
        Ok(_) => None,
        Err(e) => Some(render_warning(e.as_str())),
    }
}

} // verus!
