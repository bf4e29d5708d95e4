//! The edits that the panel asks for: a new typed note, a changed note or
//! section title, and the deletion of a section heading or a note.
use vstd::prelude::*;
use crate::markdown::{is_busy_status, is_section};
use crate::records::{
    RecordError, entry_with_id, find_entry, id_index, lemma_id_index, next_entry_id, next_id,
    position_of, remove_entry, without_id,
};
use crate::text::{chars_of, push_str, str_eq, string_of, trim, trim_chars};
use crate::value::{Node, field_set, set_field};

verus! {

/// Why an edit is refused, as a value of the specification.
pub enum MutateFault {
    MissingString(Seq<char>),
    EmptyNote,
    IdsExhausted,
    MissingEntryId,
    Disappeared,
    BusyEdit,
    NotSection,
    SectionNote,
    BusyDelete,
    AnalysisPending,
    UnknownCommand,
}

/// Why an edit is refused.
#[derive(Debug)]
pub enum MutateError {
    /// The request lacks a string field.
    MissingString(String),
    /// A new note holds only whitespace.
    EmptyNote,
    /// Every id is taken.
    IdsExhausted,
    /// The request lacks a positive integer `entryId`.
    MissingEntryId,
    /// No record has the requested id.
    Disappeared,
    /// The note is still being recorded or transcribed.
    BusyEdit,
    /// `delete-section` named a record that is not a section.
    NotSection,
    /// `delete-note` named a section.
    SectionNote,
    /// The note is still being recorded or transcribed.
    BusyDelete,
    /// The note is still being analyzed.
    AnalysisPending,
    /// The command is not an edit.
    UnknownCommand,
}

impl View for MutateError {
    type V = MutateFault;

    open spec fn view(&self) -> MutateFault {
        match self {
            MutateError::MissingString(n) => MutateFault::MissingString(n@),
            MutateError::EmptyNote => MutateFault::EmptyNote,
            MutateError::IdsExhausted => MutateFault::IdsExhausted,
            MutateError::MissingEntryId => MutateFault::MissingEntryId,
            MutateError::Disappeared => MutateFault::Disappeared,
            MutateError::BusyEdit => MutateFault::BusyEdit,
            MutateError::NotSection => MutateFault::NotSection,
            MutateError::SectionNote => MutateFault::SectionNote,
            MutateError::BusyDelete => MutateFault::BusyDelete,
            MutateError::AnalysisPending => MutateFault::AnalysisPending,
            MutateError::UnknownCommand => MutateFault::UnknownCommand,
        }
    }
}

pub open spec fn mutate_message(f: MutateFault) -> Seq<char> {
    match f {
        MutateFault::MissingString(n) => "missing string "@ + n,
        MutateFault::EmptyNote => "note is empty"@,
        MutateFault::IdsExhausted => "entry ids exhausted"@,
        MutateFault::MissingEntryId => "missing positive integer entryId"@,
        MutateFault::Disappeared => "entry disappeared"@,
        MutateFault::BusyEdit => "finish transcription before editing this entry"@,
        MutateFault::NotSection => "only section headings can be deleted"@,
        MutateFault::SectionNote => "section headings must be deleted with delete-section"@,
        MutateFault::BusyDelete => "finish transcription before deleting this entry"@,
        MutateFault::AnalysisPending => "finish analysis before deleting this entry"@,
        MutateFault::UnknownCommand => "unknown command"@,
    }
}

impl MutateError {
    /// The text that explains the refusal.
    pub fn message(&self) -> (r: String)
        ensures
            r@ == mutate_message(self@),
    {
        let mut out: Vec<char> = Vec::new();
        match self {
            MutateError::MissingString(n) => {
                push_str(&mut out, "missing string ");
                push_str(&mut out, n.as_str());
            },
            MutateError::EmptyNote => push_str(&mut out, "note is empty"),
            MutateError::IdsExhausted => push_str(&mut out, "entry ids exhausted"),
            MutateError::MissingEntryId => push_str(&mut out, "missing positive integer entryId"),
            MutateError::Disappeared => push_str(&mut out, "entry disappeared"),
            MutateError::BusyEdit => push_str(
                &mut out,
                "finish transcription before editing this entry",
            ),
            MutateError::NotSection => push_str(&mut out, "only section headings can be deleted"),
            MutateError::SectionNote => push_str(
                &mut out,
                "section headings must be deleted with delete-section",
            ),
            MutateError::BusyDelete => push_str(
                &mut out,
                "finish transcription before deleting this entry",
            ),
            MutateError::AnalysisPending => push_str(
                &mut out,
                "finish analysis before deleting this entry",
            ),
            MutateError::UnknownCommand => push_str(&mut out, "unknown command"),
        }
        string_of(&out)
    }
}

/// A field named `k` holding the string `v`.
pub open spec fn str_field(f: (String, Node), k: Seq<char>, v: Seq<char>) -> bool {
    f.0@ == k && (match f.1 {
        Node::Str(s) => s@ == v,
        _ => false,
    })
}

/// A field named `k` holding `v`.
pub open spec fn value_field(f: (String, Node), k: Seq<char>, v: Node) -> bool {
    f.0@ == k && f.1 == v
}

/// A typed note: `{"id", "ts", "ai": false, "status": "done", "transcript"}`.
pub open spec fn is_note_record(e: Node, id: i64, ts: Seq<char>, text: Seq<char>) -> bool {
    match e {
        Node::Object(f) => {
            &&& f@.len() == 5
            &&& value_field(f@[0], "id"@, Node::Int(id))
            &&& str_field(f@[1], "ts"@, ts)
            &&& value_field(f@[2], "ai"@, Node::Bool(false))
            &&& str_field(f@[3], "status"@, "done"@)
            &&& str_field(f@[4], "transcript"@, text)
        },
        _ => false,
    }
}

/// The record of a typed note.
pub fn note_record(id: i64, ts: &str, text: &str) -> (r: Node)
    ensures
        is_note_record(r, id, ts@, text@),
{
    let mut f: Vec<(String, Node)> = Vec::new();
    f.push((String::from_str("id"), Node::Int(id)));
    f.push((String::from_str("ts"), Node::Str(String::from_str(ts))));
    f.push((String::from_str("ai"), Node::Bool(false)));
    f.push((String::from_str("status"), Node::Str(String::from_str("done"))));
    f.push((String::from_str("transcript"), Node::Str(String::from_str(text))));
    Node::Object(f)
}

/// The `entryId` of a request, when it is a positive integer.
pub open spec fn request_entry_id(req: Node) -> Option<i64> {
    match req.int_at("entryId"@) {
        Some(n) => if n > 0 {
            Some(n)
        } else {
            None
        },
        None => None,
    }
}

/// Why an edit of records `s` is refused, if it is.
pub open spec fn mutation_fault(cmd: Seq<char>, req: Node, s: Seq<Node>) -> Option<MutateFault> {
    if cmd == "note"@ {
        match req.str_at("text"@) {
            None => Some(MutateFault::MissingString("text"@)),
            Some(t) => if trim(t).len() == 0 {
                Some(MutateFault::EmptyNote)
            } else if next_id(s) is None {
                Some(MutateFault::IdsExhausted)
            } else {
                None
            },
        }
    } else if cmd == "edit"@ {
        match request_entry_id(req) {
            None => Some(MutateFault::MissingEntryId),
            Some(id) => match req.str_at("text"@) {
                None => Some(MutateFault::MissingString("text"@)),
                Some(_) => match entry_with_id(s, id) {
                    None => Some(MutateFault::Disappeared),
                    Some(e) => if is_busy_status(e.str_at("status"@)) {
                        Some(MutateFault::BusyEdit)
                    } else {
                        None
                    },
                },
            },
        }
    } else if cmd == "delete-section"@ {
        match request_entry_id(req) {
            None => Some(MutateFault::MissingEntryId),
            Some(id) => match entry_with_id(s, id) {
                None => Some(MutateFault::Disappeared),
                Some(e) => if !is_section(e) {
                    Some(MutateFault::NotSection)
                } else {
                    None
                },
            },
        }
    } else if cmd == "delete-note"@ {
        match request_entry_id(req) {
            None => Some(MutateFault::MissingEntryId),
            Some(id) => match entry_with_id(s, id) {
                None => Some(MutateFault::Disappeared),
                Some(e) => if is_section(e) {
                    Some(MutateFault::SectionNote)
                } else if is_busy_status(e.str_at("status"@)) {
                    Some(MutateFault::BusyDelete)
                } else if e.str_at("context_status"@) == Some("pending"@) {
                    Some(MutateFault::AnalysisPending)
                } else {
                    None
                },
            },
        }
    } else {
        Some(MutateFault::UnknownCommand)
    }
}

/// What a successful edit made of records `s`.
pub open spec fn mutation_done(
    cmd: Seq<char>,
    req: Node,
    ts: Seq<char>,
    s: Seq<Node>,
    t: Seq<Node>,
) -> bool {
    if cmd == "note"@ {
        &&& t.len() == s.len() + 1
        &&& t.drop_last() == s
        &&& is_note_record(t.last(), next_id(s)->0, ts, req.str_at("text"@)->0)
    } else if cmd == "edit"@ {
        let id = request_entry_id(req)->0;
        let i = id_index(s, id);
        let key = if is_section(s[i]) {
            "title"@
        } else {
            "transcript"@
        };
        &&& t.len() == s.len()
        &&& t == s.update(i, t[i])
        &&& field_set(s[i], t[i], key, req.field("text"@)->0)
    } else {
        t == without_id(s, request_entry_id(req)->0)
    }
}

fn request_text(req: &Node) -> (r: Result<&String, MutateError>)
    ensures
        match r {
            Ok(t) => req.str_at("text"@) == Some(t@) && req.field("text"@) == Some(
                Node::Str(*t),
            ),
            Err(e) => req.str_at("text"@) is None && e@ == MutateFault::MissingString("text"@),
        },
{
    match req.get("text") {
        Some(Node::Str(t)) => Ok(t),
        _ => Err(MutateError::MissingString(String::from_str("text"))),
    }
}

fn entry_id(req: &Node) -> (r: Result<i64, MutateError>)
    ensures
        match r {
            Ok(id) => request_entry_id(*req) == Some(id),
            Err(e) => request_entry_id(*req) is None && e@ == MutateFault::MissingEntryId,
        },
{
    match req.get_i64("entryId") {
        Some(n) => if n > 0 {
            Ok(n)
        } else {
            Err(MutateError::MissingEntryId)
        },
        None => Err(MutateError::MissingEntryId),
    }
}

/// Applies the edit `command` asked by `request` to the records; `ts` is the
/// timestamp of a new note. Nothing changes when the edit is refused.
pub fn mutate_entries(command: &str, request: &Node, entries: &mut Vec<Node>, ts: &str) -> (r:
    Result<(), MutateError>)
    ensures
        match r {
            Ok(_) => mutation_fault(command@, *request, old(entries)@) is None && mutation_done(
                command@,
                *request,
                ts@,
                old(entries)@,
                final(entries)@,
            ),
            Err(e) => mutation_fault(command@, *request, old(entries)@) == Some(e@)
                && final(entries)@ == old(entries)@,
        },
{
    let ghost s = entries@;
    if str_eq(command, "note") {
        let text = request_text(request)?;
        let trimmed = trim_chars(&chars_of(text.as_str()));
        if trimmed.len() == 0 {
            return Err(MutateError::EmptyNote);
        }
        let id = match next_entry_id(entries) {
            Ok(id) => id,
            Err(_) => return Err(MutateError::IdsExhausted),
        };
        entries.push(note_record(id, ts, text.as_str()));
        assert(entries@.drop_last() =~= s);
        Ok(())
    } else if str_eq(command, "edit") {
        let id = entry_id(request)?;
        let text = request_text(request)?;
        let i = position_of(entries, id);
        proof {
            lemma_id_index(s, id);
        }
        if i == entries.len() {
            return Err(MutateError::Disappeared);
        }
        let busy = entries[i].str_is("status", "recording") || entries[i].str_is(
            "status",
            "transcribing",
        );
        if busy {
            return Err(MutateError::BusyEdit);
        }
        let section = entries[i].str_is("kind", "section");
        let mut e = entries.remove(i);
        let ghost old_e = e;
        assert(old_e == s[i as int]);
        assert(e.is_object()) by {
            assert(s[i as int].int_at("id"@) == Some(id));
        }
        if section {
            set_field(&mut e, "title", Node::Str(text.clone()));
        } else {
            set_field(&mut e, "transcript", Node::Str(text.clone()));
        }
        let ghost new_e = e;
        entries.insert(i, e);
        assert(entries@ =~= s.update(i as int, new_e));
        Ok(())
    } else if str_eq(command, "delete-section") {
        let id = entry_id(request)?;
        match find_entry(entries, id) {
            None => return Err(MutateError::Disappeared),
            Some(e) => {
                if !e.str_is("kind", "section") {
                    return Err(MutateError::NotSection);
                }
            },
        }
        remove_entry(entries, id);
        Ok(())
    } else if str_eq(command, "delete-note") {
        let id = entry_id(request)?;
        match find_entry(entries, id) {
            None => return Err(MutateError::Disappeared),
            Some(e) => {
                if e.str_is("kind", "section") {
                    return Err(MutateError::SectionNote);
                }
                if e.str_is("status", "recording") || e.str_is("status", "transcribing") {
                    return Err(MutateError::BusyDelete);
                }
                if e.str_is("context_status", "pending") {
                    return Err(MutateError::AnalysisPending);
                }
            },
        }
        remove_entry(entries, id);
        Ok(())
    } else {
        Err(MutateError::UnknownCommand)
    }
}

} // verus!
