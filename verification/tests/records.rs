use ui_notes::mutation::{mutate_entries, MutateError};
use ui_notes::records::{
    entries_have_valid_ids, has_busy_entry, latest_recording, move_entry_to_end, new_section,
    next_entry_id, remove_entry, rewrite_entry, RecordError,
};
use ui_notes::value::{set_field, Node};

fn obj(fields: Vec<(&str, Node)>) -> Node {
    Node::Object(fields.into_iter().map(|(k, v)| (k.to_string(), v)).collect())
}

fn s(text: &str) -> Node {
    Node::Str(text.to_string())
}

fn id_of(v: &Node) -> Option<i64> {
    v.get_i64("id")
}

fn ids(entries: &[Node]) -> Vec<Option<i64>> {
    entries.iter().map(id_of).collect()
}

fn request(fields: Vec<(&str, Node)>) -> Node {
    obj(fields)
}

fn sample() -> Vec<Node> {
    vec![
        obj(vec![("id", Node::Int(1)), ("kind", s("section")), ("title", s("Initial"))]),
        obj(vec![("id", Node::Int(2)), ("status", s("recording")), ("transcript", s("Live"))]),
        obj(vec![("id", Node::Int(3)), ("status", s("done")), ("transcript", s("Keep"))]),
        obj(vec![("id", Node::Int(4)), ("status", s("done")), ("context_status", s("pending"))]),
    ]
}

#[test]
fn next_id_follows_the_largest_id() {
    assert_eq!(next_entry_id(&vec![]), Ok(1));
    assert_eq!(next_entry_id(&sample()), Ok(5));
    let negative = vec![obj(vec![("id", Node::Int(-5))]), obj(vec![("id", s("7"))])];
    assert_eq!(next_entry_id(&negative), Ok(-4));
    let full = vec![obj(vec![("id", Node::Int(i64::MAX))])];
    assert_eq!(next_entry_id(&full), Err(RecordError::IdsExhausted));
}

#[test]
fn note_appends_a_plain_record_with_a_fresh_id() {
    let mut entries = sample();
    let req = request(vec![("text", s("third"))]);
    mutate_entries("note", &req, &mut entries, "2026-09-07T12:00:01").unwrap();
    assert_eq!(entries.len(), 5);
    let last = entries.last().unwrap();
    assert_eq!(last.get_i64("id"), Some(5));
    assert_eq!(last.get_str("ts").unwrap(), "2026-09-07T12:00:01");
    assert_eq!(last.get_bool("ai"), Some(false));
    assert_eq!(last.get_str("status").unwrap(), "done");
    assert_eq!(last.get_str("transcript").unwrap(), "third");
    assert!(entries_have_valid_ids(&entries));
}

#[test]
fn note_refusals_leave_records_unchanged() {
    let mut entries = sample();
    let missing = mutate_entries("note", &request(vec![]), &mut entries, "t").unwrap_err();
    assert_eq!(missing.message(), "missing string text");
    let empty = mutate_entries("note", &request(vec![("text", s(" \n "))]), &mut entries, "t")
        .unwrap_err();
    assert_eq!(empty.message(), "note is empty");
    assert_eq!(ids(&entries), ids(&sample()));
    let mut full = vec![obj(vec![("id", Node::Int(i64::MAX))])];
    let exhausted = mutate_entries("note", &request(vec![("text", s("x"))]), &mut full, "t");
    assert!(matches!(exhausted, Err(MutateError::IdsExhausted)));
}

#[test]
fn edit_changes_transcript_or_section_title() {
    let mut entries = sample();
    let req = request(vec![("entryId", Node::Int(3)), ("text", s("edited note"))]);
    mutate_entries("edit", &req, &mut entries, "t").unwrap();
    assert_eq!(entries[2].get_str("transcript").unwrap(), "edited note");
    assert_eq!(entries[2].get_str("status").unwrap(), "done");
    let req = request(vec![("entryId", Node::Int(1)), ("text", s("Renamed"))]);
    mutate_entries("edit", &req, &mut entries, "t").unwrap();
    assert_eq!(entries[0].get_str("title").unwrap(), "Renamed");
    assert!(entries[0].get("transcript").is_none());
    assert_eq!(ids(&entries), ids(&sample()));
}

#[test]
fn edit_refusals_name_the_reason() {
    let mut entries = sample();
    let busy = request(vec![("entryId", Node::Int(2)), ("text", s("x"))]);
    assert_eq!(
        mutate_entries("edit", &busy, &mut entries, "t").unwrap_err().message(),
        "finish transcription before editing this entry"
    );
    let gone = request(vec![("entryId", Node::Int(99)), ("text", s("x"))]);
    assert_eq!(
        mutate_entries("edit", &gone, &mut entries, "t").unwrap_err().message(),
        "entry disappeared"
    );
    let zero = request(vec![("entryId", Node::Int(0)), ("text", s("x"))]);
    assert_eq!(
        mutate_entries("edit", &zero, &mut entries, "t").unwrap_err().message(),
        "missing positive integer entryId"
    );
    let no_text = request(vec![("entryId", Node::Int(3))]);
    assert_eq!(
        mutate_entries("edit", &no_text, &mut entries, "t").unwrap_err().message(),
        "missing string text"
    );
    assert_eq!(
        mutate_entries("bogus", &busy, &mut entries, "t").unwrap_err().message(),
        "unknown command"
    );
}

#[test]
fn delete_note_persists_and_rejects_sections_and_active_work() {
    let mut entries = sample();
    let del = |id: i64| request(vec![("entryId", Node::Int(id))]);
    assert_eq!(
        mutate_entries("delete-note", &del(1), &mut entries, "t").unwrap_err().message(),
        "section headings must be deleted with delete-section"
    );
    assert_eq!(
        mutate_entries("delete-note", &del(2), &mut entries, "t").unwrap_err().message(),
        "finish transcription before deleting this entry"
    );
    assert_eq!(
        mutate_entries("delete-note", &del(4), &mut entries, "t").unwrap_err().message(),
        "finish analysis before deleting this entry"
    );
    mutate_entries("delete-note", &del(3), &mut entries, "t").unwrap();
    assert_eq!(ids(&entries), vec![Some(1), Some(2), Some(4)]);
}

#[test]
fn delete_section_keeps_its_notes() {
    let mut entries = sample();
    let del = |id: i64| request(vec![("entryId", Node::Int(id))]);
    assert_eq!(
        mutate_entries("delete-section", &del(3), &mut entries, "t").unwrap_err().message(),
        "only section headings can be deleted"
    );
    mutate_entries("delete-section", &del(1), &mut entries, "t").unwrap();
    assert_eq!(ids(&entries), vec![Some(2), Some(3), Some(4)]);
}

#[test]
fn rewrite_keeps_one_record_per_id() {
    let mut entries = vec![
        obj(vec![("id", Node::Int(1)), ("transcript", s("a"))]),
        obj(vec![("id", Node::Int(2)), ("transcript", s("b"))]),
        obj(vec![("id", Node::Int(1)), ("transcript", s("c"))]),
        obj(vec![("id", Node::Int(3)), ("transcript", s("d"))]),
    ];
    rewrite_entry(&mut entries, 1, obj(vec![("id", Node::Int(1)), ("transcript", s("new"))]));
    assert_eq!(ids(&entries), vec![Some(1), Some(2), Some(3)]);
    assert_eq!(entries[0].get_str("transcript").unwrap(), "new");
    rewrite_entry(&mut entries, 9, obj(vec![("id", Node::Int(9))]));
    assert_eq!(ids(&entries), vec![Some(1), Some(2), Some(3), Some(9)]);
}

#[test]
fn updated_record_moves_to_the_end() {
    let mut entries = sample();
    let changed = obj(vec![("id", Node::Int(2)), ("status", s("transcribing"))]);
    move_entry_to_end(&mut entries, 2, changed).unwrap();
    assert_eq!(ids(&entries), vec![Some(1), Some(3), Some(4), Some(2)]);
    assert_eq!(
        move_entry_to_end(&mut entries, 8, Node::Null),
        Err(RecordError::NotFound(8))
    );
    remove_entry(&mut entries, 3);
    assert_eq!(ids(&entries), vec![Some(1), Some(4), Some(2)]);
}

#[test]
fn recording_state_queries() {
    let entries = sample();
    assert!(has_busy_entry(&entries));
    assert_eq!(latest_recording(&entries), Some(2));
    let mut more = sample();
    more.push(obj(vec![("id", Node::Int(7)), ("status", s("recording"))]));
    more.push(obj(vec![("id", Node::Int(9)), ("kind", Node::Null), ("status", s("recording"))]));
    assert_eq!(latest_recording(&more), Some(7));
    assert!(!has_busy_entry(&vec![obj(vec![("status", s("done"))])]));
    assert!(entries_have_valid_ids(&entries));
    assert!(!entries_have_valid_ids(&vec![obj(vec![("id", Node::Int(0))])]));
    assert!(!entries_have_valid_ids(&vec![Node::Int(1)]));
}

#[test]
fn new_sections_count_existing_sections() {
    let (id, section) = new_section(&sample(), None, "ts").unwrap();
    assert_eq!(id, 5);
    assert_eq!(section.get_str("title").unwrap(), "Section 2");
    assert_eq!(section.get_str("kind").unwrap(), "section");
    let (_, named) = new_section(&vec![], Some("Checkout"), "ts").unwrap();
    assert_eq!(named.get_str("title").unwrap(), "Checkout");
    assert_eq!(named.get_i64("id"), Some(1));
}

#[test]
fn edits_keep_ids_unique() {
    let mut entries = sample();
    let req = request(vec![("text", s("n"))]);
    mutate_entries("note", &req, &mut entries, "t").unwrap();
    let got = ids(&entries);
    let mut unique = got.clone();
    unique.dedup();
    assert_eq!(got, unique);
}

#[test]
fn setting_a_field_of_null_makes_an_object() {
    let mut v = Node::Null;
    set_field(&mut v, "status", s("done"));
    match &v {
        Node::Object(f) => {
            assert_eq!(f.len(), 1);
            assert_eq!(f[0].0, "status");
            assert!(matches!(&f[0].1, Node::Str(t) if t == "done"));
        }
        other => panic!("{other:?}"),
    }
    set_field(&mut v, "status", s("again"));
    assert!(matches!(&v, Node::Object(f) if f.len() == 1 && matches!(&f[0].1, Node::Str(t) if t == "again")));
}
