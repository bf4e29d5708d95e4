use ui_notes::clock::{filename_timestamp, timestamp, today, LocalTime};
use ui_notes::command::{parse_command, Command};
use ui_notes::context::valid_context;
use ui_notes::paths::{check_expected, check_pointer, same_path, ExpectError, PointerError};
use ui_notes::folders::{is_unused_session, Item, ItemKind};
use ui_notes::json_read::{extract_context, parse_records, read_json};
use ui_notes::replies::{
    after_clear, is_edit_command, refresh_warning, render_warning, rollback_error, saved_warning,
    AfterClear,
};
use ui_notes::value::Node;
use ui_notes::workflow::{
    analysis_target, AnalyzeError,
    ai_enabled_text, ai_next, capture_region, clip_name, focused_monitor, ingest_step,
    note_has_focus, one_line, padded_id, poll_unchanged, record_lines, session_folder, token_key,
    IngestStep,
};

fn obj(fields: Vec<(&str, Node)>) -> Node {
    Node::Object(fields.into_iter().map(|(k, v)| (k.to_string(), v)).collect())
}

fn s(text: &str) -> Node {
    Node::Str(text.to_string())
}

fn args(list: &[&str]) -> Vec<String> {
    list.iter().map(|a| a.to_string()).collect()
}

#[test]
fn timestamps_pad_every_field() {
    let t = LocalTime { year: 2026, month: 9, day: 4, hour: 7, minute: 5, second: 3 };
    assert_eq!(timestamp(&t), "2026-09-04T07:05:03");
    assert_eq!(filename_timestamp(&t), "20260904-070503");
    assert_eq!(today(&t), "2026-09-04");
    let late = LocalTime { year: 2031, month: 12, day: 31, hour: 23, minute: 59, second: 59 };
    assert_eq!(timestamp(&late), "2031-12-31T23:59:59");
}

#[test]
fn command_line_selects_the_command() {
    assert!(matches!(parse_command(&args(&[])), Command::Open));
    assert!(matches!(parse_command(&args(&["open"])), Command::Open));
    assert!(matches!(parse_command(&args(&[""])), Command::Invalid));
    assert!(matches!(parse_command(&args(&["--help"])), Command::Help));
    assert!(matches!(parse_command(&args(&["start", "x"])), Command::Start(Some(n)) if n == "x"));
    assert!(matches!(
        parse_command(&args(&["create-project", "/p", "name", ""])),
        Command::CreateProject(p, n, c) if p == "/p" && n == "name" && c.is_empty()
    ));
    assert!(matches!(parse_command(&args(&["ai", "toggle"])), Command::Ai(Some(_))));
    assert!(matches!(parse_command(&args(&["ai", "maybe"])), Command::Invalid));
    assert!(matches!(parse_command(&args(&["ptt", "stop"])), Command::PttStop));
    assert!(matches!(parse_command(&args(&["analyze", "12"])), Command::Analyze(12)));
    assert!(matches!(parse_command(&args(&["analyze", "0"])), Command::Invalid));
    assert!(matches!(parse_command(&args(&["ingest", "+3"])), Command::Invalid));
    assert!(matches!(
        parse_command(&args(&["ingest", "9223372036854775808"])),
        Command::Invalid
    ));
    assert!(matches!(parse_command(&args(&["panel", "restyle"])), Command::Panel(_)));
    assert!(matches!(parse_command(&args(&["panel", "explode"])), Command::Invalid));
    assert!(matches!(parse_command(&args(&["bogus"])), Command::Invalid));
}

#[test]
fn analysis_results_must_have_the_schema_shape() {
    let region = obj(vec![("name", s("toolbar")), ("contents", s("buttons"))]);
    let good = obj(vec![
        ("title", s("T")),
        ("summary", s("S")),
        ("regions", Node::Array(vec![region])),
        ("notable", Node::Array(vec![s("n")])),
    ]);
    assert!(valid_context(&good));
    let extra = obj(vec![
        ("title", s("T")),
        ("summary", s("S")),
        ("regions", Node::Array(vec![])),
        ("notable", Node::Array(vec![Node::Int(1)])),
    ]);
    assert!(!valid_context(&extra));
    assert!(!valid_context(&s("x")));
}

#[test]
fn selection_output_gives_positive_dimensions() {
    assert_eq!(
        capture_region("10,20 300x200\n").unwrap(),
        Some(("10,20 300x200".to_string(), 300, 200))
    );
    assert_eq!(capture_region("  \n").unwrap(), None);
    let error = capture_region("1,2 0x4\n").unwrap_err();
    assert_eq!(error.message(), "slurp returned invalid capture dimensions");
    assert!(capture_region("1,2 3x-4").is_err());
    assert!(capture_region("garbage").is_err());
    assert_eq!(capture_region("1,2 +3x4").unwrap(), Some(("1,2 +3x4".to_string(), 3, 4)));
}

#[test]
fn file_names_for_notes_and_clips() {
    assert_eq!(padded_id(1), "001");
    assert_eq!(padded_id(42), "042");
    assert_eq!(padded_id(1234), "1234");
    assert_eq!(padded_id(-4), "-04");
    assert_eq!(clip_name("20260904-120000", 0), "clip-20260904-120000.png");
    assert_eq!(clip_name("20260904-120000", 3), "clip-20260904-120000-3.png");
    assert_eq!(session_folder("20260904-120000", "-remember-me", 0), "20260904-120000-remember-me");
    assert_eq!(session_folder("20260904-120000", "", 2), "20260904-120000-2");
    assert_eq!(token_key(" ab\n"), "6162");
    assert_eq!(token_key("é"), "c3a9");
}

#[test]
fn waiting_for_a_transcript() {
    assert_eq!(ingest_step(true, true, 0, 10), IngestStep::Success);
    assert_eq!(ingest_step(true, false, 0, 10), IngestStep::Wait);
    assert_eq!(ingest_step(false, true, 1500, 3000), IngestStep::IdleWithoutTranscript);
    assert_eq!(ingest_step(false, true, 1499, 5000), IngestStep::Wait);
    assert_eq!(ingest_step(false, false, 0, 120000), IngestStep::Timeout);
    assert_eq!(IngestStep::IdleWithoutTranscript.label(), "idle-without-transcript");
}

#[test]
fn settings_and_panel_replies() {
    assert!(ai_enabled_text(" on\n"));
    assert!(!ai_enabled_text("off"));
    assert!(!ai_enabled_text("On"));
    assert!(ai_next(false, Some("toggle")));
    assert!(!ai_next(true, Some("off")));
    assert!(ai_next(true, None));
    let focus = obj(vec![("active", Node::Bool(true)), ("focus", s("note"))]);
    assert!(note_has_focus(&focus));
    assert!(!note_has_focus(&obj(vec![("focus", s("note"))])));
    let poll = obj(vec![("poll", Node::Bool(true))]);
    assert!(poll_unchanged(&poll, "stamp", "stamp"));
    assert!(!poll_unchanged(&poll, "", ""));
    assert!(!poll_unchanged(&obj(vec![]), "stamp", "stamp"));
    assert_eq!(one_line("A\r\nfont"), "A  font");
}

#[test]
fn monitor_choice_prefers_the_focused_one() {
    let a = || obj(vec![("name", s("A")), ("focused", Node::Bool(false))]);
    let b = obj(vec![("name", s("B")), ("focused", Node::Bool(true))]);
    assert_eq!(focused_monitor(&vec![a(), b]), Some("B".to_string()));
    assert_eq!(focused_monitor(&vec![a()]), Some("A".to_string()));
    assert_eq!(focused_monitor(&vec![]), None);
}

#[test]
fn record_file_lines_skip_blank_lines() {
    assert_eq!(
        record_lines("{\"id\":1}\n\n  \r\n{\"id\":2}\r\n"),
        vec!["{\"id\":1}".to_string(), "{\"id\":2}".to_string()]
    );
    assert!(record_lines("").is_empty());
}

#[test]
fn edits_must_name_the_active_project() {
    let req = obj(vec![("session", s("/p/x/")), ("token", s("abc"))]);
    assert!(check_expected(&req, Some("/p//x"), Ok("abc".into())).is_ok());
    assert!(matches!(
        check_expected(&req, Some("/p/y"), Ok("abc".into())),
        Err(ExpectError::Changed)
    ));
    assert!(matches!(
        check_expected(&req, Some("/p/x"), Ok("stale-token".into())),
        Err(ExpectError::Changed)
    ));
    assert!(matches!(check_expected(&req, None, Ok("abc".into())), Err(ExpectError::Inactive)));
    let err = check_expected(&req, Some("/p/x"), Err("session has no identity token".into()))
        .unwrap_err();
    assert_eq!(err.message(), "session has no identity token");
    let missing = check_expected(&obj(vec![("token", s("abc"))]), Some("/p"), Ok("abc".into()));
    assert_eq!(missing.unwrap_err().message(), "missing string session");
    assert!(same_path("./a/./b", "./a/b/"));
    assert!(!same_path("a/b", "./a/b"));
    assert!(!same_path("/a", "a"));
}

#[test]
fn pointer_changes_respect_the_active_project() {
    assert_eq!(check_pointer("", None, "/p"), Ok(()));
    assert_eq!(check_pointer("/p", None, "/p"), Ok(()));
    assert_eq!(check_pointer("/q", None, "/p"), Err(PointerError::AnotherActive));
    assert_eq!(check_pointer("/q", Some("/q"), "/p"), Ok(()));
    assert_eq!(check_pointer("/q", Some(""), "/p"), Err(PointerError::ActiveChanged));
    assert_eq!(
        PointerError::AnotherActive.message(),
        "another session is active; stop it before opening this project"
    );
}

#[test]
fn backend_warnings_and_edit_commands() {
    for cmd in ["draft", "note", "edit", "delete-section", "delete-note"] {
        assert!(is_edit_command(cmd));
    }
    assert!(!is_edit_command("snapshot"));
    assert!(!is_edit_command("delete"));
    assert_eq!(render_warning("disk full"), "Entries saved but cannot render notes.md: disk full");
    assert_eq!(refresh_warning(None, "gone"), "Saved, but cannot refresh panel: gone");
    assert_eq!(
        refresh_warning(Some("first".into()), "gone"),
        "first; Saved, but cannot refresh panel: gone"
    );
    assert_eq!(rollback_error("a", "b"), "a; cannot roll back saved note: b");
}

fn item(name: &str, kind: ItemKind, empty: bool) -> Item {
    Item { name: name.into(), kind, empty }
}

#[test]
fn only_untouched_generated_sessions_are_unused() {
    let top = vec![
        item("notes.md", ItemKind::File, false),
        item(".data", ItemKind::Dir, false),
        item("assets", ItemKind::Dir, true),
    ];
    let data = vec![
        item("entries.jsonl", ItemKind::File, true),
        item("id", ItemKind::File, false),
        item("draft.txt", ItemKind::File, true),
        item("transcripts", ItemKind::Dir, true),
        item("context", ItemKind::Dir, true),
        item("logs", ItemKind::Dir, true),
    ];
    assert!(is_unused_session(&top, &data));
    let mut with_notes = data.iter().map(|i| item(&i.name, i.kind, i.empty)).collect::<Vec<_>>();
    with_notes[0].empty = false;
    assert!(!is_unused_session(&top, &with_notes));
    let mut extra = top.iter().map(|i| item(&i.name, i.kind, i.empty)).collect::<Vec<_>>();
    extra.push(item("readme.txt", ItemKind::File, true));
    assert!(!is_unused_session(&extra, &data));
    let without_logs = data[..5].iter().map(|i| item(&i.name, i.kind, i.empty)).collect::<Vec<_>>();
    assert!(!is_unused_session(&top, &without_logs));
    let used_assets = vec![
        item("notes.md", ItemKind::File, false),
        item(".data", ItemKind::Dir, false),
        item("assets", ItemKind::Dir, false),
    ];
    assert!(!is_unused_session(&used_assets, &data));
}

#[test]
fn records_file_parses_line_by_line() {
    let records = parse_records("{\"id\":1}\n\n  \n{\"id\":2,\"x\":[1.5,null]}\n").unwrap();
    assert_eq!(records.len(), 2);
    assert_eq!(records[1].get_i64("id"), Some(2));
    assert!(matches!(records[1].get("x"), Some(Node::Array(a)) if matches!(&a[0], Node::Number(t) if t == "1.5")));
    let error = parse_records("{\"id\":1}\nnot json\n{}\n").unwrap_err();
    assert_eq!(error, read_json("not json").unwrap_err());
    assert!(parse_records("").unwrap().is_empty());
}

#[test]
fn analysis_context_is_found_in_tool_output() {
    let ctx = "{\"title\":\"T\",\"summary\":\"S\",\"regions\":[{\"name\":\"a\",\"contents\":\"b\"}],\"notable\":[]}";
    assert!(extract_context(ctx).is_some());
    let noisy = format!("Here it is: {{\"not\": 1}} then {ctx} trailing text");
    let found = extract_context(&noisy).unwrap();
    assert_eq!(found.get_str("title").map(|s| s.as_str()), Some("T"));
    assert!(extract_context("no json here {oops").is_none());
    assert!(extract_context("{\"title\":1}").is_none());
}

#[test]
fn saving_rolls_back_only_a_note_whose_draft_stays() {
    assert!(matches!(
        after_clear("note", Some(Err("disk".into()))),
        AfterClear::RollBack(e) if e == "disk"
    ));
    assert!(matches!(after_clear("note", Some(Ok(()))), AfterClear::Render));
    assert!(matches!(after_clear("edit", None), AfterClear::Render));
    assert_eq!(saved_warning(Ok(())), None);
    assert_eq!(
        saved_warning(Err("bad".into())).as_deref(),
        Some("Entries saved but cannot render notes.md: bad")
    );
}

#[test]
fn only_analyzed_notes_can_be_analyzed() {
    let entries = vec![
        obj(vec![("id", Node::Int(1)), ("kind", s("section"))]),
        obj(vec![("id", Node::Int(2)), ("ai", Node::Bool(false))]),
        obj(vec![("id", Node::Int(3)), ("status", s("recording"))]),
    ];
    assert_eq!(analysis_target(&entries, 1).unwrap_err(), AnalyzeError::Section(1));
    assert_eq!(analysis_target(&entries, 2).unwrap_err().message(), "entry 2 is a plain entry");
    assert_eq!(analysis_target(&entries, 9).unwrap_err().message(), "entry 9 not found");
    assert_eq!(AnalyzeError::Section(1).message(), "entry 1 is a section");
    assert_eq!(analysis_target(&entries, 3).unwrap().get_i64("id"), Some(3));
}
