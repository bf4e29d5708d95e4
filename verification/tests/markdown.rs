use ui_notes::clock::{today, LocalTime};
use ui_notes::markdown::{is_generated_name, label_date, render_entries, RenderError};
use ui_notes::json_read::read_json;
use ui_notes::value::Node;

fn entries(lines: &[&str]) -> Vec<Node> {
    lines
        .iter()
        .map(|line| read_json(line).unwrap())
        .collect()
}

#[test]
fn render_matches_contract_golden_output() {
    let entries = entries(&[
        r#"{"id":1,"status":"recording","context":{}}"#,
        r#"{"id":2,"kind":"section","title":"Checkout flow"}"#,
        r#"{"id":3,"status":"done","context":{"title":"","summary":"Summary"},"transcript":"first\nsecond"}"#,
        r#"{"id":4,"status":"done","context_status":"error","transcript":""}"#,
        r#"{"id":5,"ai":false,"status":"done","transcript":" plain note \n next "}"#,
        r#"{"id":6,"ai":false,"status":"transcribing"}"#,
        r#"{"id":7,"ai":false,"status":"done","transcript":"","asset":"assets/clip.png"}"#,
    ]);
    assert_eq!(
        render_entries("20260904-120000-checkout", "2099-01-01", &entries).unwrap(),
        "# UI review — checkout · 2026-09-04\n\n### 1. Entry 1\n_analysis pending…_\n\n> _transcribing…_\n\n## Checkout flow\n\n### 3. Entry 3\nSummary\n\n> first\n> second\n\n### 4. Entry 4\n_analysis failed_\n\n> _no transcript_\n\nplain note \n next\n\n_transcribing…_\n\n![Screen capture](assets/clip.png)\n\n_no transcript_\n"
    );
}

#[test]
fn render_uses_filename_and_today_for_non_timestamp_session() {
    let day = today(&LocalTime { year: 2026, month: 9, day: 7, hour: 8, minute: 0, second: 0 });
    assert_eq!(
        render_entries("project-name", &day, &vec![]).unwrap(),
        format!("# UI review — project-name · {}\n", day)
    );
    assert_eq!(day, "2026-09-07");
}

#[test]
fn render_orders_by_id_and_keeps_equal_ids_in_file_order() {
    let entries = entries(&[
        r#"{"id":3,"ai":false,"transcript":"third"}"#,
        r#"{"id":1,"ai":false,"transcript":"first a"}"#,
        r#"{"ai":false,"transcript":"no id"}"#,
        r#"{"id":1,"ai":false,"transcript":"first b"}"#,
        r#"{"id":-2,"ai":false,"transcript":"negative"}"#,
    ]);
    assert_eq!(
        render_entries("notes", "2026-01-02", &entries).unwrap(),
        "# UI review — notes · 2026-01-02\n\nnegative\n\nno id\n\nfirst a\n\nfirst b\n\nthird\n"
    );
}

#[test]
fn render_uses_context_title_and_top_level_headings_without_sections() {
    let entries = entries(&[
        r#"{"id":12,"context":{"title":"Login form","summary":"Two fields"},"transcript":"line\n\nafter"}"#,
        r#"{"id":13,"context_status":"pending","transcript":"   "}"#,
    ]);
    assert_eq!(
        render_entries("x", "d", &entries).unwrap(),
        "# UI review — x · d\n\n## 12. Login form\nTwo fields\n\n> line\n> \n> after\n\n## 13. Entry 13\n_analysis pending…_\n\n> _no transcript_\n"
    );
}

#[test]
fn render_refuses_an_analyzed_note_without_an_id() {
    let entries = entries(&[r#"{"ai":false,"transcript":"ok"}"#, r#"{"status":"done"}"#]);
    let error = render_entries("x", "d", &entries).unwrap_err();
    assert_eq!(error, RenderError::MissingId);
    assert_eq!(error.message(), "entry missing integer id");
    let sections = entries_with_section();
    assert!(render_entries("x", "d", &sections).is_ok());
}

fn entries_with_section() -> Vec<Node> {
    entries(&[r#"{"kind":"section"}"#])
}

#[test]
fn label_and_date_of_folder_names() {
    assert_eq!(
        label_date("20260904-120000-checkout", "today"),
        ("checkout".to_string(), "2026-09-04".to_string())
    );
    assert_eq!(
        label_date("20260904-120000", "today"),
        ("20260904-120000".to_string(), "2026-09-04".to_string())
    );
    assert_eq!(
        label_date("20260904-120000-", "today"),
        ("20260904-120000-".to_string(), "2026-09-04".to_string())
    );
    assert_eq!(
        label_date("20260904-120000x", "today"),
        ("20260904-120000x".to_string(), "today".to_string())
    );
    assert_eq!(
        label_date("2026090a-120000-x", "today"),
        ("2026090a-120000-x".to_string(), "today".to_string())
    );
    assert!(is_generated_name("20260904-120000"));
    assert!(is_generated_name("20260904-120000xyz"));
    assert!(!is_generated_name("2026-09-04"));
}

#[test]
fn record_order_does_not_change_the_notes() {
    let lines = [
        "{\"id\":3,\"ai\":false,\"transcript\":\"c\"}",
        "{\"id\":1,\"kind\":\"section\",\"title\":\"S\"}",
        "{\"id\":2,\"status\":\"done\",\"transcript\":\"b\"}",
    ];
    let forward = render_entries("20260101-000000", "x", &entries(&lines)).unwrap();
    let mut reversed = lines;
    reversed.reverse();
    assert_eq!(render_entries("20260101-000000", "x", &entries(&reversed)).unwrap(), forward);
    assert!(forward.starts_with("# UI review — 20260101-000000 · 2026-01-01\n"));
    assert!(forward.ends_with('\n') && !forward.ends_with("\n\n"));
}
