use std::collections::HashMap;
use ui_notes::session::{
    clean_session_name, pointer_from_text, registry_paths, remember_path, resolve_session,
    identity_token, trim_line_end, unique_paths, valid_project_name, TokenError,
};
use ui_notes::json::{command_request, json_list, registry_text, with_newline};
use ui_notes::value::Node;

fn token_of(tokens: &HashMap<&str, &str>, path: Option<&str>) -> Option<String> {
    path.and_then(|p| tokens.get(p)).map(|t| t.to_string())
}

fn resolve(
    pinned: Option<&str>,
    worker: Option<&str>,
    pointer: Option<&str>,
    tokens: &HashMap<&str, &str>,
) -> Option<String> {
    resolve_session(
        pinned.map(String::from),
        worker.map(String::from),
        pointer.map(String::from),
        token_of(tokens, pinned),
        token_of(tokens, pointer),
    )
}

#[test]
fn session_keeps_matching_pinned_path() {
    let tokens = HashMap::from([("/pinned", " worker \n")]);
    assert_eq!(
        resolve(Some("/pinned"), Some("worker"), Some("/current"), &tokens),
        Some("/pinned".to_string())
    );
}

#[test]
fn session_follows_matching_pointer_after_relocation() {
    let tokens = HashMap::from([("/pinned", "other"), ("/current", " worker\n")]);
    assert_eq!(
        resolve(Some("/pinned"), Some("worker"), Some("/current"), &tokens),
        Some("/current".to_string())
    );
}

#[test]
fn session_rejects_mismatched_or_missing_worker_tokens() {
    let tokens = HashMap::from([("/pinned", "other"), ("/current", "another")]);
    for pinned in ["/pinned", "/missing"] {
        for pointer in ["/current", "/missing"] {
            assert_eq!(resolve(Some(pinned), Some("worker"), Some(pointer), &tokens), None);
        }
    }
}

#[test]
fn session_keeps_pinned_path_without_worker_id() {
    let tokens = HashMap::from([("/current", "other")]);
    for worker_id in [None, Some("")] {
        assert_eq!(
            resolve(Some("/pinned"), worker_id, Some("/current"), &tokens),
            Some("/pinned".to_string())
        );
    }
}

#[test]
fn session_without_pinned_path_uses_pointer() {
    let tokens = HashMap::new();
    assert_eq!(
        resolve(None, Some("worker"), Some("/current"), &tokens),
        Some("/current".to_string())
    );
    assert_eq!(resolve(None, None, None, &tokens), None);
}

#[test]
fn project_name_rejects_nul_and_paths() {
    for name in [
        "",
        " \t",
        ".",
        "..",
        "../escape",
        "nested/project",
        "nested\\project",
        "bad\0name",
        " leading",
        "trailing ",
    ] {
        assert!(!valid_project_name(name), "{name:?}");
    }
    assert!(valid_project_name("My new project"));
}

#[test]
fn session_names_collapse_unusable_characters() {
    assert_eq!(clean_session_name("remember me").unwrap(), "remember-me");
    assert_eq!(clean_session_name("  a  b  ").unwrap(), "a-b");
    assert_eq!(clean_session_name("--x..").unwrap(), "x");
    assert_eq!(clean_session_name("é!x").unwrap(), "x");
    assert_eq!(clean_session_name("v1.2_final").unwrap(), "v1.2_final");
    let error = clean_session_name("?!* ").unwrap_err();
    assert_eq!(error.message(), "session name contains no usable characters");
}

#[test]
fn pointer_text_drops_line_ends_only() {
    assert_eq!(trim_line_end("/a/b\r\n\n"), "/a/b");
    assert_eq!(trim_line_end(" /a \n"), " /a ");
    assert_eq!(pointer_from_text("/proj\n"), Some("/proj".to_string()));
    assert_eq!(pointer_from_text("\n\r\n"), None);
}

#[test]
fn registry_requires_absolute_paths() {
    let good = Node::Array(vec![
        Node::Str("/a".into()),
        Node::Str("/b/c".into()),
    ]);
    assert_eq!(registry_paths(&good).unwrap(), vec!["/a".to_string(), "/b/c".to_string()]);
    let relative = Node::Array(vec![Node::Str("/a".into()), Node::Str("b".into())]);
    let error = registry_paths(&relative).unwrap_err();
    assert_eq!(
        error.message(),
        "projects.json must contain an array of absolute project paths"
    );
    assert!(registry_paths(&Node::Array(vec![Node::Int(1)])).is_err());
    assert!(registry_paths(&Node::Str("/a".into())).is_err());
    assert_eq!(registry_paths(&Node::Array(vec![])).unwrap(), Vec::<String>::new());
}

#[test]
fn remembered_project_moves_to_front_once() {
    let paths = vec!["/b".to_string(), "/a".to_string(), "/c".to_string(), "/a".to_string()];
    assert_eq!(
        remember_path(&paths, &"/a".to_string()),
        vec!["/a".to_string(), "/b".to_string(), "/c".to_string()]
    );
    assert_eq!(remember_path(&vec![], &"/x".to_string()), vec!["/x".to_string()]);
}

#[test]
fn project_list_is_written_as_one_json_line() {
    let paths = vec!["/home/a/notes".to_string(), "/tmp/say \"hi\"".to_string()];
    assert_eq!(
        json_list(&paths),
        "[\"/home/a/notes\",\"/tmp/say \\\"hi\\\"\"]"
    );
    assert_eq!(
        registry_text(&paths),
        "[\"/home/a/notes\",\"/tmp/say \\\"hi\\\"\"]\n"
    );
    assert_eq!(json_list(&vec![]), "[]");
    assert_eq!(with_newline("x"), "x\n");
}

#[test]
fn project_list_keeps_first_occurrences() {
    let v: Vec<String> = ["/a", "/b", "/a", "/c", "/b"].iter().map(|s| s.to_string()).collect();
    assert_eq!(unique_paths(&v), vec!["/a".to_string(), "/b".to_string(), "/c".to_string()]);
    assert_eq!(unique_paths(&vec![]), Vec::<String>::new());
}

#[test]
fn identity_token_is_the_trimmed_text() {
    assert_eq!(identity_token(" abc123\n").unwrap(), "abc123");
    assert_eq!(identity_token(" \n\t").unwrap_err(), TokenError::Missing);
    assert_eq!(TokenError::Missing.message(), "session has no identity token");
}

#[test]
fn cleaned_names_clean_to_themselves() {
    for name in ["  My  Demo!! ", "a/b\\c", "_x_", "..v1.2.."] {
        let once = clean_session_name(name).unwrap();
        assert_eq!(clean_session_name(&once).unwrap(), once);
    }
    for name in ["", "---", ". .", "éé"] {
        assert!(clean_session_name(name).is_err(), "{name:?}");
    }
}

#[test]
fn project_list_json_escapes_control_characters() {
    let paths = vec!["a\nb\u{1}\\\t".to_string(), "é/ok".to_string()];
    assert_eq!(json_list(&paths), "[\"a\\nb\\u0001\\\\\\t\",\"é/ok\"]");
}

#[test]
fn panel_requests_are_one_json_object() {
    assert_eq!(command_request("reload"), "{\"cmd\":\"reload\"}");
    assert_eq!(command_request("a\"b"), "{\"cmd\":\"a\\\"b\"}");
}
