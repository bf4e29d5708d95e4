use ui_notes::bindings::defaults;
use ui_notes::shortcuts::{accelerator, ShortcutError};
use ui_notes::toml_read::{parse_keys, KeysError};

fn parse(text: &str) -> Result<Vec<(String, Vec<String>)>, String> {
    parse_keys(text).map_err(|e| e.message())
}

fn keys<'a>(bindings: &'a [(String, Vec<String>)], action: &str) -> &'a [String] {
    &bindings.iter().find(|(a, _)| a == action).unwrap().1
}

#[test]
fn legacy_overrides_and_disabled_actions() {
    let keys_map = parse("[keys]\nsearch = ['<Control>g']\nprojects = []\n").unwrap();
    assert_eq!(keys(&keys_map, "search"), ["Ctrl+G"]);
    assert!(keys(&keys_map, "projects").is_empty());
    assert_eq!(keys(&keys_map, "focus_note"), ["Ctrl+N"]);
    assert_eq!(keys(&keys_map, "save_note"), ["Ctrl+Return", "Ctrl+S"]);
}

#[test]
fn conflicts_and_reserved_keys_are_rejected() {
    assert!(parse("[keys]\nsearch = ['<Control>n']").unwrap_err().contains("duplicate"));
    assert!(parse("[keys]\npreview = ['Alt+Return', '<Alt>KP_Enter']").is_err());
    for key in ["x", "Shift+x", "Ctrl+Escape", "<Hyper>h", ""] {
        assert!(accelerator(key).is_err(), "{key}");
    }
    assert!(parse("[keys]\nsearch = ['Ctrl+N']\nfocus_note = ['Ctrl+F']").is_ok());
}

#[test]
fn accelerator_canonical_spellings() {
    assert_eq!(accelerator("<Control>g").unwrap(), "Ctrl+G");
    assert_eq!(accelerator("shift+ctrl+s").unwrap(), "Ctrl+Shift+S");
    assert_eq!(accelerator("<Super><Alt>page_up").unwrap(), "Alt+Meta+PgUp");
    assert_eq!(accelerator("F5").unwrap(), "F5");
    assert_eq!(accelerator("f35").unwrap(), "F35");
    assert_eq!(accelerator("Shift+Enter").unwrap(), "Shift+Return");
    assert_eq!(accelerator("Primary+KP_Enter").unwrap(), "Ctrl+Return");
    assert_eq!(accelerator("Mod1+,").unwrap(), "Alt+,");
    assert_eq!(accelerator("Ctrl+Shift+Alt+Meta+Delete").unwrap(), "Ctrl+Shift+Alt+Meta+Delete");
}

#[test]
fn accelerator_errors_name_the_fault() {
    assert_eq!(accelerator("<Control").unwrap_err().message(), "unclosed modifier");
    assert_eq!(
        accelerator("<Hyper>h").unwrap_err().message(),
        "unsupported modifier Hyper"
    );
    assert_eq!(accelerator("Ctrl+Control+x").unwrap_err().message(), "duplicate modifier");
    assert_eq!(
        accelerator("Ctrl+Tab").unwrap_err().message(),
        "Escape and Tab are reserved for navigation"
    );
    assert_eq!(accelerator("Ctrl+F36").unwrap_err().message(), "unsupported key F36");
    assert!(matches!(accelerator("x"), Err(ShortcutError::BareKey)));
    assert!(matches!(accelerator("F0"), Err(ShortcutError::UnsupportedKey(_))));
    assert!(matches!(accelerator(""), Err(ShortcutError::UnsupportedKey(_))));
    assert_eq!(
        accelerator("Shift+x").unwrap_err().message(),
        "bare keys are reserved for typing; add a modifier or use a function key"
    );
}

#[test]
fn configuration_errors_in_table_order() {
    assert_eq!(parse("other = 1").unwrap_err(), "unknown setting other");
    assert_eq!(parse("keys = 1").unwrap_err(), "keys must be a table");
    assert_eq!(parse("[keys]\nfly = []").unwrap_err(), "unknown keyboard action fly");
    assert_eq!(parse("[keys]\nsearch = 'Ctrl+F'").unwrap_err(), "bindings must be arrays");
    assert_eq!(parse("[keys]\nsearch = [1]").unwrap_err(), "bindings must contain strings");
    assert_eq!(
        parse("[keys]\nsearch = ['Ctrl+N']").unwrap_err(),
        "duplicate binding Ctrl+N for focus_note and search"
    );
    assert_eq!(
        parse("[keys]\npreview = ['Alt+Return', '<Alt>KP_Enter']").unwrap_err(),
        "duplicate binding Alt+Return for preview and preview"
    );
    assert!(parse("").is_ok());
}

#[test]
fn defaults_are_sorted_and_distinct() {
    let d = defaults();
    assert_eq!(d.len(), 18);
    let names: Vec<&str> = d.iter().map(|(a, _)| a.as_str()).collect();
    let mut sorted = names.clone();
    sorted.sort();
    assert_eq!(names, sorted);
    assert_eq!(parse("").unwrap(), d);
}

#[test]
fn canonical_spellings_read_back_unchanged() {
    for text in ["<Control>g", "shift+ctrl+s", "<Super><Alt>page_up", "f35", "Shift+Enter", "Mod1+,"] {
        let canonical = accelerator(text).unwrap();
        assert_eq!(accelerator(&canonical).unwrap(), canonical, "{text}");
    }
}

#[test]
fn malformed_keyboard_files_name_the_parser_error() {
    let error = parse_keys("[keys\n").unwrap_err();
    assert!(matches!(error, KeysError::Malformed(_)));
    assert!(error.message().starts_with("malformed TOML: "));
    assert!(matches!(parse_keys("other = 1").unwrap_err(), KeysError::Binding(_)));
}

#[test]
fn untouched_actions_keep_their_defaults() {
    let keys = parse("[keys]\nsearch = ['shift+ctrl+g']\n").unwrap();
    let d = defaults();
    for ((action, bound), (default_action, default_keys)) in keys.iter().zip(d.iter()) {
        assert_eq!(action, default_action);
        if action != "search" {
            assert_eq!(bound, default_keys);
        }
        for key in bound {
            assert_eq!(&accelerator(key).unwrap(), key);
        }
    }
    assert_eq!(keys.iter().find(|(a, _)| a == "search").unwrap().1, ["Ctrl+Shift+G"]);
}

#[test]
fn dates_in_binding_arrays_are_not_strings() {
    assert_eq!(
        parse("[keys]\nsearch = [1979-05-27]\n").unwrap_err(),
        "bindings must contain strings"
    );
    assert_eq!(parse("[keys]\nsearch = 1979-05-27\n").unwrap_err(), "bindings must be arrays");
}
