use ui_notes::theme::{
    color_table, config_files, derive_roles, palette_overrides, parse_settings, qt_color,
    setting, terminal_theme, valid_color,
};
use ui_notes::toml_read::palette_colors;
use ui_notes::value::Node;

#[test]
fn ghostty_parser_preserves_hash_colors() {
    let p = parse_settings("background = #05182e\nforeground = #f6dcac\n");
    assert_eq!(setting(&p, "background").unwrap(), "#05182e");
}

#[test]
fn settings_keep_the_last_value_and_skip_lines_without_equals() {
    let p = parse_settings("a = 1\nnot a setting\r\nb=x=y \r\na = 2");
    assert_eq!(setting(&p, "a").unwrap(), "2");
    assert_eq!(setting(&p, "b").unwrap(), "x=y");
    assert_eq!(setting(&p, "c"), None);
    assert_eq!(p.len(), 3);
}

#[test]
fn colors_are_hex_with_three_six_or_eight_digits() {
    for good in ["#abc", "#A1b2C3", "#12345678"] {
        assert!(valid_color(good), "{good}");
    }
    for bad in ["abc", "#ab", "#abcd", "#12345g", "#1234567", " #abc", "#ａbc"] {
        assert!(!valid_color(bad), "{bad}");
    }
}

#[test]
fn qt_color_moves_alpha_first() {
    assert_eq!(qt_color("#12345678"), "#78123456");
    assert_eq!(qt_color("#123456"), "#123456");
    assert_eq!(qt_color("#abécdef"), "#efabécd");
    assert_eq!(qt_color("#aé"), "#aé");
}

#[test]
fn terminal_palette_lines_set_roles() {
    let cfg = "palette = 1=#ff0000\npalette = 4 = #0000ff\npalette = 9=#111111\npalette = 2=bad\nconfig-file = ?~/extra\nconfig-file = /abs\n";
    let roles = palette_overrides(cfg);
    assert_eq!(
        roles,
        vec![
            ("red".to_string(), "#ff0000".to_string()),
            ("blue".to_string(), "#0000ff".to_string()),
            ("accent".to_string(), "#0000ff".to_string()),
        ]
    );
    assert_eq!(config_files(cfg), vec!["~/extra".to_string(), "/abs".to_string()]);
}

#[test]
fn sparse_palettes_fall_back_through_aliases() {
    let table = vec![
        ("background".to_string(), Node::Str("#faf4ed".into())),
        ("foreground".to_string(), Node::Str("#575279".into())),
        ("blue".to_string(), Node::Str(" #286983 ".into())),
        ("cyan".to_string(), Node::Str("not a color".into())),
        ("muted".to_string(), Node::Int(3)),
    ];
    let data = color_table(&table);
    assert_eq!(data.len(), 3);
    let roles = derive_roles(&data);
    let get = |name: &str| roles.iter().find(|(r, _)| r == name).unwrap().1.clone();
    assert_eq!(get("accent").unwrap(), "#286983");
    assert_eq!(get("blue").unwrap(), "#286983");
    assert_eq!(get("green").unwrap(), "#575279");
    assert_eq!(get("muted").unwrap(), "#575279");
    assert_eq!(get("dark_background"), None);
    assert_eq!(get("background").unwrap(), "#faf4ed");
}

fn lookup(pairs: &[(String, String)], key: &str) -> String {
    pairs.iter().rev().find(|(k, _)| k == key).unwrap().1.clone()
}

#[test]
fn terminal_settings_override_the_theme() {
    let base: Vec<(String, String)> = [
        ("background", "#3a332a"),
        ("foreground", "#f5ecd9"),
        ("accent", "#d6a06b"),
        ("blue", "#74accf"),
    ]
    .iter()
    .map(|(k, v)| (k.to_string(), v.to_string()))
    .collect();
    let cfg = "background = #05182e\nforeground = #f6dcac\npalette = 4=#123456\n\
               selection-foreground = nope\ncursor-color = #faa968\nfont-family = Mono\n";
    let t = terminal_theme(&base, cfg).unwrap();
    assert_eq!(lookup(&t.colors, "background"), "#05182e");
    assert_eq!(lookup(&t.colors, "darker_background"), "#05182e");
    assert_eq!(lookup(&t.colors, "foreground"), "#f6dcac");
    assert_eq!(lookup(&t.colors, "accent"), "#123456");
    assert_eq!(lookup(&t.colors, "blue"), "#123456");
    assert_eq!(t.family.as_deref(), Some("Mono"));
    assert_eq!(t.selection_bg, "#123456");
    assert_eq!(t.selection_fg, "#f6dcac");
    assert_eq!(t.cursor, "#faa968");
    assert!(terminal_theme(&base, "background = #05182e\nforeground = white\n").is_none());
    assert!(terminal_theme(&base, "font-family = Mono\n").is_none());
    let plain = terminal_theme(&base, "background=#000\nforeground=#fff\nfont-family=\n").unwrap();
    assert_eq!(plain.family, None);
    assert_eq!(plain.selection_bg, "#d6a06b");
}

#[test]
fn theme_color_files_are_read_as_toml() {
    let colors = palette_colors("background = \" #111111 \"\nforeground = \"#eeeeee\"\nname = \"x\"\nsize = 3\n").unwrap();
    assert_eq!(
        colors,
        vec![
            ("background".to_string(), "#111111".to_string()),
            ("foreground".to_string(), "#eeeeee".to_string()),
        ]
    );
    assert!(palette_colors("background = ").is_none());
}
