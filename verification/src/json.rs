//! JSON text for lists of strings, written by `serde_json`.
use vstd::prelude::*;

verus! {

#[verifier::external_type_specification]
#[verifier::external_body]
pub struct ExJsonDocument(serde_json::Value);

/// A hexadecimal digit, lowercase.
pub open spec fn hex_digit_char(n: int) -> char {
    if n < 10 {
        (48 + n) as char
    } else {
        (87 + n) as char
    }
}

/// How serde_json writes one character inside a string literal: `"` and `\`
/// and the control characters below U+0020 are escaped (`\b`, `\t`, `\n`,
/// `\f`, `\r`, else `\u00XX` in lowercase hex); every other character is
/// written as it is.
pub open spec fn json_escape_char(c: char) -> Seq<char> {
    if c == '"' {
        seq!['\\', '"']
    } else if c == '\\' {
        seq!['\\', '\\']
    } else if c == '\u{8}' {
        seq!['\\', 'b']
    } else if c == '\t' {
        seq!['\\', 't']
    } else if c == '\n' {
        seq!['\\', 'n']
    } else if c == '\u{c}' {
        seq!['\\', 'f']
    } else if c == '\r' {
        seq!['\\', 'r']
    } else if (c as u32) < 0x20 {
        seq![
            '\\',
            'u',
            '0',
            '0',
            hex_digit_char((c as u32) as int / 16),
            hex_digit_char((c as u32) as int % 16),
        ]
    } else {
        seq![c]
    }
}

/// A string's characters as serde_json escapes them.
pub open spec fn json_escape(s: Seq<char>) -> Seq<char>
    decreases s.len(),
{
    if s.len() == 0 {
        seq![]
    } else {
        json_escape(s.drop_last()) + json_escape_char(s.last())
    }
}

/// The string literals of a list, separated by commas.
pub open spec fn json_items(items: Seq<Seq<char>>) -> Seq<char>
    decreases items.len(),
{
    if items.len() == 0 {
        seq![]
    } else if items.len() == 1 {
        seq!['"'] + json_escape(items[0]) + seq!['"']
    } else {
        json_items(items.drop_last()) + seq![','] + seq!['"'] + json_escape(items.last()) + seq![
            '"',
        ]
    }
}

/// The compact JSON text that `serde_json::to_string` writes for a list of
/// strings: `[`, the string literals separated by commas, `]`.
pub open spec fn json_string_array(items: Seq<Seq<char>>) -> Seq<char> {
    seq!['['] + json_items(items) + seq![']']
}

pub open spec fn string_views(items: Seq<String>) -> Seq<Seq<char>> {
    items.map_values(|s: String| s@)
}

/// Calls `serde_json::to_string` on a list of strings. Serialising a
/// `Vec<String>` into an in-memory buffer cannot fail in serde_json (strings
/// are always representable and the `Vec` writer never reports an error), so
/// the result is taken out of the `Ok`. The contract states the compact
/// array and serde_json's escaping of each string.
#[verifier::external_body]
fn json_of_strings(items: &Vec<String>) -> (r: String)
    ensures
        r@ == json_string_array(string_views(items@)),
{
    serde_json::to_string(items).unwrap()
}

/// The list as one line of compact JSON, without a line end.
pub fn json_list(items: &Vec<String>) -> (r: String)
    ensures
        r@ == json_string_array(string_views(items@)),
{
    json_of_strings(items)
}

/// `text` followed by a line end.
pub fn with_newline(text: &str) -> (r: String)
    ensures
        r@ == text@.push('\n'),
{
    let mut out = String::from_str(text);
    out.append("\n");
    proof {
        reveal_strlit("\n");
    }
    out
}

/// The contents written to `projects.json`: the list as JSON and a line end.
pub fn registry_text(paths: &Vec<String>) -> (r: String)
    ensures
        r@ == json_string_array(string_views(paths@)).push('\n'),
{
    let json = json_list(paths);
    with_newline(json.as_str())
}

} // verus!

verus! {

/// A string literal as serde_json writes it.
pub open spec fn json_string(s: Seq<char>) -> Seq<char> {
    seq!['"'] + json_escape(s) + seq!['"']
}

/// Calls `serde_json::to_string` on a string, which cannot fail for the same
/// reasons as for a list of strings. The contract states serde_json's quoting
/// and escaping.
#[verifier::external_body]
fn json_of_string(s: &str) -> (r: String)
    ensures
        r@ == json_string(s@),
{
    serde_json::to_string(s).unwrap()
}

/// The one-line request `{"cmd":CMD}` sent to the panel or to the shell.
pub fn command_request(cmd: &str) -> (r: String)
    ensures
        r@ == "{\"cmd\":"@ + json_string(cmd@) + "}"@,
{
    let mut out = String::from_str("{\"cmd\":");
    let q = json_of_string(cmd);
    out.append(q.as_str());
    out.append("}");
    out
}

} // verus!
