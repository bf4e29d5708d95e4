//! Reading TOML documents with the `toml` crate into the library's `Node`,
//! and the configuration files read that way: keyboard bindings and theme
//! colors.
use vstd::prelude::*;
use crate::bindings::{BindingError, BindingFault, BindingsView, bindings_spec, bindings_view, parse_bindings};
use crate::text::{push_str, string_of};
use crate::theme::{color_table, color_table_of, pairs_view};
use crate::value::Node;

verus! {

#[verifier::external_type_specification]
#[verifier::external_body]
pub struct ExTomlValue(toml::Value);

/// What `toml::from_str` reads from a text as a TOML document (a table): the
/// document as an object `Node` (floats as `Number` and dates as `Date`, by
/// their text; table keys
/// in the crate's order), or the crate's error text.
pub uninterp spec fn toml_document(text: Seq<char>) -> Result<Node, Seq<char>>;

/// Copies a parsed TOML value into a `Node`, variant by variant.
#[verifier::external_body]
fn toml_to_node(v: &toml::Value) -> Node {
    match v {
        toml::Value::String(s) => Node::Str(s.clone()),
        toml::Value::Integer(n) => Node::Int(*n),
        toml::Value::Float(f) => Node::Number(f.to_string()),
        toml::Value::Boolean(b) => Node::Bool(*b),
        toml::Value::Datetime(d) => Node::Date(d.to_string()),
        toml::Value::Array(a) => Node::Array(a.iter().map(toml_to_node).collect()),
        toml::Value::Table(t) => Node::Object(
            t.iter().map(|(k, v)| (k.clone(), toml_to_node(v))).collect(),
        ),
    }
}

/// Calls `toml::from_str` for a document, which is a table; the table comes
/// back as an object. The contract names the result; TOML's grammar and the
/// crate's error texts are not restated.
#[verifier::external_body]
fn parse_toml(text: &str) -> (r: Result<Node, String>)
    ensures
        match r {
            Ok(v) => toml_document(text@) == Ok::<Node, Seq<char>>(v) && v is Object,
            Err(e) => toml_document(text@) == Err::<Node, Seq<char>>(e@),
        },
{
    match toml::from_str::<toml::Table>(text) {
        Ok(t) => Ok(Node::Object(t.iter().map(|(k, v)| (k.clone(), toml_to_node(v))).collect())),
        Err(e) => Err(e.to_string()),
    }
}

/// A TOML document as an object, or the parser's error text.
pub fn read_toml(text: &str) -> (r: Result<Node, String>)
    ensures
        match r {
            Ok(v) => toml_document(text@) == Ok::<Node, Seq<char>>(v) && v is Object,
            Err(e) => toml_document(text@) == Err::<Node, Seq<char>>(e@),
        },
{
    parse_toml(text)
}

/// Why a keyboard configuration file is refused, as a value of the specification.
pub enum KeysFault {
    Malformed(Seq<char>),
    Binding(BindingFault),
}

/// Why a keyboard configuration file is refused.
#[derive(Debug)]
pub enum KeysError {
    /// The text is not a TOML document; the parser's explanation.
    Malformed(String),
    /// The document does not describe valid bindings.
    Binding(BindingError),
}

impl View for KeysError {
    type V = KeysFault;

    open spec fn view(&self) -> KeysFault {
        match self {
            KeysError::Malformed(e) => KeysFault::Malformed(e@),
            KeysError::Binding(b) => KeysFault::Binding(b@),
        }
    }
}

impl KeysError {
    /// The text that explains the refusal.
    pub fn message(&self) -> (r: String)
        ensures
            r@ == match self@ {
                KeysFault::Malformed(e) => "malformed TOML: "@ + e,
                KeysFault::Binding(b) => crate::bindings::binding_message(b),
            },
    {
        match self {
            KeysError::Malformed(e) => {
                let mut out: Vec<char> = Vec::new();
                push_str(&mut out, "malformed TOML: ");
                push_str(&mut out, e.as_str());
                string_of(&out)
            },
            KeysError::Binding(b) => b.message(),
        }
    }
}

/// What a keyboard configuration text gives: the bindings of its table, or
/// why it is refused.
pub open spec fn keys_spec(text: Seq<char>) -> Result<BindingsView, KeysFault> {
    match toml_document(text) {
        Err(e) => Err(KeysFault::Malformed(e)),
        Ok(Node::Object(root)) => match bindings_spec(root@) {
            Ok(b) => Ok(b),
            Err(f) => Err(KeysFault::Binding(f)),
        },
        Ok(_) => Err(KeysFault::Malformed(seq![])),
    }
}

/// Reads a keyboard configuration file.
pub fn parse_keys(text: &str) -> (r: Result<Vec<(String, Vec<String>)>, KeysError>)
    ensures
        match r {
            Ok(b) => keys_spec(text@) == Ok::<BindingsView, KeysFault>(bindings_view(b@)),
            Err(e) => keys_spec(text@) == Err::<BindingsView, KeysFault>(e@),
        },
{
    match parse_toml(text) {
        Err(e) => Err(KeysError::Malformed(e)),
        Ok(Node::Object(root)) => match parse_bindings(&root) {
            Ok(b) => Ok(b),
            Err(f) => Err(KeysError::Binding(f)),
        },
        Ok(_) => Err(KeysError::Malformed(String::new())),
    }
}

/// The valid colors of a theme's `colors.toml`, when the text is a TOML document.
pub fn palette_colors(text: &str) -> (r: Option<Vec<(String, String)>>)
    ensures
        match toml_document(text@) {
            Ok(Node::Object(f)) => r matches Some(c) && pairs_view(c@) == color_table_of(f@),
            _ => r is None,
        },
{
    match parse_toml(text) {
        Ok(Node::Object(f)) => Some(color_table(&f)),
        _ => None,
    }
}

} // verus!
