//! The JSON tree shown for a JSON body: each node's label.
use vstd::prelude::*;
use crate::text::{decimal, push_decimal, push_str, string_of};

verus! {

/// A JSON value as the tree shows it. A number is kept as its JSON text.
#[derive(Debug)]
pub enum JsonTree {
    Null,
    Bool(bool),
    Number(String),
    Str(String),
    Array(Vec<JsonTree>),
    Object(Vec<(String, JsonTree)>),
}

/// What a node of the tree shows: a branch (object or array) with its name
/// and a kind line such as `object · 2`, or a leaf with its name and text.
#[derive(Debug, Clone, PartialEq, Eq)]
pub enum JsonNodeLabel {
    Branch { name: String, kind: String },
    Leaf { name: String, text: String },
}

/// The text a leaf shows: a string as itself, any other value as JSON.
pub open spec fn json_scalar_spec(t: JsonTree) -> Seq<char> {
    match t {
        JsonTree::Null => "null"@,
        JsonTree::Bool(b) => if b {
            "true"@
        } else {
            "false"@
        },
        JsonTree::Number(n) => n@,
        JsonTree::Str(s) => s@,
        JsonTree::Array(_) => Seq::empty(),
        JsonTree::Object(_) => Seq::empty(),
    }
}

/// The label of a node named `name`: objects and arrays show their kind and
/// how many children they have; other values are leaves.
pub open spec fn json_node_label_matches(r: JsonNodeLabel, t: JsonTree, name: Seq<char>) -> bool {
    match t {
        JsonTree::Object(entries) => r matches JsonNodeLabel::Branch { name: n, kind } && n@ == name
            && kind@ == "object · "@ + decimal(entries@.len()),
        JsonTree::Array(items) => r matches JsonNodeLabel::Branch { name: n, kind } && n@ == name
            && kind@ == "array · "@ + decimal(items@.len()),
        _ => r matches JsonNodeLabel::Leaf { name: n, text } && n@ == name && text@ == json_scalar_spec(t),
    }
}

/// The label a node of the tree shows.
pub fn json_node_label(t: &JsonTree, name: &str) -> (r: JsonNodeLabel)
    ensures
        json_node_label_matches(r, *t, name@),
{
    match t {
        JsonTree::Object(entries) => {
            let mut kind = string_of("object · ");
            push_decimal(&mut kind, entries.len() as u64);
            JsonNodeLabel::Branch { name: string_of(name), kind }
        },
        JsonTree::Array(items) => {
            let mut kind = string_of("array · ");
            push_decimal(&mut kind, items.len() as u64);
            JsonNodeLabel::Branch { name: string_of(name), kind }
        },
        JsonTree::Null => JsonNodeLabel::Leaf { name: string_of(name), text: string_of("null") },
        JsonTree::Bool(b) => JsonNodeLabel::Leaf {
            name: string_of(name),
            text: if *b {
                string_of("true")
            } else {
                string_of("false")
            },
        },
        JsonTree::Number(n) => JsonNodeLabel::Leaf { name: string_of(name), text: string_of(n.as_str()) },
        JsonTree::Str(s) => JsonNodeLabel::Leaf { name: string_of(name), text: string_of(s.as_str()) },
    }
}

/// The name an array element is shown under: its index in brackets.
pub fn json_child_name(index: usize) -> (r: String)
    ensures
        r@ == "["@ + decimal(index as nat) + "]"@,
{
    let mut s = string_of("[");
    push_decimal(&mut s, index as u64);
    push_str(&mut s, "]");
    s
}

} // verus!
