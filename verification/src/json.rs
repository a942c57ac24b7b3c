//! Reading JSON documents and writing JSON string literals.
//!
//! A parsed document is kept as the parser hands it out. The library looks
//! into it by JSON Pointer (RFC 6901) and reasons about it as a map from the
//! pointers that resolve in it to what is found there.

use vstd::prelude::*;

verus! {

/// Makes `serde_json::Value` known: a parsed JSON document, of which
/// nothing is seen but through the functions below.
#[verifier::external_type_specification]
#[verifier::external_body]
pub struct ExValue(serde_json::Value);

/// Makes `serde_json::Error` known: why a text is no JSON document.
#[verifier::external_type_specification]
#[verifier::external_body]
pub struct ExError(serde_json::Error);

/// What is found at one place of a JSON document.
pub enum Node {
    /// `null`.
    Null,
    /// `true` or `false`.
    Bool(bool),
    /// A number that is a non-negative integer below 2^64.
    Unsigned(u64),
    /// Any other number.
    OtherNumber,
    /// A string.
    Text(Seq<char>),
    /// An array, with its length.
    Array(nat),
    /// An object, with the names of its members in their order.
    Object(Seq<Seq<char>>),
}

/// A document as a map from each JSON Pointer that resolves in it to what it
/// resolves to.
pub type Nodes = Map<Seq<char>, Node>;

/// The nodes of a parsed document.
pub uninterp spec fn nodes(document: serde_json::Value) -> Map<Seq<char>, Node>;

/// The nodes of the document that `text` is, if it is a JSON document.
pub uninterp spec fn text_nodes(text: Seq<u8>) -> Option<Map<Seq<char>, Node>>;

/// The JSON string literal for `text`, quotes included.
pub uninterp spec fn quoted_text(text: Seq<char>) -> Seq<char>;

/// The string at `pointer`, if a string is there.
pub open spec fn string_at(nodes: Nodes, pointer: Seq<char>) -> Option<Seq<char>> {
    if nodes.contains_key(pointer) {
        match nodes[pointer] {
            Node::Text(text) => Some(text),
            _ => None,
        }
    } else {
        None
    }
}

/// The non-negative integer at `pointer`, if one is there.
pub open spec fn unsigned_at(nodes: Nodes, pointer: Seq<char>) -> Option<u64> {
    if nodes.contains_key(pointer) {
        match nodes[pointer] {
            Node::Unsigned(n) => Some(n),
            _ => None,
        }
    } else {
        None
    }
}

/// The boolean at `pointer`, if one is there.
pub open spec fn bool_at(nodes: Nodes, pointer: Seq<char>) -> Option<bool> {
    if nodes.contains_key(pointer) {
        match nodes[pointer] {
            Node::Bool(b) => Some(b),
            _ => None,
        }
    } else {
        None
    }
}

/// The length of the array at `pointer`, if an array is there.
pub open spec fn length_at(nodes: Nodes, pointer: Seq<char>) -> Option<nat> {
    if nodes.contains_key(pointer) {
        match nodes[pointer] {
            Node::Array(n) => Some(n),
            _ => None,
        }
    } else {
        None
    }
}

/// The names of the members of the object at `pointer`, in the order of the
/// document, if an object is there.
pub open spec fn keys_at(nodes: Nodes, pointer: Seq<char>) -> Option<Seq<Seq<char>>> {
    if nodes.contains_key(pointer) {
        match nodes[pointer] {
            Node::Object(keys) => Some(keys),
            _ => None,
        }
    } else {
        None
    }
}

/// Calls `serde_json::from_slice` for a `Value`. A text that is a JSON
/// document gives the document, whose nodes are named by [`text_nodes`]; any
/// other text gives an error.
#[verifier::external_body]
pub(crate) fn from_slice(text: &[u8]) -> (r: Result<serde_json::Value, serde_json::Error>)
    ensures
        match r {
            Ok(document) => text_nodes(text@) == Some(nodes(document)),
            Err(_) => text_nodes(text@) is None,
        },
{
    serde_json::from_slice::<serde_json::Value>(text)
}

/// Reads a JSON document; `None` when `text` is none.
pub(crate) fn parse(text: &[u8]) -> (r: Option<serde_json::Value>)
    ensures
        match r {
            Some(document) => text_nodes(text@) == Some(nodes(document)),
            None => text_nodes(text@) is None,
        },
{
    match from_slice(text) {
        Ok(document) => Some(document),
        Err(_) => None,
    }
}

/// Calls `Value::pointer` and hands out the string found there.
#[verifier::external_body]
pub(crate) fn get_string(document: &serde_json::Value, pointer: &str) -> (r: Option<String>)
    ensures
        match r {
            Some(text) => string_at(nodes(*document), pointer@) == Some(text@),
            None => string_at(nodes(*document), pointer@) is None,
        },
{
    match document.pointer(pointer) {
        Some(serde_json::Value::String(text)) => Some(text.clone()),
        _ => None,
    }
}

/// Calls `Value::pointer` and hands out the number found there, if
/// `Number::as_u64` gives one.
#[verifier::external_body]
pub(crate) fn get_unsigned(document: &serde_json::Value, pointer: &str) -> (r: Option<u64>)
    ensures
        r == unsigned_at(nodes(*document), pointer@),
{
    match document.pointer(pointer) {
        Some(serde_json::Value::Number(number)) => number.as_u64(),
        _ => None,
    }
}

/// Calls `Value::pointer` and hands out the boolean found there.
#[verifier::external_body]
pub(crate) fn get_bool(document: &serde_json::Value, pointer: &str) -> (r: Option<bool>)
    ensures
        r == bool_at(nodes(*document), pointer@),
{
    match document.pointer(pointer) {
        Some(serde_json::Value::Bool(b)) => Some(*b),
        _ => None,
    }
}

/// Calls `Value::pointer` and hands out the length of the array found there.
#[verifier::external_body]
pub(crate) fn get_length(document: &serde_json::Value, pointer: &str) -> (r: Option<usize>)
    ensures
        match r {
            Some(n) => length_at(nodes(*document), pointer@) == Some(n as nat),
            None => length_at(nodes(*document), pointer@) is None,
        },
{
    match document.pointer(pointer) {
        Some(serde_json::Value::Array(items)) => Some(items.len()),
        _ => None,
    }
}

/// Calls `Value::pointer` and hands out the names of the members of the
/// object found there, as `Map::keys` yields them.
#[verifier::external_body]
pub(crate) fn get_keys(document: &serde_json::Value, pointer: &str) -> (r: Option<Vec<String>>)
    ensures
        r.deep_view() == keys_at(nodes(*document), pointer@),
{
    match document.pointer(pointer) {
        Some(serde_json::Value::Object(members)) => Some(members.keys().cloned().collect()),
        _ => None,
    }
}

/// Calls `serde_json::to_string` on a string slice, which cannot fail: the
/// JSON string literal for `text`, named [`quoted_text`].
#[verifier::external_body]
pub(crate) fn quote(text: &str) -> (r: String)
    ensures
        r@ == quoted_text(text@),
{
    serde_json::to_string(text).unwrap_or_default()
}

} // verus!
