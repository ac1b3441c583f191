//! Reading JSON text, which is left to `serde_json`.

use crate::json::{Json, JsonView};
use serde_json::Value;
use vstd::prelude::*;

verus! {

/// `serde_json::Value`, carried from the parser to the conversion below.
#[verifier::external_type_specification]
#[verifier::external_body]
pub struct ExValue(Value);

/// The document that `serde_json::from_str` reads from `text`, or `None`
/// where it rejects the text.
pub uninterp spec fn parsed(text: Seq<char>) -> Option<JsonView>;

/// The JSON value that a `serde_json::Value` holds: a number as the decimal
/// text that `serde_json` prints for it, the members of an object in the
/// order in which its map yields them.
pub uninterp spec fn value_model(value: Value) -> JsonView;

/// Calls `serde_json::from_str` for a `Value`. The parser reads the whole
/// text as one JSON value and depends on nothing but the text, so its result
/// is the named document of that text; an error is reported as `None`.
#[verifier::external_body]
fn read_value(text: &str) -> (value: Option<Value>)
    ensures
        match value {
            Some(v) => parsed(text@) == Some(value_model(v)),
            None => parsed(text@) is None,
        },
{
    serde_json::from_str::<Value>(text).ok()
}

/// Takes a `serde_json::Value` apart, variant by variant, into a [`Json`]
/// that holds the same value. A number is converted by its `Display` impl.
#[verifier::external_body]
fn json_of_value(value: Value) -> (json: Json)
    ensures
        json@ == value_model(value),
{
    match value {
        Value::Null => Json::Null,
        Value::Bool(b) => Json::Bool(b),
        Value::Number(n) => Json::Number(n.to_string()),
        Value::String(s) => Json::Text(s),
        Value::Array(items) => Json::Array(items.into_iter().map(json_of_value).collect()),
        Value::Object(members) => Json::Object(
            members.into_iter().map(|(key, member)| (key, json_of_value(member))).collect(),
        ),
    }
}

/// Reads `text` as one JSON document.
pub fn parse(text: &str) -> (doc: Option<Json>)
    ensures
        match doc {
            Some(json) => parsed(text@) == Some(json@),
            None => parsed(text@) is None,
        },
{
    match read_value(text) {
        Some(value) => Some(json_of_value(value)),
        None => None,
    }
}

} // verus!
