//! JSON documents as text, read and written by `serde_json`.
use crate::json::{Json, JsonView, Number, opt_json};
use serde_json::Value;
use vstd::prelude::*;

verus! {

/// `serde_json::Value`, a parsed document.
#[verifier::external_type_specification]
#[verifier::external_body]
pub struct ExValue(serde_json::Value);

/// What a `serde_json::Value` holds: the members of an object in the order in
/// which its map hands them out, a number with a fraction as the text that
/// `Number` displays.
pub uninterp spec fn value_contents(value: Value) -> JsonView;

/// What a `serde_json::Value` holds that was made of the given contents: the
/// map keeps members by name, the later of two of one name, and a fraction is
/// read from its text.
pub uninterp spec fn stored_json(contents: JsonView) -> JsonView;

/// What `serde_json::from_str` makes of a text: the document that it is, or the
/// message of the error.
pub uninterp spec fn reading(text: Seq<char>) -> Result<JsonView, Seq<char>>;

/// The document that a text is, where it is one.
pub open spec fn document(text: Seq<char>) -> Option<JsonView> {
    match reading(text) {
        Ok(v) => Some(v),
        Err(_) => None,
    }
}

/// The compact text that `serde_json` writes for a value.
pub uninterp spec fn compact_text(contents: JsonView) -> Seq<char>;

/// Takes a `serde_json::Value` apart, variant by variant: `Value::Number` is a
/// `u64` where `as_u64` gives one, else an `i64` where `as_i64` gives one, else
/// the text of a fraction. The result holds what the value held.
#[verifier::external_body]
pub(crate) fn value_to_json(value: Value) -> (r: Json)
    ensures
        r@ == value_contents(value),
{
    match value {
        Value::Null => Json::Null,
        Value::Bool(b) => Json::Bool(b),
        Value::Number(n) => match (n.as_u64(), n.as_i64()) {
            (Some(u), _) => Json::Number(Number::Unsigned(u)),
            (None, Some(i)) => Json::Number(Number::Negative(i)),
            (None, None) => Json::Number(Number::Float(n.to_string())),
        },
        Value::String(s) => Json::Text(s),
        Value::Array(a) => Json::Array(a.into_iter().map(value_to_json).collect()),
        Value::Object(m) => Json::Object(
            m.into_iter().map(|(k, v)| (k, value_to_json(v))).collect()),
    }
}

/// Makes a `serde_json::Value` of a value, variant by variant; a fraction goes
/// through `Number::from_f64`. The result holds what `stored_json` names.
#[verifier::external_body]
pub(crate) fn json_to_value(json: &Json) -> (r: Value)
    ensures
        value_contents(r) == stored_json(json@),
{
    match json {
        Json::Null => Value::Null,
        Json::Bool(b) => Value::Bool(*b),
        Json::Number(Number::Unsigned(n)) => Value::from(*n),
        Json::Number(Number::Negative(n)) => Value::from(*n),
        Json::Number(Number::Float(t)) => t.parse().ok().and_then(serde_json::Number::from_f64)
            .map_or(Value::Null, Value::Number),
        Json::Text(s) => Value::String(s.clone()),
        Json::Array(a) => Value::Array(a.iter().map(json_to_value).collect()),
        Json::Object(m) => Value::Object(
            m.iter().map(|(k, v)| (k.clone(), json_to_value(v))).collect()),
    }
}

/// `serde_json::from_str`: the document that the text is, or the message of the
/// error where it is none.
#[verifier::external_body]
fn parse_value(text: &str) -> (r: Result<Value, String>)
    ensures
        match r {
            Ok(v) => reading(text@) matches Ok(c) && c == value_contents(v),
            Err(e) => reading(text@) matches Err(m) && m == e@,
        },
{
    serde_json::from_str(text).map_err(|e| e.to_string())
}

/// `serde_json::Value`'s `Display`: the compact text of the value.
#[verifier::external_body]
fn render_value(value: &Value) -> (r: String)
    ensures
        r@ == compact_text(value_contents(*value)),
{
    value.to_string()
}

/// Reads a document.
pub fn parse_json(text: &str) -> (r: Option<Json>)
    ensures
        opt_json(r) == document(text@),
{
    match parse_value(text) {
        Ok(value) => Some(value_to_json(value)),
        Err(_) => None,
    }
}

/// Reads a document, or says why it cannot.
pub fn read_json(text: &str) -> (r: Result<Json, String>)
    ensures
        match r {
            Ok(v) => reading(text@) matches Ok(c) && c == v@,
            Err(e) => reading(text@) matches Err(m) && m == e@,
        },
{
    match parse_value(text) {
        Ok(value) => Ok(value_to_json(value)),
        Err(e) => Err(e),
    }
}

/// The compact text of a value.
pub open spec fn text_of(contents: JsonView) -> Seq<char> {
    compact_text(stored_json(contents))
}

/// The compact text of a value.
pub fn json_text(json: &Json) -> (r: String)
    ensures
        r@ == text_of(json@),
{
    render_value(&json_to_value(json))
}

/// The value that a parsed document holds.
pub fn from_value(value: Value) -> (r: Json)
    ensures
        r@ == value_contents(value),
{
    value_to_json(value)
}

/// The value as `serde_json` holds it.
pub fn to_value(json: &Json) -> (r: Value)
    ensures
        value_contents(r) == stored_json(json@),
{
    json_to_value(json)
}

} // verus!
