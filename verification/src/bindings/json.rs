//! JSON text, as `serde_json` reads and writes it.

use crate::handler::with::json::{Json, JsonView, Number};
use vstd::prelude::*;

verus! {

/// A JSON document as `serde_json` holds it.
#[verifier::external_type_specification]
#[verifier::external_body]
pub struct ExValue(serde_json::Value);

/// The document that `text` is, or `None` where `text` is no JSON document.
pub uninterp spec fn json_document(text: Seq<char>) -> Option<JsonView>;

/// The text that `serde_json` writes for a document.
pub uninterp spec fn json_text(document: JsonView) -> Seq<char>;

/// The text that `serde_json` writes for a document when it is asked for
/// lines and indentation.
pub uninterp spec fn json_pretty_text(document: JsonView) -> Seq<char>;

/// Calls `serde_json::to_string_pretty` on the `Value` that `document` is.
///
/// Assumed: where no object has a key twice, the result depends on what the
/// document stands for alone.
#[verifier::external_body]
pub(crate) fn write_json_pretty(document: &Json) -> (r: String)
    requires
        document.distinct(),
    ensures
        r@ == json_pretty_text(document@),
{
    serde_json::to_string_pretty(&to_value(document)).unwrap_or_default()
}

/// Calls `serde_json::from_str` for a `Value`.
///
/// Assumed: the result depends on `text` alone; it is `Err`, with the
/// error's message, exactly where the text is no JSON document.
#[verifier::external_body]
pub(crate) fn parse_json(text: &str) -> (r: Result<Json, String>)
    ensures
        match r {
            Ok(document) => json_document(text@) == Some(document@),
            Err(_) => json_document(text@) is None,
        },
{
    match serde_json::from_str::<serde_json::Value>(text) {
        Ok(value) => Ok(from_value(&value)),
        Err(err) => Err(err.to_string()),
    }
}

/// Calls `serde_json::to_string` on the `Value` that `document` is.
///
/// Assumed: where no object has a key twice, the result depends on what the
/// document stands for alone.
#[verifier::external_body]
pub(crate) fn write_json(document: &Json) -> (r: String)
    requires
        document.distinct(),
    ensures
        r@ == json_text(document@),
{
    serde_json::to_string(&to_value(document)).unwrap_or_default()
}

/// Turns a `serde_json::Value` into a [`Json`], part by part.
#[verifier::external_body]
fn from_value(value: &serde_json::Value) -> Json {
    match value {
        serde_json::Value::Null => Json::Null,
        serde_json::Value::Bool(b) => Json::Bool(*b),
        serde_json::Value::Number(_) => Json::Number(from_number(value)),
        serde_json::Value::String(s) => Json::String(s.clone()),
        serde_json::Value::Array(items) => Json::Array(items.iter().map(from_value).collect()),
        serde_json::Value::Object(members) => Json::Object(
            members.iter().map(|(k, v)| (k.clone(), from_value(v))).collect(),
        ),
    }
}

/// Turns a `serde_json::Value` that is a number into a [`Number`] of the
/// same kind: a double goes by its text.
#[verifier::external_body]
fn from_number(number: &serde_json::Value) -> Number {
    match (number.as_u64(), number.as_i64()) {
        (Some(n), _) => Number::PosInt(n),
        (None, Some(n)) => Number::NegInt(n),
        (None, None) => Number::Float(number.to_string()),
    }
}

/// Turns a [`Number`] into a `serde_json::Value` that is a number of the same
/// kind: a double is read from its text.
#[verifier::external_body]
fn to_number(number: &Number) -> serde_json::Value {
    match number {
        Number::PosInt(n) => serde_json::Value::from(*n),
        Number::NegInt(n) => serde_json::Value::from(*n),
        Number::Float(text) => text.parse::<serde_json::Number>().map(
            serde_json::Value::Number,
        ).unwrap_or_default(),
    }
}

/// Turns a [`Json`] into a `serde_json::Value`, part by part.
#[verifier::external_body]
fn to_value(document: &Json) -> serde_json::Value {
    match document {
        Json::Null => serde_json::Value::Null,
        Json::Bool(b) => serde_json::Value::Bool(*b),
        Json::Number(n) => to_number(n),
        Json::String(s) => serde_json::Value::String(s.clone()),
        Json::Array(items) => serde_json::Value::Array(items.iter().map(to_value).collect()),
        Json::Object(members) => serde_json::Value::Object(
            members.iter().map(|(k, v)| (k.clone(), to_value(v))).collect(),
        ),
    }
}

} // verus!
