//! A plain representation of parsed JSON text, and the trusted parse that
//! produces it. The decoder's logic works on this representation alone.
use vstd::prelude::*;

verus! {

/// A parsed JSON value as plain data. Numeric payloads are not kept: the
/// schema only ever distinguishes the kind of a value, never a number's
/// magnitude.
pub enum JsonValue {
    Null,
    Bool(bool),
    Number,
    Text(String),
    Array(Vec<JsonValue>),
    Object(Vec<(String, JsonValue)>),
}

#[verifier::external_type_specification]
#[verifier::external_body]
pub struct ExSerdeJsonValue(serde_json::Value);

/// Relies on the shape of `serde_json::Value`: rebuilds the parsed tree as
/// `JsonValue`, one variant for one variant, moving the payloads; the numeric
/// payload is dropped, as only its kind is ever read.
#[verifier::external_body]
fn tree_of_value(v: serde_json::Value) -> JsonValue {
    match v {
        serde_json::Value::Null => JsonValue::Null,
        serde_json::Value::Bool(b) => JsonValue::Bool(b),
        serde_json::Value::Number(_) => JsonValue::Number,
        serde_json::Value::String(s) => JsonValue::Text(s),
        serde_json::Value::Array(a) => JsonValue::Array(
            a.into_iter().map(tree_of_value).collect(),
        ),
        serde_json::Value::Object(m) => JsonValue::Object(
            m.into_iter().map(|p| (p.0, tree_of_value(p.1))).collect(),
        ),
    }
}

/// What parsing a given text yields: either the parsed tree or the parser's
/// diagnostic message. A function of the text alone.
pub uninterp spec fn parsed_json(s: Seq<char>) -> Result<JsonValue, Seq<char>>;

/// Relies on `serde_json::from_str::<serde_json::Value>`: a strict JSON parse
/// whose outcome, success or diagnostic, depends on the input text alone.
#[verifier::external_body]
pub fn parse_json(raw: &str) -> (r: Result<JsonValue, String>)
    ensures
        match r {
            Ok(v) => parsed_json(raw@) == Ok::<JsonValue, Seq<char>>(v),
            Err(m) => parsed_json(raw@) == Err::<JsonValue, Seq<char>>(m@),
        },
{
    match serde_json::from_str::<serde_json::Value>(raw) {
        Ok(v) => Ok(tree_of_value(v)),
        Err(e) => Err(e.to_string()),
    }
}

} // verus!
