use vstd::prelude::*;
use crate::json::{JValue, Json};

verus! {

/// serde_json's document value, carried only between the conversions below.
#[verifier::external_type_specification]
#[verifier::external_body]
pub struct ExValue(serde_json::Value);

/// What serde_json reads from a text: the value, or `None` where the text
/// is not a JSON document.
pub uninterp spec fn parsed_json(text: Seq<char>) -> Option<JValue>;

/// The compact JSON text that serde_json writes for a value.
pub uninterp spec fn json_text(v: JValue) -> Seq<char>;

/// Relies on serde_json::from_str into a `serde_json::Value`: reads a JSON
/// document, or fails where the text is not one.
#[verifier::external_body]
pub(crate) fn parse_json(text: &str) -> (r: Option<Json>)
    ensures
        r is Some <==> parsed_json(text@) is Some,
        r is Some ==> parsed_json(text@) == Some(r->0@),
{
    serde_json::from_str::<serde_json::Value>(text).ok().map(json_from_value)
}

/// Relies on serde_json's `Display` for `serde_json::Value`: the compact
/// JSON text of the value.
#[verifier::external_body]
pub(crate) fn write_json(v: &Json) -> (r: String)
    ensures
        r@ == json_text(v@),
{
    value_from_json(v).to_string()
}

/// Converts a `serde_json::Value` into a `Json`, variant for variant; a
/// number keeps its JSON text.
#[verifier::external_body]
fn json_from_value(v: serde_json::Value) -> Json {
    match v {
        serde_json::Value::Null => Json::Null,
        serde_json::Value::Bool(b) => Json::Bool(b),
        serde_json::Value::Number(n) => Json::Number(n.to_string()),
        serde_json::Value::String(s) => Json::Str(s),
        serde_json::Value::Array(a) => Json::Array(a.into_iter().map(json_from_value).collect()),
        serde_json::Value::Object(m) => Json::Object(m.into_iter().map(|(k, x)| (k, json_from_value(x))).collect()),
    }
}

/// Converts a `Json` into a `serde_json::Value`, variant for variant; a
/// number is read back from its JSON text.
#[verifier::external_body]
fn value_from_json(v: &Json) -> serde_json::Value {
    match v {
        Json::Null => serde_json::Value::Null,
        Json::Bool(b) => serde_json::Value::Bool(*b),
        Json::Number(n) => n.parse::<serde_json::Number>().map(serde_json::Value::Number).unwrap_or(serde_json::Value::Null),
        Json::Str(s) => serde_json::Value::String(s.clone()),
        Json::Array(a) => serde_json::Value::Array(a.iter().map(value_from_json).collect()),
        Json::Object(m) => serde_json::Value::Object(m.iter().map(|(k, x)| (k.clone(), value_from_json(x))).collect()),
    }
}

} // verus!
