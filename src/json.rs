//! JSON values as `serde_json` parses them, held in a form the reply parser
//! can reason about.

use vstd::prelude::*;

verus! {

#[verifier::external_type_specification]
#[verifier::external_body]
pub struct ExJsonValue(serde_json::Value);

/// A parsed JSON value. Numbers are kept in the decimal notation that
/// `serde_json` prints them in; an object's entries come in the order its
/// map gives them, one per key.
#[derive(Debug, PartialEq)]
pub enum Json {
    Null,
    Bool(bool),
    Number(String),
    Str(String),
    Array(Vec<Json>),
    Object(Vec<(String, Json)>),
}

/// What `serde_json::from_str` makes of `s` as a `Value`: none where `s` is
/// not one JSON document (whitespace aside).
pub uninterp spec fn json_of(s: Seq<char>) -> Option<Json>;

/// The value `serde_json` parsed, carried over variant by variant.
#[verifier::external_body]
fn json_from(v: &serde_json::Value) -> Json {
    match v {
        serde_json::Value::Null => Json::Null,
        serde_json::Value::Bool(b) => Json::Bool(*b),
        serde_json::Value::Number(n) => Json::Number(n.to_string()),
        serde_json::Value::String(s) => Json::Str(s.clone()),
        serde_json::Value::Array(a) => Json::Array(a.iter().map(json_from).collect()),
        serde_json::Value::Object(m) => Json::Object(
            m.iter().map(|(k, x)| (k.clone(), json_from(x))).collect(),
        ),
    }
}

/// Relies on `serde_json::from_str` into a `Value`: the parse depends on the
/// text alone. The value is handed over as a `Json`.
#[verifier::external_body]
pub(crate) fn parse_json(s: &str) -> (r: Option<Json>)
    ensures
        r == json_of(s@),
{
    match serde_json::from_str::<serde_json::Value>(s) {
        Ok(v) => Some(json_from(&v)),
        Err(_) => None,
    }
}

} // verus!
