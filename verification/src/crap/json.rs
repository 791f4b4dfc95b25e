//! A JSON document as a tree of plain values; numbers are kept as the text
//! serde_json writes for them.
use vstd::prelude::*;
use serde_json::Value;

verus! {

/// A JSON value. Object members keep the order serde_json gives them, which
/// sorts them by key; a number is kept as the text serde_json writes for it.
#[derive(Debug)]
pub enum Json {
    Null,
    Bool(bool),
    Number(String),
    Text(String),
    Array(Vec<Json>),
    Object(Vec<(String, Json)>),
}

/// The tree serde_json reads from `text`, or the text of serde_json's error
/// when `text` is not one well-formed JSON document.
pub uninterp spec fn json_document(text: Seq<char>) -> Result<Json, Seq<char>>;

/// Parses `text` with `serde_json::from_str` into a `serde_json::Value` and
/// hands back the same tree as a `Json`, or serde_json's error as text (its
/// `Display`: what went wrong and the line and column). The contract claims
/// of serde_json that both are a function of the text alone, and names them
/// `json_document`; what serde_json accepts as JSON, and how it words an
/// error, is not stated here.
#[verifier::external_body]
pub(crate) fn parse_json(text: &str) -> (r: Result<Json, String>)
    ensures
        match r {
            Ok(j) => json_document(text@) == Ok::<Json, Seq<char>>(j),
            Err(e) => json_document(text@) == Err::<Json, Seq<char>>(e@),
        },
{
    match serde_json::from_str::<Value>(text) {
        Ok(value) => Ok(json_of(&value)),
        Err(error) => Err(error.to_string()),
    }
}

// Takes serde_json's value apart variant by variant for `parse_json`: each
// variant becomes the same variant here, a number its own text.
#[verifier::external_body]
fn json_of(value: &Value) -> Json {
    match value {
        Value::Null => Json::Null,
        Value::Bool(b) => Json::Bool(*b),
        Value::Number(n) => Json::Number(n.to_string()),
        Value::String(s) => Json::Text(s.clone()),
        Value::Array(items) => Json::Array(items.iter().map(json_of).collect()),
        Value::Object(members) => Json::Object(
            members.iter().map(|(k, v)| (k.clone(), json_of(v))).collect(),
        ),
    }
}

#[verifier::external_type_specification]
#[verifier::external_body]
pub struct ExJsonValue(Value);

} // verus!
