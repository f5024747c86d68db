//! Reading a document from text, through serde_json.

use vstd::prelude::*;

use crate::value::{Json, Model};

verus! {

#[verifier::external_type_specification]
#[verifier::external_body]
pub struct ExValue(serde_json::Value);

#[verifier::external_type_specification]
#[verifier::external_body]
pub struct ExError(serde_json::Error);

/// What parsing a text yields: `Some` of the model of the document that
/// serde_json::from_str reads from it, `None` on text it rejects. What it
/// reads depends on the text alone.
pub uninterp spec fn doc_of(s: Seq<char>) -> Option<Model>;

/// What a serde_json::Value holds, as a model of this library.
pub uninterp spec fn value_model(v: serde_json::Value) -> Model;

/// Relies on serde_json::from_str::<Value>: it returns Ok exactly on text
/// that is one well-formed JSON document, and what it returns is a
/// function of the text alone.
#[verifier::external_body]
fn parse_value(s: &str) -> (r: Result<serde_json::Value, serde_json::Error>)
    ensures
        r is Ok <==> doc_of(s@) is Some,
        r matches Ok(v) ==> doc_of(s@) matches Some(m) && value_model(v) == m,
{
    serde_json::from_str::<serde_json::Value>(s)
}

/// Relies on the variants of serde_json::Value: each is moved, one for
/// one, into the library's own type; a number becomes the characters of
/// its literal (serde_json's Display for Number), a string its characters.
#[verifier::external_body]
fn value_to_json(v: serde_json::Value) -> (r: Json)
    ensures
        r@ == value_model(v),
{
    match v {
        serde_json::Value::Null => Json::Null,
        serde_json::Value::Bool(b) => Json::Bool(b),
        serde_json::Value::Number(n) => Json::Number(n.to_string().chars().collect()),
        serde_json::Value::String(s) => Json::Text(s.chars().collect()),
        serde_json::Value::Array(a) => Json::Array(a.into_iter().map(value_to_json).collect()),
        serde_json::Value::Object(o) => Json::Object(
            o.into_iter().map(|(k, w)| (k.chars().collect(), value_to_json(w))).collect(),
        ),
    }
}

/// Relies on Display for serde_json::Error: the reason a parse failed, as
/// text for the log.
#[verifier::external_body]
fn error_text(e: &serde_json::Error) -> String {
    e.to_string()
}

/// Why an input was rejected.
#[derive(Debug)]
pub struct ParseError {
    pub message: String,
}

/// Parse one JSON document from `input`: the document on well-formed
/// text, an error carrying the parser's reason on any other.
pub fn parse_input(input: &str) -> (r: Result<Json, ParseError>)
    ensures
        r is Ok <==> doc_of(input@) is Some,
        r matches Ok(j) ==> doc_of(input@) matches Some(m) && j@ == m,
{
    match parse_value(input) {
        Ok(v) => Ok(value_to_json(v)),
        Err(e) => Err(ParseError { message: error_text(&e) }),
    }
}

} // verus!
