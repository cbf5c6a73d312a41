//! The calls into serde_json: reading a text, writing a text, and moving a
//! document into and out of serde_json's own value type.

use crate::json::{Json, JsonValue};
use serde_json::Error as CodecFailure;
use vstd::prelude::*;

verus! {

/// `serde_json::Value`, carried as it is.
#[verifier::external_type_specification]
#[verifier::external_body]
pub struct ExValue(serde_json::Value);

/// `serde_json::Error`, carried as it is.
#[verifier::external_type_specification]
#[verifier::external_body]
pub struct ExCodecFailure(CodecFailure);

/// The document that a serde_json value holds.
pub uninterp spec fn value_document(value: serde_json::Value) -> JsonValue;

/// The document that serde_json reads from a text, `None` where it refuses
/// the text.
pub uninterp spec fn text_document(text: Seq<char>) -> Option<JsonValue>;

/// The document held by the serde_json value that is built from a document,
/// `None` where serde_json refuses one of its number literals.
pub uninterp spec fn built_document(document: JsonValue) -> Option<JsonValue>;

/// The compact text that serde_json writes for a value holding the document,
/// `None` where it fails.
pub uninterp spec fn document_text(document: JsonValue) -> Option<Seq<char>>;

/// Moves a `serde_json::Value` into a [`Json`], variant by variant. A number
/// becomes the text that `serde_json::Number`'s `Display` gives, an object
/// its members in the order in which `serde_json::Map` hands them out. The
/// contract only names the outcome.
#[verifier::external_body]
pub(crate) fn json_from_value(value: serde_json::Value) -> (json: Json)
    ensures
        json@ == value_document(value),
{
    match value {
        serde_json::Value::Null => Json::Null,
        serde_json::Value::Bool(b) => Json::Bool(b),
        serde_json::Value::Number(n) => Json::Number(n.to_string()),
        serde_json::Value::String(s) => Json::String(s),
        serde_json::Value::Array(a) => Json::Array(a.into_iter().map(json_from_value).collect()),
        serde_json::Value::Object(o) => Json::Object(
            o.into_iter().map(|(k, v)| (k, json_from_value(v))).collect(),
        ),
    }
}

/// Builds a `serde_json::Value` from a [`Json`], variant by variant. A number
/// literal goes through `serde_json::Number`'s `FromStr`, whose error is
/// handed on; members are collected into a `serde_json::Map`. The contract
/// only names the outcome.
#[verifier::external_body]
pub(crate) fn value_from_json(json: &Json) -> (r: Result<serde_json::Value, serde_json::Error>)
    ensures
        match r {
            Ok(value) => built_document(json@) == Some(value_document(value)),
            Err(_) => built_document(json@) is None,
        },
{
    Ok(match json {
        Json::Null => serde_json::Value::Null,
        Json::Bool(b) => serde_json::Value::Bool(*b),
        Json::Number(n) => serde_json::Value::Number(n.parse()?),
        Json::String(s) => serde_json::Value::String(s.clone()),
        Json::Array(a) => serde_json::Value::Array(
            a.iter().map(value_from_json).collect::<Result<_, _>>()?,
        ),
        Json::Object(o) => serde_json::Value::Object(
            o.iter().map(|(k, v)| Ok((k.clone(), value_from_json(v)?))).collect::<Result<_, serde_json::Error>>()?,
        ),
    })
}

/// `serde_json::from_str` at `serde_json::Value`. The contract only names
/// the outcome: the value's document on success, refusal otherwise.
#[verifier::external_body]
pub(crate) fn parse_value(text: &str) -> (r: Result<serde_json::Value, serde_json::Error>)
    ensures
        match r {
            Ok(value) => text_document(text@) == Some(value_document(value)),
            Err(_) => text_document(text@) is None,
        },
{
    serde_json::from_str::<serde_json::Value>(text)
}

/// `serde_json::to_string` on a `serde_json::Value`. The contract only names
/// the outcome: the text on success, failure otherwise.
#[verifier::external_body]
pub(crate) fn value_text(value: &serde_json::Value) -> (r: Result<String, serde_json::Error>)
    ensures
        match r {
            Ok(text) => document_text(value_document(*value)) == Some(text@),
            Err(_) => document_text(value_document(*value)) is None,
        },
{
    serde_json::to_string(value)
}

/// `serde::de::Error::custom` for `serde_json::Error`: an error that carries
/// the message. Nothing is claimed of it.
#[verifier::external_body]
pub(crate) fn custom_error(message: &str) -> serde_json::Error {
    <serde_json::Error as serde::de::Error>::custom(message)
}

impl Json {
    /// Reads a text as a JSON document.
    pub fn parse(text: &str) -> (r: Result<Json, serde_json::Error>)
        ensures
            match r {
                Ok(json) => text_document(text@) == Some(json@),
                Err(_) => text_document(text@) is None,
            },
    {
        match parse_value(text) {
            Ok(value) => Ok(json_from_value(value)),
            Err(e) => Err(e),
        }
    }
}

/// The text of a document: what serde_json writes for the value built from it.
pub open spec fn rendered(document: JsonValue) -> Option<Seq<char>> {
    match built_document(document) {
        Some(held) => document_text(held),
        None => None,
    }
}

impl Json {
    /// Writes the document as compact JSON text.
    pub fn render(&self) -> (r: Result<String, serde_json::Error>)
        ensures
            match r {
                Ok(text) => rendered(self@) == Some(text@),
                Err(_) => rendered(self@) is None,
            },
    {
        match value_from_json(self) {
            Ok(value) => value_text(&value),
            Err(e) => Err(e),
        }
    }
}

} // verus!
