//! Responses: the envelope, the error that a peer reports, and the rule
//! that turns the two optional payload members into one outcome.

use crate::codec::{
    built_document, custom_error, rendered, text_document, value_document, value_from_json,
};
use crate::decimal::{decimal, decimal_text};
use crate::json::{field, integer_of, left_out, lemma_view_of_parts, members_view, Json, JsonValue};
use crate::message::{id_document, id_of, version_of_text, version_text, Id, IdView, Version};
use vstd::prelude::*;
use vstd::string::*;

verus! {

/// The error that a peer reports, or that stands for a malformed envelope.
#[derive(Debug, PartialEq)]
pub struct JsonRpcError {
    pub code: i64,
    pub message: String,
    pub data: Option<Json>,
}

pub ghost struct JsonRpcErrorView {
    pub code: int,
    pub message: Seq<char>,
    pub data: Option<JsonValue>,
}

impl View for JsonRpcError {
    type V = JsonRpcErrorView;

    open spec fn view(&self) -> JsonRpcErrorView {
        JsonRpcErrorView {
            code: self.code as int,
            message: self.message@,
            data: match self.data {
                Some(data) => Some(data@),
                None => None,
            },
        }
    }
}

/// The two optional payload members of a response, as they were decoded.
#[derive(Debug, PartialEq)]
pub struct ResponsePayload<P> {
    pub result: Option<P>,
    pub error: Option<JsonRpcError>,
}

/// A response.
#[derive(Debug, PartialEq)]
pub struct Response<P> {
    pub id: Id,
    pub jsonrpc: Option<Version>,
    pub payload: ResponsePayload<P>,
}

/// A response whose result is still a document.
pub ghost struct ResponseView {
    pub id: IdView,
    pub jsonrpc: Option<Version>,
    pub result: Option<JsonValue>,
    pub error: Option<JsonRpcErrorView>,
}

/// The value of an optional error.
pub open spec fn error_view(error: Option<JsonRpcError>) -> Option<JsonRpcErrorView> {
    match error {
        Some(error) => Some(error@),
        None => None,
    }
}

impl View for Response<Json> {
    type V = ResponseView;

    open spec fn view(&self) -> ResponseView {
        ResponseView {
            id: self.id@,
            jsonrpc: self.jsonrpc,
            result: match self.payload.result {
                Some(result) => Some(result@),
                None => None,
            },
            error: error_view(self.payload.error),
        }
    }
}

/// Why a document is no response envelope.
#[derive(Debug, Clone, Copy, PartialEq, Eq, Structural)]
pub enum EnvelopeFault {
    NotAnObject,
    MissingId,
    InvalidId,
    InvalidVersion,
    InvalidError,
}

/// The code of the errors that stand for a malformed envelope.
pub open spec fn malformed_code() -> int {
    -32603
}

/// The message of the error for an envelope with both payload members.
pub open spec fn both_message() -> Seq<char> {
    "both result and error present"@
}

/// The message of the error for an envelope with neither payload member.
pub open spec fn neither_message() -> Seq<char> {
    "neither result nor error present"@
}

/// The error that stands for a malformed envelope.
pub open spec fn malformed(message: Seq<char>) -> JsonRpcErrorView {
    JsonRpcErrorView { code: malformed_code(), message, data: None }
}

/// The words in which an error shows itself.
pub open spec fn error_text(error: JsonRpcErrorView) -> Seq<char> {
    "request failed with code "@ + decimal(error.code) + ": "@ + error.message
}

/// An optional member as the envelope rules read it: `null` counts as
/// missing.
pub open spec fn optional(value: Option<JsonValue>) -> Option<JsonValue> {
    if left_out(value) {
        None
    } else {
        value
    }
}

/// The document of an optional value: `null` where there is none.
pub open spec fn or_null(value: Option<JsonValue>) -> JsonValue {
    match value {
        Some(value) => value,
        None => JsonValue::Null,
    }
}

/// The members of the document of an error.
pub open spec fn error_members(error: JsonRpcErrorView) -> Seq<(Seq<char>, JsonValue)> {
    seq![
        ("code"@, JsonValue::Number(decimal(error.code))),
        ("message"@, JsonValue::String(error.message)),
        ("data"@, or_null(error.data)),
    ]
}

/// The document of an error.
pub open spec fn error_document(error: JsonRpcErrorView) -> JsonValue {
    JsonValue::Object(error_members(error))
}

/// The error that a document stands for: an object with an integer `code`
/// and a string `message`; `data` is optional and kept as it is.
pub open spec fn error_of(document: JsonValue) -> Option<JsonRpcErrorView> {
    if !(document is Object) {
        None
    } else {
        match (field(document, "code"@), field(document, "message"@)) {
            (Some(code), Some(JsonValue::String(message))) => match integer_of(code) {
                Some(code) => Some(
                    JsonRpcErrorView { code, message, data: optional(field(document, "data"@)) },
                ),
                None => None,
            },
            _ => None,
        }
    }
}

/// The members of the document of a response.
pub open spec fn response_members(response: ResponseView) -> Seq<(Seq<char>, JsonValue)> {
    seq![
        ("id"@, id_document(response.id)),
        (
            "jsonrpc"@,
            match response.jsonrpc {
                Some(version) => JsonValue::String(version_text(version)),
                None => JsonValue::Null,
            },
        ),
        ("result"@, or_null(response.result)),
        (
            "error"@,
            match response.error {
                Some(error) => error_document(error),
                None => JsonValue::Null,
            },
        ),
    ]
}

/// The document of a response. Every member is written; one without a value
/// is written as `null`.
pub open spec fn response_document(response: ResponseView) -> JsonValue {
    JsonValue::Object(response_members(response))
}

/// The envelope that a document stands for. The members are found by name,
/// wherever they stand. `id` is required; `jsonrpc`, `result` and `error`
/// are optional, and `null` counts as missing.
pub open spec fn envelope(document: JsonValue) -> Result<ResponseView, EnvelopeFault> {
    if !(document is Object) {
        Err(EnvelopeFault::NotAnObject)
    } else if field(document, "id"@) is None {
        Err(EnvelopeFault::MissingId)
    } else if id_of(field(document, "id"@)->0) is None {
        Err(EnvelopeFault::InvalidId)
    } else {
        let version = optional(field(document, "jsonrpc"@));
        let error = optional(field(document, "error"@));
        if version is Some && !(version->0 is String && version_of_text(version->0->String_0)
            is Some) {
            Err(EnvelopeFault::InvalidVersion)
        } else if error is Some && error_of(error->0) is None {
            Err(EnvelopeFault::InvalidError)
        } else {
            Ok(
                ResponseView {
                    id: id_of(field(document, "id"@)->0)->0,
                    jsonrpc: match version {
                        Some(version) => version_of_text(version->String_0),
                        None => None,
                    },
                    result: optional(field(document, "result"@)),
                    error: match error {
                        Some(error) => error_of(error),
                        None => None,
                    },
                },
            )
        }
    }
}

/// The outcome that the payload members stand for: the result or the error
/// where one of them is set, and the error for a malformed envelope where
/// both are set or neither is.
pub open spec fn outcome<P>(result: Option<P>, error: Option<JsonRpcErrorView>) -> Result<
    P,
    JsonRpcErrorView,
> {
    match (result, error) {
        (None, Some(error)) => Err(error),
        (Some(value), None) => Ok(value),
        (Some(_), Some(_)) => Err(malformed(both_message())),
        (None, None) => Err(malformed(neither_message())),
    }
}

/// Whether a typed response carries the identifier, version and error of an
/// envelope.
pub open spec fn carries<P>(typed: Response<P>, raw: ResponseView) -> bool {
    &&& typed.id@ == raw.id
    &&& typed.jsonrpc == raw.jsonrpc
    &&& error_view(typed.payload.error) == raw.error
}

/// Whether `r` is what decoding the result of an envelope gives. An envelope
/// without a result is carried over. A result goes through serde_json's own
/// value to the decoder: the failure of either is the failure of the whole,
/// and what the decoder gives is the typed result.
pub open spec fn typed_as<P, D: FnOnce(serde_json::Value) -> Result<P, serde_json::Error>>(
    raw: ResponseView,
    decode_result: D,
    r: Result<Response<P>, serde_json::Error>,
) -> bool {
    match raw.result {
        None => r matches Ok(typed) && carries(typed, raw) && typed.payload.result is None,
        Some(result) => match built_document(result) {
            None => r is Err,
            Some(held) => exists|value: serde_json::Value, decoded: Result<P, serde_json::Error>|
                value_document(value) == held && #[trigger] decode_result.ensures((value,), decoded)
                    && match decoded {
                    Ok(result) => r matches Ok(typed) && carries(typed, raw)
                        && typed.payload.result == Some(result),
                    Err(error) => r == Err::<Response<P>, _>(error),
                },
        },
    }
}

fn optional_member<'a>(document: &'a Json, name: &str) -> (r: Option<&'a Json>)
    ensures
        match r {
            Some(found) => optional(field(document@, name@)) == Some(found@),
            None => optional(field(document@, name@)) is None,
        },
{
    match document.get(name) {
        Some(Json::Null) => None,
        found => found,
    }
}

fn or_null_document(value: &Option<Json>) -> (r: Json)
    ensures
        r@ == or_null(
            match value {
                Some(value) => Some(value@),
                None => None,
            },
        ),
{
    match value {
        Some(value) => value.clone(),
        None => Json::Null,
    }
}

impl EnvelopeFault {
    /// The words that tell why a document is no envelope.
    pub fn message(&self) -> (r: &'static str)
        ensures
            r@ == match self {
                EnvelopeFault::NotAnObject => "a response must be an object"@,
                EnvelopeFault::MissingId => "missing field `id`"@,
                EnvelopeFault::InvalidId => "the `id` of a response must be an integer or a string"@,
                EnvelopeFault::InvalidVersion => "the `jsonrpc` of a response must be \"1.0\" or \"2.0\""@,
                EnvelopeFault::InvalidError =>
                    "the `error` of a response must be an object with an integer `code` and a string `message`"@,
            },
    {
        match self {
            EnvelopeFault::NotAnObject => "a response must be an object",
            EnvelopeFault::MissingId => "missing field `id`",
            EnvelopeFault::InvalidId => "the `id` of a response must be an integer or a string",
            EnvelopeFault::InvalidVersion => "the `jsonrpc` of a response must be \"1.0\" or \"2.0\"",
            EnvelopeFault::InvalidError =>
                "the `error` of a response must be an object with an integer `code` and a string `message`",
        }
    }
}

impl JsonRpcError {
    /// The words in which the error shows itself.
    pub fn to_string(&self) -> (r: String)
        ensures
            r@ == error_text(self@),
    {
        let r = String::from_str("request failed with code ").concat(
            decimal_text(self.code).as_str(),
        ).concat(": ").concat(self.message.as_str());
        assert(r@ =~= error_text(self@));
        r
    }

    /// The document of the error.
    pub fn to_document(&self) -> (r: Json)
        ensures
            r@ == error_document(self@),
    {
        let mut members: Vec<(String, Json)> = Vec::new();
        members.push((String::from_str("code"), Json::Number(decimal_text(self.code))));
        members.push((String::from_str("message"), Json::String(self.message.clone())));
        members.push((String::from_str("data"), or_null_document(&self.data)));
        assert(members_view(members@) =~= error_members(self@));
        let r = Json::Object(members);
        proof {
            lemma_view_of_parts(r);
        }
        r
    }

    /// The error that a document stands for.
    pub fn from_document(document: &Json) -> (r: Option<JsonRpcError>)
        ensures
            match r {
                Some(error) => error_of(document@) == Some(error@),
                None => error_of(document@) is None,
            },
    {
        match document {
            Json::Object(_) => {},
            _ => {
                return None;
            },
        }
        let code = match document.get("code") {
            Some(found) => match found.as_i64() {
                Some(code) => code,
                None => {
                    return None;
                },
            },
            None => {
                return None;
            },
        };
        let message = match document.get("message") {
            Some(Json::String(text)) => text.clone(),
            _ => {
                return None;
            },
        };
        let data = match optional_member(document, "data") {
            Some(found) => Some(found.clone()),
            None => None,
        };
        Some(JsonRpcError { code, message, data })
    }
}

impl<P> ResponsePayload<P> {
    /// The outcome that the payload stands for.
    pub fn into_result(self) -> (r: Result<P, JsonRpcError>)
        ensures
            match outcome(self.result, error_view(self.error)) {
                Ok(value) => r == Ok::<P, JsonRpcError>(value),
                Err(error) => r matches Err(found) && found@ == error,
            },
            self.result is None && self.error is Some ==> r == Err::<P, JsonRpcError>(
                self.error->0,
            ),
    {
        match (self.result, self.error) {
            (None, Some(error)) => Err(error),
            (Some(value), None) => Ok(value),
            (Some(_), Some(_)) => Err(
                JsonRpcError {
                    code: -32603,
                    message: String::from_str("both result and error present"),
                    data: None,
                },
            ),
            (None, None) => Err(
                JsonRpcError {
                    code: -32603,
                    message: String::from_str("neither result nor error present"),
                    data: None,
                },
            ),
        }
    }
}

impl<P> From<ResponsePayload<P>> for Result<P, JsonRpcError> {
    /// The outcome that the payload stands for.
    fn from(value: ResponsePayload<P>) -> (r: Self)
        ensures
            match outcome(value.result, error_view(value.error)) {
                Ok(found) => r == Ok::<P, JsonRpcError>(found),
                Err(error) => r matches Err(found) && found@ == error,
            },
    {
        value.into_result()
    }
}

impl<P> vstd::std_specs::convert::FromSpecImpl<ResponsePayload<P>> for Result<P, JsonRpcError> {
    /// The conversion is stated by the contract of `from`, over the values
    /// of the errors, not by a function of the payload.
    open spec fn obeys_from_spec() -> bool {
        false
    }

    open spec fn from_spec(value: ResponsePayload<P>) -> Self {
        match (value.result, value.error) {
            (Some(found), None) => Ok(found),
            (_, Some(error)) => Err(error),
            (None, None) => arbitrary(),
        }
    }
}

impl<P> Response<P> {
    /// A response of version 1.0 that carries a result.
    pub fn new_v1_result(id: Id, result: P) -> (r: Self)
        ensures
            r.id == id,
            r.jsonrpc == Some(Version::V1),
            r.payload.result == Some(result),
            r.payload.error is None,
    {
        Response {
            id,
            jsonrpc: Some(Version::V1),
            payload: ResponsePayload { result: Some(result), error: None },
        }
    }

    /// A response of version 2.0 that carries a result.
    pub fn new_v2_result(id: Id, result: P) -> (r: Self)
        ensures
            r.id == id,
            r.jsonrpc == Some(Version::V2),
            r.payload.result == Some(result),
            r.payload.error is None,
    {
        Response {
            id,
            jsonrpc: Some(Version::V2),
            payload: ResponsePayload { result: Some(result), error: None },
        }
    }

    /// A response of version 1.0 that carries an error.
    pub fn new_v1_error(id: Id, error: JsonRpcError) -> (r: Self)
        ensures
            r.id == id,
            r.jsonrpc == Some(Version::V1),
            r.payload.result is None,
            r.payload.error == Some(error),
    {
        Response {
            id,
            jsonrpc: Some(Version::V1),
            payload: ResponsePayload { result: None, error: Some(error) },
        }
    }

    /// A response of version 2.0 that carries an error.
    pub fn new_v2_error(id: Id, error: JsonRpcError) -> (r: Self)
        ensures
            r.id == id,
            r.jsonrpc == Some(Version::V2),
            r.payload.result is None,
            r.payload.error == Some(error),
    {
        Response {
            id,
            jsonrpc: Some(Version::V2),
            payload: ResponsePayload { result: None, error: Some(error) },
        }
    }

    /// Reads a wire text as a response with a result of type `P`. The text
    /// must be JSON and its document an envelope; `decode_result` gets the
    /// result, if there is one, as a serde_json value.
    pub fn decode<D: FnOnce(serde_json::Value) -> Result<P, serde_json::Error>>(
        text: &str,
        decode_result: D,
    ) -> (r: Result<Response<P>, serde_json::Error>)
        requires
            forall|value: serde_json::Value| decode_result.requires((value,)),
        ensures
            match text_document(text@) {
                None => r is Err,
                Some(document) => match envelope(document) {
                    Err(_) => r is Err,
                    Ok(raw) => typed_as(raw, decode_result, r),
                },
            },
    {
        match Response::<Json>::parse(text) {
            Ok(raw) => raw.typed(decode_result),
            Err(error) => Err(error),
        }
    }
}

impl Response<Json> {
    /// The envelope that a document stands for.
    pub fn from_document(document: &Json) -> (r: Result<Response<Json>, EnvelopeFault>)
        ensures
            match r {
                Ok(response) => envelope(document@) == Ok::<_, EnvelopeFault>(response@),
                Err(fault) => envelope(document@) == Err::<ResponseView, _>(fault),
            },
    {
        match document {
            Json::Object(_) => {},
            _ => {
                return Err(EnvelopeFault::NotAnObject);
            },
        }
        let id = match document.get("id") {
            Some(found) => match Id::from_document(found) {
                Some(id) => id,
                None => {
                    return Err(EnvelopeFault::InvalidId);
                },
            },
            None => {
                return Err(EnvelopeFault::MissingId);
            },
        };
        let jsonrpc = match optional_member(document, "jsonrpc") {
            Some(Json::String(text)) => match Version::from_text(text.as_str()) {
                Some(version) => Some(version),
                None => {
                    return Err(EnvelopeFault::InvalidVersion);
                },
            },
            Some(_) => {
                return Err(EnvelopeFault::InvalidVersion);
            },
            None => None,
        };
        let error = match optional_member(document, "error") {
            Some(found) => match JsonRpcError::from_document(found) {
                Some(error) => Some(error),
                None => {
                    return Err(EnvelopeFault::InvalidError);
                },
            },
            None => None,
        };
        let result = match optional_member(document, "result") {
            Some(found) => Some(found.clone()),
            None => None,
        };
        Ok(Response { id, jsonrpc, payload: ResponsePayload { result, error } })
    }

    /// Reads a wire text as a response whose result is still a document.
    pub fn parse(text: &str) -> (r: Result<Response<Json>, serde_json::Error>)
        ensures
            match text_document(text@) {
                None => r is Err,
                Some(document) => match envelope(document) {
                    Err(_) => r is Err,
                    Ok(raw) => r matches Ok(response) && response@ == raw,
                },
            },
    {
        match Json::parse(text) {
            Ok(document) => match Response::from_document(&document) {
                Ok(response) => Ok(response),
                Err(fault) => Err(custom_error(fault.message())),
            },
            Err(error) => Err(error),
        }
    }

    /// Decodes the result. `decode_result` gets it, if there is one, as a
    /// serde_json value.
    pub fn typed<P, D: FnOnce(serde_json::Value) -> Result<P, serde_json::Error>>(
        self,
        decode_result: D,
    ) -> (r: Result<Response<P>, serde_json::Error>)
        requires
            forall|value: serde_json::Value| decode_result.requires((value,)),
        ensures
            typed_as(self@, decode_result, r),
    {
        match self.payload.result {
            None => Ok(
                Response {
                    id: self.id,
                    jsonrpc: self.jsonrpc,
                    payload: ResponsePayload { result: None, error: self.payload.error },
                },
            ),
            Some(raw) => match value_from_json(&raw) {
                Err(error) => Err(error),
                Ok(value) => match decode_result(value) {
                    Ok(result) => Ok(
                        Response {
                            id: self.id,
                            jsonrpc: self.jsonrpc,
                            payload: ResponsePayload {
                                result: Some(result),
                                error: self.payload.error,
                            },
                        },
                    ),
                    Err(error) => Err(error),
                },
            },
        }
    }

    /// The document of the response.
    pub fn to_document(&self) -> (r: Json)
        ensures
            r@ == response_document(self@),
    {
        let mut members: Vec<(String, Json)> = Vec::new();
        members.push((String::from_str("id"), self.id.to_document()));
        let version = match self.jsonrpc {
            Some(version) => Json::String(String::from_str(version.as_str())),
            None => Json::Null,
        };
        members.push((String::from_str("jsonrpc"), version));
        members.push((String::from_str("result"), or_null_document(&self.payload.result)));
        let error = match &self.payload.error {
            Some(error) => error.to_document(),
            None => Json::Null,
        };
        members.push((String::from_str("error"), error));
        assert(members_view(members@) =~= response_members(self@));
        let r = Json::Object(members);
        proof {
            lemma_view_of_parts(r);
        }
        r
    }

    /// The wire text of the response.
    pub fn serialize(&self) -> (r: Result<String, serde_json::Error>)
        ensures
            match r {
                Ok(text) => rendered(response_document(self@)) == Some(text@),
                Err(_) => rendered(response_document(self@)) is None,
            },
    {
        self.to_document().render()
    }
}

} // verus!
