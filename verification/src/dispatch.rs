//! One call: the request goes out as text, the answer comes back as text and
//! is unwrapped into the typed result or one of the three failures.

use crate::binding::{documents, failed_at, first_failed_at, request_for, Dispatcher};
use crate::codec::{rendered, text_document};
use crate::error::Error;
use crate::json::JsonValue;
use crate::message::{request_document, Request};
use crate::response::{envelope, error_view, outcome, typed_as, Response};
use crate::transport::SendRequest;
use vstd::prelude::*;

verus! {

/// Whether `r` is what a decoded response unwraps to: its result, or the
/// error that it carries or that stands for its malformed envelope.
pub open spec fn unwrapped<P, E>(response: Response<P>, r: Result<P, Error<E>>) -> bool {
    match outcome(response.payload.result, error_view(response.payload.error)) {
        Ok(value) => r == Ok::<P, Error<E>>(value),
        Err(error) => r matches Err(Error::JsonRpc(found)) && found@ == error,
    }
}

/// Whether `r` is what the text of an answer gives: a codec failure where the
/// text is no JSON, its document no envelope or its result not of the
/// declared type; otherwise what the decoded response unwraps to.
pub open spec fn answered<P, E, D: FnOnce(serde_json::Value) -> Result<P, serde_json::Error>>(
    text: Seq<char>,
    decode_result: D,
    r: Result<P, Error<E>>,
) -> bool {
    match text_document(text) {
        None => r matches Err(Error::Serde(_)),
        Some(document) => match envelope(document) {
            Err(_) => r matches Err(Error::Serde(_)),
            Ok(raw) => exists|decoded: Result<Response<P>, serde_json::Error>|
                #[trigger] typed_as(raw, decode_result, decoded) && match decoded {
                    Ok(response) => unwrapped(response, r),
                    Err(error) => r == Err::<P, Error<E>>(Error::Serde(error)),
                },
        },
    }
}

/// Whether `r` is what the transport's reply gives: its failure as it is, or
/// what the text of the answer gives.
pub open spec fn concluded<P, E, D: FnOnce(serde_json::Value) -> Result<P, serde_json::Error>>(
    reply: Result<String, E>,
    decode_result: D,
    r: Result<P, Error<E>>,
) -> bool {
    match reply {
        Err(failure) => r == Err::<P, Error<E>>(Error::Client(failure)),
        Ok(text) => answered(text@, decode_result, r),
    }
}

/// Whether `r` is what sending a request can give: a codec failure where the
/// request cannot be written; else what [`conclude`] makes of a reply that
/// the transport hands back for the text of the request, sent to `endpoint`.
pub open spec fn sent<C: SendRequest, P, D: FnOnce(serde_json::Value) -> Result<P, serde_json::Error>>(
    client: &C,
    endpoint: url::Url,
    document: JsonValue,
    decode_result: D,
    r: Result<P, Error<C::Error>>,
) -> bool {
    match rendered(document) {
        None => r matches Err(Error::Serde(_)),
        Some(body) => exists|reply: Result<String, C::Error>|
            client.replies(endpoint, body, reply) && #[trigger] concluded(
                reply,
                decode_result,
                r,
            ),
    }
}

/// The first half of a call: the body to send, or the failure of the encoder.
pub fn prepare<E>(request: &Request) -> (r: Result<String, Error<E>>)
    ensures
        match r {
            Ok(body) => rendered(request_document(request@)) == Some(body@),
            Err(error) => error is Serde && rendered(request_document(request@)) is None,
        },
{
    match request.serialize() {
        Ok(body) => Ok(body),
        Err(error) => Err(Error::Serde(error)),
    }
}

/// The second half of a call: what the transport's reply means. A failure of
/// the transport stays one; an answer is decoded and unwrapped.
pub fn conclude<P, E, D: FnOnce(serde_json::Value) -> Result<P, serde_json::Error>>(
    reply: Result<String, E>,
    decode_result: D,
) -> (r: Result<P, Error<E>>)
    requires
        forall|value: serde_json::Value| decode_result.requires((value,)),
    ensures
        concluded(reply, decode_result, r),
        reply is Err <==> r matches Err(Error::Client(_)),
{
    match reply {
        Err(failure) => Err(Error::Client(failure)),
        Ok(text) => match Response::<P>::decode(text.as_str(), decode_result) {
            Err(error) => Err(Error::Serde(error)),
            Ok(response) => match response.payload.into_result() {
                Ok(value) => Ok(value),
                Err(error) => Err(Error::JsonRpc(error)),
            },
        },
    }
}

/// One blocking call: sends the request through `client` to `endpoint` and
/// unwraps the answer. Where the request cannot be written, nothing is sent.
/// Otherwise the outcome is what [`conclude`] makes of whatever the
/// transport handed back.
pub fn call<C: SendRequest, P, D: FnOnce(serde_json::Value) -> Result<P, serde_json::Error>>(
    client: &C,
    endpoint: url::Url,
    request: &Request,
    decode_result: D,
) -> (r: Result<P, Error<C::Error>>)
    requires
        forall|value: serde_json::Value| decode_result.requires((value,)),
    ensures
        sent(client, endpoint, request_document(request@), decode_result, r),
{
    match prepare::<C::Error>(request) {
        Err(error) => Err(error),
        Ok(body) => {
            let ghost sent_body = body@;
            let reply = client.send_request(endpoint, body);
            let r = conclude(reply, decode_result);
            assert(client.replies(endpoint, sent_body, reply) && concluded(
                reply,
                decode_result,
                r,
            ));
            r
        },
    }
}

/// One blocking call of a bound method, as the binding lays it down: the
/// arguments are taken in declaration order as what encoding each gave, the
/// request is built for the interface's version, written, sent through
/// `client` to `endpoint`, and the answer is unwrapped. The first argument
/// that failed to encode is a codec failure, and nothing is sent.
pub fn dispatch<C: SendRequest, P, D: FnOnce(serde_json::Value) -> Result<P, serde_json::Error>>(
    dispatcher: &Dispatcher,
    method: usize,
    client: &C,
    endpoint: url::Url,
    arguments: Vec<Result<serde_json::Value, serde_json::Error>>,
    decode_result: D,
) -> (r: Result<P, Error<C::Error>>)
    requires
        dispatcher.wf(),
        method < dispatcher.methods@.len(),
        arguments@.len() == dispatcher.methods@[method as int].parameters@.len(),
        forall|value: serde_json::Value| decode_result.requires((value,)),
    ensures
        if exists|i: int| failed_at(arguments@, i) {
            exists|i: int|
                first_failed_at(arguments@, i) && r == Err::<P, Error<C::Error>>(
                    Error::Serde(arguments@[i]->Err_0),
                )
        } else {
            sent(
                client,
                endpoint,
                request_document(
                    request_for(
                        dispatcher.version,
                        dispatcher.methods@[method as int]@,
                        documents(arguments@),
                    ),
                ),
                decode_result,
                r,
            )
        },
{
    match dispatcher.request(method, arguments) {
        Err(error) => {
            assert(exists|i: int| failed_at(arguments@, i)) by {
                let i = choose|i: int|
                    first_failed_at(arguments@, i) && arguments@[i] == Err::<serde_json::Value, _>(
                        error,
                    );
                assert(failed_at(arguments@, i));
            }
            Err(Error::Serde(error))
        },
        Ok(request) => call(client, endpoint, &request, decode_result),
    }
}

} // verus!
