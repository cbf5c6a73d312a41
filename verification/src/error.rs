//! The three ways in which a call can fail.

use crate::response::{error_text, JsonRpcError};
use vstd::prelude::*;
use vstd::string::*;

verus! {

/// The failure of a call, by where it arose: in the transport, at the peer
/// (or in a malformed envelope), or in encoding and decoding.
#[derive(Debug)]
pub enum Error<C> {
    Client(C),
    JsonRpc(JsonRpcError),
    Serde(serde_json::Error),
}

impl<C> From<serde_json::Error> for Error<C> {
    fn from(serde_error: serde_json::Error) -> (r: Self) {
        Error::Serde(serde_error)
    }
}

impl<C> vstd::std_specs::convert::FromSpecImpl<serde_json::Error> for Error<C> {
    open spec fn obeys_from_spec() -> bool {
        true
    }

    open spec fn from_spec(serde_error: serde_json::Error) -> Self {
        Error::Serde(serde_error)
    }
}

impl<C> From<JsonRpcError> for Error<C> {
    fn from(jsonrpc_error: JsonRpcError) -> (r: Self) {
        Error::JsonRpc(jsonrpc_error)
    }
}

impl<C> vstd::std_specs::convert::FromSpecImpl<JsonRpcError> for Error<C> {
    open spec fn obeys_from_spec() -> bool {
        true
    }

    open spec fn from_spec(jsonrpc_error: JsonRpcError) -> Self {
        Error::JsonRpc(jsonrpc_error)
    }
}

impl<C: core::fmt::Display> Error<C> {
    /// The words in which the failure shows itself: those of whatever it
    /// wraps.
    pub fn to_string(&self) -> (r: String)
        ensures
            match self {
                Error::Client(inner) => to_string_from_display_ensures::<C>(inner, r),
                Error::JsonRpc(inner) => r@ == error_text(inner@),
                Error::Serde(inner) => to_string_from_display_ensures::<serde_json::Error>(inner, r),
            },
    {
        match self {
            Error::Client(inner) => inner.to_string(),
            Error::JsonRpc(inner) => inner.to_string(),
            Error::Serde(inner) => inner.to_string(),
        }
    }
}

} // verus!
