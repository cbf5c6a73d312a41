//! The transport capability: what a client must be able to do for a call to
//! go out.

use vstd::prelude::*;

verus! {

/// `url::Url`, carried as it is.
#[verifier::external_type_specification]
#[verifier::external_body]
pub struct ExUrl(url::Url);

/// How a request is sent to a server. An implementation posts `body` to
/// `endpoint` and hands back the body of the answer, or its own error.
pub trait SendRequest {
    type Error;

    /// Whether `reply` is something that this transport can hand back for
    /// `body` sent to `endpoint`. An implementation says here what it
    /// promises of its replies; one that says nothing promises nothing.
    open spec fn replies(
        &self,
        endpoint: url::Url,
        body: Seq<char>,
        reply: Result<String, Self::Error>,
    ) -> bool {
        true
    }

    fn send_request(&self, endpoint: url::Url, body: String) -> (reply: Result<String, Self::Error>)
        ensures
            self.replies(endpoint, body@, reply),
    ;
}

} // verus!
