//! The failure taxonomy of the bracket and profile calls.
//!
//! A well-formed "no such team / match" answer is not an error: it comes
//! back as an absent value or as a search outcome. What is an error is
//! failing to ask (transport, timeout) or getting an answer that does not
//! match the expected schema; callers must tell the two apart, since their
//! display text differs. Either carries a human-readable cause; no retry is
//! attempted here.

use vstd::prelude::*;

verus! {

/// Why an external call failed: the transport failed, or the response body
/// did not match the expected schema.
pub enum FetchError {
    /// Transport or timeout failure calling an external endpoint.
    Network(String),
    /// The response arrived but did not decode as the expected shape.
    Decode(String),
}

impl FetchError {
    /// The human-readable cause carried by the failure.
    pub fn cause(&self) -> (r: &str)
        ensures
            r@ == (match *self {
                FetchError::Network(m) => m@,
                FetchError::Decode(m) => m@,
            }),
    {
        match self {
            FetchError::Network(m) => m.as_str(),
            FetchError::Decode(m) => m.as_str(),
        }
    }

    /// Whether the failure means the endpoint could not even be asked, as
    /// opposed to answering in an unexpected shape.
    pub fn is_network(&self) -> (r: bool)
        ensures
            r == (self matches FetchError::Network(_)),
    {
        match self {
            FetchError::Network(_) => true,
            FetchError::Decode(_) => false,
        }
    }
}

} // verus!
