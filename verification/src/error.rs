//! The error taxonomy of the library.
//!
//! Every fallible operation of the crate reports one of these variants, so a
//! caller can tell a missing credential from a malformed one, a transport
//! failure from a body of the wrong shape, and a well-formed response that
//! simply carries no choices.

use vstd::prelude::*;

verus! {

/// Everything that can go wrong between reading the credentials and
/// extracting the completion text.
#[derive(Debug, Clone, Copy, PartialEq, Eq, Structural)]
pub enum ApiError {
    /// A required credential was absent from the environment.
    Configuration,
    /// A credential holds a character that is illegal in an HTTP header value.
    HeaderEncoding,
    /// The network request itself failed (connection, DNS, reset).
    Transport,
    /// The response body does not match the expected JSON shape.
    Deserialization,
    /// The response parsed, but its sequence of results is empty.
    EmptyResponse,
}

impl ApiError {
    /// A short human-readable rendering, for the entry point to print.
    pub fn describe(&self) -> (r: &'static str)
        ensures
            r@ == match *self {
                ApiError::Configuration => "missing required environment variable"@,
                ApiError::HeaderEncoding => "credential is not a legal header value"@,
                ApiError::Transport => "network request failed"@,
                ApiError::Deserialization => "response body has an unexpected shape"@,
                ApiError::EmptyResponse => "response contains no results"@,
            },
    {
        match *self {
            ApiError::Configuration => "missing required environment variable",
            ApiError::HeaderEncoding => "credential is not a legal header value",
            ApiError::Transport => "network request failed",
            ApiError::Deserialization => "response body has an unexpected shape",
            ApiError::EmptyResponse => "response contains no results",
        }
    }
}

} // verus!
