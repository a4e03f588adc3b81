//! Error taxonomy of the client: credential lifecycle errors, response
//! decoding errors, and endpoint invocation errors.

use vstd::prelude::*;

verus! {

/// Errors of the credential lifecycle: obtaining, caching and refreshing
/// the short-lived bearer token.
#[derive(Debug, Clone)]
pub enum CredentialError {
    /// The client id or the client secret is not configured.
    MissingConfig,
    /// The authorization endpoint answered with an `error` field.
    RemoteRejected { code: String, description: String },
    /// The refresh call failed below the protocol: connection trouble,
    /// or a reply that carries no usable token.
    Transport(String),
}

/// Errors of response decoding: both the multi-frame body grammar and the
/// per-frame field extraction.
#[derive(Debug, Clone)]
pub enum ResponseError {
    /// A non-empty block of the body does not begin with the `"data: "`
    /// prefix; the offending block is carried along.
    MalformedFrame(String),
    /// A block's payload is not valid JSON.
    InvalidJson,
    /// The frame has no `result` field.
    MissingField,
    /// The frame's `result` field is present but not a string.
    WrongType,
}

/// Errors of an endpoint invocation.
#[derive(Debug)]
pub enum ApiError {
    /// Joining the base url with the model path failed.
    UrlError,
    /// Obtaining the access token failed.
    Auth(CredentialError),
    /// The provider answered with a top-level `error_code` field; the whole
    /// reply is carried along.
    RemoteRejected(crate::json::JsonVal),
    /// Connection trouble, a timeout, or a body that is not JSON.
    Transport(String),
}

} // verus!
