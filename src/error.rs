//! The outcomes of a failed send, in terms a caller can act on.
use vstd::prelude::*;

verus! {

#[derive(Debug, Clone)]
pub enum Error {
    /// The token is permanently invalid for the backend; stop sending to it.
    BadDeviceToken(String),
    /// The platform credential configured for the token's app is invalid.
    BadApnsCredentials,
    /// The gateway's own backend API key is invalid or unauthorized.
    BadFcmApiKey,
    /// The backend took the request but reported another reason.
    BackendResponse(String),
    /// The send failed at the transport layer for a reason other than
    /// authorization.
    BackendTransport(String),
    /// A plaintext payload whose blob does not decode into a title and body.
    PayloadDecode,
}

} // verus!
