//! The FCM-backed provider: message construction and the classification of
//! backend outcomes into `Error`. The send itself is asynchronous network
//! work done by the caller with the provider's client.
use vstd::prelude::*;
use vstd::string::StringExecFns;
use vstd::utf8::encode_utf8;
use vstd::std_specs::cmp::PartialEqSpec;
use crate::blob::{blob_text, DecryptedPayloadBlob};
use crate::error::Error;
use crate::payload::MessagePayload;

verus! {

#[verifier::external_type_specification]
#[verifier::external_body]
pub struct ExFcmClient(fcm::Client);

/// Relies on `fcm::Client::new`, which builds a fresh HTTP client with its own
/// connection pool; nothing is promised about the value. It takes no input;
/// it panics only where the HTTP client cannot be set up at all on the
/// machine (its TLS backend fails to initialise).
pub assume_specification[ fcm::Client::new ]() -> fcm::Client;

/// Delivery priority of a message.
#[derive(Debug, Clone, Copy, PartialEq, Eq, Structural)]
pub enum Priority {
    Normal,
    High,
}

/// The visible section of a message.
#[derive(Debug, Clone)]
pub struct Notification {
    pub title: String,
    pub body: String,
}

/// A message ready for the backend.
#[derive(Debug, Clone)]
pub struct FcmMessage {
    pub api_key: String,
    pub to: String,
    pub data: MessagePayload,
    pub notification: Option<Notification>,
    pub priority: Option<Priority>,
    pub content_available: Option<bool>,
}

/// A per-message error reason reported by the backend.
#[derive(Debug, Clone)]
pub enum ErrorReason {
    MissingRegistration,
    InvalidRegistration,
    NotRegistered,
    InvalidApnsCredential,
    Other(String),
}

/// A failure of the send itself.
#[derive(Debug, Clone)]
pub enum TransportError {
    Unauthorized,
    Other(String),
}

/// What the backend answered to one send: `Ok(None)` when it accepted the
/// message without reporting an error.
pub type BackendOutcome = Result<Option<ErrorReason>, TransportError>;

/// Delivers through FCM with an API key. Identity is the key alone (the
/// view): the client is owned by this value and never shared.
pub struct FcmProvider {
    api_key: String,
    client: fcm::Client,
}

impl View for FcmProvider {
    type V = Seq<char>;

    closed spec fn view(&self) -> Seq<char> {
        self.api_key@
    }
}

/// The message for an encrypted payload: data only, high priority, and
/// marked for background delivery.
pub open spec fn is_data_only_message(m: FcmMessage, key: Seq<char>, token: Seq<char>, p: MessagePayload) -> bool {
    &&& m.api_key@ == key
    &&& m.to@ == token
    &&& m.data == p
    &&& m.notification.is_none()
    &&& m.priority == Some(Priority::High)
    &&& m.content_available == Some(true)
}

/// The message for a plaintext payload: the visible title and body beside
/// the payload as data.
pub open spec fn is_visible_message(
    m: FcmMessage,
    key: Seq<char>,
    token: Seq<char>,
    p: MessagePayload,
    title: Seq<char>,
    body: Seq<char>,
) -> bool {
    &&& m.api_key@ == key
    &&& m.to@ == token
    &&& m.data == p
    &&& m.notification.is_some()
    &&& m.notification.unwrap().title@ == title
    &&& m.notification.unwrap().body@ == body
    &&& m.priority.is_none()
    &&& m.content_available.is_none()
}

impl FcmProvider {
    pub fn new(api_key: String) -> (r: Self)
        ensures
            r@ == api_key@,
    {
        FcmProvider { api_key, client: fcm::Client::new() }
    }

    /// The API key.
    pub fn api_key(&self) -> (r: &str)
        ensures
            r@ == self@,
    {
        self.api_key.as_str()
    }

    /// A readable description: the key after a fixed label.
    pub fn describe(&self) -> (r: String)
        ensures
            r@ == "[FcmProvider] api_key = "@ + self@,
    {
        let mut s = "[FcmProvider] api_key = ".to_owned();
        s.append(self.api_key.as_str());
        s
    }

    /// The client that sends this provider's messages.
    pub fn client(&self) -> &fcm::Client {
        &self.client
    }

    /// Builds the message for `payload` to `token`. An encrypted payload
    /// gives a data-only message; a plaintext one gives a visible message
    /// from its decoded blob, or `PayloadDecode` where the blob is malformed.
    pub fn build_message(&self, token: String, payload: MessagePayload) -> (r: Result<FcmMessage, Error>)
        ensures
            payload.encrypted() ==> r.is_ok() && is_data_only_message(
                r.unwrap(),
                self@,
                token@,
                payload,
            ),
            !payload.encrypted() ==> match blob_text(encode_utf8(payload.blob@)) {
                Some((t, d)) => r.is_ok() && is_visible_message(
                    r.unwrap(),
                    self@,
                    token@,
                    payload,
                    t,
                    d,
                ),
                None => r == Err::<FcmMessage, Error>(Error::PayloadDecode),
            },
    {
        if payload.is_encrypted() {
            Ok(
                FcmMessage {
                    api_key: self.api_key.clone(),
                    to: token,
                    data: payload,
                    notification: None,
                    priority: Some(Priority::High),
                    content_available: Some(true),
                },
            )
        } else {
            let blob = DecryptedPayloadBlob::from_base64_encoded(payload.blob.clone())?;
            Ok(
                FcmMessage {
                    api_key: self.api_key.clone(),
                    to: token,
                    data: payload,
                    notification: Some(Notification { title: blob.title, body: blob.body }),
                    priority: None,
                    content_available: None,
                },
            )
        }
    }
}

/// Classifies what the backend answered into this library's outcome.
pub fn classify_response(outcome: BackendOutcome) -> (r: Result<(), Error>)
    ensures
        match outcome {
            Ok(None) => r.is_ok(),
            Ok(Some(ErrorReason::MissingRegistration)) => r matches Err(Error::BadDeviceToken(m))
                && m@ == "Missing registration for token"@,
            Ok(Some(ErrorReason::InvalidRegistration)) => r matches Err(Error::BadDeviceToken(m))
                && m@ == "Invalid token registration"@,
            Ok(Some(ErrorReason::NotRegistered)) => r matches Err(Error::BadDeviceToken(m))
                && m@ == "Token is not registered"@,
            Ok(Some(ErrorReason::InvalidApnsCredential)) => r matches Err(Error::BadApnsCredentials),
            Ok(Some(ErrorReason::Other(s))) => r matches Err(Error::BackendResponse(m)) && m == s,
            Err(TransportError::Unauthorized) => r matches Err(Error::BadFcmApiKey),
            Err(TransportError::Other(c)) => r matches Err(Error::BackendTransport(m)) && m == c,
        },
{
    match outcome {
        Ok(None) => Ok(()),
        Ok(Some(ErrorReason::MissingRegistration)) => Err(
            Error::BadDeviceToken("Missing registration for token".to_owned()),
        ),
        Ok(Some(ErrorReason::InvalidRegistration)) => Err(
            Error::BadDeviceToken("Invalid token registration".to_owned()),
        ),
        Ok(Some(ErrorReason::NotRegistered)) => Err(
            Error::BadDeviceToken("Token is not registered".to_owned()),
        ),
        Ok(Some(ErrorReason::InvalidApnsCredential)) => Err(Error::BadApnsCredentials),
        Ok(Some(ErrorReason::Other(s))) => Err(Error::BackendResponse(s)),
        Err(TransportError::Unauthorized) => Err(Error::BadFcmApiKey),
        Err(TransportError::Other(c)) => Err(Error::BackendTransport(c)),
    }
}

impl Clone for FcmProvider {
    /// The same key with a freshly built client.
    fn clone(&self) -> (r: Self)
        ensures
            r@ == self@,
    {
        FcmProvider { api_key: self.api_key.clone(), client: fcm::Client::new() }
    }

    fn clone_from(&mut self, source: &Self)
        ensures
            final(self)@ == source@,
    {
        self.api_key = source.api_key.clone();
        self.client = fcm::Client::new();
    }
}

impl PartialEq for FcmProvider {
    fn eq(&self, other: &Self) -> (r: bool)
        ensures
            r == (self@ == other@),
    {
        self.api_key == other.api_key
    }
}

impl vstd::std_specs::cmp::PartialEqSpecImpl for FcmProvider {
    open spec fn obeys_eq_spec() -> bool {
        true
    }

    open spec fn eq_spec(&self, other: &FcmProvider) -> bool {
        self@ == other@
    }
}

/// A clone compares equal to its source: both carry the same key. (Its
/// client is a new one, built by the clone.)
pub proof fn lemma_clone_equals_source(source: FcmProvider, copy: FcmProvider)
    requires
        copy@ == source@,
    ensures
        source.eq_spec(&copy),
        copy.eq_spec(&source),
{
}

} // verus!
