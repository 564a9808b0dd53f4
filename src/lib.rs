//! The dispatch core of a push-notification gateway: the payload model, the
//! decoding of plaintext blobs, the construction of backend messages, the
//! translation of backend outcomes into a small error taxonomy, and an
//! in-memory recording provider.
use vstd::prelude::*;

pub mod base64;
pub mod blob;
pub mod error;
pub mod fcm_provider;
pub mod noop;
pub mod payload;

verus! {

} // verus!
