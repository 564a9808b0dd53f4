//! The notification payload handed to a provider.
use vstd::prelude::*;

verus! {

/// The bit of `MessagePayload::flags` that marks an end-to-end encrypted blob.
pub const ENCRYPTED_FLAG: u32 = 1;

/// One notification to deliver.
#[derive(Debug)]
pub struct MessagePayload {
    pub topic: Option<String>,
    pub flags: u32,
    /// Ciphertext when encrypted; otherwise base64 text of the visible fields.
    pub blob: String,
}

impl MessagePayload {
    pub open spec fn encrypted(&self) -> bool {
        self.flags & ENCRYPTED_FLAG == ENCRYPTED_FLAG
    }

    pub fn is_encrypted(&self) -> (r: bool)
        ensures
            r == self.encrypted(),
    {
        self.flags & ENCRYPTED_FLAG == ENCRYPTED_FLAG
    }
}

/// Two payloads with the same topic, flags and blob text.
pub open spec fn same_payload(a: MessagePayload, b: MessagePayload) -> bool {
    &&& a.flags == b.flags
    &&& a.blob@ == b.blob@
    &&& match (a.topic, b.topic) {
        (Some(x), Some(y)) => x@ == y@,
        (None, None) => true,
        _ => false,
    }
}

impl PartialEq for MessagePayload {
    fn eq(&self, other: &Self) -> (r: bool)
        ensures
            r == same_payload(*self, *other),
    {
        let topics = match (&self.topic, &other.topic) {
            (Some(x), Some(y)) => *x == *y,
            (None, None) => true,
            _ => false,
        };
        topics && self.flags == other.flags && self.blob == other.blob
    }
}

impl vstd::std_specs::cmp::PartialEqSpecImpl for MessagePayload {
    open spec fn obeys_eq_spec() -> bool {
        true
    }

    open spec fn eq_spec(&self, other: &MessagePayload) -> bool {
        same_payload(*self, *other)
    }
}

impl Clone for MessagePayload {
    fn clone(&self) -> (r: Self)
        ensures
            r == *self,
    {
        let topic = match &self.topic {
            Some(t) => Some(t.clone()),
            None => None,
        };
        MessagePayload { topic, flags: self.flags, blob: self.blob.clone() }
    }
}

} // verus!
