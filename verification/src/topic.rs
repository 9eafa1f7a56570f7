//! The broadcast topic: a human-readable name hashed into the fixed-width
//! identifier that the transport subscribes by.

use vstd::prelude::*;
use vstd::utf8::encode_utf8;

use crate::crypto;
use crate::crypto::hash_of;

verus! {

/// A topic: its human-readable name and the 32-byte identifier derived by
/// hashing that name.
#[derive(Clone, Debug, PartialEq, Eq, Hash)]
pub struct ChatTopic(String, [u8; 32]);

impl ChatTopic {
    /// The topic's human-readable name.
    pub closed spec fn spec_name(&self) -> Seq<char> {
        self.0@
    }

    /// The topic's fixed-width identifier.
    pub closed spec fn spec_id(&self) -> Seq<u8> {
        self.1@
    }

    /// The identifier is the digest of the name's UTF-8 bytes.
    pub open spec fn wf(&self) -> bool {
        self.spec_id() == hash_of(encode_utf8(self.spec_name()))
    }

    /// Derives a topic from its name.
    pub fn new(name: &str) -> (r: ChatTopic)
        ensures
            r.spec_name() == name@,
            r.wf(),
    {
        let digest = crypto::hash_digest(name.as_bytes());
        ChatTopic(name.to_owned(), digest)
    }

    /// The identifier, as the transport wants it.
    pub fn id(&self) -> (r: [u8; 32])
        ensures
            r@ == self.spec_id(),
    {
        self.1
    }

    /// The name, for display.
    pub fn name(&self) -> (r: &str)
        ensures
            r@ == self.spec_name(),
    {
        self.0.as_str()
    }
}

} // verus!
