//! The signed message envelope: payload variants, the envelope itself, and
//! the signing and verifying entry points of the codec.
//!
//! An envelope carries a random nonce `id` (a best-effort deduplication hint
//! for the transport, nothing more), an Ed25519 signature over the canonical
//! encoding of the payload alone, the signer's public key, and the payload.

use vstd::prelude::*;

use crate::crypto;
use crate::crypto::{pk_of, sig_of, verifies, Identity, PUBLIC_KEY_LEN, SIGNATURE_LEN};
use crate::site_messages::{SiteNotification, SiteRegistration};
use crate::wire;
use crate::wire::{spec_decode_envelope, spec_encode_envelope, spec_encode_payload};

verus! {

/// The closed set of announcement payload variants.
#[derive(Debug)]
pub enum Payload {
    SiteRegistration(SiteRegistration),
    SiteNotification(SiteNotification),
}

/// The mathematical model of a payload: its variant and its text.
pub enum PayloadView {
    SiteRegistration { site_name: Seq<char> },
    SiteNotification { notification: Seq<char> },
}

impl PayloadView {
    /// The wire tag of the variant.
    pub open spec fn tag(self) -> u8 {
        match self {
            PayloadView::SiteRegistration { .. } => wire::REGISTRATION_TAG,
            PayloadView::SiteNotification { .. } => wire::NOTIFICATION_TAG,
        }
    }

    /// The text the variant carries.
    pub open spec fn text(self) -> Seq<char> {
        match self {
            PayloadView::SiteRegistration { site_name } => site_name,
            PayloadView::SiteNotification { notification } => notification,
        }
    }

    /// The text's canonical encoding must fit the wire format's length field.
    /// Every payload held in executable memory satisfies this.
    pub open spec fn wf(self) -> bool {
        vstd::utf8::encode_utf8(self.text()).len() <= u64::MAX
    }
}

impl View for Payload {
    type V = PayloadView;

    open spec fn view(&self) -> PayloadView {
        match self {
            Payload::SiteRegistration(r) => PayloadView::SiteRegistration { site_name: r.site_name@ },
            Payload::SiteNotification(n) => PayloadView::SiteNotification {
                notification: n.notification@,
            },
        }
    }
}

/// A signed announcement envelope as decoded from, or encoded to, the wire.
#[derive(Debug)]
pub struct Message {
    id: u32,
    signature: Vec<u8>,
    public_key: Vec<u8>,
    pub payload: Payload,
}

/// The mathematical model of an envelope.
pub struct MessageView {
    pub id: u32,
    pub signature: Seq<u8>,
    pub public_key: Seq<u8>,
    pub payload: PayloadView,
}

impl MessageView {
    /// Structural validity: fixed-length signature and public key, and a
    /// payload whose encoding fits the wire format.
    pub open spec fn wf(self) -> bool {
        &&& self.signature.len() == SIGNATURE_LEN
        &&& self.public_key.len() == PUBLIC_KEY_LEN
        &&& self.payload.wf()
    }

    /// Whether the embedded signature verifies, under the embedded public
    /// key, over the canonical encoding of the payload: the authenticity
    /// criterion of the protocol.
    pub open spec fn authentic(self) -> bool {
        verifies(self.public_key, spec_encode_payload(self.payload), self.signature)
    }
}

impl View for Message {
    type V = MessageView;

    closed spec fn view(&self) -> MessageView {
        MessageView {
            id: self.id,
            signature: self.signature@,
            public_key: self.public_key@,
            payload: self.payload@,
        }
    }
}

/// The envelope that signing `payload` with `secret` produces, for a given
/// nonce.
pub open spec fn spec_signed_message(secret: Seq<u8>, payload: PayloadView, id: u32) -> MessageView {
    MessageView {
        id,
        signature: sig_of(secret, spec_encode_payload(payload)),
        public_key: pk_of(secret),
        payload,
    }
}

/// Round trip: the signed encoding of a payload decodes back to exactly the
/// signed envelope, whose payload is the one given. Together with the
/// contracts of `sign_and_encode` (which produces such an encoding, and
/// ensures the signed envelope is well-formed and authentic) and of
/// `decode_and_verify` (which accepts every authentic envelope encoding),
/// this says that what one participant signs and encodes, every receiver
/// decodes and verifies back to the same payload.
pub proof fn lemma_round_trip(secret: Seq<u8>, payload: PayloadView, id: u32)
    requires
        spec_signed_message(secret, payload, id).wf(),
    ensures
        spec_decode_envelope(spec_encode_envelope(spec_signed_message(secret, payload, id)))
            == Some(spec_signed_message(secret, payload, id)),
        spec_signed_message(secret, payload, id).payload == payload,
{
    wire::lemma_codec_round_trip(spec_signed_message(secret, payload, id));
}

/// Why a received byte blob was rejected: it is not a structurally valid
/// envelope at all, or it is one whose signature does not verify.
#[derive(Clone, Copy, Debug, PartialEq, Eq, Structural)]
pub enum CodecError {
    DecodeError,
    SignatureError,
}

impl Message {
    /// The payload the envelope carries.
    pub fn payload(&self) -> (r: &Payload)
        ensures
            r@ == self@.payload,
    {
        &self.payload
    }

    /// Canonically encodes the envelope.
    fn encode_envelope(&self) -> (r: Vec<u8>)
        ensures
            r@ == spec_encode_envelope(self@),
            self@.payload.wf(),
    {
        let mut out: Vec<u8> = Vec::new();
        out.push(wire::ENVELOPE_TAG);
        let mut id_bytes = vstd::bytes::u32_to_le_bytes(self.id);
        out.append(&mut id_bytes);
        wire::push_bytes(&mut out, self.signature.as_slice());
        wire::push_bytes(&mut out, self.public_key.as_slice());
        let mut payload_bytes = wire::encode_payload(&self.payload);
        out.append(&mut payload_bytes);
        proof {
            assert(out@ =~= spec_encode_envelope(self@));
        }
        out
    }

    /// Decodes an envelope, accepting exactly the canonical encodings.
    fn decode_envelope(bytes: &[u8]) -> (r: Option<Message>)
        ensures
            r matches Some(m) ==> spec_decode_envelope(bytes@) == Some(m@) && m@.wf(),
            r is None ==> spec_decode_envelope(bytes@) is None,
    {
        if bytes.len() < wire::MIN_ENVELOPE_LEN {
            return None;
        }
        if bytes[0] != wire::ENVELOPE_TAG {
            return None;
        }
        let id = vstd::bytes::u32_from_le_bytes(vstd::slice::slice_subrange(
            bytes,
            1,
            wire::SIG_START,
        ));
        let signature = vstd::slice::slice_to_vec(vstd::slice::slice_subrange(
            bytes,
            wire::SIG_START,
            wire::SIG_END,
        ));
        let public_key = vstd::slice::slice_to_vec(vstd::slice::slice_subrange(
            bytes,
            wire::SIG_END,
            wire::KEY_END,
        ));
        match wire::decode_payload(vstd::slice::slice_subrange(bytes, wire::KEY_END, bytes.len())) {
            None => None,
            Some(payload) => {
                let message = Message { id, signature, public_key, payload };
                proof {
                    wire::lemma_payload_decode_is_encoding(
                        bytes@.subrange(wire::KEY_END as int, bytes@.len() as int),
                        message@.payload,
                    );
                }
                Some(message)
            },
        }
    }

    /// Serializes `payload` canonically, signs those exact bytes with
    /// `identity`'s secret key, and returns the canonical encoding of the
    /// envelope holding a fresh random nonce, the signature, the signer's
    /// public key, and the payload. For a fixed nonce the result is a fixed
    /// function of identity and payload, and the envelope it encodes passes
    /// signature verification.
    pub fn sign_and_encode(identity: &Identity, payload: Payload) -> (r: Vec<u8>)
        requires
            identity.wf(),
        ensures
            payload@.wf(),
            exists|id: u32| r@ == spec_encode_envelope(spec_signed_message(identity@, payload@, id)),
            forall|id: u32| #[trigger] spec_signed_message(identity@, payload@, id).wf(),
            verifies(
                pk_of(identity@),
                spec_encode_payload(payload@),
                sig_of(identity@, spec_encode_payload(payload@)),
            ),
    {
        let payload_bytes = wire::encode_payload(&payload);
        let signature = identity.sign(payload_bytes.as_slice());
        let id = crypto::random_id();
        let message = Message { id, signature, public_key: identity.public_key(), payload };
        let r = message.encode_envelope();
        proof {
            assert(message@ == spec_signed_message(identity@, message@.payload, id));
            assert(r@ == spec_encode_envelope(spec_signed_message(identity@, message@.payload, id)));
        }
        r
    }

    /// Deserializes an envelope from `bytes` and verifies its signature over
    /// the canonical re-encoding of the decoded payload, under the embedded
    /// public key. Returns `DecodeError` exactly when `bytes` is not the
    /// canonical encoding of any envelope, `SignatureError` exactly when it
    /// is one but the envelope is not authentic, and the decoded envelope
    /// otherwise.
    pub fn decode_and_verify(bytes: &[u8]) -> (r: Result<Message, CodecError>)
        ensures
            r matches Ok(m) ==> {
                &&& spec_decode_envelope(bytes@) == Some(m@)
                &&& bytes@ == spec_encode_envelope(m@)
                &&& m@.wf()
                &&& m@.authentic()
            },
            r == Err::<Message, CodecError>(CodecError::DecodeError) <==> spec_decode_envelope(
                bytes@,
            ) is None,
            r == Err::<Message, CodecError>(CodecError::SignatureError) <==> (
            spec_decode_envelope(bytes@) matches Some(mv) && !mv.authentic()),
    {
        match Message::decode_envelope(bytes) {
            None => Err(CodecError::DecodeError),
            Some(message) => {
                proof {
                    wire::lemma_decode_is_encoding(bytes@, message@);
                }
                let payload_bytes = wire::encode_payload(&message.payload);
                let ok = crypto::verify_signature(
                    message.public_key.as_slice(),
                    payload_bytes.as_slice(),
                    message.signature.as_slice(),
                );
                if ok {
                    Ok(message)
                } else {
                    Err(CodecError::SignatureError)
                }
            },
        }
    }
}

} // verus!
