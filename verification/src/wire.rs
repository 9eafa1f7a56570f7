//! The canonical wire format of announcement envelopes.
//!
//! An encoded envelope is an ordered binary record with fixed field order
//! and no alternative representations:
//!
//! ```text
//! offset 0          1   envelope tag (a constant discriminant byte)
//! offset 1          4   id, 32-bit little-endian
//! offset 5         64   Ed25519 signature bytes
//! offset 69        32   Ed25519 public key bytes
//! offset 101        1   payload variant tag
//! offset 102        8   byte length of the text, 64-bit little-endian
//! offset 110        n   the text, UTF-8
//! ```
//!
//! The signature is computed over the canonical encoding of the payload
//! alone (the bytes from offset 101 on), never over the whole envelope.
//! Decoding accepts exactly the byte strings this encoding produces, which
//! is what the injectivity and prefix-freeness lemmas below make precise.

use vstd::bytes::{
    lemma_auto_spec_u32_to_from_le_bytes, lemma_auto_spec_u64_to_from_le_bytes,
    spec_u32_from_le_bytes, spec_u32_to_le_bytes, spec_u64_from_le_bytes, spec_u64_to_le_bytes,
    u64_from_le_bytes, u64_to_le_bytes,
};
use vstd::prelude::*;
use vstd::slice::{slice_subrange, slice_to_vec};
use vstd::utf8::{
    decode_utf8, decode_utf8_encode_utf8, encode_utf8, encode_utf8_decode_utf8,
    encode_utf8_valid_utf8, valid_utf8,
};

use crate::messages::{MessageView, Payload, PayloadView};
use crate::site_messages::{SiteNotification, SiteRegistration};

verus! {

/// Leading discriminant byte of every encoded envelope.
pub const ENVELOPE_TAG: u8 = 0xA9;

/// Payload tag of the `SiteRegistration` variant.
pub const REGISTRATION_TAG: u8 = 0x01;

/// Payload tag of the `SiteNotification` variant.
pub const NOTIFICATION_TAG: u8 = 0x02;

/// Offset of the signature field.
pub const SIG_START: usize = 5;

/// Offset one past the signature field.
pub const SIG_END: usize = 69;

/// Offset one past the public key field.
pub const KEY_END: usize = 101;

/// Length of the payload header: variant tag plus text length field.
pub const PAYLOAD_HEADER_LEN: usize = 9;

/// Least possible length of an encoded envelope (one with empty text).
pub const MIN_ENVELOPE_LEN: usize = 110;

/// The canonical encoding of a payload: variant tag, text length, text.
pub open spec fn spec_encode_payload(p: PayloadView) -> Seq<u8> {
    seq![p.tag()] + spec_u64_to_le_bytes(encode_utf8(p.text()).len() as u64) + encode_utf8(
        p.text(),
    )
}

/// The payload, if any, that `b` is the canonical encoding of.
pub open spec fn spec_decode_payload(b: Seq<u8>) -> Option<PayloadView> {
    if b.len() < PAYLOAD_HEADER_LEN {
        Option::None
    } else {
        let tag = b[0];
        let len = spec_u64_from_le_bytes(b.subrange(1, PAYLOAD_HEADER_LEN as int));
        let text_bytes = b.subrange(PAYLOAD_HEADER_LEN as int, b.len() as int);
        if text_bytes.len() != len {
            Option::None
        } else if !valid_utf8(text_bytes) {
            Option::None
        } else if tag == REGISTRATION_TAG {
            Option::Some(PayloadView::SiteRegistration { site_name: decode_utf8(text_bytes) })
        } else if tag == NOTIFICATION_TAG {
            Option::Some(PayloadView::SiteNotification { notification: decode_utf8(text_bytes) })
        } else {
            Option::None
        }
    }
}

/// The canonical encoding of an envelope: discriminant, id, signature,
/// public key, payload encoding.
pub open spec fn spec_encode_envelope(m: MessageView) -> Seq<u8> {
    seq![ENVELOPE_TAG] + spec_u32_to_le_bytes(m.id) + m.signature + m.public_key
        + spec_encode_payload(m.payload)
}

/// The envelope, if any, that `b` is the canonical encoding of.
pub open spec fn spec_decode_envelope(b: Seq<u8>) -> Option<MessageView> {
    if b.len() < MIN_ENVELOPE_LEN {
        Option::None
    } else if b[0] != ENVELOPE_TAG {
        Option::None
    } else {
        let id = spec_u32_from_le_bytes(b.subrange(1, SIG_START as int));
        let signature = b.subrange(SIG_START as int, SIG_END as int);
        let public_key = b.subrange(SIG_END as int, KEY_END as int);
        match spec_decode_payload(b.subrange(KEY_END as int, b.len() as int)) {
            Option::Some(payload) => Option::Some(
                MessageView { id, signature, public_key, payload },
            ),
            Option::None => Option::None,
        }
    }
}

/// Where each field of an encoded payload lies: the encoding is the tag
/// byte, the length field, and the text bytes, in that order.
pub proof fn lemma_payload_layout(p: PayloadView)
    requires
        p.wf(),
    ensures
        spec_encode_payload(p).len() == PAYLOAD_HEADER_LEN + encode_utf8(p.text()).len(),
        spec_encode_payload(p)[0] == p.tag(),
        spec_encode_payload(p).subrange(1, PAYLOAD_HEADER_LEN as int) == spec_u64_to_le_bytes(
            encode_utf8(p.text()).len() as u64,
        ),
        spec_encode_payload(p).subrange(
            PAYLOAD_HEADER_LEN as int,
            spec_encode_payload(p).len() as int,
        ) == encode_utf8(p.text()),
{
    lemma_auto_spec_u64_to_from_le_bytes();
    let enc = spec_encode_payload(p);
    let eb = encode_utf8(p.text());
    let len_bytes = spec_u64_to_le_bytes(eb.len() as u64);
    assert(enc.subrange(1, PAYLOAD_HEADER_LEN as int) =~= len_bytes);
    assert(enc.subrange(PAYLOAD_HEADER_LEN as int, enc.len() as int) =~= eb);
}

/// Round trip at the payload level: decoding a canonical payload encoding
/// gives back the payload.
pub proof fn lemma_payload_round_trip(p: PayloadView)
    requires
        p.wf(),
    ensures
        spec_decode_payload(spec_encode_payload(p)) == Some(p),
{
    lemma_auto_spec_u64_to_from_le_bytes();
    lemma_payload_layout(p);
    broadcast use encode_utf8_valid_utf8, encode_utf8_decode_utf8;

    let enc = spec_encode_payload(p);
    let eb = encode_utf8(p.text());
    let text_bytes = enc.subrange(PAYLOAD_HEADER_LEN as int, enc.len() as int);
    assert(text_bytes == eb);
    assert(spec_u64_from_le_bytes(enc.subrange(1, PAYLOAD_HEADER_LEN as int)) == eb.len() as u64);
    match p {
        PayloadView::SiteRegistration { site_name } => {
            assert(decode_utf8(text_bytes) == site_name);
        },
        PayloadView::SiteNotification { notification } => {
            assert(decode_utf8(text_bytes) == notification);
        },
    }
}

/// Decoding is sound at the payload level: a byte string that decodes is the
/// canonical encoding of what it decodes to, and that payload is
/// well-formed.
pub proof fn lemma_payload_decode_is_encoding(b: Seq<u8>, p: PayloadView)
    requires
        spec_decode_payload(b) == Some(p),
    ensures
        p.wf(),
        spec_encode_payload(p) == b,
{
    lemma_auto_spec_u64_to_from_le_bytes();
    let text_bytes = b.subrange(PAYLOAD_HEADER_LEN as int, b.len() as int);
    broadcast use decode_utf8_encode_utf8;

    assert(encode_utf8(p.text()) == text_bytes);
    let len_field = b.subrange(1, PAYLOAD_HEADER_LEN as int);
    assert(spec_u64_to_le_bytes(spec_u64_from_le_bytes(len_field)) == len_field);
    assert(text_bytes.len() as u64 == spec_u64_from_le_bytes(len_field));
    assert(spec_encode_payload(p) =~= b);
}

/// Where each field of an encoded envelope lies; see the module comment for
/// the layout.
pub proof fn lemma_envelope_layout(m: MessageView)
    requires
        m.wf(),
    ensures
        spec_encode_envelope(m).len() == MIN_ENVELOPE_LEN + encode_utf8(m.payload.text()).len(),
        spec_encode_envelope(m)[0] == ENVELOPE_TAG,
        spec_encode_envelope(m).subrange(1, SIG_START as int) == spec_u32_to_le_bytes(m.id),
        spec_encode_envelope(m).subrange(SIG_START as int, SIG_END as int) == m.signature,
        spec_encode_envelope(m).subrange(SIG_END as int, KEY_END as int) == m.public_key,
        spec_encode_envelope(m).subrange(KEY_END as int, spec_encode_envelope(m).len() as int)
            == spec_encode_payload(m.payload),
        spec_encode_envelope(m).subrange(KEY_END as int + 1, KEY_END as int + PAYLOAD_HEADER_LEN)
            == spec_u64_to_le_bytes(encode_utf8(m.payload.text()).len() as u64),
{
    lemma_auto_spec_u32_to_from_le_bytes();
    lemma_auto_spec_u64_to_from_le_bytes();
    lemma_payload_layout(m.payload);
    let enc = spec_encode_envelope(m);
    let penc = spec_encode_payload(m.payload);
    assert(enc.subrange(1, SIG_START as int) =~= spec_u32_to_le_bytes(m.id));
    assert(enc.subrange(SIG_START as int, SIG_END as int) =~= m.signature);
    assert(enc.subrange(SIG_END as int, KEY_END as int) =~= m.public_key);
    assert(enc.subrange(KEY_END as int, enc.len() as int) =~= penc);
    assert(enc.subrange(KEY_END as int + 1, KEY_END as int + PAYLOAD_HEADER_LEN) =~= penc.subrange(
        1,
        PAYLOAD_HEADER_LEN as int,
    ));
}

/// Round trip: decoding the canonical encoding of a well-formed envelope
/// gives back exactly that envelope.
pub proof fn lemma_codec_round_trip(m: MessageView)
    requires
        m.wf(),
    ensures
        spec_decode_envelope(spec_encode_envelope(m)) == Some(m),
{
    lemma_auto_spec_u32_to_from_le_bytes();
    lemma_envelope_layout(m);
    lemma_payload_round_trip(m.payload);
    let enc = spec_encode_envelope(m);
    assert(spec_u32_from_le_bytes(enc.subrange(1, SIG_START as int)) == m.id);
    assert(spec_decode_payload(enc.subrange(KEY_END as int, enc.len() as int)) == Some(m.payload));
}

/// Decoding is sound: a byte string that decodes to an envelope is the
/// canonical encoding of that envelope, and the envelope is well-formed.
pub proof fn lemma_decode_is_encoding(b: Seq<u8>, m: MessageView)
    requires
        spec_decode_envelope(b) == Some(m),
    ensures
        m.wf(),
        spec_encode_envelope(m) == b,
{
    lemma_auto_spec_u32_to_from_le_bytes();
    let payload_bytes = b.subrange(KEY_END as int, b.len() as int);
    lemma_payload_decode_is_encoding(payload_bytes, m.payload);
    let id_field = b.subrange(1, SIG_START as int);
    assert(spec_u32_to_le_bytes(spec_u32_from_le_bytes(id_field)) == id_field);
    assert(spec_encode_envelope(m) =~= b);
}

/// The canonical encoding is injective: distinct well-formed envelopes have
/// distinct encodings.
pub proof fn lemma_encode_injective(m1: MessageView, m2: MessageView)
    requires
        m1.wf(),
        m2.wf(),
        spec_encode_envelope(m1) == spec_encode_envelope(m2),
    ensures
        m1 == m2,
{
    lemma_codec_round_trip(m1);
    lemma_codec_round_trip(m2);
}

/// Truncating an encoded envelope to any strictly shorter length leaves
/// bytes that decode to nothing.
pub proof fn lemma_truncation_rejected(m: MessageView, n: int)
    requires
        m.wf(),
        0 <= n < spec_encode_envelope(m).len(),
    ensures
        spec_decode_envelope(spec_encode_envelope(m).take(n)) is None,
{
    lemma_envelope_layout(m);
    let enc = spec_encode_envelope(m);
    let t = enc.take(n);
    if n >= MIN_ENVELOPE_LEN {
        if let Some(m2) = spec_decode_envelope(t) {
            lemma_decode_is_encoding(t, m2);
            lemma_envelope_layout(m2);
            let len_field = KEY_END as int + 1;
            let len_field_end = KEY_END as int + PAYLOAD_HEADER_LEN;
            assert(t.subrange(len_field, len_field_end) =~= enc.subrange(
                len_field,
                len_field_end,
            ));
            lemma_auto_spec_u64_to_from_le_bytes();
            let l1 = encode_utf8(m.payload.text()).len();
            let l2 = encode_utf8(m2.payload.text()).len();
            assert(spec_u64_from_le_bytes(spec_u64_to_le_bytes(l1 as u64)) == l1 as u64);
            assert(spec_u64_from_le_bytes(spec_u64_to_le_bytes(l2 as u64)) == l2 as u64);
            assert(l1 == l2);
            assert(t.len() == enc.len());
            assert(false);
        }
    }
}

/// Tampering with the signature region of an encoding never breaks
/// decoding: the altered bytes decode to the same envelope with the altered
/// signature. So a tampered signature is only ever rejected by signature
/// verification — as `SignatureError` — and never mistaken for a decode
/// failure.
pub proof fn lemma_signature_tamper_still_decodes(m: MessageView, offset: int, x: u8)
    requires
        m.wf(),
        SIG_START <= offset < SIG_END,
    ensures
        spec_decode_envelope(spec_encode_envelope(m).update(offset, x)) == Some(
            MessageView { signature: m.signature.update(offset - SIG_START, x), ..m },
        ),
{
    lemma_envelope_layout(m);
    let m2 = MessageView { signature: m.signature.update(offset - SIG_START, x), ..m };
    assert(m2.wf());
    lemma_envelope_layout(m2);
    lemma_codec_round_trip(m2);
    assert(spec_encode_envelope(m).update(offset, x) =~= spec_encode_envelope(m2));
}

/// Swapping the embedded public key region of an encoding for any other
/// 32 bytes never breaks decoding: the altered bytes decode to the same
/// envelope with the foreign key embedded. So an envelope whose key was
/// swapped — say, for another identity's — is only ever rejected by
/// signature verification, which then checks the signature under the
/// foreign key.
pub proof fn lemma_foreign_key_still_decodes(m: MessageView, key: Seq<u8>)
    requires
        m.wf(),
        key.len() == m.public_key.len(),
    ensures
        spec_decode_envelope(
            spec_encode_envelope(m).subrange(0, SIG_END as int) + key + spec_encode_envelope(
                m,
            ).subrange(KEY_END as int, spec_encode_envelope(m).len() as int),
        ) == Some(MessageView { public_key: key, ..m }),
{
    lemma_envelope_layout(m);
    let m2 = MessageView { public_key: key, ..m };
    assert(m2.wf());
    lemma_envelope_layout(m2);
    lemma_codec_round_trip(m2);
    let enc = spec_encode_envelope(m);
    assert(enc.subrange(0, SIG_END as int) + key + enc.subrange(KEY_END as int, enc.len() as int)
        =~= spec_encode_envelope(m2));
}

/// An envelope encoding whose leading discriminant byte is replaced by any
/// other value decodes to nothing.
pub proof fn lemma_corrupt_discriminant_rejected(b: Seq<u8>, x: u8)
    requires
        b.len() > 0,
        x != ENVELOPE_TAG,
    ensures
        spec_decode_envelope(b.update(0, x)) is None,
{
}

/// Appends the bytes of `bytes` to `out`.
pub fn push_bytes(out: &mut Vec<u8>, bytes: &[u8])
    ensures
        final(out)@ == old(out)@ + bytes@,
{
    let n = bytes.len();
    let mut i: usize = 0;
    while i < n
        invariant
            i <= n,
            n == bytes@.len(),
            out@ == old(out)@ + bytes@.subrange(0, i as int),
        decreases n - i,
    {
        out.push(bytes[i]);
        proof {
            assert(bytes@.subrange(0, i + 1) =~= bytes@.subrange(0, i as int).push(bytes@[i as int]));
        }
        i = i + 1;
    }
    proof {
        assert(bytes@.subrange(0, n as int) =~= bytes@);
    }
}

/// Relies on `String::from_utf8`: it succeeds exactly on valid UTF-8 input
/// and returns the string whose bytes those are.
#[verifier::external_body]
fn string_from_utf8(bytes: Vec<u8>) -> (r: Option<String>)
    ensures
        r is Some <==> valid_utf8(bytes@),
        r matches Some(s) ==> s@ == decode_utf8(bytes@),
{
    match String::from_utf8(bytes) {
        Ok(s) => Some(s),
        Err(_) => None,
    }
}

/// Encodes a payload canonically. Also records that every payload held in
/// executable memory has a text short enough for the wire format.
pub fn encode_payload(p: &Payload) -> (r: Vec<u8>)
    ensures
        r@ == spec_encode_payload(p@),
        p@.wf(),
{
    let mut out: Vec<u8> = Vec::new();
    match p {
        Payload::SiteRegistration(reg) => {
            out.push(REGISTRATION_TAG);
            let text_bytes: &[u8] = reg.site_name.as_str().as_bytes();
            let mut len_bytes = u64_to_le_bytes(text_bytes.len() as u64);
            out.append(&mut len_bytes);
            push_bytes(&mut out, text_bytes);
        },
        Payload::SiteNotification(note) => {
            out.push(NOTIFICATION_TAG);
            let text_bytes: &[u8] = note.notification.as_str().as_bytes();
            let mut len_bytes = u64_to_le_bytes(text_bytes.len() as u64);
            out.append(&mut len_bytes);
            push_bytes(&mut out, text_bytes);
        },
    }
    proof {
        assert(out@ =~= spec_encode_payload(p@));
    }
    out
}

/// Decodes a payload, accepting exactly the canonical encodings.
pub fn decode_payload(b: &[u8]) -> (r: Option<Payload>)
    ensures
        r matches Some(p) ==> spec_decode_payload(b@) == Some(p@),
        r is None ==> spec_decode_payload(b@) is None,
{
    if b.len() < PAYLOAD_HEADER_LEN {
        return None;
    }
    let tag = b[0];
    let len = u64_from_le_bytes(slice_subrange(b, 1, PAYLOAD_HEADER_LEN));
    let text_len = b.len() - PAYLOAD_HEADER_LEN;
    if len != text_len as u64 {
        return None;
    }
    if tag != REGISTRATION_TAG && tag != NOTIFICATION_TAG {
        return None;
    }
    let text_vec = slice_to_vec(slice_subrange(b, PAYLOAD_HEADER_LEN, b.len()));
    match string_from_utf8(text_vec) {
        None => None,
        Some(text) => {
            if tag == REGISTRATION_TAG {
                Some(Payload::SiteRegistration(SiteRegistration { site_name: text }))
            } else {
                Some(Payload::SiteNotification(SiteNotification { notification: text }))
            }
        },
    }
}

} // verus!
