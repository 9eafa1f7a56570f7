//! Tests of the envelope codec: round trips, tampering, foreign keys,
//! truncation, and malformed bytes.

use site_announce::crypto::Identity;
use site_announce::messages::{CodecError, Message, Payload};
use site_announce::site_messages::{SiteNotification, SiteRegistration};
use site_announce::wire::{
    ENVELOPE_TAG, KEY_END, MIN_ENVELOPE_LEN, NOTIFICATION_TAG, PAYLOAD_HEADER_LEN,
    REGISTRATION_TAG, SIG_END, SIG_START,
};

fn registration(name: &str) -> Payload {
    Payload::SiteRegistration(SiteRegistration {
        site_name: name.to_owned(),
    })
}

fn notification(text: &str) -> Payload {
    Payload::SiteNotification(SiteNotification {
        notification: text.to_owned(),
    })
}

fn payload_name(message: &Message) -> String {
    match &message.payload {
        Payload::SiteRegistration(r) => r.site_name.clone(),
        Payload::SiteNotification(n) => n.notification.clone(),
    }
}

#[test]
fn round_trip_registration() {
    let identity = Identity::generate();
    let bytes = Message::sign_and_encode(&identity, registration("rosa"));
    let message = Message::decode_and_verify(&bytes).expect("round trip must verify");
    match &message.payload {
        Payload::SiteRegistration(r) => assert_eq!(r.site_name, "rosa"),
        _ => panic!("wrong payload variant"),
    }
}

#[test]
fn round_trip_notification() {
    let identity = Identity::generate();
    let bytes = Message::sign_and_encode(&identity, notification("hello"));
    let message = Message::decode_and_verify(&bytes).expect("round trip must verify");
    match &message.payload {
        Payload::SiteNotification(n) => assert_eq!(n.notification, "hello"),
        _ => panic!("wrong payload variant"),
    }
}

#[test]
fn round_trip_non_ascii_and_empty() {
    let identity = Identity::generate();
    for name in ["", "θ-site", "königsberg", "🌐"] {
        let bytes = Message::sign_and_encode(&identity, registration(name));
        let message = Message::decode_and_verify(&bytes).expect("round trip must verify");
        assert_eq!(payload_name(&message), name);
    }
}

#[test]
fn wire_layout_is_canonical() {
    let identity = Identity::generate();
    let bytes = Message::sign_and_encode(&identity, registration("rosa"));
    assert_eq!(bytes.len(), MIN_ENVELOPE_LEN + 4);
    assert_eq!(bytes[0], ENVELOPE_TAG);
    assert_eq!(bytes[KEY_END], REGISTRATION_TAG);
    // 64-bit little-endian byte length of the UTF-8 text
    let mut len_field = [0u8; 8];
    len_field.copy_from_slice(&bytes[KEY_END + 1..KEY_END + PAYLOAD_HEADER_LEN]);
    assert_eq!(u64::from_le_bytes(len_field), 4);
    assert_eq!(&bytes[KEY_END + PAYLOAD_HEADER_LEN..], "rosa".as_bytes());
    // the embedded public key is the signer's, not some echo of the input
    assert_eq!(&bytes[SIG_END..KEY_END], identity.public_key().as_slice());

    let note = Message::sign_and_encode(&identity, notification("hello"));
    assert_eq!(note[KEY_END], NOTIFICATION_TAG);
}

#[test]
fn tampered_signature_fails() {
    let identity = Identity::generate();
    let bytes = Message::sign_and_encode(&identity, registration("rosa"));
    for offset in SIG_START..SIG_END {
        for bit in 0..8u8 {
            let mut tampered = bytes.clone();
            tampered[offset] ^= 1 << bit;
            match Message::decode_and_verify(&tampered) {
                Err(CodecError::SignatureError) => {}
                other => panic!("bit {bit} of byte {offset}: expected SignatureError, got {other:?}"),
            }
        }
    }
}

#[test]
fn tampered_payload_fails() {
    let identity = Identity::generate();
    let bytes = Message::sign_and_encode(&identity, registration("rosa"));
    // flip a low bit of each ASCII text byte: still structurally valid,
    // so rejection can only come from the signature check
    for offset in KEY_END + PAYLOAD_HEADER_LEN..bytes.len() {
        let mut tampered = bytes.clone();
        tampered[offset] ^= 0x02;
        match Message::decode_and_verify(&tampered) {
            Err(CodecError::SignatureError) => {}
            other => panic!("byte {offset}: expected SignatureError, got {other:?}"),
        }
    }
}

#[test]
fn foreign_key_fails() {
    let identity_a = Identity::generate();
    let identity_b = Identity::generate();
    let pk_b = identity_b.public_key();
    assert_ne!(identity_a.public_key(), pk_b);
    let mut bytes = Message::sign_and_encode(&identity_a, registration("rosa"));
    bytes[SIG_END..KEY_END].copy_from_slice(&pk_b);
    match Message::decode_and_verify(&bytes) {
        Err(CodecError::SignatureError) => {}
        other => panic!("expected SignatureError, got {other:?}"),
    }
}

#[test]
fn truncation_fails() {
    let identity = Identity::generate();
    let bytes = Message::sign_and_encode(&identity, registration("rosa"));
    for n in 0..bytes.len() {
        match Message::decode_and_verify(&bytes[..n]) {
            Err(CodecError::DecodeError) => {}
            other => panic!("length {n}: expected DecodeError, got {other:?}"),
        }
    }
}

#[test]
fn corrupt_discriminant_fails() {
    let identity = Identity::generate();
    let bytes = Message::sign_and_encode(&identity, registration("rosa"));
    for bit in 0..8u8 {
        let mut tampered = bytes.clone();
        tampered[0] ^= 1 << bit;
        match Message::decode_and_verify(&tampered) {
            Err(CodecError::DecodeError) => {}
            other => panic!("bit {bit}: expected DecodeError, got {other:?}"),
        }
    }
}

#[test]
fn malformed_bytes_fail() {
    // empty, far too short, and arbitrary garbage
    for blob in [&[][..], &[ENVELOPE_TAG][..], &[0x55; 64][..]] {
        match Message::decode_and_verify(blob) {
            Err(CodecError::DecodeError) => {}
            other => panic!("expected DecodeError, got {other:?}"),
        }
    }
}

#[test]
fn wrong_length_field_fails() {
    let identity = Identity::generate();
    let mut bytes = Message::sign_and_encode(&identity, registration("rosa"));
    bytes[KEY_END + 1] ^= 0x01; // length field no longer matches the text
    match Message::decode_and_verify(&bytes) {
        Err(CodecError::DecodeError) => {}
        other => panic!("expected DecodeError, got {other:?}"),
    }
}

#[test]
fn unknown_payload_tag_fails() {
    let identity = Identity::generate();
    let mut bytes = Message::sign_and_encode(&identity, registration("rosa"));
    bytes[KEY_END] = 0x7F;
    match Message::decode_and_verify(&bytes) {
        Err(CodecError::DecodeError) => {}
        other => panic!("expected DecodeError, got {other:?}"),
    }
}

#[test]
fn invalid_utf8_text_fails() {
    let identity = Identity::generate();
    let mut bytes = Message::sign_and_encode(&identity, registration("rosa"));
    let text_start = KEY_END + PAYLOAD_HEADER_LEN;
    bytes[text_start] = 0xFF; // never valid in UTF-8
    match Message::decode_and_verify(&bytes) {
        Err(CodecError::DecodeError) => {}
        other => panic!("expected DecodeError, got {other:?}"),
    }
}

#[test]
fn nonce_varies_but_payload_survives() {
    // two encodings of one payload differ only in the nonce region and both verify
    let identity = Identity::generate();
    let a = Message::sign_and_encode(&identity, registration("rosa"));
    let b = Message::sign_and_encode(&identity, registration("rosa"));
    assert_eq!(a[SIG_START..], b[SIG_START..]);
    assert_eq!(payload_name(&Message::decode_and_verify(&a).unwrap()), "rosa");
    assert_eq!(payload_name(&Message::decode_and_verify(&b).unwrap()), "rosa");
}
