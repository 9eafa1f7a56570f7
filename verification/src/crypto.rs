//! Cryptographic primitives for the announcement protocol: an Ed25519
//! signing identity and a topic hash.
//!
//! The cryptography itself is supplied by the `p2panda_core` crate and is not
//! re-implemented here. Signing, public-key derivation, verification and
//! hashing are deterministic functions of their byte inputs, so each is given
//! a name (`sig_of`, `pk_of`, `verifies`, `hash_of`) and a trusted wrapper
//! whose contract speaks over that name. Everything else in the crate is
//! verified against those contracts.

use vstd::prelude::*;

verus! {

/// Length in bytes of an Ed25519 secret (signing) key.
pub const SECRET_KEY_LEN: usize = 32;

/// Length in bytes of an Ed25519 public (verifying) key.
pub const PUBLIC_KEY_LEN: usize = 32;

/// Length in bytes of an Ed25519 signature.
pub const SIGNATURE_LEN: usize = 64;

/// The Ed25519 signature that the secret key `secret` produces over `msg`.
/// Ed25519 signing is deterministic, so this is a function of the two byte
/// strings alone.
pub uninterp spec fn sig_of(secret: Seq<u8>, msg: Seq<u8>) -> Seq<u8>;

/// The Ed25519 public key derived from the secret key `secret`.
pub uninterp spec fn pk_of(secret: Seq<u8>) -> Seq<u8>;

/// Whether Ed25519 verification accepts `signature` as a signature over
/// `msg` under `public_key`. Deterministic in the three byte strings.
pub uninterp spec fn verifies(public_key: Seq<u8>, msg: Seq<u8>, signature: Seq<u8>) -> bool;

/// The 32-byte BLAKE3 digest of `bytes`: a function of `bytes` alone.
pub uninterp spec fn hash_of(bytes: Seq<u8>) -> Seq<u8>;

/// Relies on `p2panda_core::identity::SigningKey::generate`, which draws a
/// fresh 32-byte Ed25519 signing key from the system's random number
/// generator; nothing but its length can be promised of the result.
#[verifier::external_body]
fn generate_secret_key() -> (r: Vec<u8>)
    ensures
        r@.len() == SECRET_KEY_LEN,
{
    let key = p2panda_core::identity::SigningKey::generate();
    key.as_bytes().to_vec()
}

/// Relies on `p2panda_core::identity::SigningKey::verifying_key` (with
/// `from_bytes` to rebuild the key and `as_bytes` to take the result apart):
/// it derives the unique Ed25519 public key of the given signing key.
#[verifier::external_body]
pub(crate) fn public_key_bytes(secret: &[u8]) -> (r: Vec<u8>)
    requires
        secret@.len() == SECRET_KEY_LEN,
    ensures
        r@ == pk_of(secret@),
        r@.len() == PUBLIC_KEY_LEN,
{
    let mut key_bytes = [0u8; 32];
    key_bytes.copy_from_slice(secret);
    let key = p2panda_core::identity::SigningKey::from_bytes(&key_bytes);
    key.verifying_key().as_bytes().to_vec()
}

/// Relies on `p2panda_core::identity::SigningKey::sign` (RFC 8032 Ed25519,
/// deterministic): the signature is 64 bytes and, as the scheme guarantees,
/// verifies over the same message under the signer's public key.
#[verifier::external_body]
pub(crate) fn sign_bytes(secret: &[u8], msg: &[u8]) -> (r: Vec<u8>)
    requires
        secret@.len() == SECRET_KEY_LEN,
    ensures
        r@ == sig_of(secret@, msg@),
        r@.len() == SIGNATURE_LEN,
        verifies(pk_of(secret@), msg@, r@),
{
    let mut key_bytes = [0u8; 32];
    key_bytes.copy_from_slice(secret);
    let key = p2panda_core::identity::SigningKey::from_bytes(&key_bytes);
    key.sign(msg).to_bytes().to_vec()
}

/// Relies on `p2panda_core::identity::VerifyingKey::verify` (Ed25519 strict
/// verification), with `VerifyingKey::from_bytes` and
/// `Signature::from_bytes` to rebuild its arguments; a byte string that is
/// not a valid public key accepts no signature.
#[verifier::external_body]
pub(crate) fn verify_signature(public_key: &[u8], msg: &[u8], signature: &[u8]) -> (r: bool)
    requires
        public_key@.len() == PUBLIC_KEY_LEN,
        signature@.len() == SIGNATURE_LEN,
    ensures
        r == verifies(public_key@, msg@, signature@),
{
    let mut pk_bytes = [0u8; 32];
    pk_bytes.copy_from_slice(public_key);
    let mut sig_bytes = [0u8; 64];
    sig_bytes.copy_from_slice(signature);
    match p2panda_core::identity::VerifyingKey::from_bytes(&pk_bytes) {
        Ok(key) => {
            let sig = p2panda_core::identity::Signature::from_bytes(&sig_bytes);
            key.verify(msg, &sig)
        },
        Err(_) => false,
    }
}

/// Relies on `rand::random`: a uniformly random nonce, of which nothing can
/// be promised.
#[verifier::external_body]
pub(crate) fn random_id() -> u32 {
    rand::random()
}

/// Relies on `p2panda_core::hash::Hash::digest` (BLAKE3, via `as_bytes` to
/// take the digest apart): a 32-byte digest that depends on the input bytes
/// alone.
#[verifier::external_body]
pub(crate) fn hash_digest(bytes: &[u8]) -> (r: [u8; 32])
    ensures
        r@ == hash_of(bytes@),
{
    *p2panda_core::hash::Hash::digest(bytes).as_bytes()
}

/// A signing identity: the holder of an Ed25519 keypair. Created once per
/// process and never transmitted; the codec signs outgoing announcements
/// with it.
pub struct Identity {
    secret_key: Vec<u8>,
}

impl View for Identity {
    type V = Seq<u8>;

    /// An identity is modelled by its secret key bytes.
    closed spec fn view(&self) -> Seq<u8> {
        self.secret_key@
    }
}

impl Identity {
    /// A well-formed identity holds a full-length secret key.
    pub closed spec fn wf(&self) -> bool {
        self.secret_key@.len() == SECRET_KEY_LEN
    }

    /// Draws a fresh keypair from the system's random number generator.
    pub fn generate() -> (r: Identity)
        ensures
            r.wf(),
    {
        Identity { secret_key: generate_secret_key() }
    }

    /// The public half of the keypair, as bytes; this is what outgoing
    /// envelopes embed.
    pub fn public_key(&self) -> (r: Vec<u8>)
        requires
            self.wf(),
        ensures
            r@ == pk_of(self@),
            r@.len() == PUBLIC_KEY_LEN,
    {
        public_key_bytes(self.secret_key.as_slice())
    }

    /// Signs `msg` with the secret key.
    pub(crate) fn sign(&self, msg: &[u8]) -> (r: Vec<u8>)
        requires
            self.wf(),
        ensures
            r@ == sig_of(self@, msg@),
            r@.len() == SIGNATURE_LEN,
            verifies(pk_of(self@), msg@, r@),
    {
        sign_bytes(self.secret_key.as_slice(), msg)
    }
}

} // verus!
