//! Trusted wrappers around the cryptographic primitives the core relies on:
//! SHA-256 digests and Ed25519 signatures. Each result that is a pure
//! function of the arguments is given an uninterpreted name, and the
//! verified code reasons only through these names.

use sha2::Digest;
use vstd::prelude::*;

verus! {

/// The SHA-256 digest of a byte sequence.
pub uninterp spec fn sha256_of(data: Seq<u8>) -> Seq<u8>;

/// Relies on sha2::Sha256: the digest is a function of the input bytes
/// alone and is 32 bytes long.
#[verifier::external_body]
pub fn sha256(data: &[u8]) -> (r: Vec<u8>)
    ensures
        r@ == sha256_of(data@),
        r@.len() == 32,
{
    sha2::Sha256::digest(data).to_vec()
}

/// The Ed25519 verifying key derived from 32 secret-key bytes.
pub uninterp spec fn ed25519_public_of(secret: Seq<u8>) -> Seq<u8>;

/// The Ed25519 signature over a message under 32 secret-key bytes
/// (Ed25519 signing is deterministic, RFC 8032).
pub uninterp spec fn ed25519_signature_of(secret: Seq<u8>, message: Seq<u8>) -> Seq<u8>;

/// Whether `signature` is a valid Ed25519 signature on `message` under the
/// verifying-key bytes `public`.
pub uninterp spec fn ed25519_verifies(public: Seq<u8>, message: Seq<u8>, signature: Seq<u8>) -> bool;

/// Relies on ed25519_dalek::SigningKey::{from_bytes, verifying_key,
/// to_bytes}: the verifying key is a function of the secret bytes alone,
/// and is 32 bytes long.
#[verifier::external_body]
pub fn ed25519_public_key(secret: &[u8]) -> (r: Vec<u8>)
    requires
        secret@.len() == 32,
    ensures
        r@ == ed25519_public_of(secret@),
        r@.len() == 32,
{
    let mut sk = [0u8; 32];
    sk.copy_from_slice(secret);
    let signing = ed25519_dalek::SigningKey::from_bytes(&sk);
    signing.verifying_key().to_bytes().to_vec()
}

/// Relies on ed25519_dalek's Signer::sign for SigningKey: deterministic
/// 64-byte signature; what it signs verifies under the matching verifying
/// key (RFC 8032).
#[verifier::external_body]
pub fn ed25519_sign(secret: &[u8], message: &[u8]) -> (r: Vec<u8>)
    requires
        secret@.len() == 32,
    ensures
        r@ == ed25519_signature_of(secret@, message@),
        r@.len() == 64,
        ed25519_verifies(ed25519_public_of(secret@), message@, r@),
{
    let mut sk = [0u8; 32];
    sk.copy_from_slice(secret);
    let signing = ed25519_dalek::SigningKey::from_bytes(&sk);
    ed25519_dalek::Signer::sign(&signing, message).to_bytes().to_vec()
}

/// Relies on ed25519_dalek::VerifyingKey::{from_bytes, verify} and
/// Signature::from_bytes: returns whether the key bytes parse and the
/// signature is valid for the message.
#[verifier::external_body]
pub fn ed25519_verify(public: &[u8], message: &[u8], signature: &[u8]) -> (r: bool)
    requires
        public@.len() == 32,
        signature@.len() == 64,
    ensures
        r == ed25519_verifies(public@, message@, signature@),
{
    let mut pk = [0u8; 32];
    pk.copy_from_slice(public);
    let mut sig = [0u8; 64];
    sig.copy_from_slice(signature);
    match ed25519_dalek::VerifyingKey::from_bytes(&pk) {
        Ok(vk) => {
            let s = ed25519_dalek::Signature::from_bytes(&sig);
            ed25519_dalek::Verifier::verify(&vk, message, &s).is_ok()
        },
        Err(_) => false,
    }
}

} // verus!
