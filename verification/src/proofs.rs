//! Authority proofs: signed claims (a parent asserts control of a child)
//! and subject receipts (a child acknowledges its parent). The canonical
//! JSON form — one line, keys sorted, strings escaped — is the exact byte
//! input of the SHA-256 digest, and Ed25519 signs the UTF-8 bytes of the
//! hex digest string.

use vstd::prelude::*;

use crate::clock::MAX_TIMESTAMP_MICROS;
use crate::clock::now_micros;
use crate::clock::now_micros_clamped;
use crate::clock::rfc3339_of;
use crate::clock::rfc3339_utc;
use crate::crypto::ed25519_public_of;
use crate::crypto::ed25519_public_key;
use crate::crypto::ed25519_sign;
use crate::crypto::ed25519_signature_of;
use crate::crypto::ed25519_verifies;
use crate::crypto::ed25519_verify;
use crate::crypto::sha256;
use crate::crypto::sha256_of;
use crate::entropy::random_bytes;
use crate::errors::IgniteError;
use crate::errors::IgniteResult;
use crate::errors::is_crypto_error;
use crate::errors::is_invalid_key;
use crate::material::FingerprintView;
use crate::material::KeyFingerprint;
use crate::material::spec_fp_text;
use crate::material::KeyFormat;
use crate::material::KeyMaterial;
use crate::text::spec_escape;
use crate::text::spec_hex;
use crate::text::json_escape;
use crate::text::to_hex;
use vstd::utf8::encode_utf8;

verus! {

/// The hex SHA-256 digest of a payload string's UTF-8 bytes.
pub open spec fn spec_payload_digest(payload: Seq<char>) -> Seq<char> {
    spec_hex(sha256_of(encode_utf8(payload)))
}

/// Mathematical view of an authority claim.
pub struct ClaimView {
    pub schema_version: Seq<char>,
    pub parent_fp: FingerprintView,
    pub child_fp: FingerprintView,
    pub issued_at: i64,
    pub purpose: Seq<char>,
    pub nonce: Seq<char>,
}

/// Authority claim payload: a parent asserts control over a child.
#[derive(Debug, Clone)]
pub struct AuthorityClaim {
    pub schema_version: String,
    pub parent_fp: KeyFingerprint,
    pub child_fp: KeyFingerprint,
    pub issued_at: i64,
    pub purpose: String,
    pub nonce: String,
}

impl View for AuthorityClaim {
    type V = ClaimView;

    closed spec fn view(&self) -> ClaimView {
        ClaimView {
            schema_version: self.schema_version@,
            parent_fp: self.parent_fp@,
            child_fp: self.child_fp@,
            issued_at: self.issued_at,
            purpose: self.purpose@,
            nonce: self.nonce@,
        }
    }
}

/// Canonical JSON of a claim: one line, keys in lexicographic order.
pub open spec fn spec_claim_canonical(c: ClaimView) -> Seq<char> {
    "{\"child_fp\":\""@ + spec_fp_text(c.child_fp) + "\",\"issued_at\":\""@ + rfc3339_of(
        c.issued_at,
    ) + "\",\"nonce\":\""@ + c.nonce + "\",\"parent_fp\":\""@ + spec_fp_text(c.parent_fp)
        + "\",\"purpose\":\""@ + spec_escape(c.purpose) + "\",\"schema_version\":\""@
        + c.schema_version + "\"}"@
}

impl AuthorityClaim {
    /// A fresh claim: schema 1.0, issued now, with a random 128-bit nonce
    /// in hex.
    pub fn new(parent_fp: KeyFingerprint, child_fp: KeyFingerprint, purpose: &str) -> (r: Self)
        ensures
            r@.schema_version == "1.0"@,
            r@.parent_fp == parent_fp@,
            r@.child_fp == child_fp@,
            r@.purpose == purpose@,
            r@.nonce.len() == 32,
            exists|b: Seq<u8>| b.len() == 16 && r@.nonce == #[trigger] spec_hex(b),
            0 <= r@.issued_at <= MAX_TIMESTAMP_MICROS,
    {
        let nonce_bytes = random_bytes(16);
        let nonce = to_hex(nonce_bytes.as_slice());
        proof {
            assert(nonce@ == spec_hex(nonce_bytes@));
        }
        AuthorityClaim {
            schema_version: String::from_str("1.0"),
            parent_fp,
            child_fp,
            issued_at: now_micros_clamped(),
            purpose: purpose.to_owned(),
            nonce,
        }
    }

    /// Render the canonical JSON form used for digesting and signing.
    pub fn to_canonical_json(&self) -> (r: IgniteResult<String>)
        requires
            0 <= self@.issued_at <= MAX_TIMESTAMP_MICROS,
        ensures
            r matches Ok(s) && s@ == spec_claim_canonical(self@),
    {
        let mut r = String::new();
        r.append("{\"child_fp\":\"");
        let child_text = self.child_fp.display_string();
        r.append(child_text.as_str());
        r.append("\",\"issued_at\":\"");
        let issued = rfc3339_utc(self.issued_at);
        r.append(issued.as_str());
        r.append("\",\"nonce\":\"");
        r.append(self.nonce.as_str());
        r.append("\",\"parent_fp\":\"");
        let parent_text = self.parent_fp.display_string();
        r.append(parent_text.as_str());
        r.append("\",\"purpose\":\"");
        let escaped = json_escape(self.purpose.as_str());
        r.append(escaped.as_str());
        r.append("\",\"schema_version\":\"");
        r.append(self.schema_version.as_str());
        r.append("\"}");
        proof {
            assert(r@ =~= spec_claim_canonical(self@));
        }
        Ok(r)
    }

    /// The hex SHA-256 digest of the canonical payload.
    pub fn compute_digest(&self) -> (r: IgniteResult<String>)
        requires
            0 <= self@.issued_at <= MAX_TIMESTAMP_MICROS,
        ensures
            r matches Ok(d) && d@ == spec_payload_digest(spec_claim_canonical(self@)),
    {
        let canonical = match self.to_canonical_json() {
            Ok(c) => c,
            Err(e) => {
                return Err(e);
            },
        };
        let digest = sha256(canonical.as_str().as_bytes());
        Ok(to_hex(digest.as_slice()))
    }
}

/// The canonical JSON of a claim is a function of the claim alone: equal
/// claims serialize to identical bytes, however often they are rendered.
pub proof fn lemma_claim_canonical_deterministic(c1: ClaimView, c2: ClaimView)
    requires
        c1 == c2,
    ensures
        spec_claim_canonical(c1) == spec_claim_canonical(c2),
        spec_payload_digest(spec_claim_canonical(c1)) == spec_payload_digest(
            spec_claim_canonical(c2),
        ),
{
}

/// Mathematical view of a subject receipt.
pub struct ReceiptView {
    pub schema_version: Seq<char>,
    pub child_fp: FingerprintView,
    pub parent_fp: FingerprintView,
    pub acknowledged_at: i64,
    pub nonce: Seq<char>,
}

/// Subject receipt payload: a child acknowledges its parent's authority.
#[derive(Debug, Clone)]
pub struct SubjectReceipt {
    pub schema_version: String,
    pub child_fp: KeyFingerprint,
    pub parent_fp: KeyFingerprint,
    pub acknowledged_at: i64,
    pub nonce: String,
}

impl View for SubjectReceipt {
    type V = ReceiptView;

    closed spec fn view(&self) -> ReceiptView {
        ReceiptView {
            schema_version: self.schema_version@,
            child_fp: self.child_fp@,
            parent_fp: self.parent_fp@,
            acknowledged_at: self.acknowledged_at,
            nonce: self.nonce@,
        }
    }
}

/// Canonical JSON of a receipt: one line, keys in lexicographic order.
pub open spec fn spec_receipt_canonical(c: ReceiptView) -> Seq<char> {
    "{\"acknowledged_at\":\""@ + rfc3339_of(c.acknowledged_at) + "\",\"child_fp\":\""@
        + spec_fp_text(c.child_fp) + "\",\"nonce\":\""@ + c.nonce + "\",\"parent_fp\":\""@
        + spec_fp_text(c.parent_fp) + "\",\"schema_version\":\""@ + c.schema_version + "\"}"@
}

impl SubjectReceipt {
    /// A fresh receipt: schema 1.0, acknowledged now, random nonce.
    pub fn new(child_fp: KeyFingerprint, parent_fp: KeyFingerprint) -> (r: Self)
        ensures
            r@.schema_version == "1.0"@,
            r@.child_fp == child_fp@,
            r@.parent_fp == parent_fp@,
            r@.nonce.len() == 32,
            exists|b: Seq<u8>| b.len() == 16 && r@.nonce == #[trigger] spec_hex(b),
            0 <= r@.acknowledged_at <= MAX_TIMESTAMP_MICROS,
    {
        let nonce_bytes = random_bytes(16);
        let nonce = to_hex(nonce_bytes.as_slice());
        proof {
            assert(nonce@ == spec_hex(nonce_bytes@));
        }
        SubjectReceipt {
            schema_version: String::from_str("1.0"),
            child_fp,
            parent_fp,
            acknowledged_at: now_micros_clamped(),
            nonce,
        }
    }

    /// Render the canonical JSON form used for digesting and signing.
    pub fn to_canonical_json(&self) -> (r: IgniteResult<String>)
        requires
            0 <= self@.acknowledged_at <= MAX_TIMESTAMP_MICROS,
        ensures
            r matches Ok(s) && s@ == spec_receipt_canonical(self@),
    {
        let mut r = String::new();
        r.append("{\"acknowledged_at\":\"");
        let acknowledged = rfc3339_utc(self.acknowledged_at);
        r.append(acknowledged.as_str());
        r.append("\",\"child_fp\":\"");
        let child_text = self.child_fp.display_string();
        r.append(child_text.as_str());
        r.append("\",\"nonce\":\"");
        r.append(self.nonce.as_str());
        r.append("\",\"parent_fp\":\"");
        let parent_text = self.parent_fp.display_string();
        r.append(parent_text.as_str());
        r.append("\",\"schema_version\":\"");
        r.append(self.schema_version.as_str());
        r.append("\"}");
        proof {
            assert(r@ =~= spec_receipt_canonical(self@));
        }
        Ok(r)
    }

    /// The hex SHA-256 digest of the canonical payload.
    pub fn compute_digest(&self) -> (r: IgniteResult<String>)
        requires
            0 <= self@.acknowledged_at <= MAX_TIMESTAMP_MICROS,
        ensures
            r matches Ok(d) && d@ == spec_payload_digest(spec_receipt_canonical(self@)),
    {
        let canonical = match self.to_canonical_json() {
            Ok(c) => c,
            Err(e) => {
                return Err(e);
            },
        };
        let digest = sha256(canonical.as_str().as_bytes());
        Ok(to_hex(digest.as_slice()))
    }
}

/// Mathematical view of a proof bundle.
pub struct BundleView {
    pub payload_json: Seq<char>,
    pub digest: Seq<char>,
    pub signature: Seq<u8>,
    pub public_key: Seq<u8>,
    pub expires_at: i64,
}

/// The stored digest matches the payload.
pub open spec fn spec_digest_ok(b: BundleView) -> bool {
    b.digest == spec_payload_digest(b.payload_json)
}

/// The signature is a valid Ed25519 signature on the digest's UTF-8
/// bytes under the stored verifying key.
pub open spec fn spec_sig_ok(b: BundleView) -> bool {
    &&& b.public_key.len() == 32
    &&& b.signature.len() == 64
    &&& ed25519_verifies(b.public_key, encode_utf8(b.digest), b.signature)
}

/// What the signature-and-expiry check accepts at instant `now`.
pub open spec fn spec_verify_ok(b: BundleView, now: i64) -> bool {
    now <= b.expires_at && spec_sig_ok(b)
}

/// What the full check (digest, then signature and expiry) accepts.
pub open spec fn spec_verify_full_ok(b: BundleView, now: i64) -> bool {
    spec_digest_ok(b) && spec_verify_ok(b, now)
}

/// The bundle produced by signing a payload with 32 secret-key bytes.
pub open spec fn spec_signed_bundle(payload: Seq<char>, secret: Seq<u8>, expires_at: i64) -> BundleView {
    BundleView {
        payload_json: payload,
        digest: spec_payload_digest(payload),
        signature: ed25519_signature_of(secret, encode_utf8(spec_payload_digest(payload))),
        public_key: ed25519_public_of(secret),
        expires_at,
    }
}

/// Complete proof bundle: canonical payload, its digest, an Ed25519
/// signature over the digest string, the verifying key, and an expiry.
#[derive(Debug, Clone)]
pub struct ProofBundle {
    pub payload_json: String,
    pub digest: String,
    pub signature: Vec<u8>,
    pub public_key: Vec<u8>,
    pub expires_at: i64,
}

impl View for ProofBundle {
    type V = BundleView;

    closed spec fn view(&self) -> BundleView {
        BundleView {
            payload_json: self.payload_json@,
            digest: self.digest@,
            signature: self.signature@,
            public_key: self.public_key@,
            expires_at: self.expires_at,
        }
    }
}

impl ProofBundle {
    /// Sign an authority claim with 32 Ed25519 secret-key bytes.
    pub fn sign_claim(claim: &AuthorityClaim, signing_key: &[u8], expires_at: i64) -> (r:
        IgniteResult<Self>)
        requires
            signing_key@.len() == 32,
            0 <= claim@.issued_at <= MAX_TIMESTAMP_MICROS,
        ensures
            r matches Ok(b) && {
                &&& b@ == spec_signed_bundle(spec_claim_canonical(claim@), signing_key@, expires_at)
                &&& spec_digest_ok(b@)
                &&& spec_sig_ok(b@)
            },
    {
        let payload_json = match claim.to_canonical_json() {
            Ok(p) => p,
            Err(e) => {
                return Err(e);
            },
        };
        Self::sign_payload(payload_json, signing_key, expires_at)
    }

    /// Sign an authority claim with a key's material. Only Ed25519
    /// material carrying a 32-byte private half can sign authority
    /// proofs; Age-format material, or material without a private half,
    /// is refused.
    pub fn sign_claim_with_material(
        claim: &AuthorityClaim,
        material: &KeyMaterial,
        expires_at: i64,
    ) -> (r: IgniteResult<Self>)
        requires
            0 <= claim@.issued_at <= MAX_TIMESTAMP_MICROS,
        ensures
            r is Ok <==> (material@.key_format == KeyFormat::Ed25519
                && (material@.private_key matches Some(p) && p.len() == 32)),
            r matches Ok(b) ==> {
                &&& b@ == spec_signed_bundle(
                    spec_claim_canonical(claim@),
                    material@.private_key->Some_0,
                    expires_at,
                )
                &&& spec_digest_ok(b@)
                &&& spec_sig_ok(b@)
            },
            r matches Err(e) ==> is_invalid_key(e),
    {
        if !matches!(material.format(), KeyFormat::Ed25519) {
            return Err(IgniteError::InvalidKey {
                reason: String::from_str("Only Ed25519 key material can sign authority proofs"),
            });
        }
        match material.private_key() {
            Some(secret) => {
                if secret.len() != 32 {
                    return Err(IgniteError::InvalidKey {
                        reason: String::from_str("Ed25519 private key must be 32 bytes"),
                    });
                }
                Self::sign_claim(claim, secret, expires_at)
            },
            None => Err(IgniteError::InvalidKey {
                reason: String::from_str("Key material has no private half"),
            }),
        }
    }

    /// Sign a subject receipt with 32 Ed25519 secret-key bytes.
    pub fn sign_receipt(receipt: &SubjectReceipt, signing_key: &[u8], expires_at: i64) -> (r:
        IgniteResult<Self>)
        requires
            signing_key@.len() == 32,
            0 <= receipt@.acknowledged_at <= MAX_TIMESTAMP_MICROS,
        ensures
            r matches Ok(b) && {
                &&& b@ == spec_signed_bundle(
                    spec_receipt_canonical(receipt@),
                    signing_key@,
                    expires_at,
                )
                &&& spec_digest_ok(b@)
                &&& spec_sig_ok(b@)
            },
    {
        let payload_json = match receipt.to_canonical_json() {
            Ok(p) => p,
            Err(e) => {
                return Err(e);
            },
        };
        Self::sign_payload(payload_json, signing_key, expires_at)
    }

    /// Digest and sign an already-canonical payload.
    fn sign_payload(payload_json: String, signing_key: &[u8], expires_at: i64) -> (r: IgniteResult<
        Self,
    >)
        requires
            signing_key@.len() == 32,
        ensures
            r matches Ok(b) && {
                &&& b@ == spec_signed_bundle(payload_json@, signing_key@, expires_at)
                &&& spec_digest_ok(b@)
                &&& spec_sig_ok(b@)
            },
    {
        let digest_bytes = sha256(payload_json.as_str().as_bytes());
        let digest = to_hex(digest_bytes.as_slice());
        let signature = ed25519_sign(signing_key, digest.as_str().as_bytes());
        let public_key = ed25519_public_key(signing_key);
        Ok(ProofBundle { payload_json, digest, signature, public_key, expires_at })
    }

    /// Check signature and expiry against the given instant.
    pub fn verify_at(&self, now: i64) -> (r: IgniteResult<()>)
        ensures
            r is Ok <==> spec_verify_ok(self@, now),
            now > self@.expires_at ==> (r matches Err(e) && is_crypto_error(e, "verify_proof"@)),
            r matches Err(e) ==> (is_crypto_error(e, "verify_proof"@) || is_crypto_error(
                e,
                "parse_public_key"@,
            ) || is_crypto_error(e, "parse_signature"@) || is_crypto_error(
                e,
                "verify_signature"@,
            )),
    {
        if now > self.expires_at {
            return Err(IgniteError::crypto_error(
                String::from_str("verify_proof"),
                String::from_str("Proof has expired"),
            ));
        }
        if self.public_key.len() != 32 {
            return Err(IgniteError::crypto_error(
                String::from_str("parse_public_key"),
                String::from_str("Invalid key length"),
            ));
        }
        if self.signature.len() != 64 {
            return Err(IgniteError::crypto_error(
                String::from_str("parse_signature"),
                String::from_str("Invalid signature length"),
            ));
        }
        if !ed25519_verify(
            self.public_key.as_slice(),
            self.digest.as_str().as_bytes(),
            self.signature.as_slice(),
        ) {
            return Err(IgniteError::crypto_error(
                String::from_str("verify_signature"),
                String::from_str("Signature verification failed"),
            ));
        }
        Ok(())
    }

    /// Check signature and expiry against the wall clock.
    pub fn verify(&self) -> (r: IgniteResult<()>)
        ensures
            r is Ok ==> spec_sig_ok(self@),
    {
        let now = now_micros();
        self.verify_at(now)
    }

    /// Recompute the digest from the payload and compare.
    pub fn verify_digest(&self) -> (r: IgniteResult<()>)
        ensures
            r is Ok <==> spec_digest_ok(self@),
            r matches Err(e) ==> is_crypto_error(e, "verify_digest"@),
    {
        let digest_bytes = sha256(self.payload_json.as_str().as_bytes());
        let computed = to_hex(digest_bytes.as_slice());
        if computed == self.digest {
            Ok(())
        } else {
            Err(IgniteError::crypto_error(
                String::from_str("verify_digest"),
                String::from_str("Digest mismatch - payload may have been tampered with"),
            ))
        }
    }

    /// Full verification at the given instant: digest first, then
    /// signature and expiry.
    pub fn verify_full_at(&self, now: i64) -> (r: IgniteResult<()>)
        ensures
            r is Ok <==> spec_verify_full_ok(self@, now),
    {
        match self.verify_digest() {
            Ok(()) => self.verify_at(now),
            Err(e) => Err(e),
        }
    }

    /// Full verification against the wall clock.
    pub fn verify_full(&self) -> (r: IgniteResult<()>)
        ensures
            r is Ok ==> spec_digest_ok(self@) && spec_sig_ok(self@),
    {
        match self.verify_digest() {
            Ok(()) => self.verify(),
            Err(e) => Err(e),
        }
    }
}

/// Proof round-trip: a bundle that records the digest of its payload and
/// a signature valid under its key — as every bundle the signing
/// functions produce does — passes full verification at any instant not
/// past its expiry.
pub proof fn lemma_signed_bundle_verifies(b: BundleView, now: i64)
    requires
        spec_digest_ok(b),
        spec_sig_ok(b),
        now <= b.expires_at,
    ensures
        spec_verify_full_ok(b, now),
{
}

/// Expiry: past the deadline, signature verification is refused whatever
/// the signature, while the digest check does not read the clock at all.
pub proof fn lemma_expired_bundle_fails(b: BundleView, now: i64)
    requires
        now > b.expires_at,
    ensures
        !spec_verify_ok(b, now),
        !spec_verify_full_ok(b, now),
{
}

} // verus!
