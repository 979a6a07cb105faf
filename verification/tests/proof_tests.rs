//! Tests for claims, receipts and Ed25519 proof bundles.

use ignite::material::KeyFingerprint;
use ignite::material::KeyFormat;
use ignite::material::KeyMaterial;
use ignite::proofs::AuthorityClaim;
use ignite::proofs::ProofBundle;
use ignite::proofs::SubjectReceipt;
use rand::RngCore;
use sha2::Digest;

fn create_test_signing_key() -> Vec<u8> {
    let mut secret_bytes = [0u8; 32];
    rand::rng().fill_bytes(&mut secret_bytes);
    secret_bytes.to_vec()
}

fn create_test_fingerprint(suffix: &str) -> KeyFingerprint {
    KeyFingerprint::from_string(&format!("SHA256:test{}", suffix)).unwrap()
}

fn hour_from_now() -> i64 {
    chrono::Utc::now().timestamp_micros() + 3_600_000_000
}

#[test]
fn test_authority_claim_creation() {
    let parent_fp = create_test_fingerprint("parent");
    let child_fp = create_test_fingerprint("child");

    let claim = AuthorityClaim::new(parent_fp.clone(), child_fp.clone(), "test purpose");

    assert_eq!(claim.parent_fp, parent_fp);
    assert_eq!(claim.child_fp, child_fp);
    assert_eq!(claim.purpose, "test purpose");
    assert_eq!(claim.schema_version, "1.0");
    assert!(!claim.nonce.is_empty());
    assert_eq!(claim.nonce.len(), 32); // 16 bytes * 2 hex chars
}

#[test]
fn test_authority_claim_nonce_uniqueness() {
    let parent_fp = create_test_fingerprint("parent");
    let child_fp = create_test_fingerprint("child");

    let claim1 = AuthorityClaim::new(parent_fp.clone(), child_fp.clone(), "test");
    let claim2 = AuthorityClaim::new(parent_fp, child_fp, "test");

    // Nonces should be different for different claims
    assert_ne!(claim1.nonce, claim2.nonce);
}

#[test]
fn test_authority_claim_canonical_json() {
    let parent_fp = create_test_fingerprint("parent");
    let child_fp = create_test_fingerprint("child");

    let claim = AuthorityClaim::new(parent_fp, child_fp, "test purpose");
    let json = claim.to_canonical_json().unwrap();

    // Check that JSON contains expected fields in sorted order
    assert!(json.contains("\"child_fp\""));
    assert!(json.contains("\"parent_fp\""));
    assert!(json.contains("\"purpose\":\"test purpose\""));
    assert!(json.contains("\"schema_version\":\"1.0\""));
    assert!(json.contains("\"nonce\""));
}

#[test]
fn test_authority_claim_canonical_json_exact() {
    // A claim with every field pinned serializes to exactly these bytes.
    let claim = AuthorityClaim {
        schema_version: "1.0".to_string(),
        parent_fp: KeyFingerprint::from_string("SHA256:aa").unwrap(),
        child_fp: KeyFingerprint::from_string("SHA256:bb").unwrap(),
        issued_at: 0,
        purpose: "p".to_string(),
        nonce: "abcd".to_string(),
    };
    let json = claim.to_canonical_json().unwrap();
    assert_eq!(
        json,
        "{\"child_fp\":\"SHA256:bb\",\"issued_at\":\"1970-01-01T00:00:00+00:00\",\
         \"nonce\":\"abcd\",\"parent_fp\":\"SHA256:aa\",\"purpose\":\"p\",\
         \"schema_version\":\"1.0\"}"
    );
    // The stored digest is the SHA-256 of exactly those bytes, in hex.
    let digest = claim.compute_digest().unwrap();
    let expected = format!("{:x}", sha2::Sha256::digest(json.as_bytes()));
    assert_eq!(digest, expected);
}

#[test]
fn test_claim_canonical_json_escapes_purpose() {
    let claim = AuthorityClaim {
        schema_version: "1.0".to_string(),
        parent_fp: KeyFingerprint::from_string("SHA256:aa").unwrap(),
        child_fp: KeyFingerprint::from_string("SHA256:bb").unwrap(),
        issued_at: 0,
        purpose: "say \"hi\"\\now".to_string(),
        nonce: "abcd".to_string(),
    };
    let json = claim.to_canonical_json().unwrap();
    assert!(json.contains("\"purpose\":\"say \\\"hi\\\"\\\\now\""));
}

#[test]
fn test_subject_receipt_creation() {
    let parent_fp = create_test_fingerprint("parent");
    let child_fp = create_test_fingerprint("child");

    let receipt = SubjectReceipt::new(child_fp.clone(), parent_fp.clone());

    assert_eq!(receipt.child_fp, child_fp);
    assert_eq!(receipt.parent_fp, parent_fp);
    assert_eq!(receipt.schema_version, "1.0");
    assert!(!receipt.nonce.is_empty());
    assert_eq!(receipt.nonce.len(), 32); // 16 bytes * 2 hex chars
}

#[test]
fn test_proof_bundle_sign_and_verify_claim() {
    let signing_key = create_test_signing_key();
    let parent_fp = create_test_fingerprint("parent");
    let child_fp = create_test_fingerprint("child");
    let expires_at = hour_from_now();

    let claim = AuthorityClaim::new(parent_fp, child_fp, "test authority claim");

    // Sign the claim
    let proof = ProofBundle::sign_claim(&claim, &signing_key, expires_at).unwrap();

    // Verify the proof
    assert!(proof.verify_full().is_ok());
    assert!(proof.verify_digest().is_ok());
    assert!(proof.verify().is_ok());
}

#[test]
fn test_proof_bundle_sign_and_verify_receipt() {
    let signing_key = create_test_signing_key();
    let parent_fp = create_test_fingerprint("parent");
    let child_fp = create_test_fingerprint("child");
    let expires_at = hour_from_now();

    let receipt = SubjectReceipt::new(child_fp, parent_fp);

    // Sign the receipt
    let proof = ProofBundle::sign_receipt(&receipt, &signing_key, expires_at).unwrap();

    // Verify the proof
    assert!(proof.verify_full().is_ok());
    assert!(proof.verify_digest().is_ok());
    assert!(proof.verify().is_ok());
}

#[test]
fn test_proof_bundle_expiration() {
    let signing_key = create_test_signing_key();
    let parent_fp = create_test_fingerprint("parent");
    let child_fp = create_test_fingerprint("child");
    let expires_at = chrono::Utc::now().timestamp_micros() - 1_000_000; // Already expired

    let claim = AuthorityClaim::new(parent_fp, child_fp, "expired claim");
    let proof = ProofBundle::sign_claim(&claim, &signing_key, expires_at).unwrap();

    // Verification should fail due to expiration
    assert!(proof.verify().is_err());
    assert!(proof.verify_full().is_err());

    // But digest verification should still work
    assert!(proof.verify_digest().is_ok());
}

#[test]
fn test_proof_bundle_tampered_digest() {
    let signing_key = create_test_signing_key();
    let parent_fp = create_test_fingerprint("parent");
    let child_fp = create_test_fingerprint("child");
    let expires_at = hour_from_now();

    let claim = AuthorityClaim::new(parent_fp, child_fp, "test claim");
    let mut proof = ProofBundle::sign_claim(&claim, &signing_key, expires_at).unwrap();

    // Tamper with the payload
    proof.payload_json = proof.payload_json.replace("test claim", "tampered claim");

    // Digest verification should fail
    assert!(proof.verify_digest().is_err());
    assert!(proof.verify_full().is_err());
}

#[test]
fn test_proof_bundle_tampered_signature() {
    let signing_key = create_test_signing_key();
    let parent_fp = create_test_fingerprint("parent");
    let child_fp = create_test_fingerprint("child");
    let expires_at = hour_from_now();

    let claim = AuthorityClaim::new(parent_fp, child_fp, "test claim");
    let mut proof = ProofBundle::sign_claim(&claim, &signing_key, expires_at).unwrap();
    proof.signature[0] ^= 0xff;

    assert!(proof.verify().is_err());
    // The digest itself is untouched.
    assert!(proof.verify_digest().is_ok());
}

#[test]
fn test_digest_computation_deterministic() {
    let parent_fp = create_test_fingerprint("parent");
    let child_fp = create_test_fingerprint("child");

    let claim1 = AuthorityClaim::new(parent_fp.clone(), child_fp.clone(), "test");
    let claim2 = AuthorityClaim {
        schema_version: claim1.schema_version.clone(),
        parent_fp: claim1.parent_fp.clone(),
        child_fp: claim1.child_fp.clone(),
        issued_at: claim1.issued_at,
        purpose: claim1.purpose.clone(),
        nonce: claim1.nonce.clone(),
    };

    let digest1 = claim1.compute_digest().unwrap();
    let digest2 = claim2.compute_digest().unwrap();

    // Same claim data should produce same digest
    assert_eq!(digest1, digest2);
}

#[test]
fn test_canonical_json_stable_across_renderings() {
    let claim = AuthorityClaim::new(
        create_test_fingerprint("parent"),
        create_test_fingerprint("child"),
        "stability",
    );
    let first = claim.to_canonical_json().unwrap();
    let second = claim.to_canonical_json().unwrap();
    assert_eq!(first, second);
}

#[test]
fn test_sign_claim_with_material_rejects_age_keys() {
    let claim = AuthorityClaim::new(
        create_test_fingerprint("parent"),
        create_test_fingerprint("child"),
        "format check",
    );
    let age = KeyMaterial::new(b"pub".to_vec(), Some(b"priv".to_vec()), KeyFormat::Age);
    assert!(ProofBundle::sign_claim_with_material(&claim, &age, hour_from_now()).is_err());

    let secret = create_test_signing_key();
    let ed = KeyMaterial::new(b"pub".to_vec(), Some(secret), KeyFormat::Ed25519);
    let proof = ProofBundle::sign_claim_with_material(&claim, &ed, hour_from_now()).unwrap();
    assert!(proof.verify_full().is_ok());

    let no_private = KeyMaterial::new(b"pub".to_vec(), None, KeyFormat::Ed25519);
    assert!(ProofBundle::sign_claim_with_material(&claim, &no_private, hour_from_now()).is_err());
}

#[test]
fn test_signature_matches_reference_implementation() {
    // The bundle's signature must be exactly ed25519 over the digest
    // string's bytes, and the stored key the matching verifying key.
    let signing_key = create_test_signing_key();
    let claim = AuthorityClaim::new(
        create_test_fingerprint("parent"),
        create_test_fingerprint("child"),
        "reference",
    );
    let proof = ProofBundle::sign_claim(&claim, &signing_key, hour_from_now()).unwrap();

    let mut secret = [0u8; 32];
    secret.copy_from_slice(&signing_key);
    let dalek = ed25519_dalek::SigningKey::from_bytes(&secret);
    let expected_sig = ed25519_dalek::Signer::sign(&dalek, proof.digest.as_bytes());
    assert_eq!(proof.signature, expected_sig.to_bytes().to_vec());
    assert_eq!(proof.public_key, dalek.verifying_key().to_bytes().to_vec());
}
