//! Tests for the policy engine: expiration defaults and passphrase
//! strength rules.

use ed25519_dalek::SecretKey;
use ed25519_dalek::SigningKey;
use ignite::hierarchy::KeyType;
use ignite::keys::AuthorityKey;
use ignite::material::KeyFormat;
use ignite::material::KeyMaterial;
use ignite::policy::ExpirationPolicy;
use ignite::policy::PassphraseStrengthPolicy;
use ignite::policy::PolicyEngine;
use ignite::policy::PolicyKind;
use ignite::policy::is_common_password;
use ignite::policy::validate_passphrase_strength;
use rand::RngCore;

fn sample_key(key_type: KeyType) -> AuthorityKey {
    let mut secret_bytes = [0u8; 32];
    rand::rng().fill_bytes(&mut secret_bytes);
    let secret_key = SecretKey::from(secret_bytes);
    let signing_key = SigningKey::from(&secret_key);
    let public_key = signing_key.verifying_key().to_bytes().to_vec();
    let private_key = Some(signing_key.to_bytes().to_vec());
    let material = KeyMaterial::new(public_key, private_key, KeyFormat::Ed25519);

    AuthorityKey::new(material, key_type, None, None).unwrap()
}

#[test]
fn expiration_policy_sets_defaults() {
    let policy = ExpirationPolicy::default();
    let mut distro_key = sample_key(KeyType::Distro);
    policy.apply_key_defaults(&mut distro_key).unwrap();
    assert!(distro_key.metadata().expiration().is_some());

    let master_key = sample_key(KeyType::Master);
    assert!(master_key.metadata().expiration().is_none());
}

#[test]
fn expiration_policy_rejects_expired_keys() {
    let policy = ExpirationPolicy::default();
    let mut ignition_key = sample_key(KeyType::Ignition);
    let hour_ago = chrono::Utc::now().timestamp_micros() - 3_600_000_000;
    ignition_key.set_expiration(Some(hour_ago));

    assert!(policy.validate_key_at(&ignition_key, chrono::Utc::now().timestamp_micros()).is_err());
}

#[test]
fn passphrase_policy_enforces_rules() {
    let engine = PolicyEngine::with_defaults();
    assert!(engine.validate_passphrase(KeyType::Ignition, "MySecure123!Pass").is_ok());
    assert!(engine.validate_passphrase(KeyType::Ignition, "short").is_err());
    assert!(engine.validate_passphrase(KeyType::Ignition, "password123Secure").is_err());
}

#[test]
fn engine_allows_policy_registration() {
    let mut engine = PolicyEngine::new();
    engine.register_policy(PolicyKind::PassphraseStrength(PassphraseStrengthPolicy::new()));

    let key = sample_key(KeyType::Master);
    assert!(engine.validate_key(&key).is_ok());
}

#[test]
fn test_passphrase_validation() {
    // Valid passphrase
    assert!(validate_passphrase_strength("MySecure123!Pass").is_ok());

    // Too short
    assert!(validate_passphrase_strength("short").is_err());

    // No diversity
    assert!(validate_passphrase_strength("alllowercase").is_err());

    // Common password
    assert!(validate_passphrase_strength("password123").is_err());

    // Injection pattern
    assert!(validate_passphrase_strength("test$(rm -rf /)").is_err());
}

#[test]
fn test_passphrase_rules_scenario() {
    assert!(validate_passphrase_strength("short").is_err());
    assert!(validate_passphrase_strength("password123Secure").is_err());
    assert!(validate_passphrase_strength("test$(rm -rf /)").is_err());
    assert!(validate_passphrase_strength("alllowercase").is_err());
    assert!(validate_passphrase_strength("MySecure123!Pass").is_ok());
}

#[test]
fn test_common_password_detection() {
    assert!(is_common_password("password"));
    assert!(is_common_password("XXqwertyXX"));
    assert!(is_common_password("LetMeIn"));
    assert!(!is_common_password("obscure-and-unique"));
}

#[test]
fn test_apply_defaults_idempotent() {
    // Running the defaults pass twice leaves the metadata exactly as one
    // pass left it.
    let engine = PolicyEngine::with_defaults();
    let mut key = sample_key(KeyType::Distro);
    engine.apply_key_defaults(&mut key).unwrap();
    let once = key.metadata().expiration();
    assert!(once.is_some());
    engine.apply_key_defaults(&mut key).unwrap();
    assert_eq!(key.metadata().expiration(), once);
}

#[test]
fn test_default_expirations_per_tier() {
    let engine = PolicyEngine::with_defaults();
    let day = 86_400_000_000i64;

    let mut ignition = sample_key(KeyType::Ignition);
    let creation = ignition.metadata().creation_time;
    engine.apply_key_defaults(&mut ignition).unwrap();
    assert_eq!(ignition.metadata().expiration(), Some(creation + 30 * day));

    let mut distro = sample_key(KeyType::Distro);
    let creation = distro.metadata().creation_time;
    engine.apply_key_defaults(&mut distro).unwrap();
    assert_eq!(distro.metadata().expiration(), Some(creation + 7 * day));

    let mut skull = sample_key(KeyType::Skull);
    engine.apply_key_defaults(&mut skull).unwrap();
    assert_eq!(skull.metadata().expiration(), None);
}

#[test]
fn test_warning_window() {
    let policy = ExpirationPolicy::new();
    // A ten-day window warns in the last day.
    let day = 86_400_000_000i64;
    let creation = 0i64;
    let expiration = 10 * day;
    assert!(!policy.is_warning_at(creation, expiration, 8 * day));
    assert!(policy.is_warning_at(creation, expiration, 9 * day));
    assert!(policy.is_warning_at(creation, expiration, 11 * day));
}
