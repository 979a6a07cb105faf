//! Tests for passphrase verifiers and wrapped ignition keys.

use ignite::hierarchy::KeyType;
use ignite::ignition::EncryptedKeyMaterial;
use ignite::ignition::ExpirationPolicy;
use ignite::ignition::IgnitionKey;
use ignite::ignition::PassphraseHash;
use ignite::material::KeyFormat;
use ignite::material::KeyMaterial;

#[test]
fn test_passphrase_hash() {
    let passphrase = "TestPassphrase123!";
    let hash = PassphraseHash::new(passphrase).unwrap();

    // Correct passphrase should verify
    assert!(hash.verify(passphrase).unwrap());

    // Wrong passphrase should not verify
    assert!(!hash.verify("WrongPassphrase").unwrap());
}

#[test]
fn test_passphrase_hash_salted() {
    // Two verifiers for the same passphrase carry different salts and so
    // different digests.
    let h1 = PassphraseHash::new("TestPassphrase123!").unwrap();
    let h2 = PassphraseHash::new("TestPassphrase123!").unwrap();
    assert_ne!(h1.salt, h2.salt);
    assert_ne!(h1.hash, h2.hash);
    assert_eq!(h1.algorithm, "SHA256-PBKDF2");
    assert_eq!(h1.iterations, 100_000);
}

#[test]
fn test_ignition_key_creation() {
    let key_material = KeyMaterial::new(
        b"test_public_key".to_vec(),
        Some(b"test_private_key".to_vec()),
        KeyFormat::Age,
    );

    let ignition_key = IgnitionKey::create(
        &key_material,
        KeyType::Ignition,
        "SecureTestPass123!",
        None,
        Some("test-key".to_string()),
    );

    assert!(ignition_key.is_ok());
    let key = ignition_key.unwrap();
    assert_eq!(key.key_type(), KeyType::Ignition);
    assert_eq!(key.metadata().name, "test-key");
}

#[test]
fn test_ignition_key_rejects_non_wrapped_tiers() {
    let key_material = KeyMaterial::new(b"pub".to_vec(), Some(b"priv".to_vec()), KeyFormat::Age);
    assert!(IgnitionKey::create(&key_material, KeyType::Master, "SecureTestPass123!", None, None)
        .is_err());
    assert!(IgnitionKey::create(&key_material, KeyType::Repo, "SecureTestPass123!", None, None)
        .is_err());
}

#[test]
fn test_ignition_key_rejects_weak_passphrase() {
    let key_material = KeyMaterial::new(b"pub".to_vec(), Some(b"priv".to_vec()), KeyFormat::Age);
    assert!(IgnitionKey::create(&key_material, KeyType::Ignition, "weak", None, None).is_err());
}

#[test]
fn test_ignition_key_unlock_roundtrip() {
    // Unlocking with the wrapping passphrase gives back exactly the
    // wrapped material; a wrong passphrase is refused and counted.
    let key_material = KeyMaterial::new(
        b"round_trip_public".to_vec(),
        Some(b"round_trip_private".to_vec()),
        KeyFormat::Ed25519,
    );
    let mut key = IgnitionKey::create(
        &key_material,
        KeyType::Ignition,
        "SecureTestPass123!",
        None,
        None,
    )
    .unwrap();

    let unlocked = key.unlock("SecureTestPass123!").unwrap();
    assert_eq!(unlocked.public_key(), key_material.public_key());
    assert_eq!(unlocked.private_key(), key_material.private_key());
    assert_eq!(unlocked.format(), key_material.format());
    assert_eq!(key.metadata().unlock_count, 1);
    assert!(key.metadata().last_unlock.is_some());

    let wrong = key.unlock("WrongPassphrase999!");
    assert!(wrong.is_err());
    assert_eq!(key.metadata().failed_unlock_attempts, 1);
}

#[test]
fn test_ignition_key_change_passphrase() {
    let key_material =
        KeyMaterial::new(b"cp_public".to_vec(), Some(b"cp_private".to_vec()), KeyFormat::Age);
    let mut key = IgnitionKey::create(
        &key_material,
        KeyType::Distro,
        "FirstSecret123!X",
        None,
        None,
    )
    .unwrap();

    key.change_passphrase("FirstSecret123!X", "SecondSecret456!Y").unwrap();

    // The old passphrase no longer unlocks; the new one does.
    assert!(key.unlock("FirstSecret123!X").is_err());
    let unlocked = key.unlock("SecondSecret456!Y").unwrap();
    assert_eq!(unlocked.public_key(), key_material.public_key());
}

#[test]
fn test_unlock_error_identities() {
    // A wrong passphrase is reported as exactly "Invalid passphrase"; an
    // expired key as exactly "Ignition key has expired", untouched.
    let key_material =
        KeyMaterial::new(b"idp".to_vec(), Some(b"ids".to_vec()), KeyFormat::Age);
    let mut key = IgnitionKey::create(
        &key_material,
        KeyType::Distro,
        "SecureTestPass123!",
        None,
        None,
    )
    .unwrap();

    let now = key.creation_timestamp() + 1;
    let wrong = key.unlock_at("WrongPassphrase999!", now).unwrap_err();
    assert!(wrong.message().contains("Invalid passphrase"));
    assert_eq!(key.metadata().failed_unlock_attempts, 1);

    // Distro keys expire after seven days.
    let eight_days_on = key.creation_timestamp() + 8 * 86_400_000_000;
    let expired = key.unlock_at("SecureTestPass123!", eight_days_on).unwrap_err();
    assert!(expired.message().contains("Ignition key has expired"));
    assert_eq!(key.metadata().unlock_count, 0);
}

#[test]
fn test_change_passphrase_weak_new_passphrase() {
    // The unlock happens before the new passphrase is judged, so a weak
    // replacement leaves the unlock recorded and the wrap unchanged.
    let key_material =
        KeyMaterial::new(b"weak_pub".to_vec(), Some(b"weak_sec".to_vec()), KeyFormat::Age);
    let mut key = IgnitionKey::create(
        &key_material,
        KeyType::Ignition,
        "FirstSecret123!X",
        None,
        None,
    )
    .unwrap();
    let now = key.creation_timestamp() + 1;
    assert!(key.change_passphrase_at("FirstSecret123!X", "weak", now).is_err());
    assert_eq!(key.metadata().unlock_count, 1);
    assert_eq!(key.metadata().last_unlock, Some(now));
    // The old passphrase still unlocks.
    assert!(key.unlock_at("FirstSecret123!X", now + 1).is_ok());
}

#[test]
fn test_default_policy_recorded_on_create() {
    let key_material = KeyMaterial::new(b"pp".to_vec(), None, KeyFormat::Age);
    let skull =
        IgnitionKey::create(&key_material, KeyType::Skull, "SecureTestPass123!", None, None)
            .unwrap();
    assert!(!skull.is_expired());
    assert!(!skull.is_warning());

    let distro =
        IgnitionKey::create(&key_material, KeyType::Distro, "SecureTestPass123!", None, None)
            .unwrap();
    // Seven days out the distro key is expired; at creation it is not.
    assert!(!distro.is_expired_at(distro.creation_timestamp()));
    assert!(distro.is_expired_at(distro.creation_timestamp() + 8 * 86_400_000_000));
}

#[test]
fn test_encrypted_material_roundtrip() {
    let key_material =
        KeyMaterial::new(b"wrap_public".to_vec(), Some(b"wrap_private".to_vec()), KeyFormat::Age);
    let wrapping_key = vec![7u8; 32];
    let wrapped = EncryptedKeyMaterial::encrypt(&key_material, &wrapping_key).unwrap();
    assert_eq!(wrapped.nonce.len(), 12);
    assert_eq!(wrapped.algorithm, "XOR-DEMO");
    // The ciphertext is not the plaintext.
    assert_ne!(&wrapped.ciphertext[10..], b"wrap_public".as_slice());

    let unwrapped = wrapped.decrypt(&wrapping_key).unwrap();
    assert_eq!(unwrapped.public_key(), key_material.public_key());
    assert_eq!(unwrapped.private_key(), key_material.private_key());
}

#[test]
fn test_expiration_policy_defaults() {
    assert!(ExpirationPolicy::default_for_type(KeyType::Skull).is_none());
    assert!(ExpirationPolicy::default_for_type(KeyType::Master).is_none());
    assert!(ExpirationPolicy::default_for_type(KeyType::Repo).is_none());

    let ignition = ExpirationPolicy::default_for_type(KeyType::Ignition).unwrap();
    assert_eq!(ignition.expiration_micros, 30 * 86_400_000_000);
    let distro = ExpirationPolicy::default_for_type(KeyType::Distro).unwrap();
    assert_eq!(distro.expiration_micros, 7 * 86_400_000_000);
}

#[test]
fn test_expiration_policy_windows() {
    let policy = ExpirationPolicy::new(100, true);
    assert!(!policy.is_expired_at(0, 100));
    assert!(policy.is_expired_at(0, 101));
    // Warning begins in the last tenth of the window.
    assert!(!policy.is_warning_at(0, 90));
    assert!(policy.is_warning_at(0, 91));
}

#[test]
fn test_ignition_key_fingerprint_stable() {
    let key_material =
        KeyMaterial::new(b"fp_public".to_vec(), Some(b"fp_private".to_vec()), KeyFormat::Age);
    let key = IgnitionKey::create(
        &key_material,
        KeyType::Ignition,
        "SecureTestPass123!",
        None,
        None,
    )
    .unwrap();
    let fp1 = key.fingerprint().unwrap();
    let fp2 = key.fingerprint().unwrap();
    assert_eq!(fp1, fp2);
    assert_eq!(fp1.algorithm(), "SHA256");
}
