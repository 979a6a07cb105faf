//! Tests for key material, fingerprints, key records and the authority
//! chain.

use ed25519_dalek::SecretKey;
use ed25519_dalek::SigningKey;
use ignite::chain::AuthorityChain;
use ignite::hierarchy::KeyType;
use ignite::keys::AuthorityKey;
use ignite::material::KeyFingerprint;
use ignite::material::KeyFormat;
use ignite::material::KeyMaterial;
use rand::RngCore;

fn create_test_key_material() -> KeyMaterial {
    let mut secret_bytes = [0u8; 32];
    rand::rng().fill_bytes(&mut secret_bytes);
    let secret_key = SecretKey::from(secret_bytes);
    let signing_key = SigningKey::from(&secret_key);
    let public_key = signing_key.verifying_key().to_bytes().to_vec();
    let private_key = Some(signing_key.to_bytes().to_vec());

    KeyMaterial::new(public_key, private_key, KeyFormat::Ed25519)
}

#[test]
fn test_key_fingerprint_generation() {
    let key_material = create_test_key_material();
    let fingerprint1 = key_material.fingerprint().unwrap();
    let fingerprint2 = key_material.fingerprint().unwrap();

    // Same key material should produce same fingerprint
    assert_eq!(fingerprint1.hex(), fingerprint2.hex());
    assert!(!fingerprint1.hex().is_empty());
    assert_eq!(fingerprint1.short().len(), 8);
}

#[test]
fn test_key_fingerprint_known_digest() {
    // SHA-256 of the empty byte string, a published test vector.
    let fp = KeyFingerprint::from_key_material(&[]).unwrap();
    assert_eq!(fp.hex(), "e3b0c44298fc1c149afbf4c8996fb92427ae41e4649b934ca495991b7852b855");
    assert_eq!(fp.algorithm(), "SHA256");
    assert_eq!(
        fp.display_string(),
        "SHA256:e3b0c44298fc1c149afbf4c8996fb92427ae41e4649b934ca495991b7852b855"
    );
    // SHA-256 of "abc", a published test vector.
    let fp2 = KeyFingerprint::from_key_material(b"abc").unwrap();
    assert_eq!(fp2.hex(), "ba7816bf8f01cfea414140de5dae2223b00361a396177a9cb410ff61f20015ad");
}

#[test]
fn test_fingerprint_ignores_private_half() {
    let m1 = KeyMaterial::new(b"same-public".to_vec(), Some(b"secret-a".to_vec()), KeyFormat::Age);
    let m2 = KeyMaterial::new(b"same-public".to_vec(), None, KeyFormat::Age);
    assert_eq!(m1.fingerprint().unwrap(), m2.fingerprint().unwrap());
}

#[test]
fn test_key_fingerprint_parsing() {
    let fp_str = "SHA256:a1b2c3d4";
    let fingerprint = KeyFingerprint::from_string(fp_str).unwrap();
    assert_eq!(fingerprint.hex(), "a1b2c3d4");

    // Invalid format should error
    assert!(KeyFingerprint::from_string("invalid").is_err());
}

#[test]
fn test_authority_key_creation() {
    let key_material = create_test_key_material();
    let authority_key = AuthorityKey::new(key_material, KeyType::Master, None, None).unwrap();

    assert_eq!(authority_key.key_type(), KeyType::Master);
    assert!(authority_key.children().is_empty());
    assert!(authority_key.can_control(KeyType::Repo));
    assert!(!authority_key.can_control(KeyType::Skull));
}

#[test]
fn test_authority_key_children() {
    let key_material = create_test_key_material();
    let mut authority_key = AuthorityKey::new(key_material, KeyType::Master, None, None).unwrap();

    let child_fp = KeyFingerprint::from_string("SHA256:child123").unwrap();

    // Add child
    assert!(authority_key.add_child(child_fp.clone()).is_ok());
    assert_eq!(authority_key.children().len(), 1);
    assert_eq!(authority_key.children()[0], child_fp);

    // Adding same child should error
    assert!(authority_key.add_child(child_fp).is_err());
}

#[test]
fn test_authority_chain_basic() {
    let chain = AuthorityChain::new();
    assert!(chain.is_empty());
    assert_eq!(chain.len(), 0);
}

#[test]
fn chain_test_authority_chain_basic() {
    let mut chain = AuthorityChain::new();
    assert!(chain.is_empty());
    assert_eq!(chain.len(), 0);
    let key = AuthorityKey::new(create_test_key_material(), KeyType::Skull, None, None).unwrap();
    chain.add_key(key).unwrap();
    assert!(!chain.is_empty());
}

#[test]
fn test_authority_chain_add_key() {
    let mut chain = AuthorityChain::new();

    let key_material = create_test_key_material();
    let key = AuthorityKey::new(key_material, KeyType::Master, None, None).unwrap();
    let fingerprint = key.fingerprint().clone();

    assert!(chain.add_key(key).is_ok());
    assert_eq!(chain.len(), 1);
    assert!(chain.get_key(&fingerprint).is_some());
}

#[test]
fn test_authority_chain_add_relationship() {
    let mut chain = AuthorityChain::new();

    let skull_key =
        AuthorityKey::new(create_test_key_material(), KeyType::Skull, None, None).unwrap();
    let skull_fp = skull_key.fingerprint().clone();

    let master_key =
        AuthorityKey::new(create_test_key_material(), KeyType::Master, None, None).unwrap();
    let master_fp = master_key.fingerprint().clone();

    chain.add_key(skull_key).unwrap();
    chain.add_key(master_key).unwrap();

    assert!(chain.add_authority_relationship(&skull_fp, &master_fp).is_ok());
    assert!(chain.has_authority(&skull_fp, &master_fp));
    assert!(chain.is_subject_to(&master_fp, &skull_fp));
}

#[test]
fn test_authority_chain_duplicate_relationship_rejected() {
    let mut chain = AuthorityChain::new();

    let skull_key =
        AuthorityKey::new(create_test_key_material(), KeyType::Skull, None, None).unwrap();
    let skull_fp = skull_key.fingerprint().clone();

    let master_key =
        AuthorityKey::new(create_test_key_material(), KeyType::Master, None, None).unwrap();
    let master_fp = master_key.fingerprint().clone();

    chain.add_key(skull_key).unwrap();
    chain.add_key(master_key).unwrap();

    assert!(chain.add_authority_relationship(&skull_fp, &master_fp).is_ok());

    let result = chain.add_authority_relationship(&skull_fp, &master_fp);
    assert!(result.is_err());
    assert!(result.unwrap_err().message().contains("already exists"));
}

#[test]
fn test_authority_chain_parent_reassignment_rejected() {
    let mut chain = AuthorityChain::new();

    let skull1 = AuthorityKey::new(create_test_key_material(), KeyType::Skull, None, None).unwrap();
    let skull1_fp = skull1.fingerprint().clone();

    let skull2 = AuthorityKey::new(create_test_key_material(), KeyType::Skull, None, None).unwrap();
    let skull2_fp = skull2.fingerprint().clone();

    let master_key =
        AuthorityKey::new(create_test_key_material(), KeyType::Master, None, None).unwrap();
    let master_fp = master_key.fingerprint().clone();

    chain.add_key(skull1).unwrap();
    chain.add_key(skull2).unwrap();
    chain.add_key(master_key).unwrap();

    assert!(chain.add_authority_relationship(&skull1_fp, &master_fp).is_ok());

    let result = chain.add_authority_relationship(&skull2_fp, &master_fp);
    assert!(result.is_err());
    assert!(result.unwrap_err().message().contains("already has parent"));
}

#[test]
fn test_authority_chain_invalid_hierarchy_rejected() {
    let mut chain = AuthorityChain::new();

    let master_key =
        AuthorityKey::new(create_test_key_material(), KeyType::Master, None, None).unwrap();
    let master_fp = master_key.fingerprint().clone();

    let skull_key =
        AuthorityKey::new(create_test_key_material(), KeyType::Skull, None, None).unwrap();
    let skull_fp = skull_key.fingerprint().clone();

    chain.add_key(master_key).unwrap();
    chain.add_key(skull_key).unwrap();

    let result = chain.add_authority_relationship(&master_fp, &skull_fp);
    assert!(result.is_err());
    assert!(result.unwrap_err().message().contains("cannot control"));
}

#[test]
fn test_authority_chain_hierarchy_levels() {
    let mut chain = AuthorityChain::new();

    let skull = AuthorityKey::new(create_test_key_material(), KeyType::Skull, None, None).unwrap();
    let master =
        AuthorityKey::new(create_test_key_material(), KeyType::Master, None, None).unwrap();
    let repo = AuthorityKey::new(create_test_key_material(), KeyType::Repo, None, None).unwrap();
    let ignition =
        AuthorityKey::new(create_test_key_material(), KeyType::Ignition, None, None).unwrap();
    let distro =
        AuthorityKey::new(create_test_key_material(), KeyType::Distro, None, None).unwrap();

    let skull_fp = skull.fingerprint().clone();
    let master_fp = master.fingerprint().clone();
    let repo_fp = repo.fingerprint().clone();
    let ignition_fp = ignition.fingerprint().clone();
    let distro_fp = distro.fingerprint().clone();

    chain.add_key(skull).unwrap();
    chain.add_key(master).unwrap();
    chain.add_key(repo).unwrap();
    chain.add_key(ignition).unwrap();
    chain.add_key(distro).unwrap();

    assert!(chain.add_authority_relationship(&skull_fp, &master_fp).is_ok());
    assert!(chain.add_authority_relationship(&master_fp, &repo_fp).is_ok());
    assert!(chain.add_authority_relationship(&repo_fp, &ignition_fp).is_ok());
    assert!(chain.add_authority_relationship(&ignition_fp, &distro_fp).is_ok());

    assert!(chain.has_authority(&skull_fp, &master_fp));
    assert!(chain.has_authority(&master_fp, &repo_fp));
    assert!(chain.has_authority(&repo_fp, &ignition_fp));
    assert!(chain.has_authority(&ignition_fp, &distro_fp));

    assert!(!chain.has_authority(&distro_fp, &ignition_fp));

    // The blast radius of the skull key is the whole chain below it, in
    // discovery order starting from the direct child.
    let dependents = chain.find_dependent_keys(&skull_fp).unwrap();
    let dependent_fps: Vec<_> = dependents.iter().map(|k| k.fingerprint().clone()).collect();
    assert_eq!(dependent_fps, vec![master_fp, repo_fp, ignition_fp, distro_fp]);
}

#[test]
fn test_authority_chain_get_children() {
    let mut chain = AuthorityChain::new();

    let skull = AuthorityKey::new(create_test_key_material(), KeyType::Skull, None, None).unwrap();
    let master1 =
        AuthorityKey::new(create_test_key_material(), KeyType::Master, None, None).unwrap();
    let master2 =
        AuthorityKey::new(create_test_key_material(), KeyType::Master, None, None).unwrap();

    let skull_fp = skull.fingerprint().clone();
    let master1_fp = master1.fingerprint().clone();
    let master2_fp = master2.fingerprint().clone();

    chain.add_key(skull).unwrap();
    chain.add_key(master1).unwrap();
    chain.add_key(master2).unwrap();

    chain.add_authority_relationship(&skull_fp, &master1_fp).unwrap();
    chain.add_authority_relationship(&skull_fp, &master2_fp).unwrap();

    let children = chain.get_children(&skull_fp);
    assert_eq!(children.len(), 2);
}

#[test]
fn test_authority_chain_get_parent() {
    let mut chain = AuthorityChain::new();

    let skull = AuthorityKey::new(create_test_key_material(), KeyType::Skull, None, None).unwrap();
    let master =
        AuthorityKey::new(create_test_key_material(), KeyType::Master, None, None).unwrap();

    let skull_fp = skull.fingerprint().clone();
    let master_fp = master.fingerprint().clone();

    chain.add_key(skull).unwrap();
    chain.add_key(master).unwrap();

    chain.add_authority_relationship(&skull_fp, &master_fp).unwrap();

    let parent = chain.get_parent(&master_fp);
    assert!(parent.is_some());
    assert_eq!(parent.unwrap().fingerprint(), &skull_fp);

    assert!(chain.get_parent(&skull_fp).is_none());
}

#[test]
fn test_authority_chain_find_dependent_keys() {
    let mut chain = AuthorityChain::new();

    let skull = AuthorityKey::new(create_test_key_material(), KeyType::Skull, None, None).unwrap();
    let master =
        AuthorityKey::new(create_test_key_material(), KeyType::Master, None, None).unwrap();
    let repo = AuthorityKey::new(create_test_key_material(), KeyType::Repo, None, None).unwrap();

    let skull_fp = skull.fingerprint().clone();
    let master_fp = master.fingerprint().clone();
    let repo_fp = repo.fingerprint().clone();

    chain.add_key(skull).unwrap();
    chain.add_key(master).unwrap();
    chain.add_key(repo).unwrap();

    chain.add_authority_relationship(&skull_fp, &master_fp).unwrap();
    chain.add_authority_relationship(&master_fp, &repo_fp).unwrap();

    let dependents = chain.find_dependent_keys(&skull_fp).unwrap();
    assert_eq!(dependents.len(), 2);

    let dependent_fps: Vec<_> = dependents.iter().map(|k| k.fingerprint()).collect();
    assert!(dependent_fps.contains(&&master_fp));
    assert!(dependent_fps.contains(&&repo_fp));
}

#[test]
fn test_authority_chain_validate_integrity_valid() {
    let mut chain = AuthorityChain::new();

    let skull = AuthorityKey::new(create_test_key_material(), KeyType::Skull, None, None).unwrap();
    let master =
        AuthorityKey::new(create_test_key_material(), KeyType::Master, None, None).unwrap();

    let skull_fp = skull.fingerprint().clone();
    let master_fp = master.fingerprint().clone();

    chain.add_key(skull).unwrap();
    chain.add_key(master).unwrap();
    chain.add_authority_relationship(&skull_fp, &master_fp).unwrap();

    assert!(chain.validate_integrity().is_ok());
}

#[test]
fn test_authority_chain_get_keys_by_type() {
    let mut chain = AuthorityChain::new();

    let skull = AuthorityKey::new(create_test_key_material(), KeyType::Skull, None, None).unwrap();
    let master1 =
        AuthorityKey::new(create_test_key_material(), KeyType::Master, None, None).unwrap();
    let master2 =
        AuthorityKey::new(create_test_key_material(), KeyType::Master, None, None).unwrap();

    chain.add_key(skull).unwrap();
    chain.add_key(master1).unwrap();
    chain.add_key(master2).unwrap();

    let masters = chain.get_keys_by_type(KeyType::Master);
    assert_eq!(masters.len(), 2);

    let skulls = chain.get_keys_by_type(KeyType::Skull);
    assert_eq!(skulls.len(), 1);
}

#[test]
fn test_rejection_reason_texts() {
    // The rejection reasons are fixed text: the tier rule names both
    // descriptions around "cannot control".
    let mut chain = AuthorityChain::new();
    let skull = AuthorityKey::new(create_test_key_material(), KeyType::Skull, None, None).unwrap();
    let repo = AuthorityKey::new(create_test_key_material(), KeyType::Repo, None, None).unwrap();
    let skull_fp = skull.fingerprint().clone();
    let repo_fp = repo.fingerprint().clone();
    chain.add_key(skull).unwrap();
    chain.add_key(repo).unwrap();

    let err = chain.add_authority_relationship(&skull_fp, &repo_fp).unwrap_err();
    match err {
        ignite::errors::IgniteError::InvalidOperation { operation, reason } => {
            assert_eq!(operation, "add_authority");
            assert_eq!(
                reason,
                "Invalid authority relationship: Skull Key (Ultimate Authority - Emergency \
                 Recovery) cannot control Repository Key (Local Authority - Repository \
                 Management)"
            );
        }
        other => panic!("unexpected error: {}", other.message()),
    }

    let missing = KeyFingerprint::from_string("SHA256:feedbeef").unwrap();
    let err = chain.add_authority_relationship(&missing, &repo_fp).unwrap_err();
    assert!(err.message().contains("Parent key not found: SHA256:feedbeef"));
}

#[test]
fn test_minimal_chain_scenario() {
    // Create a skull and a master, link them, and read the link back.
    let mut chain = AuthorityChain::new();
    let skull = AuthorityKey::new(create_test_key_material(), KeyType::Skull, None, None).unwrap();
    let master =
        AuthorityKey::new(create_test_key_material(), KeyType::Master, None, None).unwrap();
    let skull_fp = skull.fingerprint().clone();
    let master_fp = master.fingerprint().clone();
    chain.add_key(skull).unwrap();
    chain.add_key(master).unwrap();
    chain.add_authority_relationship(&skull_fp, &master_fp).unwrap();

    assert!(chain.has_authority(&skull_fp, &master_fp));
    assert_eq!(chain.get_parent(&master_fp).unwrap().fingerprint(), &skull_fp);
    let dependents = chain.find_dependent_keys(&skull_fp).unwrap();
    assert_eq!(dependents.len(), 1);
    assert_eq!(dependents[0].fingerprint(), &master_fp);
}

#[test]
fn test_skip_tier_rejected_scenario() {
    // A skull cannot control a repo directly.
    let mut chain = AuthorityChain::new();
    let skull = AuthorityKey::new(create_test_key_material(), KeyType::Skull, None, None).unwrap();
    let repo = AuthorityKey::new(create_test_key_material(), KeyType::Repo, None, None).unwrap();
    let skull_fp = skull.fingerprint().clone();
    let repo_fp = repo.fingerprint().clone();
    chain.add_key(skull).unwrap();
    chain.add_key(repo).unwrap();

    let result = chain.add_authority_relationship(&skull_fp, &repo_fp);
    assert!(result.is_err());
    assert!(result.unwrap_err().message().contains("cannot control"));
}
