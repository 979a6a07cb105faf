//! Tests for the key-type hierarchy and authority levels.

use ignite::hierarchy::AuthorityLevel;
use ignite::hierarchy::KeyType;
use ignite::hierarchy::validate_authority_hierarchy;

#[test]
fn test_key_type_hierarchy() {
    // Test parent relationships
    assert_eq!(KeyType::Master.parent_type(), Some(KeyType::Skull));
    assert_eq!(KeyType::Repo.parent_type(), Some(KeyType::Master));
    assert_eq!(KeyType::Ignition.parent_type(), Some(KeyType::Repo));
    assert_eq!(KeyType::Distro.parent_type(), Some(KeyType::Ignition));
    assert_eq!(KeyType::Skull.parent_type(), None);

    // Test control relationships
    assert!(KeyType::Skull.can_control(KeyType::Master));
    assert!(KeyType::Master.can_control(KeyType::Repo));
    assert!(KeyType::Repo.can_control(KeyType::Ignition));
    assert!(KeyType::Ignition.can_control(KeyType::Distro));

    // Test invalid control relationships
    assert!(!KeyType::Master.can_control(KeyType::Skull));
    assert!(!KeyType::Distro.can_control(KeyType::Ignition));
    assert!(!KeyType::Skull.can_control(KeyType::Repo)); // Skip levels
}

#[test]
fn chain_test_key_type_hierarchy() {
    assert!(KeyType::Skull.can_control(KeyType::Master));
    assert!(KeyType::Master.can_control(KeyType::Repo));
    assert!(KeyType::Repo.can_control(KeyType::Ignition));
    assert!(KeyType::Ignition.can_control(KeyType::Distro));

    assert!(!KeyType::Distro.can_control(KeyType::Ignition));
    assert!(!KeyType::Master.can_control(KeyType::Ignition)); // Must go through Repo
}

#[test]
fn test_key_type_parsing() {
    assert_eq!(KeyType::from_str("skull").unwrap(), KeyType::Skull);
    assert_eq!(KeyType::from_str("x").unwrap(), KeyType::Skull);
    assert_eq!(KeyType::from_str("master").unwrap(), KeyType::Master);
    assert_eq!(KeyType::from_str("m").unwrap(), KeyType::Master);
    assert_eq!(KeyType::from_str("repo").unwrap(), KeyType::Repo);
    assert_eq!(KeyType::from_str("repository").unwrap(), KeyType::Repo);
    assert_eq!(KeyType::from_str("ignition").unwrap(), KeyType::Ignition);
    assert_eq!(KeyType::from_str("distro").unwrap(), KeyType::Distro);

    assert!(KeyType::from_str("invalid").is_err());
}

#[test]
fn test_key_type_parsing_case_insensitive() {
    assert_eq!(KeyType::from_str("SKULL").unwrap(), KeyType::Skull);
    assert_eq!(KeyType::from_str("Master").unwrap(), KeyType::Master);
    assert_eq!(KeyType::from_str("Distribution").unwrap(), KeyType::Distro);
    assert_eq!(KeyType::from_str("I").unwrap(), KeyType::Ignition);
}

#[test]
fn test_ignition_key_detection() {
    assert!(KeyType::Skull.is_ignition_key());
    assert!(!KeyType::Master.is_ignition_key());
    assert!(!KeyType::Repo.is_ignition_key());
    assert!(KeyType::Ignition.is_ignition_key());
    assert!(KeyType::Distro.is_ignition_key());
}

#[test]
fn test_key_type_ignition_detection() {
    assert!(KeyType::Skull.is_ignition_key());
    assert!(!KeyType::Master.is_ignition_key());
    assert!(!KeyType::Repo.is_ignition_key());
    assert!(KeyType::Ignition.is_ignition_key());
    assert!(KeyType::Distro.is_ignition_key());
}

#[test]
fn test_authority_hierarchy_validation() {
    assert!(validate_authority_hierarchy(KeyType::Skull, KeyType::Master).is_ok());
    assert!(validate_authority_hierarchy(KeyType::Master, KeyType::Repo).is_ok());
    assert!(validate_authority_hierarchy(KeyType::Repo, KeyType::Ignition).is_ok());
    assert!(validate_authority_hierarchy(KeyType::Ignition, KeyType::Distro).is_ok());

    // Invalid relationships
    assert!(validate_authority_hierarchy(KeyType::Distro, KeyType::Ignition).is_err());
    assert!(validate_authority_hierarchy(KeyType::Master, KeyType::Ignition).is_err());
}

#[test]
fn test_authority_levels() {
    assert_eq!(AuthorityLevel::from_key_type(KeyType::Skull), AuthorityLevel::SkullAuthority);
    assert_eq!(AuthorityLevel::from_key_type(KeyType::Master), AuthorityLevel::MasterControl);
    assert_eq!(AuthorityLevel::from_key_type(KeyType::Distro), AuthorityLevel::DistroAccess);

    // Test authority level comparisons
    assert!(AuthorityLevel::SkullAuthority > AuthorityLevel::MasterControl);
    assert!(AuthorityLevel::MasterControl.can_perform(AuthorityLevel::DistroAccess));
    assert!(!AuthorityLevel::DistroAccess.can_perform(AuthorityLevel::MasterControl));
}

#[test]
fn test_key_type_names() {
    assert_eq!(KeyType::Skull.as_str(), "skull");
    assert_eq!(KeyType::Master.as_str(), "master");
    assert_eq!(KeyType::Repo.as_str(), "repo");
    assert_eq!(KeyType::Ignition.as_str(), "ignition");
    assert_eq!(KeyType::Distro.as_str(), "distro");
}

#[test]
fn test_child_types() {
    assert_eq!(KeyType::Skull.child_types(), vec![KeyType::Master]);
    assert_eq!(KeyType::Master.child_types(), vec![KeyType::Repo]);
    assert_eq!(KeyType::Distro.child_types(), Vec::<KeyType>::new());
}
