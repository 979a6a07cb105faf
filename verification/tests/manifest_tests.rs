//! Tests for affected-key manifests and their sealing digests.

use chrono::TimeZone;
use ignite::hierarchy::KeyType;
use ignite::manifests::AffectedKeyManifest;
use ignite::manifests::ManifestChild;
use ignite::manifests::ManifestEvent;
use ignite::manifests::ManifestEventType;
use ignite::manifests::ManifestScope;
use ignite::material::KeyFingerprint;

fn create_test_fingerprint(suffix: &str) -> KeyFingerprint {
    KeyFingerprint::from_string(&format!("SHA256:test{}", suffix)).unwrap()
}

fn create_test_event() -> ManifestEvent {
    ManifestEvent::new(
        ManifestEventType::Rotation,
        create_test_fingerprint("parent"),
        "Test rotation event",
    )
}

fn micros(y: i32, mo: u32, d: u32, h: u32, mi: u32, s: u32) -> i64 {
    chrono::Utc.with_ymd_and_hms(y, mo, d, h, mi, s).unwrap().timestamp_micros()
}

#[test]
fn test_manifest_event_creation() {
    let parent_fp = create_test_fingerprint("parent");
    let event =
        ManifestEvent::new(ManifestEventType::Revocation, parent_fp.clone(), "Security breach");

    assert_eq!(event.event_type, ManifestEventType::Revocation);
    assert_eq!(event.parent_fingerprint, parent_fp);
    assert_eq!(event.reason, "Security breach");
    assert_eq!(event.initiated_by, "ignite-cli");
    assert!(event.initiated_at <= chrono::Utc::now().timestamp_micros());
}

#[test]
fn test_manifest_event_type_string() {
    assert_eq!(ManifestEventType::Rotation.as_str(), "rotation");
    assert_eq!(ManifestEventType::Revocation.as_str(), "revocation");
}

#[test]
fn test_manifest_event_type_parsing() {
    assert_eq!(ManifestEventType::from_str("rotation").unwrap(), ManifestEventType::Rotation);
    assert_eq!(ManifestEventType::from_str("revocation").unwrap(), ManifestEventType::Revocation);
    assert!(ManifestEventType::from_str("other").is_err());
}

#[test]
fn test_manifest_child_creation() {
    let child_fp = create_test_fingerprint("child");
    let issued_at = micros(2024, 1, 1, 12, 0, 0);

    let child = ManifestChild::new(child_fp.clone(), KeyType::Ignition, "active", issued_at);

    assert_eq!(child.fingerprint, child_fp);
    assert_eq!(child.role, KeyType::Ignition);
    assert_eq!(child.status, "active");
    assert_eq!(child.issued_at, issued_at);
    assert!(child.revoked_at.is_none());
    assert!(child.scope.is_none());
    assert!(child.ciphertext_md5.is_none());
}

#[test]
fn test_manifest_child_with_modifiers() {
    let child_fp = create_test_fingerprint("child");
    let issued_at = micros(2024, 1, 1, 12, 0, 0);
    let revoked_at = micros(2024, 1, 2, 12, 0, 0);
    let scope = ManifestScope::new(vec!["path1".to_string(), "path2".to_string()], "production");

    let child = ManifestChild::new(child_fp, KeyType::Ignition, "revoked", issued_at)
        .with_revocation(revoked_at)
        .with_scope(scope)
        .with_ciphertext_md5("abc123".to_string());

    assert_eq!(child.revoked_at, Some(revoked_at));
    assert!(child.scope.is_some());
    assert_eq!(child.scope.as_ref().unwrap().env, "production");
    assert_eq!(child.ciphertext_md5, Some("abc123".to_string()));
}

#[test]
fn test_affected_key_manifest_creation() {
    let event = create_test_event();
    let manifest = AffectedKeyManifest::new(event);

    assert_eq!(manifest.schema_version, "1.0");
    assert!(manifest.children.is_empty());
    assert!(manifest.digest.is_none());
}

#[test]
fn test_manifest_add_children() {
    let event = create_test_event();
    let mut manifest = AffectedKeyManifest::new(event);

    let now = chrono::Utc::now().timestamp_micros();
    let child1 = ManifestChild::new(create_test_fingerprint("child1"), KeyType::Ignition, "active", now);
    let child2 = ManifestChild::new(create_test_fingerprint("child2"), KeyType::Distro, "revoked", now);

    manifest.add_child(child1);
    manifest.add_child(child2);

    assert_eq!(manifest.children.len(), 2);
    assert_eq!(manifest.children[0].role, KeyType::Ignition);
    assert_eq!(manifest.children[1].role, KeyType::Distro);
}

#[test]
fn test_manifest_canonical_json() {
    let event = create_test_event();
    let mut manifest = AffectedKeyManifest::new(event);

    let child = ManifestChild::new(
        create_test_fingerprint("child"),
        KeyType::Ignition,
        "active",
        micros(2024, 1, 1, 12, 0, 0),
    );

    manifest.add_child(child);

    let json = manifest.to_canonical_json().unwrap();

    // Verify JSON structure (alphabetically sorted keys)
    assert!(json.contains("\"children\":["));
    assert!(json.contains("\"event\":{"));
    assert!(json.contains("\"schema_version\":\"1.0\""));
    assert!(json.contains("\"fingerprint\":"));
    assert!(json.contains("\"role\":\"ignition\""));
    assert!(json.contains("\"status\":\"active\""));

    // Verify alphabetical order
    let children_pos = json.find("\"children\"").unwrap();
    let event_pos = json.find("\"event\"").unwrap();
    let schema_pos = json.find("\"schema_version\"").unwrap();
    assert!(children_pos < event_pos);
    assert!(event_pos < schema_pos);
}

#[test]
fn test_manifest_digest_computation() {
    let event = create_test_event();
    let mut manifest = AffectedKeyManifest::new(event);

    let child = ManifestChild::new(
        create_test_fingerprint("child"),
        KeyType::Ignition,
        "active",
        micros(2024, 1, 1, 12, 0, 0),
    );

    manifest.add_child(child);

    // Compute digest
    manifest.compute_digest().unwrap();

    assert!(manifest.digest.is_some());
    let digest = manifest.digest.as_ref().unwrap();
    assert_eq!(digest.algorithm, "SHA256");
    assert_eq!(digest.manifest_body, "canonical");
    assert!(!digest.value.is_empty());
}

#[test]
fn test_manifest_digest_verification() {
    let event = create_test_event();
    let mut manifest = AffectedKeyManifest::new(event);

    let child = ManifestChild::new(
        create_test_fingerprint("child"),
        KeyType::Ignition,
        "active",
        micros(2024, 1, 1, 12, 0, 0),
    );

    manifest.add_child(child);
    manifest.compute_digest().unwrap();

    // Verification should pass
    assert!(manifest.verify_digest().is_ok());

    // Tamper with the manifest
    manifest.children[0].status = "tampered".to_string();

    // Verification should now fail
    assert!(manifest.verify_digest().is_err());
}

#[test]
fn test_manifest_json_with_digest() {
    let event = create_test_event();
    let mut manifest = AffectedKeyManifest::new(event);

    let child = ManifestChild::new(
        create_test_fingerprint("child"),
        KeyType::Ignition,
        "active",
        micros(2024, 1, 1, 12, 0, 0),
    );

    manifest.add_child(child);
    manifest.compute_digest().unwrap();

    let json = manifest.to_json_with_digest().unwrap();

    // Verify digest is included
    assert!(json.contains("\"digest\":{"));
    assert!(json.contains("\"algorithm\":\"SHA256\""));
    assert!(json.contains("\"manifest_body\":\"canonical\""));
    assert!(json.contains("\"value\":"));

    // Verify digest comes before event in the JSON
    let digest_pos = json.find("\"digest\"").unwrap();
    let event_pos = json.find("\"event\"").unwrap();
    assert!(digest_pos < event_pos);
}

#[test]
fn test_manifest_json_without_digest_rejected() {
    let manifest = AffectedKeyManifest::new(create_test_event());
    assert!(manifest.to_json_with_digest().is_err());
}

#[test]
fn test_manifest_filename_generation() {
    let parent_fp = create_test_fingerprint("parent");
    let mut event = ManifestEvent::new(ManifestEventType::Rotation, parent_fp, "Test rotation");

    // Set a specific timestamp for predictable filename
    event.initiated_at = micros(2024, 1, 15, 14, 30, 45);

    let manifest = AffectedKeyManifest::new(event);
    let filename = manifest.filename();

    assert_eq!(filename, "testpare/2024-01-15T14-30-45Z_rotation.json");
}

#[test]
fn test_manifest_scope() {
    let scope =
        ManifestScope::new(vec!["src/main.rs".to_string(), "Cargo.toml".to_string()], "development");

    assert_eq!(scope.paths.len(), 2);
    assert_eq!(scope.paths[0], "src/main.rs");
    assert_eq!(scope.env, "development");
}

#[test]
fn test_manifest_times_in_range_check() {
    let mut manifest = AffectedKeyManifest::new(create_test_event());
    assert!(manifest.times_in_range_check());
    manifest.add_child(ManifestChild::new(
        create_test_fingerprint("child"),
        KeyType::Ignition,
        "active",
        -5,
    ));
    assert!(!manifest.times_in_range_check());
    manifest.children[0].issued_at = 0;
    assert!(manifest.times_in_range_check());
    manifest.children[0].revoked_at = Some(-1);
    assert!(!manifest.times_in_range_check());
}

#[test]
fn test_manifest_rotation_tamper_scenario() {
    // Seal a rotation manifest with two children, then tamper with one.
    let mut manifest = AffectedKeyManifest::new(create_test_event());
    let now = chrono::Utc::now().timestamp_micros();
    manifest.add_child(ManifestChild::new(
        create_test_fingerprint("child1"),
        KeyType::Ignition,
        "active",
        now,
    ));
    manifest.add_child(ManifestChild::new(
        create_test_fingerprint("child2"),
        KeyType::Distro,
        "active",
        now,
    ));
    manifest.compute_digest().unwrap();
    assert!(manifest.verify_digest().is_ok());

    manifest.children[0].status = "tampered".to_string();
    assert!(manifest.verify_digest().is_err());
}

#[test]
fn test_manifest_canonical_json_exact() {
    // A fully pinned manifest serializes to exactly these bytes.
    let mut event = ManifestEvent::new(
        ManifestEventType::Rotation,
        KeyFingerprint::from_string("SHA256:abcd").unwrap(),
        "r",
    );
    event.initiated_at = 0;
    let mut manifest = AffectedKeyManifest::new(event);
    let mut child = ManifestChild::new(
        KeyFingerprint::from_string("SHA256:ef01").unwrap(),
        KeyType::Distro,
        "active",
        0,
    );
    child = child.with_scope(ManifestScope::new(vec!["a".to_string(), "b".to_string()], "prod"));
    manifest.add_child(child);
    let json = manifest.to_canonical_json().unwrap();
    assert_eq!(
        json,
        "{\"children\":[{\"fingerprint\":\"SHA256:ef01\",\
         \"issued_at\":\"1970-01-01T00:00:00+00:00\",\"role\":\"distro\",\
         \"scope\":{\"env\":\"prod\",\"paths\":[\"a\",\"b\"]},\"status\":\"active\"}],\
         \"event\":{\"event_type\":\"rotation\",\
         \"initiated_at\":\"1970-01-01T00:00:00+00:00\",\"initiated_by\":\"ignite-cli\",\
         \"parent_fingerprint\":\"SHA256:abcd\",\"reason\":\"r\"},\
         \"schema_version\":\"1.0\"}"
    );
}
