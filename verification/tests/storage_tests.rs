//! Tests for vault path construction and root resolution.

use ignite::errors::IgniteError;
use ignite::hierarchy::KeyType;
use ignite::material::KeyFingerprint;
use ignite::storage::FilesystemVault;
use ignite::storage::key_path;
use ignite::storage::keys_dir;
use ignite::storage::manifests_dir;
use ignite::storage::metadata_dir;
use ignite::storage::proof_path;
use ignite::storage::proofs_dir;
use ignite::storage::resolve_config_root;
use ignite::storage::resolve_data_root;

#[test]
fn test_path_generation() {
    let fingerprint = KeyFingerprint::from_string("SHA256:abcdef123456").unwrap();
    let root = "/tmp/ignite-vault";

    // Test key path generation
    let key_path = key_path(root, KeyType::Master, &fingerprint);
    assert!(key_path.contains("keys"));
    assert!(key_path.contains("master"));
    assert!(key_path.ends_with("abcdef12.json"));

    // Test proof path generation
    let proof_path = proof_path(root, &fingerprint, "2024-01-01T12-00-00Z");
    assert!(proof_path.contains("proofs"));
    assert!(proof_path.contains("abcdef12"));
    assert!(proof_path.ends_with("2024-01-01T12-00-00Z.json"));
}

#[test]
fn test_vault_directories() {
    let root = "/data/vault";
    assert_eq!(keys_dir(root), "/data/vault/keys");
    assert_eq!(proofs_dir(root), "/data/vault/proofs");
    assert_eq!(manifests_dir(root), "/data/vault/manifests");
    assert_eq!(metadata_dir(root), "/data/vault/metadata");
}

#[test]
fn test_data_root_resolution_precedence() {
    assert_eq!(resolve_data_root(Some("/override"), Some("/xdg"), Some("/home/u")), "/override");
    assert_eq!(
        resolve_data_root(None, Some("/xdg"), Some("/home/u")),
        "/xdg/padlokk/ignite"
    );
    assert_eq!(
        resolve_data_root(None, None, Some("/home/u")),
        "/home/u/.local/share/padlokk/ignite"
    );
    assert_eq!(resolve_data_root(None, None, None), ".//.local/share/padlokk/ignite");
}

#[test]
fn test_config_root_resolution_precedence() {
    assert_eq!(resolve_config_root(Some("/c"), None, None), "/c");
    assert_eq!(resolve_config_root(None, Some("/xdg"), None), "/xdg/padlokk/ignite");
    assert_eq!(
        resolve_config_root(None, None, Some("/home/u")),
        "/home/u/.config/padlokk/ignite"
    );
}

#[test]
fn test_filesystem_vault() {
    let vault = FilesystemVault::new("/data/vault".to_string()).unwrap();
    assert_eq!(vault.root(), "/data/vault");
}

#[test]
fn test_error_constructors() {
    let io = IgniteError::io_error(
        "read_key".to_string(),
        "/data/vault/keys/master/abcd.json".to_string(),
        "permission denied".to_string(),
    );
    assert!(io.message().contains("read_key"));
    assert!(io.message().contains("permission denied"));

    let crypto = IgniteError::crypto_error("verify".to_string(), "bad signature".to_string());
    assert!(crypto.message().contains("verify"));
    assert!(crypto.message().contains("bad signature"));
}
