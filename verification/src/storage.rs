//! Vault layout: root resolution from caller-supplied environment values
//! and the path of every stored artifact. All functions here compute
//! paths as text; reading and writing files is the caller's business.

use vstd::prelude::*;

use crate::clock::MAX_TIMESTAMP_MICROS;
use crate::hierarchy::KeyType;
use crate::hierarchy::spec_key_type_name;
use crate::manifests::AffectedKeyManifest;
use crate::material::KeyFingerprint;
use crate::material::spec_short_hex;

verus! {

/// Resolve the data root: an explicit override wins, then the XDG data
/// home, then the home directory, then the current directory.
pub fn resolve_data_root(
    ignite_data_root: Option<&str>,
    xdg_data_home: Option<&str>,
    home: Option<&str>,
) -> (r: String)
    ensures
        r@ == match ignite_data_root {
            Some(d) => d@,
            None => match xdg_data_home {
                Some(x) => x@ + "/padlokk/ignite"@,
                None => (match home {
                    Some(h) => h@,
                    None => "./"@,
                }) + "/.local/share/padlokk/ignite"@,
            },
        },
{
    match ignite_data_root {
        Some(d) => d.to_owned(),
        None => match xdg_data_home {
            Some(x) => {
                let mut r = String::new();
                r.append(x);
                r.append("/padlokk/ignite");
                r
            },
            None => {
                let mut r = String::new();
                match home {
                    Some(h) => r.append(h),
                    None => r.append("./"),
                }
                r.append("/.local/share/padlokk/ignite");
                r
            },
        },
    }
}

/// Resolve the config root: an explicit override wins, then the XDG
/// config home, then the home directory, then the current directory.
pub fn resolve_config_root(
    ignite_config_root: Option<&str>,
    xdg_config_home: Option<&str>,
    home: Option<&str>,
) -> (r: String)
    ensures
        r@ == match ignite_config_root {
            Some(d) => d@,
            None => match xdg_config_home {
                Some(x) => x@ + "/padlokk/ignite"@,
                None => (match home {
                    Some(h) => h@,
                    None => "./"@,
                }) + "/.config/padlokk/ignite"@,
            },
        },
{
    match ignite_config_root {
        Some(d) => d.to_owned(),
        None => match xdg_config_home {
            Some(x) => {
                let mut r = String::new();
                r.append(x);
                r.append("/padlokk/ignite");
                r
            },
            None => {
                let mut r = String::new();
                match home {
                    Some(h) => r.append(h),
                    None => r.append("./"),
                }
                r.append("/.config/padlokk/ignite");
                r
            },
        },
    }
}

/// The keys directory under a data root.
pub fn keys_dir(root: &str) -> (r: String)
    ensures
        r@ == root@ + "/keys"@,
{
    let mut r = String::new();
    r.append(root);
    r.append("/keys");
    r
}

/// The proofs directory under a data root.
pub fn proofs_dir(root: &str) -> (r: String)
    ensures
        r@ == root@ + "/proofs"@,
{
    let mut r = String::new();
    r.append(root);
    r.append("/proofs");
    r
}

/// The manifests directory under a data root.
pub fn manifests_dir(root: &str) -> (r: String)
    ensures
        r@ == root@ + "/manifests"@,
{
    let mut r = String::new();
    r.append(root);
    r.append("/manifests");
    r
}

/// The metadata directory under a data root.
pub fn metadata_dir(root: &str) -> (r: String)
    ensures
        r@ == root@ + "/metadata"@,
{
    let mut r = String::new();
    r.append(root);
    r.append("/metadata");
    r
}

/// Where a key record is stored: by tier, under the short fingerprint.
pub fn key_path(root: &str, key_type: KeyType, fingerprint: &KeyFingerprint) -> (r: String)
    ensures
        r@ == root@ + "/keys/"@ + spec_key_type_name(key_type) + "/"@ + spec_short_hex(
            fingerprint@.hex,
        ) + ".json"@,
{
    let mut r = String::new();
    r.append(root);
    r.append("/keys/");
    r.append(key_type.as_str());
    r.append("/");
    let short = fingerprint.short();
    r.append(short.as_str());
    r.append(".json");
    r
}

/// Where a proof is stored: under the signer's short fingerprint, named
/// by its timestamp.
pub fn proof_path(root: &str, fingerprint: &KeyFingerprint, timestamp: &str) -> (r: String)
    ensures
        r@ == root@ + "/proofs/"@ + spec_short_hex(fingerprint@.hex) + "/"@ + timestamp@
            + ".json"@,
{
    let mut r = String::new();
    r.append(root);
    r.append("/proofs/");
    let short = fingerprint.short();
    r.append(short.as_str());
    r.append("/");
    r.append(timestamp);
    r.append(".json");
    r
}

/// Where a manifest is stored: the manifests directory plus the
/// manifest's own relative name.
pub fn manifest_path(root: &str, manifest: &AffectedKeyManifest) -> (r: String)
    requires
        0 <= manifest@.event.initiated_at <= MAX_TIMESTAMP_MICROS,
    ensures
        r@ == root@ + "/manifests/"@ + manifest@.event.parent_fingerprint.hex.take(
            if manifest@.event.parent_fingerprint.hex.len() < 8 {
                manifest@.event.parent_fingerprint.hex.len() as int
            } else {
                8
            },
        ) + "/"@ + crate::clock::compact_time_of(manifest@.event.initiated_at) + "_"@
            + crate::manifests::spec_event_type_name(manifest@.event.event_type) + ".json"@,
{
    let mut r = String::new();
    r.append(root);
    r.append("/manifests/");
    let name = manifest.filename();
    r.append(name.as_str());
    r
}

/// Storage-level errors, carried as text.
#[derive(Debug, Clone)]
pub enum StorageError {
    /// An I/O failure, as reported by the filesystem.
    Io(String),
    /// A stored artifact did not parse.
    InvalidFormat(String),
}

/// A vault rooted at a fixed directory.
#[derive(Debug, Clone)]
pub struct FilesystemVault {
    pub root: String,
}

impl FilesystemVault {
    /// A vault over the given root.
    pub fn new(root: String) -> (r: Result<Self, StorageError>)
        ensures
            r matches Ok(v) && v.root@ == root@,
    {
        Ok(FilesystemVault { root })
    }

    /// The vault's root directory.
    pub fn root(&self) -> (r: &str)
        ensures
            r@ == self.root@,
    {
        self.root.as_str()
    }
}

} // verus!
