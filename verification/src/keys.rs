//! Key metadata and the authority key record. Timestamps are microseconds
//! since the Unix epoch, UTC.

use vstd::prelude::*;

use crate::clock::now_micros;
use crate::clock::now_micros_clamped;
use crate::errors::IgniteError;
use crate::errors::IgniteResult;
use crate::errors::is_invalid_operation;
use crate::hierarchy::KeyType;
use crate::hierarchy::spec_can_control;
use crate::material::FingerprintView;
use crate::material::KeyFingerprint;
use crate::material::KeyMaterial;
use crate::material::KeyMaterialView;
use crate::material::spec_fingerprint_of;

verus! {

/// Mathematical view of key metadata.
pub struct KeyMetadataView {
    pub creation_time: i64,
    pub creator: Seq<char>,
    pub description: Seq<char>,
    pub expiration: Option<i64>,
    pub last_used: Option<i64>,
    pub usage_count: u64,
}

/// Metadata associated with an authority key.
#[derive(Debug)]
pub struct KeyMetadata {
    pub creation_time: i64,
    pub creator: String,
    pub description: String,
    pub expiration: Option<i64>,
    pub last_used: Option<i64>,
    pub usage_count: u64,
}

impl View for KeyMetadata {
    type V = KeyMetadataView;

    open spec fn view(&self) -> KeyMetadataView {
        KeyMetadataView {
            creation_time: self.creation_time,
            creator: self.creator@,
            description: self.description@,
            expiration: self.expiration,
            last_used: self.last_used,
            usage_count: self.usage_count,
        }
    }
}

impl Default for KeyMetadata {
    /// Fresh metadata: created now, by an unknown creator, never used.
    fn default() -> (r: Self)
        ensures
            r@.creator == "unknown"@,
            r@.description == "Authority key"@,
            r@.expiration is None,
            r@.last_used is None,
            r@.usage_count == 0,
    {
        KeyMetadata {
            creation_time: now_micros_clamped(),
            creator: String::from_str("unknown"),
            description: String::from_str("Authority key"),
            expiration: None,
            last_used: None,
            usage_count: 0,
        }
    }
}

impl Clone for KeyMetadata {
    /// Cloning keeps the view.
    fn clone(&self) -> (r: Self)
        ensures
            r@ == self@,
    {
        KeyMetadata {
            creation_time: self.creation_time,
            creator: self.creator.clone(),
            description: self.description.clone(),
            expiration: self.expiration,
            last_used: self.last_used,
            usage_count: self.usage_count,
        }
    }
}

impl KeyMetadata {
    /// Replace the expiration timestamp.
    pub fn set_expiration(&mut self, expiration: Option<i64>)
        ensures
            final(self)@ == (KeyMetadataView { expiration, ..old(self)@ }),
    {
        self.expiration = expiration;
    }

    /// The expiration timestamp, if any.
    pub fn expiration(&self) -> (r: Option<i64>)
        ensures
            r == self@.expiration,
    {
        self.expiration
    }
}

/// Mathematical view of an authority key record.
pub struct AuthorityKeyView {
    pub key_material: KeyMaterialView,
    pub key_type: KeyType,
    pub fingerprint: FingerprintView,
    pub key_path: Option<Seq<char>>,
    pub metadata: KeyMetadataView,
    pub children: Seq<FingerprintView>,
}

impl AuthorityKeyView {
    /// Internal well-formedness: the fingerprint is derived from the
    /// public bytes, and no child fingerprint appears twice.
    pub open spec fn wf(self) -> bool {
        &&& self.fingerprint == spec_fingerprint_of(self.key_material.public_key)
        &&& forall|i: int, j: int|
            0 <= i < j < self.children.len() ==> self.children[i] != self.children[j]
    }
}

/// An authority key: material, tier, fingerprint, optional storage path,
/// metadata, and the fingerprints of the keys it controls.
#[derive(Debug)]
pub struct AuthorityKey {
    key_material: KeyMaterial,
    key_type: KeyType,
    fingerprint: KeyFingerprint,
    key_path: Option<String>,
    metadata: KeyMetadata,
    children: Vec<KeyFingerprint>,
}

impl View for AuthorityKey {
    type V = AuthorityKeyView;

    closed spec fn view(&self) -> AuthorityKeyView {
        AuthorityKeyView {
            key_material: self.key_material@,
            key_type: self.key_type,
            fingerprint: self.fingerprint@,
            key_path: match self.key_path {
                Some(p) => Some(p@),
                None => None,
            },
            metadata: self.metadata@,
            children: self.children@.map_values(|c: KeyFingerprint| c@),
        }
    }
}

impl Clone for AuthorityKey {
    /// Cloning keeps the view.
    fn clone(&self) -> (r: Self)
        ensures
            r@ == self@,
    {
        let mut children: Vec<KeyFingerprint> = Vec::new();
        let n = self.children.len();
        let mut i: usize = 0;
        while i < n
            invariant
                n == self.children@.len(),
                i <= n,
                children@.len() == i,
                forall|j: int| 0 <= j < i ==> children@[j]@ == self.children@[j]@,
            decreases n - i,
        {
            children.push(self.children[i].clone());
            i = i + 1;
        }
        let r = AuthorityKey {
            key_material: self.key_material.clone(),
            key_type: self.key_type,
            fingerprint: self.fingerprint.clone(),
            key_path: match &self.key_path {
                Some(p) => Some(p.clone()),
                None => None,
            },
            metadata: self.metadata.clone(),
            children,
        };
        proof {
            assert(r@.children =~= self@.children);
            assert(r@.key_path == self@.key_path);
        }
        r
    }
}

impl AuthorityKey {
    /// Build a key record; the fingerprint is derived from the material.
    pub fn new(
        key_material: KeyMaterial,
        key_type: KeyType,
        key_path: Option<String>,
        metadata: Option<KeyMetadata>,
    ) -> (r: IgniteResult<Self>)
        ensures
            r matches Ok(k) && {
                &&& k@.wf()
                &&& k@.key_material == key_material@
                &&& k@.key_type == key_type
                &&& k@.fingerprint == spec_fingerprint_of(key_material@.public_key)
                &&& k@.key_path == match key_path {
                    Some(p) => Some(p@),
                    None => None::<Seq<char>>,
                }
                &&& match metadata {
                    Some(m) => k@.metadata == m@,
                    None => {
                        &&& k@.metadata.creator == "unknown"@
                        &&& k@.metadata.description == "Authority key"@
                        &&& k@.metadata.expiration is None
                        &&& k@.metadata.last_used is None
                        &&& k@.metadata.usage_count == 0
                    },
                }
                &&& k@.children == Seq::<FingerprintView>::empty()
            },
    {
        let fingerprint = match key_material.fingerprint() {
            Ok(fp) => fp,
            Err(e) => {
                return Err(e);
            },
        };
        let metadata = match metadata {
            Some(m) => m,
            None => KeyMetadata::default(),
        };
        let k = AuthorityKey {
            key_material,
            key_type,
            fingerprint,
            key_path,
            metadata,
            children: Vec::new(),
        };
        proof {
            assert(k@.children =~= Seq::<FingerprintView>::empty());
        }
        Ok(k)
    }

    /// The key's fingerprint.
    pub fn fingerprint(&self) -> (r: &KeyFingerprint)
        ensures
            r@ == self@.fingerprint,
    {
        &self.fingerprint
    }

    /// The key's tier.
    pub fn key_type(&self) -> (r: KeyType)
        ensures
            r == self@.key_type,
    {
        self.key_type
    }

    /// The key's material.
    pub fn key_material(&self) -> (r: &KeyMaterial)
        ensures
            r@ == self@.key_material,
    {
        &self.key_material
    }

    /// The key's metadata.
    pub fn metadata(&self) -> (r: &KeyMetadata)
        ensures
            r@ == self@.metadata,
    {
        &self.metadata
    }

    /// Replace the metadata's expiration timestamp.
    pub fn set_expiration(&mut self, expiration: Option<i64>)
        ensures
            final(self)@ == (AuthorityKeyView {
                metadata: KeyMetadataView { expiration, ..old(self)@.metadata },
                ..old(self)@
            }),
    {
        self.metadata.set_expiration(expiration);
    }

    /// Whether the key is expired at the given instant.
    pub fn is_expired_at(&self, now: i64) -> (r: bool)
        ensures
            r == (self@.metadata.expiration matches Some(deadline) && now > deadline),
    {
        match self.metadata.expiration {
            Some(deadline) => now > deadline,
            None => false,
        }
    }

    /// Whether the key is expired now; a key without an expiration never is.
    pub fn is_expired(&self) -> (r: bool)
        ensures
            self@.metadata.expiration is None ==> r == false,
    {
        let now = now_micros();
        self.is_expired_at(now)
    }

    /// The fingerprints of the keys this key controls.
    pub fn children(&self) -> (r: &[KeyFingerprint])
        ensures
            r@.len() == self@.children.len(),
            forall|i: int| 0 <= i < r@.len() ==> #[trigger] r@[i]@ == self@.children[i],
    {
        self.children.as_slice()
    }

    /// Record a child fingerprint; a duplicate is rejected and nothing
    /// changes.
    pub fn add_child(&mut self, child_fp: KeyFingerprint) -> (r: IgniteResult<()>)
        ensures
            match r {
                Ok(()) => !old(self)@.children.contains(child_fp@) && final(self)@
                    == (AuthorityKeyView {
                    children: old(self)@.children.push(child_fp@),
                    ..old(self)@
                }),
                Err(e) => old(self)@.children.contains(child_fp@) && final(self)@ == old(self)@
                    && is_invalid_operation(e, "add_child"@),
            },
            old(self)@.wf() ==> final(self)@.wf(),
    {
        let n = self.children.len();
        let mut i: usize = 0;
        while i < n
            invariant
                n == self.children@.len(),
                i <= n,
                self@.children == self.children@.map_values(|c: KeyFingerprint| c@),
                forall|j: int| 0 <= j < i ==> self@.children[j] != child_fp@,
            decreases n - i,
        {
            if self.children[i].eq_fp(&child_fp) {
                proof {
                    assert(self@.children[i as int] == child_fp@);
                    assert(self@.children.contains(child_fp@));
                }
                return Err(IgniteError::InvalidOperation {
                    operation: String::from_str("add_child"),
                    reason: String::from_str("Child fingerprint already exists"),
                });
            }
            i = i + 1;
        }
        assert(!self@.children.contains(child_fp@));
        let ghost pre = self@;
        self.children.push(child_fp);
        proof {
            assert(self@.children =~= pre.children.push(child_fp@));
            assert(final(self)@ == AuthorityKeyView { children: pre.children.push(child_fp@), ..pre });
        }
        Ok(())
    }

    /// Whether this key's tier may control `child_type`.
    pub fn can_control(&self, child_type: KeyType) -> (r: bool)
        ensures
            r == spec_can_control(self@.key_type, child_type),
    {
        self.key_type.can_control(child_type)
    }

    /// The storage path this key was loaded from or saved to, if any.
    pub fn key_path(&self) -> (r: Option<&str>)
        ensures
            match r {
                Some(p) => self@.key_path == Some(p@),
                None => self@.key_path is None,
            },
    {
        match &self.key_path {
            Some(p) => Some(p.as_str()),
            None => None,
        }
    }

    /// Record the storage path.
    pub fn set_key_path(&mut self, path: String)
        ensures
            final(self)@ == (AuthorityKeyView { key_path: Some(path@), ..old(self)@ }),
    {
        self.key_path = Some(path);
    }
}

} // verus!
