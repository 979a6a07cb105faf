//! Key material and fingerprints. A fingerprint is the SHA-256 of a key's
//! public bytes, kept as lowercase hex together with the algorithm tag.

use vstd::prelude::*;

use crate::crypto::sha256;
use crate::crypto::sha256_of;
use crate::errors::IgniteError;
use crate::errors::IgniteResult;
use crate::errors::is_invalid_key;
use crate::text::spec_hex;
use crate::text::to_hex;
use crate::text::prefix_chars;
use crate::text::str_eq;
use crate::text::find_char;

verus! {

/// Key format variants the core understands.
#[derive(Debug, Clone, Copy, PartialEq, Eq, Structural)]
pub enum KeyFormat {
    /// Age-style key material; cannot sign authority proofs.
    Age,
    /// Raw Ed25519 key material, used for authority proofs.
    Ed25519,
}

/// Mathematical view of a fingerprint: algorithm tag and hex digest.
pub struct FingerprintView {
    pub algorithm: Seq<char>,
    pub hex: Seq<char>,
}

/// Cryptographic fingerprint identifying a key in every artifact.
#[derive(Debug, PartialEq, Eq, Hash)]
pub struct KeyFingerprint {
    fingerprint: String,
    algorithm: String,
}

impl View for KeyFingerprint {
    type V = FingerprintView;

    closed spec fn view(&self) -> FingerprintView {
        FingerprintView { algorithm: self.algorithm@, hex: self.fingerprint@ }
    }
}

/// The first eight characters of a hex digest (all of it when shorter),
/// used for display and for path prefixes.
pub open spec fn spec_short_hex(hex: Seq<char>) -> Seq<char> {
    hex.take(
        if hex.len() < 8 {
            hex.len() as int
        } else {
            8
        },
    )
}

/// The display form of a fingerprint: algorithm, colon, hex.
pub open spec fn spec_fp_text(f: FingerprintView) -> Seq<char> {
    f.algorithm + ":"@ + f.hex
}

/// The fingerprint derived from public key bytes: algorithm "SHA256",
/// hex of the SHA-256 digest.
pub open spec fn spec_fingerprint_of(bytes: Seq<u8>) -> FingerprintView {
    FingerprintView { algorithm: "SHA256"@, hex: spec_hex(sha256_of(bytes)) }
}

impl Clone for KeyFingerprint {
    /// Cloning keeps the view.
    fn clone(&self) -> (r: Self)
        ensures
            r@ == self@,
    {
        KeyFingerprint { fingerprint: self.fingerprint.clone(), algorithm: self.algorithm.clone() }
    }
}

impl KeyFingerprint {
    /// Derive the fingerprint of raw key material with SHA-256.
    pub fn from_key_material(key_material: &[u8]) -> (r: IgniteResult<Self>)
        ensures
            r matches Ok(fp) && fp@ == spec_fingerprint_of(key_material@),
    {
        let digest = sha256(key_material);
        let hex = to_hex(digest.as_slice());
        Ok(KeyFingerprint { fingerprint: hex, algorithm: String::from_str("SHA256") })
    }

    /// The hex digest half of the fingerprint.
    pub fn hex(&self) -> (r: &str)
        ensures
            r@ == self@.hex,
    {
        self.fingerprint.as_str()
    }

    /// The algorithm tag half of the fingerprint.
    pub fn algorithm(&self) -> (r: &str)
        ensures
            r@ == self@.algorithm,
    {
        self.algorithm.as_str()
    }

    /// The first eight hex characters, used for display and path prefixes.
    pub fn short(&self) -> (r: String)
        ensures
            r@ == spec_short_hex(self@.hex),
    {
        prefix_chars(self.fingerprint.as_str(), 8)
    }

    /// Parse `"ALGO:hex"`, splitting at the first colon.
    pub fn from_string(s: &str) -> (r: IgniteResult<Self>)
        ensures
            match r {
                Ok(fp) => exists|i: int|
                    {
                        &&& 0 <= i < s@.len()
                        &&& #[trigger] s@[i] == ':'
                        &&& (forall|j: int| 0 <= j < i ==> s@[j] != ':')
                        &&& fp@.algorithm == s@.take(i)
                        &&& fp@.hex == s@.skip(i + 1)
                    },
                Err(e) => is_invalid_key(e) && (forall|j: int|
                    0 <= j < s@.len() ==> s@[j] != ':'),
            },
    {
        let n = s.unicode_len();
        match find_char(s, ':') {
            Some(i) => {
                let algorithm = s.substring_char(0, i).to_owned();
                let fingerprint = s.substring_char(i + 1, n).to_owned();
                let fp = KeyFingerprint { fingerprint, algorithm };
                proof {
                    assert(fp@.algorithm == s@.take(i as int));
                    assert(fp@.hex =~= s@.skip(i + 1));
                }
                Ok(fp)
            },
            None => {
                let mut reason = String::new();
                reason.append("Invalid fingerprint format: ");
                reason.append(s);
                Err(IgniteError::InvalidKey { reason })
            },
        }
    }

    /// The display form `"ALGO:hex"`.
    pub fn display_string(&self) -> (r: String)
        ensures
            r@ == spec_fp_text(self@),
    {
        let mut r = String::new();
        r.append(self.algorithm.as_str());
        r.append(":");
        r.append(self.fingerprint.as_str());
        r
    }

    /// Verified equality: true exactly when the views agree.
    pub fn eq_fp(&self, other: &Self) -> (r: bool)
        ensures
            r == (self@ == other@),
    {
        let r = str_eq(self.algorithm.as_str(), other.algorithm.as_str()) && str_eq(
            self.fingerprint.as_str(),
            other.fingerprint.as_str(),
        );
        proof {
            if self@.algorithm == other@.algorithm && self@.hex == other@.hex {
                assert(self@ == other@);
            }
        }
        r
    }
}

/// A fingerprint is a function of the public bytes alone: the same public
/// bytes always give the same fingerprint, whatever the private half is.
pub proof fn lemma_fingerprint_deterministic(pub1: Seq<u8>, pub2: Seq<u8>)
    requires
        pub1 == pub2,
    ensures
        spec_fingerprint_of(pub1) == spec_fingerprint_of(pub2),
{
}

/// Mathematical view of key material.
pub struct KeyMaterialView {
    pub public_key: Seq<u8>,
    pub private_key: Option<Seq<u8>>,
    pub key_format: KeyFormat,
}

/// Cryptographic key material: mandatory public bytes, optional private
/// bytes, and a format tag.
#[derive(Debug)]
pub struct KeyMaterial {
    public_key: Vec<u8>,
    private_key: Option<Vec<u8>>,
    key_format: KeyFormat,
}

impl View for KeyMaterial {
    type V = KeyMaterialView;

    closed spec fn view(&self) -> KeyMaterialView {
        KeyMaterialView {
            public_key: self.public_key@,
            private_key: match self.private_key {
                Some(v) => Some(v@),
                None => None,
            },
            key_format: self.key_format,
        }
    }
}

impl Clone for KeyMaterial {
    /// Cloning keeps the view.
    fn clone(&self) -> (r: Self)
        ensures
            r@ == self@,
    {
        let public_key = self.public_key.clone();
        let private_key = match &self.private_key {
            Some(v) => Some(v.clone()),
            None => None,
        };
        let r = KeyMaterial { public_key, private_key, key_format: self.key_format };
        proof {
            assert(r@.public_key =~= self@.public_key);
            assert(match (r@.private_key, self@.private_key) {
                (Some(a), Some(b)) => a =~= b,
                (None, None) => true,
                _ => false,
            });
        }
        r
    }
}

impl KeyMaterial {
    /// Assemble key material from its parts.
    pub fn new(public_key: Vec<u8>, private_key: Option<Vec<u8>>, format: KeyFormat) -> (r: Self)
        ensures
            r@.public_key == public_key@,
            match private_key {
                Some(q) => r@.private_key == Some(q@),
                None => r@.private_key is None,
            },
            r@.key_format == format,
    {
        Self { public_key, private_key, key_format: format }
    }

    /// The public bytes.
    pub fn public_key(&self) -> (r: &[u8])
        ensures
            r@ == self@.public_key,
    {
        self.public_key.as_slice()
    }

    /// The private bytes, when present.
    pub fn private_key(&self) -> (r: Option<&[u8]>)
        ensures
            match r {
                Some(p) => self@.private_key matches Some(q) && p@ == q,
                None => self@.private_key is None,
            },
    {
        match &self.private_key {
            Some(v) => Some(v.as_slice()),
            None => None,
        }
    }

    /// Whether private bytes are present.
    pub fn has_private_key(&self) -> (r: bool)
        ensures
            r == (self@.private_key is Some),
    {
        matches!(&self.private_key, Some(_))
    }

    /// The format tag.
    pub fn format(&self) -> (r: KeyFormat)
        ensures
            r == self@.key_format,
    {
        self.key_format
    }

    /// The fingerprint of the public bytes; depends on nothing else.
    pub fn fingerprint(&self) -> (r: IgniteResult<KeyFingerprint>)
        ensures
            r matches Ok(fp) && fp@ == spec_fingerprint_of(self@.public_key),
    {
        KeyFingerprint::from_key_material(self.public_key.as_slice())
    }
}

} // verus!
