//! Passphrase-wrapped ignition keys. A passphrase yields, by two
//! domain-separated derivations, a verifier (salted, iterated hash) and a
//! symmetric key that wraps the key material. The wrapping cipher is the
//! demonstration-grade keystream XOR inherited from the wire format, and
//! the algorithm tag names it so a real AEAD can coexist later.

use vstd::prelude::*;

use crate::clock::MAX_TIMESTAMP_MICROS;
use crate::clock::now_micros_clamped;
use crate::crypto::sha256;
use crate::crypto::sha256_of;
use crate::entropy::random_bytes;
use crate::errors::IgniteError;
use crate::errors::IgniteResult;
use crate::errors::is_invalid_operation;
use crate::errors::is_invalid_operation_msg;
use crate::hierarchy::KeyType;
use crate::keys::AuthorityKey;
use crate::material::FingerprintView;
use crate::material::KeyFingerprint;
use crate::material::KeyFormat;
use crate::material::KeyMaterial;
use crate::material::KeyMaterialView;
use crate::policy::spec_passphrase_ok;
use crate::policy::validate_passphrase_strength;
use crate::text::spec_hex;
use crate::text::str_eq_scan;
use crate::text::to_hex;
use vstd::utf8::encode_utf8;

verus! {

/// `n` rounds of SHA-256 over a byte seed.
pub open spec fn spec_iter_sha(seed: Seq<u8>, n: nat) -> Seq<u8>
    decreases n,
{
    if n == 0 {
        seed
    } else {
        sha256_of(spec_iter_sha(seed, (n - 1) as nat))
    }
}

/// The verifier digest of a passphrase under a salt: the passphrase and
/// salt are concatenated, hashed for `iterations` rounds, hashed once
/// more, and written as hex.
pub open spec fn spec_passphrase_digest(pass: Seq<char>, salt: Seq<char>, iterations: nat) -> Seq<
    char,
> {
    spec_hex(sha256_of(spec_iter_sha(encode_utf8(pass + salt), iterations)))
}

/// Salted, iterated passphrase verifier.
#[derive(Debug, Clone)]
pub struct PassphraseHash {
    pub hash: String,
    pub salt: String,
    pub algorithm: String,
    pub iterations: u32,
}

/// Mathematical view of a verifier.
pub struct PassphraseHashView {
    pub hash: Seq<char>,
    pub salt: Seq<char>,
    pub algorithm: Seq<char>,
    pub iterations: u32,
}

impl View for PassphraseHash {
    type V = PassphraseHashView;

    open spec fn view(&self) -> PassphraseHashView {
        PassphraseHashView {
            hash: self.hash@,
            salt: self.salt@,
            algorithm: self.algorithm@,
            iterations: self.iterations,
        }
    }
}

/// The verifier a fresh wrap stores for a passphrase and salt.
pub open spec fn spec_fresh_hash(pass: Seq<char>, salt: Seq<char>) -> PassphraseHashView {
    PassphraseHashView {
        hash: spec_passphrase_digest(pass, salt, 100_000),
        salt,
        algorithm: "SHA256-PBKDF2"@,
        iterations: 100_000,
    }
}

/// Hash a passphrase with a salt for a number of rounds.
fn iterated_digest(passphrase: &str, salt: &str, iterations: u32) -> (r: String)
    ensures
        r@ == spec_passphrase_digest(passphrase@, salt@, iterations as nat),
{
    let mut salted = String::new();
    salted.append(passphrase);
    salted.append(salt);
    let mut current: Vec<u8> = salted.as_str().as_bytes_vec();
    proof {
        assert(salted@ == passphrase@ + salt@);
        assert(current@ == spec_iter_sha(encode_utf8(passphrase@ + salt@), 0));
    }
    let mut i: u32 = 0;
    while i < iterations
        invariant
            i <= iterations,
            current@ == spec_iter_sha(encode_utf8(passphrase@ + salt@), i as nat),
        decreases iterations - i,
    {
        current = sha256(current.as_slice());
        i = i + 1;
    }
    let last = sha256(current.as_slice());
    to_hex(last.as_slice())
}

impl PassphraseHash {
    /// A fresh verifier: random 8-byte salt in hex, 100000 rounds.
    pub fn new(passphrase: &str) -> (r: IgniteResult<Self>)
        ensures
            r matches Ok(h) && h@ == spec_fresh_hash(passphrase@, h@.salt) && h@.salt.len() == 16,
    {
        let salt_bytes = random_bytes(8);
        let salt = to_hex(salt_bytes.as_slice());
        let hash = iterated_digest(passphrase, salt.as_str(), 100_000);
        Ok(PassphraseHash { hash, salt, algorithm: String::from_str("SHA256-PBKDF2"), iterations: 100_000 })
    }

    /// Whether a passphrase matches: its digest under the stored salt and
    /// round count equals the stored digest. The comparison reads every
    /// character of the decoded digests rather than stopping at the
    /// first mismatch.
    pub fn verify(&self, passphrase: &str) -> (r: IgniteResult<bool>)
        ensures
            r matches Ok(b) && b == (spec_passphrase_digest(
                passphrase@,
                self@.salt,
                self@.iterations as nat,
            ) == self@.hash),
    {
        let computed = iterated_digest(passphrase, self.salt.as_str(), self.iterations);
        Ok(str_eq_scan(computed.as_str(), self.hash.as_str()))
    }
}

/// Keystream XOR of data against a repeating key.
pub open spec fn spec_xor(data: Seq<u8>, key: Seq<u8>) -> Seq<u8>
    recommends
        key.len() > 0,
{
    Seq::new(data.len(), |i: int| data[i] ^ key[i % key.len() as int])
}

/// XOR with the same key twice gives the data back.
pub proof fn lemma_xor_involution(data: Seq<u8>, key: Seq<u8>)
    requires
        key.len() > 0,
    ensures
        spec_xor(spec_xor(data, key), key) == data,
{
    assert forall|i: int| 0 <= i < data.len() implies spec_xor(spec_xor(data, key), key)[i]
        == data[i] by {
        let k = key[i % key.len() as int];
        let d = data[i];
        assert((d ^ k) ^ k == d) by (bit_vector);
    }
    assert(spec_xor(spec_xor(data, key), key) =~= data);
}

/// Four little-endian bytes of a length below 2^32.
pub open spec fn spec_le32(n: int) -> Seq<u8> {
    seq![
        (n % 256) as u8,
        ((n / 256) % 256) as u8,
        ((n / 65536) % 256) as u8,
        ((n / 16777216) % 256) as u8,
    ]
}

/// The value of four little-endian bytes.
pub open spec fn spec_le32_val(b: Seq<u8>) -> int
    recommends
        b.len() == 4,
{
    b[0] + 256 * b[1] + 65536 * b[2] + 16777216 * b[3]
}

/// Reading back four little-endian bytes recovers the length.
pub proof fn lemma_le32_roundtrip(n: int)
    requires
        0 <= n < 0x1_0000_0000,
    ensures
        spec_le32_val(spec_le32(n)) == n,
{
    assert(spec_le32_val(spec_le32(n)) == (n % 256) + 256 * ((n / 256) % 256) + 65536 * ((n / 65536)
        % 256) + 16777216 * ((n / 16777216) % 256));
    assert((n % 256) + 256 * ((n / 256) % 256) + 65536 * ((n / 65536) % 256) + 16777216 * ((n
        / 16777216) % 256) == n) by (nonlinear_arith)
        requires
            0 <= n < 0x1_0000_0000,
    ;
}

/// The byte framing of key material inside a wrap: a format tag, a
/// private-half marker, the two lengths, then the public and private
/// bytes.
pub open spec fn spec_encode_material(m: KeyMaterialView) -> Seq<u8> {
    seq![
        (match m.key_format {
            KeyFormat::Age => 0u8,
            KeyFormat::Ed25519 => 1u8,
        }),
        (match m.private_key {
            Some(_) => 1u8,
            None => 0u8,
        }),
    ] + spec_le32(m.public_key.len() as int) + spec_le32(
        match m.private_key {
            Some(p) => p.len() as int,
            None => 0,
        },
    ) + m.public_key + (match m.private_key {
        Some(p) => p,
        None => Seq::empty(),
    })
}

/// What the framing parses back to, if anything.
pub open spec fn spec_decode_material(data: Seq<u8>) -> Option<KeyMaterialView> {
    if data.len() < 10 {
        None
    } else {
        let tag = data[0];
        let hasp = data[1];
        let plen = spec_le32_val(data.subrange(2, 6));
        let slen = spec_le32_val(data.subrange(6, 10));
        if tag != 0 && tag != 1 {
            None
        } else if hasp != 0 && hasp != 1 {
            None
        } else if hasp == 0 && slen != 0 {
            None
        } else if data.len() != 10 + plen + slen {
            None
        } else {
            Some(
                KeyMaterialView {
                    public_key: data.subrange(10, 10 + plen),
                    private_key: if hasp == 1 {
                        Some(data.subrange(10 + plen, 10 + plen + slen))
                    } else {
                        None
                    },
                    key_format: if tag == 0 {
                        KeyFormat::Age
                    } else {
                        KeyFormat::Ed25519
                    },
                },
            )
        }
    }
}

/// The lengths a framing can carry.
pub open spec fn spec_material_framable(m: KeyMaterialView) -> bool {
    &&& m.public_key.len() < 0x1_0000_0000
    &&& (m.private_key matches Some(p) ==> p.len() < 0x1_0000_0000)
}

/// Parsing a framing recovers exactly what was framed.
pub proof fn lemma_material_codec_roundtrip(m: KeyMaterialView)
    requires
        spec_material_framable(m),
    ensures
        spec_decode_material(spec_encode_material(m)) == Some(m),
{
    let data = spec_encode_material(m);
    let plen = m.public_key.len() as int;
    let slen = match m.private_key {
        Some(p) => p.len() as int,
        None => 0,
    };
    assert(data.len() == 10 + plen + slen);
    assert(data.subrange(2, 6) =~= spec_le32(plen));
    assert(data.subrange(6, 10) =~= spec_le32(slen));
    lemma_le32_roundtrip(plen);
    lemma_le32_roundtrip(slen);
    assert(data.subrange(10, 10 + plen) =~= m.public_key);
    if m.private_key is Some {
        assert(data.subrange(10 + plen, 10 + plen + slen) =~= m.private_key->Some_0);
    }
    assert(spec_decode_material(data) == Some(m));
}

/// Write one little-endian length into a byte vector.
fn push_le32(out: &mut Vec<u8>, n: usize)
    requires
        n < 0x1_0000_0000,
    ensures
        final(out)@ == old(out)@ + spec_le32(n as int),
{
    let ghost pre = out@;
    out.push((n % 256) as u8);
    out.push(((n / 256) % 256) as u8);
    out.push(((n / 65536) % 256) as u8);
    out.push(((n / 16777216) % 256) as u8);
    proof {
        assert(out@ =~= pre + spec_le32(n as int));
    }
}

/// Copy a byte slice onto the end of a vector.
fn push_bytes(out: &mut Vec<u8>, data: &[u8])
    ensures
        final(out)@ == old(out)@ + data@,
{
    let ghost pre = out@;
    let n = data.len();
    let mut i: usize = 0;
    while i < n
        invariant
            n == data@.len(),
            i <= n,
            out@ == pre + data@.take(i as int),
        decreases n - i,
    {
        out.push(data[i]);
        proof {
            assert(data@.take(i as int).push(data@[i as int]) =~= data@.take(i + 1));
            assert(out@ =~= pre + data@.take(i + 1));
        }
        i = i + 1;
    }
    proof {
        assert(data@.take(n as int) =~= data@);
    }
}

/// Frame key material as bytes.
fn encode_material(m: &KeyMaterial) -> (r: Vec<u8>)
    requires
        spec_material_framable(m@),
    ensures
        r@ == spec_encode_material(m@),
{
    let mut out: Vec<u8> = Vec::new();
    match m.format() {
        KeyFormat::Age => out.push(0u8),
        KeyFormat::Ed25519 => out.push(1u8),
    }
    if m.has_private_key() {
        out.push(1u8);
    } else {
        out.push(0u8);
    }
    let public = m.public_key();
    push_le32(&mut out, public.len());
    match m.private_key() {
        Some(p) => push_le32(&mut out, p.len()),
        None => push_le32(&mut out, 0),
    }
    push_bytes(&mut out, public);
    match m.private_key() {
        Some(p) => push_bytes(&mut out, p),
        None => {},
    }
    proof {
        assert(out@ =~= spec_encode_material(m@));
    }
    out
}

/// Parse framed key material.
fn decode_material(data: &[u8]) -> (r: Option<KeyMaterial>)
    ensures
        match r {
            Some(m) => spec_decode_material(data@) == Some(m@),
            None => spec_decode_material(data@) is None,
        },
{
    let n = data.len();
    if n < 10 {
        return None;
    }
    let tag = data[0];
    let hasp = data[1];
    let plen: usize = data[2] as usize + 256 * (data[3] as usize) + 65536 * (data[4] as usize)
        + 16777216 * (data[5] as usize);
    let slen: usize = data[6] as usize + 256 * (data[7] as usize) + 65536 * (data[8] as usize)
        + 16777216 * (data[9] as usize);
    proof {
        assert(data@.subrange(2, 6) =~= seq![data@[2], data@[3], data@[4], data@[5]]);
        assert(data@.subrange(6, 10) =~= seq![data@[6], data@[7], data@[8], data@[9]]);
        assert(plen as int == spec_le32_val(data@.subrange(2, 6)));
        assert(slen as int == spec_le32_val(data@.subrange(6, 10)));
    }
    if tag != 0 && tag != 1 {
        return None;
    }
    if hasp != 0 && hasp != 1 {
        return None;
    }
    if hasp == 0 && slen != 0 {
        return None;
    }
    if plen > n - 10 || n - 10 - plen != slen {
        proof {
            assert(data@.len() != 10 + plen + slen);
        }
        return None;
    }
    let mut public: Vec<u8> = Vec::new();
    let mut i: usize = 0;
    while i < plen
        invariant
            n == data@.len(),
            n == 10 + plen + slen,
            i <= plen,
            public@ == data@.subrange(10, 10 + i as int),
        decreases plen - i,
    {
        public.push(data[10 + i]);
        proof {
            assert(data@.subrange(10, 10 + i as int).push(data@[10 + i]) =~= data@.subrange(
                10,
                10 + i + 1,
            ));
        }
        i = i + 1;
    }
    let private: Option<Vec<u8>> = if hasp == 1 {
        let mut sk: Vec<u8> = Vec::new();
        let mut j: usize = 0;
        while j < slen
            invariant
                n == data@.len(),
                n == 10 + plen + slen,
                j <= slen,
                sk@ == data@.subrange(10 + plen as int, 10 + plen + j as int),
            decreases slen - j,
        {
            sk.push(data[10 + plen + j]);
            proof {
                assert(data@.subrange(10 + plen as int, 10 + plen + j as int).push(
                    data@[10 + plen + j],
                ) =~= data@.subrange(10 + plen as int, 10 + plen + j + 1));
            }
            j = j + 1;
        }
        Some(sk)
    } else {
        None
    };
    let format = if tag == 0 {
        KeyFormat::Age
    } else {
        KeyFormat::Ed25519
    };
    let m = KeyMaterial::new(public, private, format);
    proof {
        assert(match spec_decode_material(data@) {
            Some(mv) => mv == m@,
            None => false,
        });
    }
    Some(m)
}

/// The symmetric wrapping key derived from a passphrase: a single SHA-256
/// over the passphrase bytes followed by a fixed application string, kept
/// distinct from the verifier's salted iterated derivation.
pub open spec fn spec_kdf(pass: Seq<char>) -> Seq<u8> {
    sha256_of(encode_utf8(pass) + encode_utf8("padlock-ignition-key-salt"@))
}

/// Derive the wrapping key from a passphrase.
fn derive_encryption_key(passphrase: &str) -> (r: Vec<u8>)
    ensures
        r@ == spec_kdf(passphrase@),
        r@.len() == 32,
{
    let mut input: Vec<u8> = passphrase.as_bytes_vec();
    let mut domain: Vec<u8> = "padlock-ignition-key-salt".as_bytes_vec();
    input.append(&mut domain);
    sha256(input.as_slice())
}

/// Key material under a keystream wrap, with its nonce and an algorithm
/// tag naming the cipher.
#[derive(Debug, Clone)]
pub struct EncryptedKeyMaterial {
    pub ciphertext: Vec<u8>,
    pub nonce: Vec<u8>,
    pub algorithm: String,
}

/// Mathematical view of wrapped material.
pub struct EncryptedKeyMaterialView {
    pub ciphertext: Seq<u8>,
    pub nonce: Seq<u8>,
    pub algorithm: Seq<char>,
}

impl View for EncryptedKeyMaterial {
    type V = EncryptedKeyMaterialView;

    open spec fn view(&self) -> EncryptedKeyMaterialView {
        EncryptedKeyMaterialView {
            ciphertext: self.ciphertext@,
            nonce: self.nonce@,
            algorithm: self.algorithm@,
        }
    }
}

/// XOR a byte sequence against a repeating key.
fn xor_bytes(data: &[u8], key: &[u8]) -> (r: Vec<u8>)
    requires
        key@.len() > 0,
    ensures
        r@ == spec_xor(data@, key@),
{
    let n = data.len();
    let klen = key.len();
    let mut out: Vec<u8> = Vec::new();
    let mut i: usize = 0;
    while i < n
        invariant
            n == data@.len(),
            klen == key@.len(),
            klen > 0,
            i <= n,
            out@.len() == i,
            forall|j: int| 0 <= j < i ==> out@[j] == spec_xor(data@, key@)[j],
        decreases n - i,
    {
        out.push(data[i] ^ key[i % klen]);
        i = i + 1;
    }
    proof {
        assert(out@ =~= spec_xor(data@, key@));
    }
    out
}

impl EncryptedKeyMaterial {
    /// Wrap key material under a derived key, with a fresh random nonce.
    pub fn encrypt(key_material: &KeyMaterial, encryption_key: &[u8]) -> (r: IgniteResult<Self>)
        requires
            encryption_key@.len() > 0,
            spec_material_framable(key_material@),
        ensures
            r matches Ok(e) && {
                &&& e@.ciphertext == spec_xor(spec_encode_material(key_material@), encryption_key@)
                &&& e@.nonce.len() == 12
                &&& e@.algorithm == "XOR-DEMO"@
            },
    {
        let plaintext = encode_material(key_material);
        let ciphertext = xor_bytes(plaintext.as_slice(), encryption_key);
        let nonce = random_bytes(12);
        Ok(EncryptedKeyMaterial { ciphertext, nonce, algorithm: String::from_str("XOR-DEMO") })
    }

    /// Unwrap with a derived key; refused when what comes out is not a
    /// well-formed framing of key material.
    pub fn decrypt(&self, encryption_key: &[u8]) -> (r: IgniteResult<KeyMaterial>)
        requires
            encryption_key@.len() > 0,
        ensures
            match r {
                Ok(m) => spec_decode_material(spec_xor(self@.ciphertext, encryption_key@)) == Some(
                    m@,
                ),
                Err(e) => spec_decode_material(spec_xor(self@.ciphertext, encryption_key@)) is None
                    && is_invalid_operation_msg(
                    e,
                    "deserialize_key"@,
                    "Wrapped key material is not a valid framing"@,
                ),
            },
    {
        let plaintext = xor_bytes(self.ciphertext.as_slice(), encryption_key);
        match decode_material(plaintext.as_slice()) {
            Some(m) => Ok(m),
            None => Err(IgniteError::InvalidOperation {
                operation: String::from_str("deserialize_key"),
                reason: String::from_str("Wrapped key material is not a valid framing"),
            }),
        }
    }
}

/// Unwrapping with the key that wrapped is the identity on the material:
/// the keystream XOR is an involution and the framing parses back to what
/// was framed. Unwrapping under a different derived key is accepted only
/// if it happens to produce a well-formed framing; the passphrase
/// verifier rejects a wrong passphrase before any unwrap is attempted.
pub proof fn lemma_wrap_unwrap_roundtrip(m: KeyMaterialView, key: Seq<u8>)
    requires
        key.len() > 0,
        spec_material_framable(m),
    ensures
        spec_decode_material(spec_xor(spec_xor(spec_encode_material(m), key), key)) == Some(m),
{
    lemma_xor_involution(spec_encode_material(m), key);
    lemma_material_codec_roundtrip(m);
}

/// Expiration policy for a wrapped key: a validity window from creation,
/// an auto-rotation flag, and a warning threshold of a tenth of the
/// window.
#[derive(Debug, Clone, Copy, PartialEq, Eq, Structural)]
pub struct ExpirationPolicy {
    pub expiration_micros: i64,
    pub auto_rotation: bool,
    pub warning_micros: i64,
}

impl ExpirationPolicy {
    /// A policy with the given validity window.
    pub fn new(duration_micros: i64, auto_rotation: bool) -> (r: Self)
        requires
            duration_micros >= 0,
        ensures
            r.expiration_micros == duration_micros,
            r.auto_rotation == auto_rotation,
            r.warning_micros == duration_micros / 10,
    {
        ExpirationPolicy {
            expiration_micros: duration_micros,
            auto_rotation,
            warning_micros: duration_micros / 10,
        }
    }

    /// Whether a key created at `creation` is expired at `now`.
    pub fn is_expired_at(&self, creation: i64, now: i64) -> (r: bool)
        requires
            self.expiration_micros >= 0,
        ensures
            r == (now > creation + self.expiration_micros),
    {
        if creation > i64::MAX - self.expiration_micros {
            false
        } else {
            now > creation + self.expiration_micros
        }
    }

    /// Whether `now` is inside the warning window before expiry.
    pub fn is_warning_at(&self, creation: i64, now: i64) -> (r: bool)
        requires
            0 <= self.warning_micros <= self.expiration_micros,
        ensures
            r == (now > creation + self.expiration_micros - self.warning_micros),
    {
        if creation > i64::MAX - (self.expiration_micros - self.warning_micros) {
            false
        } else {
            now > creation + (self.expiration_micros - self.warning_micros)
        }
    }

    /// The default policy of a tier: thirty days for ignition keys,
    /// seven for distro keys, none elsewhere.
    pub fn default_for_type(key_type: KeyType) -> (r: Option<Self>)
        ensures
            r == spec_default_wrap_policy(key_type),
    {
        match key_type {
            KeyType::Ignition => Some(ExpirationPolicy::new(30 * 86_400_000_000, true)),
            KeyType::Distro => Some(ExpirationPolicy::new(7 * 86_400_000_000, true)),
            _ => None,
        }
    }
}

/// The default expiration policy a freshly wrapped key of a tier gets.
pub open spec fn spec_default_wrap_policy(t: KeyType) -> Option<ExpirationPolicy> {
    match t {
        KeyType::Ignition => Some(
            ExpirationPolicy {
                expiration_micros: (30 * 86_400_000_000) as i64,
                auto_rotation: true,
                warning_micros: (3 * 86_400_000_000) as i64,
            },
        ),
        KeyType::Distro => Some(
            ExpirationPolicy {
                expiration_micros: (7 * 86_400_000_000) as i64,
                auto_rotation: true,
                warning_micros: 60_480_000_000i64,
            },
        ),
        _ => None,
    }
}

/// Metadata of a wrapped key.
#[derive(Debug, Clone)]
pub struct IgnitionKeyMetadata {
    pub name: String,
    pub description: String,
    pub creator: String,
    pub last_unlock: Option<i64>,
    pub unlock_count: u64,
    pub failed_unlock_attempts: u64,
}

/// Mathematical view of wrapped-key metadata.
pub struct IgnitionKeyMetadataView {
    pub name: Seq<char>,
    pub description: Seq<char>,
    pub creator: Seq<char>,
    pub last_unlock: Option<i64>,
    pub unlock_count: u64,
    pub failed_unlock_attempts: u64,
}

impl View for IgnitionKeyMetadata {
    type V = IgnitionKeyMetadataView;

    open spec fn view(&self) -> IgnitionKeyMetadataView {
        IgnitionKeyMetadataView {
            name: self.name@,
            description: self.description@,
            creator: self.creator@,
            last_unlock: self.last_unlock,
            unlock_count: self.unlock_count,
            failed_unlock_attempts: self.failed_unlock_attempts,
        }
    }
}

impl Default for IgnitionKeyMetadata {
    /// Fresh metadata: unnamed, never unlocked.
    fn default() -> (r: Self)
        ensures
            r@.name == "unnamed"@,
            r@.description == "Ignition key"@,
            r@.creator == "unknown"@,
            r@.last_unlock is None,
            r@.unlock_count == 0,
            r@.failed_unlock_attempts == 0,
    {
        IgnitionKeyMetadata {
            name: String::from_str("unnamed"),
            description: String::from_str("Ignition key"),
            creator: String::from_str("unknown"),
            last_unlock: None,
            unlock_count: 0,
            failed_unlock_attempts: 0,
        }
    }
}

/// Mathematical view of a wrapped ignition key.
pub struct IgnitionKeyView {
    pub wrapped_key: EncryptedKeyMaterialView,
    pub key_type: KeyType,
    pub passphrase_hash: PassphraseHashView,
    pub authority_chain: Seq<FingerprintView>,
    pub creation_timestamp: i64,
    pub expiration_policy: Option<ExpirationPolicy>,
    pub metadata: IgnitionKeyMetadataView,
}

/// An authority key at a passphrase-wrapped tier, stored only in wrapped
/// form together with its verifier and lifecycle metadata.
#[derive(Debug, Clone)]
pub struct IgnitionKey {
    wrapped_key: EncryptedKeyMaterial,
    key_type: KeyType,
    passphrase_hash: PassphraseHash,
    authority_chain: Vec<KeyFingerprint>,
    creation_timestamp: i64,
    expiration_policy: Option<ExpirationPolicy>,
    metadata: IgnitionKeyMetadata,
}

impl View for IgnitionKey {
    type V = IgnitionKeyView;

    closed spec fn view(&self) -> IgnitionKeyView {
        IgnitionKeyView {
            wrapped_key: self.wrapped_key@,
            key_type: self.key_type,
            passphrase_hash: self.passphrase_hash@,
            authority_chain: self.authority_chain@.map_values(|c: KeyFingerprint| c@),
            creation_timestamp: self.creation_timestamp,
            expiration_policy: self.expiration_policy,
            metadata: self.metadata@,
        }
    }
}

impl IgnitionKeyView {
    /// The wrap was produced under this passphrase: the verifier stores
    /// its digest and the ciphertext is the framing XORed with its
    /// derived key.
    pub open spec fn wrapped_under(self, material: KeyMaterialView, pass: Seq<char>) -> bool {
        &&& self.passphrase_hash.hash == spec_passphrase_digest(
            pass,
            self.passphrase_hash.salt,
            self.passphrase_hash.iterations as nat,
        )
        &&& self.wrapped_key.ciphertext == spec_xor(spec_encode_material(material), spec_kdf(pass))
    }

    /// The expiration policy, if any, has fired at instant `now`.
    pub open spec fn expired_at(self, now: i64) -> bool {
        self.expiration_policy matches Some(p) && now > self.creation_timestamp
            + p.expiration_micros
    }

    /// The stored verifier accepts this passphrase.
    pub open spec fn accepts_passphrase(self, pass: Seq<char>) -> bool {
        spec_passphrase_digest(
            pass,
            self.passphrase_hash.salt,
            self.passphrase_hash.iterations as nat,
        ) == self.passphrase_hash.hash
    }

    /// What unwrapping under this passphrase's derived key parses to.
    pub open spec fn unwrapped(self, pass: Seq<char>) -> Option<KeyMaterialView> {
        spec_decode_material(spec_xor(self.wrapped_key.ciphertext, spec_kdf(pass)))
    }

    /// The key after a successful unlock at `now` is recorded.
    pub open spec fn with_unlock_recorded(self, now: i64) -> IgnitionKeyView {
        IgnitionKeyView {
            metadata: IgnitionKeyMetadataView {
                last_unlock: Some(now),
                unlock_count: (self.metadata.unlock_count + 1) as u64,
                ..self.metadata
            },
            ..self
        }
    }

    /// The key after a failed unlock attempt is counted (the counter
    /// saturates).
    pub open spec fn with_failed_attempt(self) -> IgnitionKeyView {
        IgnitionKeyView {
            metadata: IgnitionKeyMetadataView {
                failed_unlock_attempts: if self.metadata.failed_unlock_attempts < u64::MAX {
                    (self.metadata.failed_unlock_attempts + 1) as u64
                } else {
                    self.metadata.failed_unlock_attempts
                },
                ..self.metadata
            },
            ..self
        }
    }
}

impl IgnitionKey {
    /// Wrap key material under a passphrase. Only the passphrase-wrapped
    /// tiers are accepted, and the passphrase must satisfy the strength
    /// rules.
    pub fn create(
        key_material: &KeyMaterial,
        key_type: KeyType,
        passphrase: &str,
        authority_parent: Option<&AuthorityKey>,
        name: Option<String>,
    ) -> (r: IgniteResult<Self>)
        requires
            spec_material_framable(key_material@),
        ensures
            r is Ok <==> ((key_type == KeyType::Skull || key_type == KeyType::Ignition || key_type
                == KeyType::Distro) && spec_passphrase_ok(passphrase@)),
            r matches Ok(k) ==> {
                &&& k@.wrapped_under(key_material@, passphrase@)
                &&& k@.key_type == key_type
                &&& k@.metadata.unlock_count == 0
                &&& k@.metadata.failed_unlock_attempts == 0
                &&& k@.metadata.last_unlock is None
                &&& k@.metadata.name == (match name {
                    Some(n) => n@,
                    None => "unnamed"@,
                })
                &&& k@.authority_chain == (match authority_parent {
                    Some(p) => seq![p@.fingerprint],
                    None => Seq::<FingerprintView>::empty(),
                })
                &&& 0 <= k@.creation_timestamp <= MAX_TIMESTAMP_MICROS
                &&& k@.expiration_policy == spec_default_wrap_policy(key_type)
                &&& (k@.expiration_policy matches Some(p) ==> 0 <= p.warning_micros
                    <= p.expiration_micros)
                &&& k@.accepts_passphrase(passphrase@)
                &&& k@.unwrapped(passphrase@) == Some(key_material@)
            },
            r matches Err(e) ==> is_invalid_operation(e, "create_ignition_key"@)
                || is_invalid_operation(e, "validate_passphrase"@),
    {
        if !key_type.is_ignition_key() {
            let mut reason = String::new();
            reason.append("Key type ");
            reason.append(key_type.as_str());
            reason.append(" cannot be an ignition key");
            return Err(IgniteError::InvalidOperation {
                operation: String::from_str("create_ignition_key"),
                reason,
            });
        }
        match validate_passphrase_strength(passphrase) {
            Ok(()) => {},
            Err(e) => {
                return Err(e);
            },
        }
        let encryption_key = derive_encryption_key(passphrase);
        let wrapped_key = match EncryptedKeyMaterial::encrypt(
            key_material,
            encryption_key.as_slice(),
        ) {
            Ok(w) => w,
            Err(e) => {
                return Err(e);
            },
        };
        let mut authority_chain: Vec<KeyFingerprint> = Vec::new();
        match authority_parent {
            Some(parent) => {
                authority_chain.push(parent.fingerprint().clone());
            },
            None => {},
        }
        let passphrase_hash = match PassphraseHash::new(passphrase) {
            Ok(h) => h,
            Err(e) => {
                return Err(e);
            },
        };
        let mut metadata = IgnitionKeyMetadata::default();
        match name {
            Some(n) => {
                metadata.name = n;
            },
            None => {},
        }
        let k = IgnitionKey {
            wrapped_key,
            key_type,
            passphrase_hash,
            authority_chain,
            creation_timestamp: now_micros_clamped(),
            expiration_policy: ExpirationPolicy::default_for_type(key_type),
            metadata,
        };
        proof {
            assert(k@.authority_chain =~= (match authority_parent {
                Some(p) => seq![p@.fingerprint],
                None => Seq::<FingerprintView>::empty(),
            }));
            lemma_wrap_unwrap_roundtrip(key_material@, encryption_key@);
            assert(k@.unwrapped(passphrase@) == Some(key_material@));
        }
        Ok(k)
    }

    /// Unlock at instant `now`. The four outcomes are exhaustive: an
    /// expired key is refused untouched; a rejected passphrase is refused
    /// with the failure counted; a wrap that does not parse is refused
    /// untouched; otherwise success is owed, the material is returned and
    /// the unlock recorded.
    pub fn unlock_at(&mut self, passphrase: &str, now: i64) -> (r: IgniteResult<KeyMaterial>)
        requires
            old(self)@.expiration_policy matches Some(p) ==> p.expiration_micros >= 0,
            old(self)@.metadata.unlock_count < u64::MAX,
        ensures
            old(self)@.expired_at(now) ==> (r matches Err(e) && is_invalid_operation_msg(
                e,
                "unlock_ignition_key"@,
                "Ignition key has expired"@,
            ) && final(self)@ == old(self)@),
            (!old(self)@.expired_at(now) && !old(self)@.accepts_passphrase(passphrase@)) ==> (
            r matches Err(e) && is_invalid_operation_msg(
                e,
                "unlock_ignition_key"@,
                "Invalid passphrase"@,
            ) && final(self)@ == old(self)@.with_failed_attempt()),
            (!old(self)@.expired_at(now) && old(self)@.accepts_passphrase(passphrase@) && old(
                self,
            )@.unwrapped(passphrase@) is None) ==> (r matches Err(e) && is_invalid_operation_msg(
                e,
                "deserialize_key"@,
                "Wrapped key material is not a valid framing"@,
            ) && final(self)@ == old(self)@),
            (!old(self)@.expired_at(now) && old(self)@.accepts_passphrase(passphrase@) && old(
                self,
            )@.unwrapped(passphrase@) is Some) ==> (r matches Ok(m) && old(self)@.unwrapped(
                passphrase@,
            ) == Some(m@) && final(self)@ == old(self)@.with_unlock_recorded(now)),
    {
        match self.expiration_policy {
            Some(policy) => {
                if policy.is_expired_at(self.creation_timestamp, now) {
                    return Err(IgniteError::InvalidOperation {
                        operation: String::from_str("unlock_ignition_key"),
                        reason: String::from_str("Ignition key has expired"),
                    });
                }
            },
            None => {},
        }
        let matches_stored = match self.passphrase_hash.verify(passphrase) {
            Ok(b) => b,
            Err(e) => {
                return Err(e);
            },
        };
        if !matches_stored {
            if self.metadata.failed_unlock_attempts < u64::MAX {
                self.metadata.failed_unlock_attempts = self.metadata.failed_unlock_attempts + 1;
            }
            return Err(IgniteError::InvalidOperation {
                operation: String::from_str("unlock_ignition_key"),
                reason: String::from_str("Invalid passphrase"),
            });
        }
        let decryption_key = derive_encryption_key(passphrase);
        let key_material = match self.wrapped_key.decrypt(decryption_key.as_slice()) {
            Ok(m) => m,
            Err(e) => {
                return Err(e);
            },
        };
        self.metadata.last_unlock = Some(now);
        self.metadata.unlock_count = self.metadata.unlock_count + 1;
        Ok(key_material)
    }

    /// Unlock against the wall clock; `unlock_at` carries the exact,
    /// clock-parametric contract.
    pub fn unlock(&mut self, passphrase: &str) -> (r: IgniteResult<KeyMaterial>)
        requires
            old(self)@.expiration_policy matches Some(p) ==> p.expiration_micros >= 0,
            old(self)@.metadata.unlock_count < u64::MAX,
        ensures
            r matches Ok(m) ==> {
                &&& old(self)@.accepts_passphrase(passphrase@)
                &&& old(self)@.unwrapped(passphrase@) == Some(m@)
                &&& exists|now: i64|
                    !old(self)@.expired_at(now) && final(self)@ == #[trigger] old(
                        self,
                    )@.with_unlock_recorded(now)
            },
            (r is Err && !old(self)@.accepts_passphrase(passphrase@)) ==> (final(self)@ == old(
                self,
            )@ || final(self)@ == old(self)@.with_failed_attempt()),
    {
        let now = now_micros_clamped();
        self.unlock_at(passphrase, now)
    }

    /// Change the passphrase at instant `now`: unlock with the old one
    /// (with all of its checks), validate the new one, rewrap with a
    /// fresh nonce, and replace the verifier. The five outcomes are
    /// exhaustive; success is owed when the old passphrase unlocks and
    /// the new one passes the strength rules.
    pub fn change_passphrase_at(&mut self, old_passphrase: &str, new_passphrase: &str, now: i64) -> (r:
        IgniteResult<()>)
        requires
            old(self)@.expiration_policy matches Some(p) ==> p.expiration_micros >= 0,
            old(self)@.metadata.unlock_count < u64::MAX,
        ensures
            old(self)@.expired_at(now) ==> (r matches Err(e) && is_invalid_operation_msg(
                e,
                "unlock_ignition_key"@,
                "Ignition key has expired"@,
            ) && final(self)@ == old(self)@),
            (!old(self)@.expired_at(now) && !old(self)@.accepts_passphrase(old_passphrase@))
                ==> (r matches Err(e) && is_invalid_operation_msg(
                e,
                "unlock_ignition_key"@,
                "Invalid passphrase"@,
            ) && final(self)@ == old(self)@.with_failed_attempt()),
            (!old(self)@.expired_at(now) && old(self)@.accepts_passphrase(old_passphrase@) && old(
                self,
            )@.unwrapped(old_passphrase@) is None) ==> (r matches Err(e)
                && is_invalid_operation_msg(
                e,
                "deserialize_key"@,
                "Wrapped key material is not a valid framing"@,
            ) && final(self)@ == old(self)@),
            (!old(self)@.expired_at(now) && old(self)@.accepts_passphrase(old_passphrase@) && old(
                self,
            )@.unwrapped(old_passphrase@) is Some && !spec_passphrase_ok(new_passphrase@)) ==> (
            r matches Err(e) && is_invalid_operation(e, "validate_passphrase"@) && final(self)@
                == old(self)@.with_unlock_recorded(now)),
            (!old(self)@.expired_at(now) && old(self)@.accepts_passphrase(old_passphrase@) && old(
                self,
            )@.unwrapped(old_passphrase@) is Some && spec_passphrase_ok(new_passphrase@)) ==> (
            r is Ok && {
                let m = old(self)@.unwrapped(old_passphrase@)->Some_0;
                let recorded = old(self)@.with_unlock_recorded(now);
                &&& final(self)@.wrapped_under(m, new_passphrase@)
                &&& final(self)@.accepts_passphrase(new_passphrase@)
                &&& final(self)@.unwrapped(new_passphrase@) == Some(m)
                &&& final(self)@.wrapped_key.nonce.len() == 12
                &&& final(self)@.wrapped_key.algorithm == "XOR-DEMO"@
                &&& final(self)@.passphrase_hash == spec_fresh_hash(
                    new_passphrase@,
                    final(self)@.passphrase_hash.salt,
                )
                &&& final(self)@.passphrase_hash.salt.len() == 16
                &&& final(self)@.key_type == recorded.key_type
                &&& final(self)@.authority_chain == recorded.authority_chain
                &&& final(self)@.creation_timestamp == recorded.creation_timestamp
                &&& final(self)@.expiration_policy == recorded.expiration_policy
                &&& final(self)@.metadata == recorded.metadata
            }),
    {
        let key_material = match self.unlock_at(old_passphrase, now) {
            Ok(m) => m,
            Err(e) => {
                return Err(e);
            },
        };
        match validate_passphrase_strength(new_passphrase) {
            Ok(()) => {},
            Err(e) => {
                return Err(e);
            },
        }
        proof {
            lemma_decoded_material_framable(
                spec_xor(old(self)@.wrapped_key.ciphertext, spec_kdf(old_passphrase@)),
            );
        }
        let new_key = derive_encryption_key(new_passphrase);
        let wrapped = match EncryptedKeyMaterial::encrypt(&key_material, new_key.as_slice()) {
            Ok(w) => w,
            Err(e) => {
                return Err(e);
            },
        };
        let new_hash = match PassphraseHash::new(new_passphrase) {
            Ok(h) => h,
            Err(e) => {
                return Err(e);
            },
        };
        self.wrapped_key = wrapped;
        self.passphrase_hash = new_hash;
        proof {
            assert(spec_decode_material(
                spec_xor(old(self)@.wrapped_key.ciphertext, spec_kdf(old_passphrase@)),
            ) == Some(key_material@));
            assert(self@.wrapped_key.ciphertext == spec_xor(
                spec_encode_material(key_material@),
                spec_kdf(new_passphrase@),
            ));
            assert(self@.passphrase_hash.hash == spec_passphrase_digest(
                new_passphrase@,
                self@.passphrase_hash.salt,
                self@.passphrase_hash.iterations as nat,
            ));
            assert(self@.wrapped_under(key_material@, new_passphrase@));
            lemma_wrap_unwrap_roundtrip(key_material@, new_key@);
            assert(self@.unwrapped(new_passphrase@) == Some(key_material@));
        }
        Ok(())
    }

    /// Change the passphrase against the wall clock; `change_passphrase_at`
    /// carries the exact, clock-parametric contract.
    pub fn change_passphrase(&mut self, old_passphrase: &str, new_passphrase: &str) -> (r:
        IgniteResult<()>)
        requires
            old(self)@.expiration_policy matches Some(p) ==> p.expiration_micros >= 0,
            old(self)@.metadata.unlock_count < u64::MAX,
        ensures
            r is Ok ==> spec_passphrase_ok(new_passphrase@) && old(self)@.accepts_passphrase(
                old_passphrase@,
            ) && (exists|m: KeyMaterialView|
                old(self)@.unwrapped(old_passphrase@) == Some(m)
                    && #[trigger] final(self)@.wrapped_under(m, new_passphrase@)),
    {
        let now = now_micros_clamped();
        self.change_passphrase_at(old_passphrase, new_passphrase, now)
    }

    /// Whether the key is expired at `now`; a key without a policy never
    /// is.
    pub fn is_expired_at(&self, now: i64) -> (r: bool)
        requires
            self@.expiration_policy matches Some(p) ==> p.expiration_micros >= 0,
        ensures
            r == (self@.expiration_policy matches Some(p) && now > self@.creation_timestamp
                + p.expiration_micros),
    {
        match self.expiration_policy {
            Some(policy) => policy.is_expired_at(self.creation_timestamp, now),
            None => false,
        }
    }

    /// Whether the key is expired now.
    pub fn is_expired(&self) -> (r: bool)
        requires
            self@.expiration_policy matches Some(p) ==> p.expiration_micros >= 0,
        ensures
            self@.expiration_policy is None ==> r == false,
    {
        let now = now_micros_clamped();
        self.is_expired_at(now)
    }

    /// Whether the key is inside its warning window at `now`.
    pub fn is_warning_at(&self, now: i64) -> (r: bool)
        requires
            self@.expiration_policy matches Some(p) ==> 0 <= p.warning_micros
                <= p.expiration_micros,
        ensures
            r == (self@.expiration_policy matches Some(p) && now > self@.creation_timestamp
                + p.expiration_micros - p.warning_micros),
    {
        match self.expiration_policy {
            Some(policy) => policy.is_warning_at(self.creation_timestamp, now),
            None => false,
        }
    }

    /// Whether the key is inside its warning window now; a key without a
    /// policy never is.
    pub fn is_warning(&self) -> (r: bool)
        requires
            self@.expiration_policy matches Some(p) ==> 0 <= p.warning_micros
                <= p.expiration_micros,
        ensures
            self@.expiration_policy is None ==> r == false,
    {
        let now = now_micros_clamped();
        self.is_warning_at(now)
    }

    /// The wrapped tier.
    pub fn key_type(&self) -> (r: KeyType)
        ensures
            r == self@.key_type,
    {
        self.key_type
    }

    /// When the key was wrapped.
    pub fn creation_timestamp(&self) -> (r: i64)
        ensures
            r == self@.creation_timestamp,
    {
        self.creation_timestamp
    }

    /// The lifecycle metadata.
    pub fn metadata(&self) -> (r: &IgnitionKeyMetadata)
        ensures
            r@ == self@.metadata,
    {
        &self.metadata
    }

    /// The parent fingerprints recorded at wrap time.
    pub fn authority_chain(&self) -> (r: &[KeyFingerprint])
        ensures
            r@.len() == self@.authority_chain.len(),
            forall|i: int|
                0 <= i < r@.len() ==> #[trigger] r@[i]@ == self@.authority_chain[i],
    {
        self.authority_chain.as_slice()
    }

    /// Replace the lifecycle metadata.
    pub fn update_metadata(&mut self, metadata: IgnitionKeyMetadata)
        ensures
            final(self)@ == (IgnitionKeyView { metadata: metadata@, ..old(self)@ }),
    {
        self.metadata = metadata;
    }

    /// The wrapped key's own fingerprint: a SHA-256 over the ciphertext,
    /// the tier name and the big-endian creation timestamp, identifying
    /// the wrap itself.
    pub fn fingerprint(&self) -> (r: IgniteResult<KeyFingerprint>)
        ensures
            r matches Ok(fp) && fp@ == crate::material::spec_fingerprint_of(
                sha256_of(
                    self@.wrapped_key.ciphertext + encode_utf8(
                        crate::hierarchy::spec_key_type_name(self@.key_type),
                    ) + spec_be64(self@.creation_timestamp),
                ).take(16),
            ),
    {
        let mut input: Vec<u8> = Vec::new();
        push_bytes(&mut input, self.wrapped_key.ciphertext.as_slice());
        let mut name_bytes: Vec<u8> = self.key_type.as_str().as_bytes_vec();
        input.append(&mut name_bytes);
        push_be64(&mut input, self.creation_timestamp);
        let digest = sha256(input.as_slice());
        let head = slice_prefix16(digest.as_slice());
        proof {
            assert(head@ =~= sha256_of(input@).take(16));
        }
        KeyFingerprint::from_key_material(head.as_slice())
    }
}

/// Eight big-endian bytes of a timestamp.
pub open spec fn spec_be64(n: i64) -> Seq<u8> {
    let u = n as u64;
    seq![
        (u / 0x100000000000000) as u8,
        ((u / 0x1000000000000) % 256) as u8,
        ((u / 0x10000000000) % 256) as u8,
        ((u / 0x100000000) % 256) as u8,
        ((u / 0x1000000) % 256) as u8,
        ((u / 0x10000) % 256) as u8,
        ((u / 0x100) % 256) as u8,
        (u % 256) as u8,
    ]
}

/// Append the big-endian bytes of a timestamp.
fn push_be64(out: &mut Vec<u8>, n: i64)
    ensures
        final(out)@ == old(out)@ + spec_be64(n),
{
    let ghost pre = out@;
    let u = n as u64;
    out.push((u / 0x100000000000000) as u8);
    out.push(((u / 0x1000000000000) % 256) as u8);
    out.push(((u / 0x10000000000) % 256) as u8);
    out.push(((u / 0x100000000) % 256) as u8);
    out.push(((u / 0x1000000) % 256) as u8);
    out.push(((u / 0x10000) % 256) as u8);
    out.push(((u / 0x100) % 256) as u8);
    out.push((u % 256) as u8);
    proof {
        assert(out@ =~= pre + spec_be64(n));
    }
}

/// The first sixteen bytes of a digest.
fn slice_prefix16(data: &[u8]) -> (r: Vec<u8>)
    requires
        data@.len() >= 16,
    ensures
        r@ == data@.take(16),
{
    let mut out: Vec<u8> = Vec::new();
    let mut i: usize = 0;
    while i < 16
        invariant
            data@.len() >= 16,
            i <= 16,
            out@ == data@.take(i as int),
        decreases 16 - i,
    {
        out.push(data[i]);
        proof {
            assert(data@.take(i as int).push(data@[i as int]) =~= data@.take(i + 1));
        }
        i = i + 1;
    }
    out
}

/// Whatever the framing parser accepts satisfies the length bounds the
/// encoder requires, so an unwrapped material can always be rewrapped.
pub proof fn lemma_decoded_material_framable(data: Seq<u8>)
    ensures
        spec_decode_material(data) matches Some(m) ==> spec_material_framable(m),
{
    if spec_decode_material(data) is Some {
        let m = spec_decode_material(data)->Some_0;
        let plen = spec_le32_val(data.subrange(2, 6));
        let slen = spec_le32_val(data.subrange(6, 10));
        assert(m.public_key.len() == plen);
        assert(plen < 0x1_0000_0000);
        assert(slen < 0x1_0000_0000);
    }
}

} // verus!
