//! The policy engine: an ordered list of policies run over keys and
//! passphrases, failing on the first violation. The default bundle
//! enforces expiration windows per tier and passphrase strength.

use vstd::prelude::*;

use crate::clock::now_micros;
use crate::errors::IgniteError;
use crate::errors::IgniteResult;
use crate::errors::is_invalid_operation;
use crate::hierarchy::KeyType;
use crate::keys::AuthorityKey;
use crate::keys::AuthorityKeyView;
use crate::keys::KeyMetadataView;
use crate::text::ascii_lower;
use crate::text::spec_ascii_lower;
use crate::text::spec_contains;
use crate::text::str_contains;
use vstd::utf8::encode_utf8;

verus! {

/// One day in microseconds.
pub const DAY_MICROS: i64 = 86_400_000_000;

/// Whether a character is uppercase, as Unicode has it.
pub uninterp spec fn is_upper_char(c: char) -> bool;

/// Relies on char::is_uppercase: a pure function of the character.
#[verifier::external_body]
fn char_is_uppercase(c: char) -> (r: bool)
    ensures
        r == is_upper_char(c),
{
    c.is_uppercase()
}

/// Whether a character is lowercase, as Unicode has it.
pub uninterp spec fn is_lower_char(c: char) -> bool;

/// Relies on char::is_lowercase: a pure function of the character.
#[verifier::external_body]
fn char_is_lowercase(c: char) -> (r: bool)
    ensures
        r == is_lower_char(c),
{
    c.is_lowercase()
}

/// Whether a character is alphanumeric, as Unicode has it.
pub uninterp spec fn is_alnum_char(c: char) -> bool;

/// Relies on char::is_alphanumeric: a pure function of the character.
#[verifier::external_body]
fn char_is_alphanumeric(c: char) -> (r: bool)
    ensures
        r == is_alnum_char(c),
{
    c.is_alphanumeric()
}

/// An ASCII decimal digit.
pub open spec fn is_digit_char(c: char) -> bool {
    '0' <= c && c <= '9'
}

/// How many of the four character classes the passphrase draws on.
pub open spec fn spec_diversity(p: Seq<char>) -> int {
    (if exists|i: int| 0 <= i < p.len() && is_upper_char(#[trigger] p[i]) {
        1int
    } else {
        0int
    }) + (if exists|i: int| 0 <= i < p.len() && is_lower_char(#[trigger] p[i]) {
        1int
    } else {
        0int
    }) + (if exists|i: int| 0 <= i < p.len() && is_digit_char(#[trigger] p[i]) {
        1int
    } else {
        0int
    }) + (if exists|i: int| 0 <= i < p.len() && !is_alnum_char(#[trigger] p[i]) {
        1int
    } else {
        0int
    })
}

/// Case-insensitive test against the static list of common passwords.
pub open spec fn spec_common_password(p: Seq<char>) -> bool {
    let l = spec_ascii_lower(p);
    ||| spec_contains(l, "password"@)
    ||| spec_contains(l, "123456"@)
    ||| spec_contains(l, "password123"@)
    ||| spec_contains(l, "admin"@)
    ||| spec_contains(l, "qwerty"@)
    ||| spec_contains(l, "letmein"@)
    ||| spec_contains(l, "welcome"@)
    ||| spec_contains(l, "monkey"@)
    ||| spec_contains(l, "1234567890"@)
    ||| spec_contains(l, "abc123"@)
}

/// Shell-injection and control patterns a passphrase may not contain.
pub open spec fn spec_has_injection(p: Seq<char>) -> bool {
    ||| spec_contains(p, "$("@)
    ||| p.contains('`')
    ||| p.contains(';')
    ||| p.contains('&')
    ||| p.contains('|')
    ||| p.contains('\n')
    ||| p.contains('\r')
    ||| p.contains('\u{0}')
}

/// A passphrase the strength rules accept: UTF-8 byte length within
/// [12, 256], at least three character classes, no common password, no
/// injection pattern.
pub open spec fn spec_passphrase_ok(p: Seq<char>) -> bool {
    &&& 12 <= encode_utf8(p).len() <= 256
    &&& spec_diversity(p) >= 3
    &&& !spec_common_password(p)
    &&& !spec_has_injection(p)
}

/// Case-insensitive test against the static list of common passwords.
pub fn is_common_password(passphrase: &str) -> (r: bool)
    ensures
        r == spec_common_password(passphrase@),
{
    let lower = ascii_lower(passphrase);
    let l = lower.as_str();
    str_contains(l, "password") || str_contains(l, "123456") || str_contains(l, "password123")
        || str_contains(l, "admin") || str_contains(l, "qwerty") || str_contains(l, "letmein")
        || str_contains(l, "welcome") || str_contains(l, "monkey") || str_contains(
        l,
        "1234567890",
    ) || str_contains(l, "abc123")
}

/// Whether `c` occurs in `s`.
fn contains_char(s: &str, c: char) -> (r: bool)
    ensures
        r == s@.contains(c),
{
    let n = s.unicode_len();
    let mut i: usize = 0;
    while i < n
        invariant
            n == s@.len(),
            i <= n,
            forall|j: int| 0 <= j < i ==> s@[j] != c,
        decreases n - i,
    {
        if s.get_char(i) == c {
            proof {
                assert(s@[i as int] == c);
            }
            return true;
        }
        i = i + 1;
    }
    false
}

/// Enforce the passphrase strength rules, failing on the first violated
/// rule.
pub fn validate_passphrase_strength(passphrase: &str) -> (r: IgniteResult<()>)
    ensures
        r is Ok <==> spec_passphrase_ok(passphrase@),
        r matches Err(e) ==> is_invalid_operation(e, "validate_passphrase"@),
{
    let n_bytes = passphrase.as_bytes().len();
    if n_bytes < 12 {
        return Err(IgniteError::InvalidOperation {
            operation: String::from_str("validate_passphrase"),
            reason: String::from_str("Passphrase must be at least 12 characters long"),
        });
    }
    if n_bytes > 256 {
        return Err(IgniteError::InvalidOperation {
            operation: String::from_str("validate_passphrase"),
            reason: String::from_str("Passphrase must be less than 256 characters"),
        });
    }
    let n = passphrase.unicode_len();
    let mut has_upper = false;
    let mut has_lower = false;
    let mut has_digit = false;
    let mut has_special = false;
    let mut i: usize = 0;
    while i < n
        invariant
            n == passphrase@.len(),
            i <= n,
            has_upper == exists|j: int|
                0 <= j < i && is_upper_char(#[trigger] passphrase@[j]),
            has_lower == exists|j: int|
                0 <= j < i && is_lower_char(#[trigger] passphrase@[j]),
            has_digit == exists|j: int|
                0 <= j < i && is_digit_char(#[trigger] passphrase@[j]),
            has_special == exists|j: int|
                0 <= j < i && !is_alnum_char(#[trigger] passphrase@[j]),
        decreases n - i,
    {
        let c = passphrase.get_char(i);
        if char_is_uppercase(c) {
            has_upper = true;
        }
        if char_is_lowercase(c) {
            has_lower = true;
        }
        if c >= '0' && c <= '9' {
            has_digit = true;
        }
        if !char_is_alphanumeric(c) {
            has_special = true;
        }
        i = i + 1;
    }
    proof {
        assert(has_upper == exists|j: int|
            0 <= j < passphrase@.len() && is_upper_char(#[trigger] passphrase@[j]));
        assert(has_lower == exists|j: int|
            0 <= j < passphrase@.len() && is_lower_char(#[trigger] passphrase@[j]));
        assert(has_digit == exists|j: int|
            0 <= j < passphrase@.len() && is_digit_char(#[trigger] passphrase@[j]));
        assert(has_special == exists|j: int|
            0 <= j < passphrase@.len() && !is_alnum_char(#[trigger] passphrase@[j]));
    }
    let mut diversity: u32 = 0;
    if has_upper {
        diversity = diversity + 1;
    }
    if has_lower {
        diversity = diversity + 1;
    }
    if has_digit {
        diversity = diversity + 1;
    }
    if has_special {
        diversity = diversity + 1;
    }
    if diversity < 3 {
        return Err(IgniteError::InvalidOperation {
            operation: String::from_str("validate_passphrase"),
            reason: String::from_str(
                "Passphrase must contain at least three of: uppercase, lowercase, digits, special characters",
            ),
        });
    }
    if is_common_password(passphrase) {
        return Err(IgniteError::InvalidOperation {
            operation: String::from_str("validate_passphrase"),
            reason: String::from_str("Common password detected. Please choose a unique passphrase"),
        });
    }
    let injection = str_contains(passphrase, "$(") || contains_char(passphrase, '`')
        || contains_char(passphrase, ';') || contains_char(passphrase, '&') || contains_char(
        passphrase,
        '|',
    ) || contains_char(passphrase, '\n') || contains_char(passphrase, '\r') || contains_char(
        passphrase,
        '\u{0}',
    );
    if injection {
        return Err(IgniteError::InvalidOperation {
            operation: String::from_str("validate_passphrase"),
            reason: String::from_str("Passphrase contains potentially dangerous shell characters"),
        });
    }
    Ok(())
}

/// Whether `now` is inside the warning window that the policy computes
/// from the creation and expiration instants.
pub open spec fn spec_is_warning(permille: u32, creation: i64, expiration: i64, now: i64) -> bool {
    let total = expiration - creation;
    total <= 0 || {
        let scaled = total * permille / 1000;
        let w = if scaled > 1 {
            scaled
        } else {
            1
        };
        now >= expiration - w
    }
}

/// Default expiration policy per key tier: ignition keys live 30 days,
/// distro keys 7; other tiers get no automatic expiration.
#[derive(Debug, Clone, Copy, PartialEq, Eq, Structural)]
pub struct ExpirationPolicy {
    /// Share of the validity window, in thousandths, treated as the
    /// warning period before expiry.
    pub warning_permille: u32,
}

/// The default validity window of a tier, in microseconds.
pub open spec fn spec_default_duration(t: KeyType) -> Option<i64> {
    match t {
        KeyType::Ignition => Some(((30 * DAY_MICROS) as i64)),
        KeyType::Distro => Some(((7 * DAY_MICROS) as i64)),
        _ => None,
    }
}

/// The expiration a key of tier `t` created at `creation` receives,
/// saturating at the largest representable instant.
pub open spec fn spec_default_expiration(t: KeyType, creation: i64) -> Option<i64> {
    match spec_default_duration(t) {
        Some(d) => Some(
            if creation > i64::MAX - d {
                i64::MAX
            } else {
                (creation + d) as i64
            },
        ),
        None => None,
    }
}

/// What `apply_key_defaults` does to a key: fill in the default
/// expiration when none is set and the tier has one.
pub open spec fn spec_apply_expiration_defaults(k: AuthorityKeyView) -> AuthorityKeyView {
    if k.metadata.expiration is None && spec_default_expiration(
        k.key_type,
        k.metadata.creation_time,
    ) is Some {
        AuthorityKeyView {
            metadata: KeyMetadataView {
                expiration: spec_default_expiration(k.key_type, k.metadata.creation_time),
                ..k.metadata
            },
            ..k
        }
    } else {
        k
    }
}

impl ExpirationPolicy {
    /// The default policy: a ten percent warning window.
    pub fn new() -> (r: Self)
        ensures
            r.warning_permille == 100,
    {
        ExpirationPolicy { warning_permille: 100 }
    }

    /// The default validity window of a tier.
    pub fn duration_for(&self, key_type: KeyType) -> (r: Option<i64>)
        ensures
            r == spec_default_duration(key_type),
    {
        match key_type {
            KeyType::Ignition => Some(30 * DAY_MICROS),
            KeyType::Distro => Some(7 * DAY_MICROS),
            _ => None,
        }
    }

    /// Fill in the default expiration when the key has none.
    pub fn apply_key_defaults(&self, key: &mut AuthorityKey) -> (r: IgniteResult<()>)
        ensures
            r is Ok,
            final(key)@ == spec_apply_expiration_defaults(old(key)@),
    {
        let ghost kv = old(key)@;
        if key.metadata().expiration().is_none() {
            match self.duration_for(key.key_type()) {
                Some(d) => {
                    let creation = key.metadata().creation_time;
                    let expiration = if creation > i64::MAX - d {
                        i64::MAX
                    } else {
                        creation + d
                    };
                    proof {
                        assert(key@ == kv);
                        assert(spec_default_duration(kv.key_type) == Some(d));
                        assert(creation == kv.metadata.creation_time);
                        if creation > i64::MAX - d {
                            assert(expiration == i64::MAX);
                            assert(spec_default_expiration(kv.key_type, kv.metadata.creation_time)
                                == Some(expiration));
                        } else {
                            assert(expiration == creation + d);
                            assert(spec_default_expiration(kv.key_type, kv.metadata.creation_time)
                                == Some(expiration));
                        }
                    }
                    key.set_expiration(Some(expiration));
                    proof {
                        assert(key@ == spec_apply_expiration_defaults(kv));
                    }
                },
                None => {
                    proof {
                        assert(spec_apply_expiration_defaults(kv) == kv);
                    }
                },
            }
        }
        Ok(())
    }

    /// Whether the wall clock is inside the warning window before
    /// expiry; `is_warning_at` carries the exact, clock-parametric
    /// contract.
    pub fn is_warning(&self, metadata_creation: i64, expiration: i64) -> (r: bool)
        ensures
            expiration <= metadata_creation ==> r == true,
    {
        let now = now_micros();
        self.is_warning_at(metadata_creation, expiration, now)
    }

    /// Reject a key whose expiration has passed at instant `now`.
    pub fn validate_key_at(&self, key: &AuthorityKey, now: i64) -> (r: IgniteResult<()>)
        ensures
            r is Ok <==> !(key@.metadata.expiration matches Some(e) && now > e),
            r matches Err(e) ==> is_invalid_operation(e, "policy_expiration"@),
    {
        match key.metadata().expiration() {
            Some(expiration) => {
                if now > expiration {
                    let mut reason = String::new();
                    reason.append("Key ");
                    let shown = key.fingerprint().display_string();
                    reason.append(shown.as_str());
                    reason.append(" has expired");
                    return Err(IgniteError::InvalidOperation {
                        operation: String::from_str("policy_expiration"),
                        reason,
                    });
                }
                Ok(())
            },
            None => Ok(()),
        }
    }

    /// Whether `now` falls inside the warning window before expiry: the
    /// warning period is `warning_permille` thousandths of the validity
    /// window, and at least one microsecond.
    pub fn is_warning_at(&self, metadata_creation: i64, expiration: i64, now: i64) -> (r: bool)
        ensures
            r == spec_is_warning(
                self.warning_permille,
                metadata_creation,
                expiration,
                now,
            ),
    {
        let total: i128 = expiration as i128 - metadata_creation as i128;
        if total <= 0 {
            return true;
        }
        let tu: u128 = total as u128;
        proof {
            assert(tu <= 0x2_0000_0000_0000_0000u128);
            assert(tu * (self.warning_permille as u128) <= 0x2_0000_0000_0000_0000u128
                * 0x1_0000_0000u128) by (nonlinear_arith)
                requires
                    tu <= 0x2_0000_0000_0000_0000u128,
                    self.warning_permille as u128 <= 0x1_0000_0000u128,
            ;
        }
        let scaled: u128 = tu * (self.warning_permille as u128) / 1000;
        let w: u128 = if scaled > 1 {
            scaled
        } else {
            1
        };
        (now as i128) >= (expiration as i128) - (w as i128)
    }
}

impl Default for ExpirationPolicy {
    /// The default policy: a ten percent warning window.
    fn default() -> (r: Self)
        ensures
            r.warning_permille == 100,
    {
        ExpirationPolicy::new()
    }
}

/// Passphrase strength enforcement; stateless.
#[derive(Debug, Clone, Copy, PartialEq, Eq, Structural)]
pub struct PassphraseStrengthPolicy {
    /// Stateless; kept as a unit marker so the policy can sit in the
    /// engine's list.
    pub enabled: bool,
}

impl PassphraseStrengthPolicy {
    /// The default strength policy.
    pub fn new() -> (r: Self)
        ensures
            r.enabled,
    {
        PassphraseStrengthPolicy { enabled: true }
    }

    /// Enforce the strength rules.
    pub fn validate(&self, passphrase: &str) -> (r: IgniteResult<()>)
        ensures
            r is Ok <==> spec_passphrase_ok(passphrase@),
            r matches Err(e) ==> is_invalid_operation(e, "validate_passphrase"@),
    {
        validate_passphrase_strength(passphrase)
    }

    /// Passphrases guard only the passphrase-wrapped tiers; others pass.
    pub fn validate_passphrase(&self, key_type: KeyType, passphrase: &str) -> (r: IgniteResult<()>)
        ensures
            r is Ok <==> (key_type == KeyType::Skull || key_type == KeyType::Ignition || key_type
                == KeyType::Distro) ==> spec_passphrase_ok(passphrase@),
            r matches Err(e) ==> is_invalid_operation(e, "validate_passphrase"@),
    {
        if key_type.is_ignition_key() {
            self.validate(passphrase)
        } else {
            Ok(())
        }
    }
}

impl Default for PassphraseStrengthPolicy {
    /// The default strength policy.
    fn default() -> (r: Self)
        ensures
            r.enabled,
    {
        PassphraseStrengthPolicy::new()
    }
}

/// A registered policy.
#[derive(Debug, Clone, Copy, PartialEq, Eq, Structural)]
pub enum PolicyKind {
    Expiration(ExpirationPolicy),
    PassphraseStrength(PassphraseStrengthPolicy),
}

/// What one policy's `apply_key_defaults` does to a key.
pub open spec fn spec_policy_apply(p: PolicyKind, k: AuthorityKeyView) -> AuthorityKeyView {
    match p {
        PolicyKind::Expiration(_) => spec_apply_expiration_defaults(k),
        PolicyKind::PassphraseStrength(_) => k,
    }
}

/// What running every policy's `apply_key_defaults`, in order, does.
pub open spec fn spec_engine_apply(ps: Seq<PolicyKind>, k: AuthorityKeyView) -> AuthorityKeyView
    decreases ps.len(),
{
    if ps.len() == 0 {
        k
    } else {
        spec_engine_apply(ps.drop_first(), spec_policy_apply(ps[0], k))
    }
}

/// Whether one policy accepts a key at instant `now`.
pub open spec fn spec_policy_key_ok(p: PolicyKind, k: AuthorityKeyView, now: i64) -> bool {
    match p {
        PolicyKind::Expiration(_) => !(k.metadata.expiration matches Some(e) && now > e),
        PolicyKind::PassphraseStrength(_) => true,
    }
}

/// Whether one policy accepts a passphrase for a tier.
pub open spec fn spec_policy_passphrase_ok(p: PolicyKind, t: KeyType, pass: Seq<char>) -> bool {
    match p {
        PolicyKind::Expiration(_) => true,
        PolicyKind::PassphraseStrength(_) => (t == KeyType::Skull || t == KeyType::Ignition || t
            == KeyType::Distro) ==> spec_passphrase_ok(pass),
    }
}

/// Central policy engine: an ordered list of policies, run in
/// registration order, failing on the first violation.
#[derive(Debug)]
pub struct PolicyEngine {
    policies: Vec<PolicyKind>,
}

impl View for PolicyEngine {
    type V = Seq<PolicyKind>;

    closed spec fn view(&self) -> Seq<PolicyKind> {
        self.policies@
    }
}

impl PolicyEngine {
    /// An engine with no policies.
    pub fn new() -> (r: Self)
        ensures
            r@ == Seq::<PolicyKind>::empty(),
    {
        let r = PolicyEngine { policies: Vec::new() };
        proof {
            assert(r@ =~= Seq::<PolicyKind>::empty());
        }
        r
    }

    /// The default bundle: expiration, then passphrase strength.
    pub fn with_defaults() -> (r: Self)
        ensures
            r@ =~= seq![
                PolicyKind::Expiration(ExpirationPolicy { warning_permille: 100 }),
                PolicyKind::PassphraseStrength(PassphraseStrengthPolicy { enabled: true }),
            ],
    {
        let mut engine = PolicyEngine::new();
        engine.register_policy(PolicyKind::Expiration(ExpirationPolicy::new()));
        engine.register_policy(PolicyKind::PassphraseStrength(PassphraseStrengthPolicy::new()));
        engine
    }

    /// Append a policy; it runs after those already registered.
    pub fn register_policy(&mut self, policy: PolicyKind)
        ensures
            final(self)@ == old(self)@.push(policy),
    {
        self.policies.push(policy);
    }

    /// Run every policy's key defaults, in order.
    pub fn apply_key_defaults(&self, key: &mut AuthorityKey) -> (r: IgniteResult<()>)
        ensures
            r is Ok,
            final(key)@ == spec_engine_apply(self@, old(key)@),
    {
        let n = self.policies.len();
        let mut i: usize = 0;
        proof {
            assert(self@.skip(0) =~= self@);
        }
        while i < n
            invariant
                n == self@.len(),
                n == self.policies@.len(),
                i <= n,
                spec_engine_apply(self@.skip(i as int), key@) == spec_engine_apply(
                    self@,
                    old(key)@,
                ),
            decreases n - i,
        {
            let ghost pre = key@;
            match self.policies[i] {
                PolicyKind::Expiration(p) => {
                    match p.apply_key_defaults(key) {
                        Ok(()) => {},
                        Err(_) => {},
                    }
                },
                PolicyKind::PassphraseStrength(_) => {},
            }
            proof {
                assert(key@ == spec_policy_apply(self@[i as int], pre));
                assert(self@.skip(i as int).drop_first() =~= self@.skip(i + 1));
                assert(self@.skip(i as int)[0] == self@[i as int]);
            }
            i = i + 1;
        }
        proof {
            assert(self@.skip(n as int) =~= Seq::<PolicyKind>::empty());
        }
        Ok(())
    }

    /// Check a key against every policy at instant `now`.
    pub fn validate_key_at(&self, key: &AuthorityKey, now: i64) -> (r: IgniteResult<()>)
        ensures
            r is Ok <==> forall|i: int|
                0 <= i < self@.len() ==> spec_policy_key_ok(#[trigger] self@[i], key@, now),
    {
        let n = self.policies.len();
        let mut i: usize = 0;
        while i < n
            invariant
                n == self@.len(),
                n == self.policies@.len(),
                i <= n,
                forall|j: int| 0 <= j < i ==> spec_policy_key_ok(#[trigger] self@[j], key@, now),
            decreases n - i,
        {
            match self.policies[i] {
                PolicyKind::Expiration(p) => {
                    match p.validate_key_at(key, now) {
                        Ok(()) => {},
                        Err(e) => {
                            return Err(e);
                        },
                    }
                },
                PolicyKind::PassphraseStrength(_) => {},
            }
            i = i + 1;
        }
        Ok(())
    }

    /// Check a key against every policy, against the wall clock. A key
    /// without an expiration always passes.
    pub fn validate_key(&self, key: &AuthorityKey) -> (r: IgniteResult<()>)
        ensures
            key@.metadata.expiration is None ==> r is Ok,
    {
        let now = now_micros();
        self.validate_key_at(key, now)
    }

    /// Check a passphrase for a tier against every policy.
    pub fn validate_passphrase(&self, key_type: KeyType, passphrase: &str) -> (r: IgniteResult<()>)
        ensures
            r is Ok <==> forall|i: int|
                0 <= i < self@.len() ==> spec_policy_passphrase_ok(
                    #[trigger] self@[i],
                    key_type,
                    passphrase@,
                ),
    {
        let n = self.policies.len();
        let mut i: usize = 0;
        while i < n
            invariant
                n == self@.len(),
                n == self.policies@.len(),
                i <= n,
                forall|j: int|
                    0 <= j < i ==> spec_policy_passphrase_ok(
                        #[trigger] self@[j],
                        key_type,
                        passphrase@,
                    ),
            decreases n - i,
        {
            match self.policies[i] {
                PolicyKind::Expiration(_) => {},
                PolicyKind::PassphraseStrength(p) => {
                    match p.validate_passphrase(key_type, passphrase) {
                        Ok(()) => {},
                        Err(e) => {
                            return Err(e);
                        },
                    }
                },
            }
            i = i + 1;
        }
        Ok(())
    }
}

impl Default for PolicyEngine {
    /// The default engine carries no policies.
    fn default() -> (r: Self)
        ensures
            r@ == Seq::<PolicyKind>::empty(),
    {
        PolicyEngine::new()
    }
}

/// One policy's defaults pass changes nothing on a key whose expiration
/// is already set, and never changes tier or creation time.
proof fn lemma_policy_apply_frame(p: PolicyKind, k: AuthorityKeyView)
    ensures
        spec_policy_apply(p, k).key_type == k.key_type,
        spec_policy_apply(p, k).metadata.creation_time == k.metadata.creation_time,
        k.metadata.expiration is Some ==> spec_policy_apply(p, k) == k,
        spec_policy_apply(p, k).metadata.expiration is None ==> spec_policy_apply(p, k) == k,
{
}

/// A full defaults pass never changes tier or creation time, and leaves
/// an already-set expiration alone.
proof fn lemma_engine_apply_frame(ps: Seq<PolicyKind>, k: AuthorityKeyView)
    ensures
        spec_engine_apply(ps, k).key_type == k.key_type,
        spec_engine_apply(ps, k).metadata.creation_time == k.metadata.creation_time,
        k.metadata.expiration is Some ==> spec_engine_apply(ps, k) == k,
    decreases ps.len(),
{
    if ps.len() > 0 {
        lemma_policy_apply_frame(ps[0], k);
        lemma_engine_apply_frame(ps.drop_first(), spec_policy_apply(ps[0], k));
    }
}

/// Policy idempotence: running the defaults pass twice yields the same
/// key as running it once, whatever policies are registered.
pub proof fn lemma_apply_defaults_idempotent(ps: Seq<PolicyKind>, k: AuthorityKeyView)
    ensures
        spec_engine_apply(ps, spec_engine_apply(ps, k)) == spec_engine_apply(ps, k),
    decreases ps.len(),
{
    if ps.len() == 0 {
    } else {
        let p = ps[0];
        let k1 = spec_policy_apply(p, k);
        let y = spec_engine_apply(ps.drop_first(), k1);
        lemma_policy_apply_frame(p, k);
        lemma_engine_apply_frame(ps.drop_first(), k1);
        // First, the head policy does nothing to the finished key.
        assert(spec_policy_apply(p, y) == y) by {
            if y.metadata.expiration is Some {
            } else {
                lemma_policy_apply_frame(p, y);
                if k1.metadata.expiration is Some {
                    assert(y == k1);
                }
            }
        }
        lemma_apply_defaults_idempotent(ps.drop_first(), k1);
    }
}

} // verus!
