//! The authority chain: a registry of keys and their parent/child control
//! relationships, enforcing the five-tier hierarchy.
//!
//! The chain maintains, as invariants of every value built through its
//! methods: fingerprints are unique; every edge joins resident keys whose
//! tiers satisfy `can_control`; a child has at most one parent, and the
//! reverse map is exactly the inverse of the forward map. Because tiers
//! strictly descend along permitted edges, these invariants make cycles
//! impossible, which is proved here as a lemma.

use vstd::prelude::*;

use crate::errors::IgniteError;
use crate::errors::IgniteResult;
use crate::errors::is_invalid_operation;
use crate::errors::is_invalid_operation_msg;
use crate::hierarchy::spec_key_type_description;
use crate::material::spec_fp_text;
use crate::material::spec_short_hex;
use crate::hierarchy::KeyType;
use crate::hierarchy::spec_can_control;
use crate::keys::AuthorityKey;
use crate::keys::AuthorityKeyView;
use crate::material::FingerprintView;
use crate::material::KeyFingerprint;

verus! {

/// Mathematical view of an authority chain: the key registry, the
/// parent-to-children lists, and the child-to-parent map, all keyed by
/// fingerprint and kept in insertion order.
pub struct ChainView {
    pub keys: Seq<AuthorityKeyView>,
    pub relationships: Seq<(FingerprintView, Seq<FingerprintView>)>,
    pub reverse: Seq<(FingerprintView, FingerprintView)>,
}

/// No fingerprint appears twice in the sequence.
pub open spec fn distinct_fps(s: Seq<FingerprintView>) -> bool {
    forall|a: int, b: int| 0 <= a < b < s.len() ==> s[a] != s[b]
}

/// First key with the given fingerprint, if any.
pub open spec fn lookup_key(keys: Seq<AuthorityKeyView>, fp: FingerprintView) -> Option<
    AuthorityKeyView,
>
    decreases keys.len(),
{
    if keys.len() == 0 {
        None
    } else if keys[0].fingerprint == fp {
        Some(keys[0])
    } else {
        lookup_key(keys.drop_first(), fp)
    }
}

/// First children list recorded for the given parent, if any.
pub open spec fn lookup_children(
    rels: Seq<(FingerprintView, Seq<FingerprintView>)>,
    fp: FingerprintView,
) -> Option<Seq<FingerprintView>>
    decreases rels.len(),
{
    if rels.len() == 0 {
        None
    } else if rels[0].0 == fp {
        Some(rels[0].1)
    } else {
        lookup_children(rels.drop_first(), fp)
    }
}

/// First parent recorded for the given child, if any.
pub open spec fn lookup_parent(
    rev: Seq<(FingerprintView, FingerprintView)>,
    fp: FingerprintView,
) -> Option<FingerprintView>
    decreases rev.len(),
{
    if rev.len() == 0 {
        None
    } else if rev[0].0 == fp {
        Some(rev[0].1)
    } else {
        lookup_parent(rev.drop_first(), fp)
    }
}

/// A found key carries the fingerprint it was looked up by.
pub proof fn lemma_lookup_key_fp(keys: Seq<AuthorityKeyView>, fp: FingerprintView)
    ensures
        lookup_key(keys, fp) matches Some(k) ==> k.fingerprint == fp,
    decreases keys.len(),
{
    if keys.len() > 0 {
        lemma_lookup_key_fp(keys.drop_first(), fp);
    }
}

/// Skipping a prefix without a match leaves a first-match lookup unchanged.
pub proof fn lemma_lookup_key_skip(keys: Seq<AuthorityKeyView>, fp: FingerprintView, i: int)
    requires
        0 <= i <= keys.len(),
        forall|j: int| 0 <= j < i ==> keys[j].fingerprint != fp,
    ensures
        lookup_key(keys, fp) == lookup_key(keys.skip(i), fp),
    decreases i,
{
    if i > 0 {
        lemma_lookup_key_skip(keys.drop_first(), fp, i - 1);
        assert(keys.drop_first().skip(i - 1) =~= keys.skip(i));
    } else {
        assert(keys.skip(0) =~= keys);
    }
}

/// Appending a key leaves lookups of other fingerprints unchanged, and a
/// fresh fingerprint finds the appended key.
pub proof fn lemma_lookup_key_push(keys: Seq<AuthorityKeyView>, k: AuthorityKeyView, fp: FingerprintView)
    ensures
        lookup_key(keys, fp) is Some ==> lookup_key(keys.push(k), fp) == lookup_key(keys, fp),
        lookup_key(keys, fp) is None && k.fingerprint == fp ==> lookup_key(keys.push(k), fp)
            == Some(k),
        lookup_key(keys, fp) is None && k.fingerprint != fp ==> lookup_key(keys.push(k), fp)
            is None,
    decreases keys.len(),
{
    if keys.len() == 0 {
        assert(keys.push(k).drop_first() =~= Seq::<AuthorityKeyView>::empty());
        assert(lookup_key(Seq::<AuthorityKeyView>::empty(), fp) is None);
    } else {
        lemma_lookup_key_push(keys.drop_first(), k, fp);
        assert(keys.push(k).drop_first() =~= keys.drop_first().push(k));
    }
}

/// As `lemma_lookup_key_skip`, for children lists.
pub proof fn lemma_lookup_children_skip(
    rels: Seq<(FingerprintView, Seq<FingerprintView>)>,
    fp: FingerprintView,
    i: int,
)
    requires
        0 <= i <= rels.len(),
        forall|j: int| 0 <= j < i ==> rels[j].0 != fp,
    ensures
        lookup_children(rels, fp) == lookup_children(rels.skip(i), fp),
    decreases i,
{
    if i > 0 {
        lemma_lookup_children_skip(rels.drop_first(), fp, i - 1);
        assert(rels.drop_first().skip(i - 1) =~= rels.skip(i));
    } else {
        assert(rels.skip(0) =~= rels);
    }
}

/// As `lemma_lookup_key_push`, for children lists.
pub proof fn lemma_lookup_children_push(
    rels: Seq<(FingerprintView, Seq<FingerprintView>)>,
    entry: (FingerprintView, Seq<FingerprintView>),
    fp: FingerprintView,
)
    ensures
        lookup_children(rels, fp) is Some ==> lookup_children(rels.push(entry), fp)
            == lookup_children(rels, fp),
        lookup_children(rels, fp) is None && entry.0 == fp ==> lookup_children(
            rels.push(entry),
            fp,
        ) == Some(entry.1),
        lookup_children(rels, fp) is None && entry.0 != fp ==> lookup_children(
            rels.push(entry),
            fp,
        ) is None,
    decreases rels.len(),
{
    if rels.len() == 0 {
        assert(rels.push(entry).drop_first() =~= Seq::<(FingerprintView, Seq<FingerprintView>)>::empty());
        assert(lookup_children(Seq::<(FingerprintView, Seq<FingerprintView>)>::empty(), fp) is None);
    } else {
        lemma_lookup_children_push(rels.drop_first(), entry, fp);
        assert(rels.push(entry).drop_first() =~= rels.drop_first().push(entry));
    }
}

/// A pointwise update at the first matching position updates the lookup.
pub proof fn lemma_lookup_children_update(
    rels: Seq<(FingerprintView, Seq<FingerprintView>)>,
    i: int,
    entry: (FingerprintView, Seq<FingerprintView>),
    fp: FingerprintView,
)
    requires
        0 <= i < rels.len(),
        rels[i].0 == entry.0,
        forall|j: int| 0 <= j < i ==> rels[j].0 != rels[i].0,
    ensures
        entry.0 == fp ==> lookup_children(rels.update(i, entry), fp) == Some(entry.1),
        entry.0 != fp ==> lookup_children(rels.update(i, entry), fp) == lookup_children(rels, fp),
    decreases i,
{
    if i == 0 {
        if entry.0 != fp {
            assert(rels.update(0, entry).drop_first() =~= rels.drop_first());
        }
    } else {
        lemma_lookup_children_update(rels.drop_first(), i - 1, entry, fp);
        assert(rels.update(i, entry).drop_first() =~= rels.drop_first().update(i - 1, entry));
        assert(rels.update(i, entry)[0] == rels[0]);
    }
}

/// As `lemma_lookup_key_skip`, for the reverse map.
pub proof fn lemma_lookup_parent_skip(
    rev: Seq<(FingerprintView, FingerprintView)>,
    fp: FingerprintView,
    i: int,
)
    requires
        0 <= i <= rev.len(),
        forall|j: int| 0 <= j < i ==> rev[j].0 != fp,
    ensures
        lookup_parent(rev, fp) == lookup_parent(rev.skip(i), fp),
    decreases i,
{
    if i > 0 {
        lemma_lookup_parent_skip(rev.drop_first(), fp, i - 1);
        assert(rev.drop_first().skip(i - 1) =~= rev.skip(i));
    } else {
        assert(rev.skip(0) =~= rev);
    }
}

/// As `lemma_lookup_key_push`, for the reverse map.
pub proof fn lemma_lookup_parent_push(
    rev: Seq<(FingerprintView, FingerprintView)>,
    entry: (FingerprintView, FingerprintView),
    fp: FingerprintView,
)
    ensures
        lookup_parent(rev, fp) is Some ==> lookup_parent(rev.push(entry), fp) == lookup_parent(
            rev,
            fp,
        ),
        lookup_parent(rev, fp) is None && entry.0 == fp ==> lookup_parent(rev.push(entry), fp)
            == Some(entry.1),
        lookup_parent(rev, fp) is None && entry.0 != fp ==> lookup_parent(rev.push(entry), fp)
            is None,
    decreases rev.len(),
{
    if rev.len() == 0 {
        assert(rev.push(entry).drop_first() =~= Seq::<(FingerprintView, FingerprintView)>::empty());
        assert(lookup_parent(Seq::<(FingerprintView, FingerprintView)>::empty(), fp) is None);
    } else {
        lemma_lookup_parent_push(rev.drop_first(), entry, fp);
        assert(rev.push(entry).drop_first() =~= rev.drop_first().push(entry));
    }
}

impl ChainView {
    /// A key with this fingerprint is registered.
    pub open spec fn has_key(self, fp: FingerprintView) -> bool {
        lookup_key(self.keys, fp) is Some
    }

    /// The registered key with this fingerprint.
    pub open spec fn key_of(self, fp: FingerprintView) -> AuthorityKeyView {
        lookup_key(self.keys, fp)->Some_0
    }

    /// The tier of the registered key with this fingerprint.
    pub open spec fn type_of(self, fp: FingerprintView) -> KeyType {
        self.key_of(fp).key_type
    }

    /// The recorded children of a parent (empty when none are recorded).
    pub open spec fn children_of(self, p: FingerprintView) -> Seq<FingerprintView> {
        match lookup_children(self.relationships, p) {
            Some(l) => l,
            None => Seq::empty(),
        }
    }

    /// A direct control edge from `p` to `c` is recorded.
    pub open spec fn has_edge(self, p: FingerprintView, c: FingerprintView) -> bool {
        self.children_of(p).contains(c)
    }

    /// The recorded parent of a child, if any.
    pub open spec fn parent_of(self, c: FingerprintView) -> Option<FingerprintView> {
        lookup_parent(self.reverse, c)
    }

    /// Representation invariant: registered fingerprints, forward entries
    /// and reverse entries are each unique; children lists hold no
    /// duplicates; every registered key is well formed.
    pub open spec fn rep_ok(self) -> bool {
        &&& forall|i: int, j: int|
            0 <= i < j < self.keys.len() ==> self.keys[i].fingerprint != self.keys[j].fingerprint
        &&& forall|i: int, j: int|
            0 <= i < j < self.relationships.len() ==> self.relationships[i].0
                != self.relationships[j].0
        &&& forall|i: int, j: int|
            0 <= i < j < self.reverse.len() ==> self.reverse[i].0 != self.reverse[j].0
        &&& forall|i: int|
            0 <= i < self.relationships.len() ==> distinct_fps(
                (#[trigger] self.relationships[i]).1,
            ) && self.relationships[i].1.len() > 0
        &&& forall|i: int| 0 <= i < self.keys.len() ==> (#[trigger] self.keys[i]).wf()
    }

    /// Every recorded edge joins registered keys (G1).
    pub open spec fn edges_resident(self) -> bool {
        forall|p: FingerprintView, c: FingerprintView|
            #[trigger] self.has_edge(p, c) ==> self.has_key(p) && self.has_key(c)
    }

    /// Every recorded edge satisfies the tier rules (G2).
    pub open spec fn edges_controlled(self) -> bool {
        forall|p: FingerprintView, c: FingerprintView|
            #[trigger] self.has_edge(p, c) ==> spec_can_control(self.type_of(p), self.type_of(c))
    }

    /// The reverse map is exactly the inverse of the forward map (G4).
    pub open spec fn reverse_is_inverse(self) -> bool {
        forall|p: FingerprintView, c: FingerprintView|
            #[trigger] self.has_edge(p, c) <==> self.parent_of(c) == Some(p)
    }

    /// `b` is reachable from `a` along recorded edges in fewer than `n`
    /// steps (`a` itself counts as reachable).
    pub open spec fn reaches(self, a: FingerprintView, b: FingerprintView, n: nat) -> bool
        decreases n,
    {
        a == b || (n > 0 && exists|c: FingerprintView|
            #[trigger] self.has_edge(a, c) && self.reaches(c, b, (n - 1) as nat))
    }

    /// No recorded edge can be re-entered from its child (G3: no cycles).
    pub open spec fn acyclic(self) -> bool {
        forall|p: FingerprintView, c: FingerprintView|
            #[trigger] self.has_edge(p, c) ==> !(exists|n: nat| self.reaches(c, p, n))
    }

    /// The chain invariant: representation plus G1, G2 and G4.
    pub open spec fn wf(self) -> bool {
        &&& self.rep_ok()
        &&& self.edges_resident()
        &&& self.edges_controlled()
        &&& self.reverse_is_inverse()
    }
}

/// The rank of a tier, descending strictly along every permitted edge.
pub open spec fn tier_rank(t: KeyType) -> int {
    match t {
        KeyType::Skull => 5,
        KeyType::Master => 4,
        KeyType::Repo => 3,
        KeyType::Ignition => 2,
        KeyType::Distro => 1,
    }
}

/// Along any reachability path, tier rank never increases.
proof fn lemma_reaches_rank(c: ChainView, a: FingerprintView, b: FingerprintView, n: nat)
    requires
        c.edges_resident(),
        c.edges_controlled(),
        c.reaches(a, b, n),
        a != b,
    ensures
        c.has_key(a) && c.has_key(b) && tier_rank(c.type_of(a)) > tier_rank(c.type_of(b)),
    decreases n,
{
    assert(n > 0 && exists|m: FingerprintView|
        #[trigger] c.has_edge(a, m) && c.reaches(m, b, (n - 1) as nat));
    let mid = choose|m: FingerprintView|
        #[trigger] c.has_edge(a, m) && c.reaches(m, b, (n - 1) as nat);
    assert(c.has_edge(a, mid));
    assert(spec_can_control(c.type_of(a), c.type_of(mid)));
    assert(c.reaches(mid, b, (n - 1) as nat));
    if mid == b {
        assert(tier_rank(c.type_of(a)) > tier_rank(c.type_of(b)));
    } else {
        lemma_reaches_rank(c, mid, b, (n - 1) as nat);
    }
}

/// Under the chain invariant the authority graph has no cycles: the tier
/// rank strictly descends along every edge, so no path returns. This is
/// the heart of integrity condition G3.
pub proof fn lemma_wf_implies_acyclic(c: ChainView)
    requires
        c.edges_resident(),
        c.edges_controlled(),
    ensures
        c.acyclic(),
{
    assert forall|p: FingerprintView, ch: FingerprintView| #[trigger]
        c.has_edge(p, ch) implies !(exists|n: nat| c.reaches(ch, p, n)) by {
        if exists|n: nat| c.reaches(ch, p, n) {
            let n = choose|n: nat| c.reaches(ch, p, n);
            assert(spec_can_control(c.type_of(p), c.type_of(ch)));
            if ch == p {
                assert(false);
            } else {
                lemma_reaches_rank(c, ch, p, n);
                assert(false);
            }
        }
    }
}

/// A pointwise update at the first matching position updates the key
/// lookup.
pub proof fn lemma_lookup_key_update(
    keys: Seq<AuthorityKeyView>,
    i: int,
    k: AuthorityKeyView,
    fp: FingerprintView,
)
    requires
        0 <= i < keys.len(),
        keys[i].fingerprint == k.fingerprint,
        forall|j: int| 0 <= j < i ==> keys[j].fingerprint != keys[i].fingerprint,
    ensures
        k.fingerprint == fp ==> lookup_key(keys.update(i, k), fp) == Some(k),
        k.fingerprint != fp ==> lookup_key(keys.update(i, k), fp) == lookup_key(keys, fp),
    decreases i,
{
    if i == 0 {
        if k.fingerprint != fp {
            assert(keys.update(0, k).drop_first() =~= keys.drop_first());
        }
    } else {
        lemma_lookup_key_update(keys.drop_first(), i - 1, k, fp);
        assert(keys.update(i, k).drop_first() =~= keys.drop_first().update(i - 1, k));
        assert(keys.update(i, k)[0] == keys[0]);
    }
}

/// A successful children lookup names some entry of the sequence.
pub proof fn lemma_lookup_children_index(
    rels: Seq<(FingerprintView, Seq<FingerprintView>)>,
    fp: FingerprintView,
)
    requires
        lookup_children(rels, fp) is Some,
    ensures
        exists|i: int|
            0 <= i < rels.len() && (#[trigger] rels[i]).0 == fp && rels[i].1 == lookup_children(
                rels,
                fp,
            )->Some_0,
    decreases rels.len(),
{
    if rels.len() > 0 && rels[0].0 != fp {
        lemma_lookup_children_index(rels.drop_first(), fp);
        let i = choose|i: int|
            0 <= i < rels.drop_first().len() && (#[trigger] rels.drop_first()[i]).0 == fp
                && rels.drop_first()[i].1 == lookup_children(rels.drop_first(), fp)->Some_0;
        assert(rels[i + 1] == rels.drop_first()[i]);
    }
}

/// The in-memory authority chain.
#[derive(Debug)]
pub struct AuthorityChain {
    keys: Vec<AuthorityKey>,
    relationships: Vec<(KeyFingerprint, Vec<KeyFingerprint>)>,
    reverse_relationships: Vec<(KeyFingerprint, KeyFingerprint)>,
}

impl View for AuthorityChain {
    type V = ChainView;

    closed spec fn view(&self) -> ChainView {
        ChainView {
            keys: self.keys@.map_values(|k: AuthorityKey| k@),
            relationships: self.relationships@.map_values(
                |e: (KeyFingerprint, Vec<KeyFingerprint>)|
                    (e.0@, e.1@.map_values(|c: KeyFingerprint| c@)),
            ),
            reverse: self.reverse_relationships@.map_values(
                |e: (KeyFingerprint, KeyFingerprint)| (e.0@, e.1@),
            ),
        }
    }
}

impl AuthorityChain {
    /// An empty chain.
    pub fn new() -> (r: Self)
        ensures
            r@.wf(),
            r@.keys == Seq::<AuthorityKeyView>::empty(),
            r@.relationships == Seq::<(FingerprintView, Seq<FingerprintView>)>::empty(),
            r@.reverse == Seq::<(FingerprintView, FingerprintView)>::empty(),
    {
        let r = AuthorityChain {
            keys: Vec::new(),
            relationships: Vec::new(),
            reverse_relationships: Vec::new(),
        };
        proof {
            assert(r@.keys =~= Seq::<AuthorityKeyView>::empty());
            assert(r@.relationships =~= Seq::<(FingerprintView, Seq<FingerprintView>)>::empty());
            assert(r@.reverse =~= Seq::<(FingerprintView, FingerprintView)>::empty());
            assert forall|p: FingerprintView, c: FingerprintView| !(#[trigger] r@.has_edge(
                p,
                c,
            )) by {
                assert(lookup_children(r@.relationships, p) is None);
            }
            assert forall|c: FingerprintView| #[trigger] r@.parent_of(c) is None by {
                assert(lookup_parent(r@.reverse, c) is None);
            }
        }
        r
    }

    /// The number of registered keys.
    pub fn len(&self) -> (r: usize)
        ensures
            r == self@.keys.len(),
    {
        self.keys.len()
    }

    /// Whether no key is registered.
    pub fn is_empty(&self) -> (r: bool)
        ensures
            r == (self@.keys.len() == 0),
    {
        self.keys.is_empty()
    }

    /// Index of the registered key with this fingerprint, if any.
    fn find_key_index(&self, fp: &KeyFingerprint) -> (r: Option<usize>)
        ensures
            match r {
                Some(i) => {
                    &&& i < self@.keys.len()
                    &&& self@.keys[i as int].fingerprint == fp@
                    &&& lookup_key(self@.keys, fp@) == Some(self@.keys[i as int])
                },
                None => {
                    &&& lookup_key(self@.keys, fp@) is None
                    &&& forall|j: int| 0 <= j < self@.keys.len() ==> self@.keys[j].fingerprint != fp@
                },
            },
    {
        let n = self.keys.len();
        let mut i: usize = 0;
        while i < n
            invariant
                n == self@.keys.len(),
                n == self.keys@.len(),
                i <= n,
                forall|j: int| 0 <= j < i ==> self@.keys[j].fingerprint != fp@,
            decreases n - i,
        {
            if self.keys[i].fingerprint().eq_fp(fp) {
                proof {
                    lemma_lookup_key_skip(self@.keys, fp@, i as int);
                    assert(self@.keys.skip(i as int)[0] == self@.keys[i as int]);
                }
                return Some(i);
            }
            i = i + 1;
        }
        proof {
            lemma_lookup_key_skip(self@.keys, fp@, n as int);
            assert(self@.keys.skip(n as int) =~= Seq::<AuthorityKeyView>::empty());
        }
        None
    }

    /// Index of the forward-relationship entry for this parent, if any.
    fn find_rel_index(&self, fp: &KeyFingerprint) -> (r: Option<usize>)
        ensures
            match r {
                Some(i) => {
                    &&& i < self@.relationships.len()
                    &&& self@.relationships[i as int].0 == fp@
                    &&& forall|j: int| 0 <= j < i ==> self@.relationships[j].0 != fp@
                    &&& lookup_children(self@.relationships, fp@) == Some(
                        self@.relationships[i as int].1,
                    )
                },
                None => {
                    &&& lookup_children(self@.relationships, fp@) is None
                    &&& forall|j: int|
                        0 <= j < self@.relationships.len() ==> self@.relationships[j].0 != fp@
                },
            },
    {
        let n = self.relationships.len();
        let mut i: usize = 0;
        while i < n
            invariant
                n == self@.relationships.len(),
                n == self.relationships@.len(),
                i <= n,
                forall|j: int| 0 <= j < i ==> self@.relationships[j].0 != fp@,
            decreases n - i,
        {
            if self.relationships[i].0.eq_fp(fp) {
                proof {
                    lemma_lookup_children_skip(self@.relationships, fp@, i as int);
                    assert(self@.relationships.skip(i as int)[0] == self@.relationships[i as int]);
                }
                return Some(i);
            }
            i = i + 1;
        }
        proof {
            lemma_lookup_children_skip(self@.relationships, fp@, n as int);
            assert(self@.relationships.skip(n as int) =~= Seq::<(
                FingerprintView,
                Seq<FingerprintView>,
            )>::empty());
        }
        None
    }

    /// Index of the reverse-relationship entry for this child, if any.
    fn find_rev_index(&self, fp: &KeyFingerprint) -> (r: Option<usize>)
        ensures
            match r {
                Some(i) => {
                    &&& i < self@.reverse.len()
                    &&& self@.reverse[i as int].0 == fp@
                    &&& lookup_parent(self@.reverse, fp@) == Some(self@.reverse[i as int].1)
                },
                None => {
                    &&& lookup_parent(self@.reverse, fp@) is None
                    &&& forall|j: int| 0 <= j < self@.reverse.len() ==> self@.reverse[j].0 != fp@
                },
            },
    {
        let n = self.reverse_relationships.len();
        let mut i: usize = 0;
        while i < n
            invariant
                n == self@.reverse.len(),
                n == self.reverse_relationships@.len(),
                i <= n,
                forall|j: int| 0 <= j < i ==> self@.reverse[j].0 != fp@,
            decreases n - i,
        {
            if self.reverse_relationships[i].0.eq_fp(fp) {
                proof {
                    lemma_lookup_parent_skip(self@.reverse, fp@, i as int);
                    assert(self@.reverse.skip(i as int)[0] == self@.reverse[i as int]);
                }
                return Some(i);
            }
            i = i + 1;
        }
        proof {
            lemma_lookup_parent_skip(self@.reverse, fp@, n as int);
            assert(self@.reverse.skip(n as int) =~= Seq::<(
                FingerprintView,
                FingerprintView,
            )>::empty());
        }
        None
    }

    /// Look up a key by fingerprint.
    pub fn get_key(&self, fingerprint: &KeyFingerprint) -> (r: Option<&AuthorityKey>)
        ensures
            match r {
                Some(k) => lookup_key(self@.keys, fingerprint@) == Some(k@),
                None => lookup_key(self@.keys, fingerprint@) is None,
            },
    {
        match self.find_key_index(fingerprint) {
            Some(i) => Some(&self.keys[i]),
            None => None,
        }
    }

    /// Register a key; an already-registered fingerprint is rejected and
    /// nothing changes.
    pub fn add_key(&mut self, key: AuthorityKey) -> (r: IgniteResult<()>)
        requires
            old(self)@.wf(),
            key@.wf(),
        ensures
            final(self)@.wf(),
            match r {
                Ok(()) => {
                    &&& !old(self)@.has_key(key@.fingerprint)
                    &&& final(self)@.keys == old(self)@.keys.push(key@)
                    &&& final(self)@.relationships == old(self)@.relationships
                    &&& final(self)@.reverse == old(self)@.reverse
                },
                Err(e) => {
                    &&& old(self)@.has_key(key@.fingerprint)
                    &&& final(self)@ == old(self)@
                    &&& is_invalid_operation(e, "add_key"@)
                },
            },
    {
        if self.find_key_index(key.fingerprint()).is_some() {
            let mut reason = String::new();
            reason.append("Key already exists: ");
            let shown = key.fingerprint().display_string();
            reason.append(shown.as_str());
            return Err(IgniteError::InvalidOperation {
                operation: String::from_str("add_key"),
                reason,
            });
        }
        let ghost pre = self@;
        let ghost kv = key@;
        proof {
            assert(forall|j: int|
                0 <= j < pre.keys.len() ==> pre.keys[j].fingerprint != kv.fingerprint);
        }
        self.keys.push(key);
        proof {
            assert(self@.keys =~= pre.keys.push(kv));
            assert(self@.relationships =~= pre.relationships);
            assert(self@.reverse =~= pre.reverse);
            assert forall|fp: FingerprintView| pre.has_key(fp) implies #[trigger] lookup_key(
                self@.keys,
                fp,
            ) == lookup_key(pre.keys, fp) by {
                lemma_lookup_key_push(pre.keys, kv, fp);
            }
            assert(self@.rep_ok()) by {
                assert forall|i: int, j: int| 0 <= i < j < self@.keys.len() implies self@.keys[i].fingerprint
                    != self@.keys[j].fingerprint by {
                    if j == pre.keys.len() {
                        assert(self@.keys[i] == pre.keys[i]);
                        assert(self@.keys[j] == kv);
                    }
                }
                assert forall|i: int| 0 <= i < self@.keys.len() implies (#[trigger] self@.keys[i]).wf() by {
                    if i == pre.keys.len() {
                        assert(self@.keys[i] == kv);
                    } else {
                        assert(self@.keys[i] == pre.keys[i]);
                    }
                }
            }
            assert forall|p: FingerprintView, c: FingerprintView| #[trigger] self@.has_edge(
                p,
                c,
            ) implies self@.has_key(p) && self@.has_key(c) && spec_can_control(
                self@.type_of(p),
                self@.type_of(c),
            ) by {
                assert(pre.has_edge(p, c));
                lemma_lookup_key_push(pre.keys, kv, p);
                lemma_lookup_key_push(pre.keys, kv, c);
            }
            assert forall|p: FingerprintView, c: FingerprintView| #[trigger] self@.has_edge(p, c)
                <==> self@.parent_of(c) == Some(p) by {
                assert(self@.has_edge(p, c) == pre.has_edge(p, c));
                assert(self@.parent_of(c) == pre.parent_of(c));
                assert(pre.has_edge(p, c) <==> pre.parent_of(c) == Some(p));
            }
            assert(self@.wf());
        }
        Ok(())
    }

    /// Whether a direct authority edge from `parent` to `child` is
    /// recorded.
    pub fn has_authority(&self, parent: &KeyFingerprint, child: &KeyFingerprint) -> (r: bool)
        ensures
            r == self@.has_edge(parent@, child@),
    {
        match self.find_rel_index(parent) {
            Some(i) => {
                let list = &self.relationships[i].1;
                let n = list.len();
                let mut k: usize = 0;
                while k < n
                    invariant
                        n == list@.len(),
                        k <= n,
                        self@.children_of(parent@) == list@.map_values(
                            |c: KeyFingerprint| c@,
                        ),
                        forall|j: int| 0 <= j < k ==> list@[j]@ != child@,
                    decreases n - k,
                {
                    if list[k].eq_fp(child) {
                        proof {
                            assert(self@.children_of(parent@)[k as int] == child@);
                        }
                        return true;
                    }
                    k = k + 1;
                }
                proof {
                    assert forall|j: int|
                        0 <= j < self@.children_of(parent@).len() implies #[trigger] self@.children_of(
                        parent@,
                    )[j] != child@ by {}
                }
                false
            },
            None => false,
        }
    }

    /// Whether `child` is recorded as subject to `parent`.
    pub fn is_subject_to(&self, child: &KeyFingerprint, parent: &KeyFingerprint) -> (r: bool)
        ensures
            r == (self@.parent_of(child@) == Some(parent@)),
    {
        match self.find_rev_index(child) {
            Some(i) => self.reverse_relationships[i].1.eq_fp(parent),
            None => false,
        }
    }

    /// The registered parent key of a child, if an edge is recorded.
    pub fn get_parent(&self, child: &KeyFingerprint) -> (r: Option<&AuthorityKey>)
        requires
            self@.wf(),
        ensures
            match r {
                Some(k) => self@.parent_of(child@) == Some(k@.fingerprint) && lookup_key(
                    self@.keys,
                    k@.fingerprint,
                ) == Some(k@),
                None => self@.parent_of(child@) is None,
            },
    {
        match self.find_rev_index(child) {
            Some(i) => {
                let parent_fp = self.reverse_relationships[i].1.clone();
                proof {
                    assert(self@.has_edge(parent_fp@, child@));
                    lemma_lookup_key_fp(self@.keys, parent_fp@);
                }
                match self.get_key(&parent_fp) {
                    Some(k) => Some(k),
                    None => {
                        proof {
                            assert(self@.has_key(parent_fp@));
                            assert(false);
                        }
                        None
                    },
                }
            },
            None => None,
        }
    }

    /// Record an authority edge from `parent` to `child`. The operation is
    /// atomic: both keys must be registered, the parent's tier must be
    /// entitled to control the child's, and the child must not already
    /// have a parent; on any failure nothing changes.
    pub fn add_authority_relationship(
        &mut self,
        parent: &KeyFingerprint,
        child: &KeyFingerprint,
    ) -> (r: IgniteResult<()>)
        requires
            old(self)@.wf(),
        ensures
            final(self)@.wf(),
            match r {
                Ok(()) => {
                    &&& old(self)@.has_key(parent@)
                    &&& old(self)@.has_key(child@)
                    &&& spec_can_control(old(self)@.type_of(parent@), old(self)@.type_of(child@))
                    &&& old(self)@.parent_of(child@) is None
                    &&& !old(self)@.key_of(parent@).children.contains(child@)
                    &&& final(self)@.has_edge(parent@, child@)
                    &&& final(self)@.parent_of(child@) == Some(parent@)
                    &&& final(self)@.children_of(parent@) == old(self)@.children_of(parent@).push(
                        child@,
                    )
                    &&& forall|x: FingerprintView|
                        x != parent@ ==> #[trigger] final(self)@.children_of(x) == old(
                            self,
                        )@.children_of(x)
                    &&& forall|y: FingerprintView|
                        y != child@ ==> #[trigger] final(self)@.parent_of(y) == old(
                            self,
                        )@.parent_of(y)
                    &&& forall|fp: FingerprintView|
                        fp != parent@ ==> #[trigger] lookup_key(final(self)@.keys, fp) == lookup_key(
                            old(self)@.keys,
                            fp,
                        )
                    &&& final(self)@.key_of(parent@) == (AuthorityKeyView {
                        children: old(self)@.key_of(parent@).children.push(child@),
                        ..old(self)@.key_of(parent@)
                    })
                    &&& final(self)@.has_key(parent@)
                },
                Err(e) => {
                    &&& final(self)@ == old(self)@
                    &&& ({
                        let c = old(self)@;
                        if !c.has_key(parent@) {
                            is_invalid_operation_msg(
                                e,
                                "add_authority"@,
                                "Parent key not found: "@ + spec_fp_text(parent@),
                            )
                        } else if !c.has_key(child@) {
                            is_invalid_operation_msg(
                                e,
                                "add_authority"@,
                                "Child key not found: "@ + spec_fp_text(child@),
                            )
                        } else if !spec_can_control(c.type_of(parent@), c.type_of(child@)) {
                            is_invalid_operation_msg(
                                e,
                                "add_authority"@,
                                "Invalid authority relationship: "@ + spec_key_type_description(
                                    c.type_of(parent@),
                                ) + " cannot control "@ + spec_key_type_description(
                                    c.type_of(child@),
                                ),
                            )
                        } else if c.parent_of(child@) == Some(parent@) {
                            is_invalid_operation_msg(
                                e,
                                "add_authority"@,
                                "Relationship already exists: "@ + spec_short_hex(parent@.hex)
                                    + " -> "@ + spec_short_hex(child@.hex),
                            )
                        } else if c.parent_of(child@) is Some {
                            is_invalid_operation_msg(
                                e,
                                "add_authority"@,
                                "Child key "@ + spec_short_hex(child@.hex)
                                    + " already has parent "@ + spec_short_hex(
                                    c.parent_of(child@)->Some_0.hex,
                                ),
                            )
                        } else {
                            c.key_of(parent@).children.contains(child@)
                                && is_invalid_operation_msg(
                                e,
                                "add_authority"@,
                                "Child fingerprint already exists"@,
                            )
                        }
                    })
                },
            },
    {
        let p_idx = match self.find_key_index(parent) {
            Some(i) => i,
            None => {
                let mut reason = String::new();
                reason.append("Parent key not found: ");
                let shown = parent.display_string();
                reason.append(shown.as_str());
                return Err(IgniteError::InvalidOperation {
                    operation: String::from_str("add_authority"),
                    reason,
                });
            },
        };
        let c_idx = match self.find_key_index(child) {
            Some(i) => i,
            None => {
                let mut reason = String::new();
                reason.append("Child key not found: ");
                let shown = child.display_string();
                reason.append(shown.as_str());
                return Err(IgniteError::InvalidOperation {
                    operation: String::from_str("add_authority"),
                    reason,
                });
            },
        };
        let parent_type = self.keys[p_idx].key_type();
        let child_type = self.keys[c_idx].key_type();
        if !parent_type.can_control(child_type) {
            let mut reason = String::new();
            reason.append("Invalid authority relationship: ");
            reason.append(parent_type.description());
            reason.append(" cannot control ");
            reason.append(child_type.description());
            return Err(IgniteError::InvalidOperation {
                operation: String::from_str("add_authority"),
                reason,
            });
        }
        if let Some(rev_idx) = self.find_rev_index(child) {
            if self.reverse_relationships[rev_idx].1.eq_fp(parent) {
                proof {
                    assert(self@.parent_of(child@) == Some(parent@));
                }
                let mut reason = String::new();
                reason.append("Relationship already exists: ");
                let ps = parent.short();
                reason.append(ps.as_str());
                reason.append(" -> ");
                let cs = child.short();
                reason.append(cs.as_str());
                return Err(IgniteError::InvalidOperation {
                    operation: String::from_str("add_authority"),
                    reason,
                });
            }
            let mut reason = String::new();
            reason.append("Child key ");
            let cs = child.short();
            reason.append(cs.as_str());
            reason.append(" already has parent ");
            let es = self.reverse_relationships[rev_idx].1.short();
            reason.append(es.as_str());
            return Err(IgniteError::InvalidOperation {
                operation: String::from_str("add_authority"),
                reason,
            });
        }
        // The parent key's recorded children must not already name the
        // child; with the reverse map empty for this child the chain
        // invariant rules an edge out, but the key record is checked so
        // that the whole operation stays atomic.
        if self.key_children_contain(p_idx, child) {
            let mut reason = String::new();
            reason.append("Child fingerprint already exists");
            return Err(IgniteError::InvalidOperation {
                operation: String::from_str("add_authority"),
                reason,
            });
        }
        let ghost pre = self@;
        proof {
            assert(!pre.has_edge(parent@, child@));
            assert(pre.children_of(parent@).contains(child@) == false);
        }
        // Forward map.
        match self.find_rel_index(parent) {
            Some(i) => {
                let ghost old_rels = self@.relationships;
                let entry = &mut self.relationships[i];
                entry.1.push(child.clone());
                proof {
                    assert(self@.relationships =~~= old_rels.update(
                        i as int,
                        (parent@, old_rels[i as int].1.push(child@)),
                    ));
                    assert(pre.children_of(parent@) == old_rels[i as int].1);
                    assert forall|x: FingerprintView| #[trigger] lookup_children(
                        self@.relationships,
                        x,
                    ) == (if x == parent@ {
                        Some(pre.children_of(parent@).push(child@))
                    } else {
                        lookup_children(pre.relationships, x)
                    }) by {
                        lemma_lookup_children_update(
                            pre.relationships,
                            i as int,
                            (parent@, old_rels[i as int].1.push(child@)),
                            x,
                        );
                    }
                }
            },
            None => {
                let ghost old_rels = self@.relationships;
                let mut list: Vec<KeyFingerprint> = Vec::new();
                list.push(child.clone());
                self.relationships.push((parent.clone(), list));
                proof {
                    assert(self@.relationships =~~= old_rels.push(
                        (parent@, seq![child@]),
                    ));
                    assert(pre.children_of(parent@) =~= Seq::<FingerprintView>::empty());
                    assert(pre.children_of(parent@).push(child@) =~= seq![child@]);
                    assert forall|x: FingerprintView| #[trigger] lookup_children(
                        self@.relationships,
                        x,
                    ) == (if x == parent@ {
                        Some(pre.children_of(parent@).push(child@))
                    } else {
                        lookup_children(pre.relationships, x)
                    }) by {
                        lemma_lookup_children_push(
                            pre.relationships,
                            (parent@, seq![child@]),
                            x,
                        );
                    }
                }
            },
        }
        let ghost mid = self@;
        // Reverse map.
        self.reverse_relationships.push((child.clone(), parent.clone()));
        proof {
            assert(self@.reverse =~= pre.reverse.push((child@, parent@)));
            assert(self@.relationships == mid.relationships);
            assert forall|y: FingerprintView| #[trigger] lookup_parent(self@.reverse, y) == (if y
                == child@ {
                Some(parent@)
            } else {
                lookup_parent(pre.reverse, y)
            }) by {
                lemma_lookup_parent_push(pre.reverse, (child@, parent@), y);
            }
        }
        let ghost mid2 = self@;
        // The parent key's own children list.
        let kref = &mut self.keys[p_idx];
        let add_res = kref.add_child(child.clone());
        proof {
            assert(add_res is Ok);
            let new_parent_key = AuthorityKeyView {
                children: pre.key_of(parent@).children.push(child@),
                ..pre.key_of(parent@)
            };
            assert(self@.keys =~= pre.keys.update(p_idx as int, new_parent_key));
            assert(self@.relationships == mid2.relationships);
            assert(self@.reverse == mid2.reverse);
            assert forall|fp: FingerprintView| #[trigger] lookup_key(self@.keys, fp) == (if fp
                == parent@ {
                Some(new_parent_key)
            } else {
                lookup_key(pre.keys, fp)
            }) by {
                lemma_lookup_key_update(pre.keys, p_idx as int, new_parent_key, fp);
            }
            // The edge characterization after all three mutations.
            assert forall|x: FingerprintView, y: FingerprintView| #[trigger] self@.has_edge(x, y)
                == (pre.has_edge(x, y) || (x == parent@ && y == child@)) by {
                if x == parent@ {
                    assert(self@.children_of(x) == pre.children_of(x).push(child@));
                    if y != child@ {
                        assert(self@.children_of(x).contains(y) == pre.children_of(x).contains(y))
                            by {
                            if pre.children_of(x).contains(y) {
                                let j = choose|j: int|
                                    0 <= j < pre.children_of(x).len() && pre.children_of(x)[j]
                                        == y;
                                assert(self@.children_of(x)[j] == y);
                            } else {
                                if self@.children_of(x).contains(y) {
                                    let j = choose|j: int|
                                        0 <= j < self@.children_of(x).len()
                                            && self@.children_of(x)[j] == y;
                                    assert(j < pre.children_of(x).len());
                                    assert(pre.children_of(x)[j] == y);
                                }
                            }
                        }
                    } else {
                        assert(self@.children_of(x)[self@.children_of(x).len() - 1] == child@);
                        assert(self@.children_of(x).contains(child@));
                    }
                }
            }
            // Invariant: representation.
            assert(self@.rep_ok()) by {
                assert forall|i: int, j: int| 0 <= i < j < self@.keys.len()
                    implies self@.keys[i].fingerprint != self@.keys[j].fingerprint by {
                    assert(self@.keys[i].fingerprint == pre.keys[i].fingerprint);
                    assert(self@.keys[j].fingerprint == pre.keys[j].fingerprint);
                }
                assert forall|i: int| 0 <= i < self@.keys.len() implies (
                #[trigger] self@.keys[i]).wf() by {
                    if i != p_idx as int {
                        assert(self@.keys[i] == pre.keys[i]);
                    }
                }
                assert forall|i: int, j: int| 0 <= i < j < self@.relationships.len()
                    implies self@.relationships[i].0 != self@.relationships[j].0 by {}
                assert forall|i: int, j: int| 0 <= i < j < self@.reverse.len()
                    implies self@.reverse[i].0 != self@.reverse[j].0 by {
                    if j == self@.reverse.len() - 1 {
                        assert(self@.reverse[i] == pre.reverse[i]);
                        assert(pre.reverse[i].0 != child@);
                    } else {
                        assert(self@.reverse[i] == pre.reverse[i]);
                        assert(self@.reverse[j] == pre.reverse[j]);
                    }
                }
                assert forall|i: int| 0 <= i < self@.relationships.len() implies distinct_fps(
                    (#[trigger] self@.relationships[i]).1,
                ) && self@.relationships[i].1.len() > 0 by {
                    if self@.relationships[i].0 == parent@ {
                        assert(lookup_children(self@.relationships, parent@) is Some);
                        assert forall|a: int, b: int|
                            0 <= a < b < self@.relationships[i].1.len()
                            implies self@.relationships[i].1[a] != self@.relationships[i].1[b] by {
                            if self@.relationships[i].1 == pre.children_of(parent@).push(child@) {
                                if b == self@.relationships[i].1.len() - 1 {
                                    assert(pre.children_of(parent@).contains(
                                        pre.children_of(parent@)[a],
                                    ));
                                }
                            }
                        }
                    }
                }
            }
            // Invariant: every edge resident and controlled.
            assert forall|x: FingerprintView, y: FingerprintView| #[trigger] self@.has_edge(x, y)
                implies self@.has_key(x) && self@.has_key(y) && spec_can_control(
                self@.type_of(x),
                self@.type_of(y),
            ) by {
                if pre.has_edge(x, y) {
                    assert(pre.has_key(x) && pre.has_key(y));
                    assert(self@.type_of(x) == pre.type_of(x));
                    assert(self@.type_of(y) == pre.type_of(y));
                } else {
                    assert(x == parent@ && y == child@);
                    assert(self@.type_of(x) == pre.type_of(parent@));
                    assert(self@.type_of(y) == pre.type_of(child@));
                }
            }
            // Invariant: the reverse map inverts the forward map.
            assert forall|x: FingerprintView, y: FingerprintView| #[trigger] self@.has_edge(x, y)
                <==> self@.parent_of(y) == Some(x) by {
                if y == child@ {
                    assert(self@.parent_of(y) == Some(parent@));
                    if x != parent@ {
                        assert(self@.has_edge(x, y) == pre.has_edge(x, y));
                        assert(pre.has_edge(x, y) ==> pre.parent_of(child@) == Some(x));
                    }
                } else {
                    assert(self@.parent_of(y) == pre.parent_of(y));
                    assert(self@.has_edge(x, y) == pre.has_edge(x, y));
                    assert(pre.has_edge(x, y) <==> pre.parent_of(y) == Some(x));
                }
            }
            assert(self@.wf());
        }
        Ok(())
    }

    /// Whether the key at `idx` already records `fp` among its children.
    fn key_children_contain(&self, idx: usize, fp: &KeyFingerprint) -> (r: bool)
        requires
            idx < self@.keys.len(),
        ensures
            r == self@.keys[idx as int].children.contains(fp@),
    {
        let key = &self.keys[idx];
        let children = key.children();
        let n = children.len();
        let mut k: usize = 0;
        while k < n
            invariant
                n == children@.len(),
                k <= n,
                children@.len() == self@.keys[idx as int].children.len(),
                forall|j: int|
                    0 <= j < n ==> #[trigger] children@[j]@ == self@.keys[idx as int].children[j],
                forall|j: int| 0 <= j < k ==> self@.keys[idx as int].children[j] != fp@,
            decreases n - k,
        {
            if children[k].eq_fp(fp) {
                proof {
                    assert(self@.keys[idx as int].children[k as int] == fp@);
                }
                return true;
            }
            k = k + 1;
        }
        proof {
            assert forall|j: int| 0 <= j < self@.keys[idx as int].children.len()
                implies #[trigger] self@.keys[idx as int].children[j] != fp@ by {}
        }
        false
    }

    /// The registered child keys of a parent, in recorded order.
    pub fn get_children(&self, parent: &KeyFingerprint) -> (r: Vec<&AuthorityKey>)
        requires
            self@.wf(),
        ensures
            r@.len() == self@.children_of(parent@).len(),
            forall|i: int|
                0 <= i < r@.len() ==> lookup_key(self@.keys, self@.children_of(parent@)[i])
                    == Some(#[trigger] r@[i]@),
    {
        let mut result: Vec<&AuthorityKey> = Vec::new();
        match self.find_rel_index(parent) {
            Some(idx) => {
                let list = &self.relationships[idx].1;
                let n = list.len();
                let mut k: usize = 0;
                while k < n
                    invariant
                        self@.wf(),
                        idx < self@.relationships.len(),
                        self@.relationships[idx as int].0 == parent@,
                        n == list@.len(),
                        k <= n,
                        self@.children_of(parent@) == list@.map_values(|c: KeyFingerprint| c@),
                        result@.len() == k,
                        forall|i: int|
                            0 <= i < k ==> lookup_key(
                                self@.keys,
                                self@.children_of(parent@)[i],
                            ) == Some(#[trigger] result@[i]@),
                    decreases n - k,
                {
                    proof {
                        assert(self@.children_of(parent@)[k as int] == list@[k as int]@);
                        assert(self@.children_of(parent@).contains(list@[k as int]@));
                        assert(self@.has_edge(parent@, list@[k as int]@));
                    }
                    match self.get_key(&list[k]) {
                        Some(key) => {
                            result.push(key);
                        },
                        None => {
                            proof {
                                assert(self@.has_key(list@[k as int]@));
                                assert(false);
                            }
                        },
                    }
                    k = k + 1;
                }
                result
            },
            None => {
                proof {
                    assert(self@.children_of(parent@) =~= Seq::<FingerprintView>::empty());
                }
                result
            },
        }
    }

    /// All registered keys of the given tier, in registration order.
    pub fn get_keys_by_type(&self, key_type: KeyType) -> (r: Vec<&AuthorityKey>)
        ensures
            r@.map_values(|k: &AuthorityKey| k@) == self@.keys.filter(
                |k: AuthorityKeyView| k.key_type == key_type,
            ),
    {
        let ghost pred = |k: AuthorityKeyView| k.key_type == key_type;
        let mut result: Vec<&AuthorityKey> = Vec::new();
        let n = self.keys.len();
        let mut i: usize = 0;
        proof {
            reveal(Seq::filter);
            assert(self@.keys.take(0) =~= Seq::<AuthorityKeyView>::empty());
        }
        while i < n
            invariant
                n == self@.keys.len(),
                n == self.keys@.len(),
                i <= n,
                pred == (|k: AuthorityKeyView| k.key_type == key_type),
                result@.map_values(|k: &AuthorityKey| k@) == self@.keys.take(i as int).filter(
                    pred,
                ),
            decreases n - i,
        {
            let ghost prefix = self@.keys.take(i as int);
            let ghost prefix1 = self@.keys.take(i + 1);
            proof {
                reveal(Seq::filter);
                assert(prefix1.drop_last() =~= prefix);
                assert(prefix1.last() == self@.keys[i as int]);
            }
            if self.keys[i].key_type() == key_type {
                let ghost before = result@.map_values(|k: &AuthorityKey| k@);
                result.push(&self.keys[i]);
                proof {
                    assert(result@.map_values(|k: &AuthorityKey| k@) =~= before.push(
                        self@.keys[i as int],
                    ));
                }
            }
            i = i + 1;
        }
        proof {
            assert(self@.keys.take(n as int) =~= self@.keys);
        }
        result
    }

    /// Whether `end` is reachable from `start` in fewer than `fuel` steps
    /// along recorded edges; mirrors the bounded reachability predicate.
    fn has_authority_path(&self, start: &KeyFingerprint, end: &KeyFingerprint, fuel: usize) -> (r:
        bool)
        ensures
            r == self@.reaches(start@, end@, fuel as nat),
        decreases fuel,
    {
        if start.eq_fp(end) {
            return true;
        }
        if fuel == 0 {
            return false;
        }
        match self.find_rel_index(start) {
            Some(idx) => {
                let n = self.relationships[idx].1.len();
                let mut k: usize = 0;
                while k < n
                    invariant
                        fuel >= 1,
                        idx < self@.relationships.len(),
                        self@.relationships[idx as int].0 == start@,
                        lookup_children(self@.relationships, start@) == Some(
                            self@.relationships[idx as int].1,
                        ),
                        n == self.relationships@[idx as int].1@.len(),
                        n == self@.relationships[idx as int].1.len(),
                        k <= n,
                        start@ != end@,
                        forall|j: int|
                            0 <= j < k ==> !self@.reaches(
                                #[trigger] self@.relationships[idx as int].1[j],
                                end@,
                                (fuel - 1) as nat,
                            ),
                    decreases n - k,
                {
                    let c = self.relationships[idx].1[k].clone();
                    proof {
                        assert(c@ == self@.relationships[idx as int].1[k as int]);
                        assert(self@.children_of(start@).contains(c@));
                        assert(self@.has_edge(start@, c@));
                    }
                    if self.has_authority_path(&c, end, fuel - 1) {
                        proof {
                            assert(self@.reaches(start@, end@, fuel as nat));
                        }
                        return true;
                    }
                    k = k + 1;
                }
                proof {
                    assert(!self@.reaches(start@, end@, fuel as nat)) by {
                        if self@.reaches(start@, end@, fuel as nat) {
                            let c = choose|c: FingerprintView|
                                #[trigger] self@.has_edge(start@, c) && self@.reaches(
                                    c,
                                    end@,
                                    (fuel - 1) as nat,
                                );
                            assert(self@.children_of(start@).contains(c));
                            let j = choose|j: int|
                                0 <= j < self@.children_of(start@).len()
                                    && self@.children_of(start@)[j] == c;
                            assert(self@.relationships[idx as int].1[j] == c);
                            assert(false);
                        }
                    }
                }
                false
            },
            None => {
                proof {
                    assert(!self@.reaches(start@, end@, fuel as nat)) by {
                        if self@.reaches(start@, end@, fuel as nat) {
                            let c = choose|c: FingerprintView|
                                #[trigger] self@.has_edge(start@, c) && self@.reaches(
                                    c,
                                    end@,
                                    (fuel - 1) as nat,
                                );
                            assert(self@.children_of(start@) =~= Seq::<FingerprintView>::empty());
                            assert(false);
                        }
                    }
                }
                false
            },
        }
    }

    /// Every proper descendant of the roots on the stack, in the order the
    /// depth-first walk discovers them, stopping when `fuel` runs out.
    pub open spec fn spec_dependents(
        c: ChainView,
        stack: Seq<FingerprintView>,
        fuel: nat,
    ) -> Seq<FingerprintView>
        decreases fuel,
    {
        if fuel == 0 || stack.len() == 0 {
            Seq::empty()
        } else {
            let kids = c.children_of(stack.last());
            kids + Self::spec_dependents(c, stack.drop_last() + kids, (fuel - 1) as nat)
        }
    }

    /// Collect every key that depends on `target`: the keys discovered by
    /// a depth-first walk of the recorded edges, cloned in discovery
    /// order. Used to compute the blast radius of rotation or revocation.
    pub fn find_dependent_keys(&self, target: &KeyFingerprint) -> (r: IgniteResult<
        Vec<AuthorityKey>,
    >)
        requires
            self@.wf(),
        ensures
            r matches Ok(v) && {
                let deps = Self::spec_dependents(self@, seq![target@], self@.keys.len());
                &&& v@.len() == deps.len()
                &&& forall|i: int|
                    0 <= i < deps.len() ==> lookup_key(self@.keys, deps[i]) == Some(
                        #[trigger] v@[i]@,
                    )
            },
    {
        let ghost fuel0 = self@.keys.len();
        let ghost total = Self::spec_dependents(self@, seq![target@], fuel0);
        let mut dependents: Vec<AuthorityKey> = Vec::new();
        let mut to_process: Vec<KeyFingerprint> = Vec::new();
        to_process.push(target.clone());
        let mut fuel: usize = self.keys.len();
        proof {
            assert(to_process@.map_values(|f: KeyFingerprint| f@) =~= seq![target@]);
            assert(dependents@.map_values(|k: AuthorityKey| k@.fingerprint)
                =~= Seq::<FingerprintView>::empty());
            assert(Seq::<FingerprintView>::empty() + Self::spec_dependents(
                self@,
                seq![target@],
                fuel0,
            ) =~= total);
        }
        while to_process.len() > 0 && fuel > 0
            invariant
                self@.wf(),
                fuel <= fuel0,
                total == Self::spec_dependents(self@, seq![target@], fuel0),
                dependents@.map_values(|k: AuthorityKey| k@.fingerprint) + Self::spec_dependents(
                    self@,
                    to_process@.map_values(|f: KeyFingerprint| f@),
                    fuel as nat,
                ) == total,
                forall|i: int|
                    0 <= i < dependents@.len() ==> lookup_key(
                        self@.keys,
                        dependents@.map_values(|k: AuthorityKey| k@.fingerprint)[i],
                    ) == Some(#[trigger] dependents@[i]@),
            decreases fuel,
        {
            let ghost stack_pre = to_process@.map_values(|f: KeyFingerprint| f@);
            let ghost collected_pre = dependents@.map_values(|k: AuthorityKey| k@.fingerprint);
            let ghost fuel_pre = fuel as nat;
            fuel = fuel - 1;
            let current = match to_process.pop() {
                Some(c) => c,
                None => {
                    proof {
                        assert(false);
                    }
                    return Err(IgniteError::InvalidOperation {
                        operation: String::from_str("find_dependent_keys"),
                        reason: String::from_str("empty stack"),
                    });
                },
            };
            proof {
                assert(current@ == stack_pre.last());
                assert(to_process@.map_values(|f: KeyFingerprint| f@) =~= stack_pre.drop_last());
            }
            let ghost kids = self@.children_of(current@);
            proof {
                assert(Self::spec_dependents(self@, stack_pre, fuel_pre) == kids
                    + Self::spec_dependents(
                    self@,
                    stack_pre.drop_last() + kids,
                    (fuel_pre - 1) as nat,
                ));
            }
            match self.find_rel_index(&current) {
                Some(idx) => {
                    let list = &self.relationships[idx].1;
                    let n = list.len();
                    proof {
                        assert(kids == list@.map_values(|c: KeyFingerprint| c@));
                        assert(collected_pre + kids.take(0) =~= collected_pre);
                        assert(stack_pre.drop_last() + kids.take(0) =~= stack_pre.drop_last());
                    }
                    let mut k: usize = 0;
                    while k < n
                        invariant
                            self@.wf(),
                            idx < self@.relationships.len(),
                            n == list@.len(),
                            k <= n,
                            kids == list@.map_values(|c: KeyFingerprint| c@),
                            kids == self@.children_of(current@),
                            dependents@.map_values(|key: AuthorityKey| key@.fingerprint)
                                =~= collected_pre + kids.take(k as int),
                            to_process@.map_values(|f: KeyFingerprint| f@) =~= stack_pre.drop_last()
                                + kids.take(k as int),
                            forall|i: int|
                                0 <= i < dependents@.len() ==> lookup_key(
                                    self@.keys,
                                    dependents@.map_values(|key: AuthorityKey| key@.fingerprint)[i],
                                ) == Some(#[trigger] dependents@[i]@),
                        decreases n - k,
                    {
                        proof {
                            assert(kids[k as int] == list@[k as int]@);
                            assert(kids.contains(kids[k as int]));
                            assert(self@.has_edge(current@, kids[k as int]));
                        }
                        let ghost deps_pre = dependents@.map_values(
                            |key: AuthorityKey| key@.fingerprint,
                        );
                        match self.get_key(&list[k]) {
                            Some(child_key) => {
                                proof {
                                    lemma_lookup_key_fp(self@.keys, kids[k as int]);
                                    assert(child_key@.fingerprint == kids[k as int]);
                                }
                                dependents.push(child_key.clone());
                                proof {
                                    assert(dependents@.map_values(
                                        |key: AuthorityKey| key@.fingerprint,
                                    ) =~= deps_pre.push(kids[k as int]));
                                }
                            },
                            None => {
                                proof {
                                    assert(self@.has_key(kids[k as int]));
                                    assert(false);
                                }
                            },
                        }
                        let ghost stack_mid = to_process@.map_values(|f: KeyFingerprint| f@);
                        to_process.push(list[k].clone());
                        proof {
                            assert(kids.take(k + 1) =~= kids.take(k as int).push(kids[k as int]));
                            assert(to_process@.map_values(|f: KeyFingerprint| f@)
                                =~= stack_mid.push(kids[k as int]));
                            assert(stack_mid.push(kids[k as int]) =~= stack_pre.drop_last()
                                + kids.take(k + 1));
                        }
                        k = k + 1;
                    }
                    proof {
                        assert(kids.take(n as int) =~= kids);
                        assert(dependents@.map_values(|key: AuthorityKey| key@.fingerprint)
                            + Self::spec_dependents(
                            self@,
                            to_process@.map_values(|f: KeyFingerprint| f@),
                            fuel as nat,
                        ) =~= total);
                    }
                },
                None => {
                    proof {
                        assert(kids =~= Seq::<FingerprintView>::empty());
                        assert(stack_pre.drop_last() + kids =~= stack_pre.drop_last());
                        assert(collected_pre + kids =~= collected_pre);
                        assert(dependents@.map_values(|key: AuthorityKey| key@.fingerprint)
                            + Self::spec_dependents(
                            self@,
                            to_process@.map_values(|f: KeyFingerprint| f@),
                            fuel as nat,
                        ) =~= total);
                    }
                },
            }
        }
        proof {
            assert(Self::spec_dependents(
                self@,
                to_process@.map_values(|f: KeyFingerprint| f@),
                fuel as nat,
            ) =~= Seq::<FingerprintView>::empty());
            assert(dependents@.map_values(|k: AuthorityKey| k@.fingerprint) =~= total);
        }
        Ok(dependents)
    }

    /// Check the whole graph: every relationship entry must name resident
    /// keys, every edge must satisfy the tier rules, and no edge may be
    /// re-entered from its child. Success is equivalent to integrity.
    pub fn validate_integrity(&self) -> (r: IgniteResult<()>)
        requires
            self@.rep_ok(),
        ensures
            r is Ok <==> (self@.edges_resident() && self@.edges_controlled() && self@.acyclic()
                && self@.reverse_is_inverse()),
            r matches Err(e) ==> is_invalid_operation(e, "validate_integrity"@),
    {
        let fuel: usize = if self.keys.len() < usize::MAX {
            self.keys.len() + 1
        } else {
            usize::MAX
        };
        let rn = self.relationships.len();
        // Probe every stored edge for a path leading back to its parent.
        let mut i: usize = 0;
        while i < rn
            invariant
                self@.rep_ok(),
                rn == self@.relationships.len(),
                rn == self.relationships@.len(),
                i <= rn,
            decreases rn - i,
        {
            let parent_fp = self.relationships[i].0.clone();
            let n = self.relationships[i].1.len();
            let mut k: usize = 0;
            while k < n
                invariant
                    self@.rep_ok(),
                    i < self@.relationships.len(),
                    parent_fp@ == self@.relationships[i as int].0,
                    n == self.relationships@[i as int].1@.len(),
                    n == self@.relationships[i as int].1.len(),
                    k <= n,
                decreases n - k,
            {
                let child_fp = self.relationships[i].1[k].clone();
                if self.has_authority_path(&child_fp, &parent_fp, fuel) {
                    proof {
                        assert(child_fp@ == self@.relationships[i as int].1[k as int]);
                        lemma_lookup_children_skip_first_match(self@.relationships, i as int);
                        assert(self@.children_of(parent_fp@).contains(child_fp@));
                        assert(self@.has_edge(parent_fp@, child_fp@));
                        assert(self@.reaches(child_fp@, parent_fp@, fuel as nat));
                        assert(!self@.acyclic());
                    }
                    let mut reason = String::new();
                    reason.append("Authority cycle detected: ");
                    let ps = parent_fp.display_string();
                    reason.append(ps.as_str());
                    reason.append(" -> ");
                    let cs = child_fp.display_string();
                    reason.append(cs.as_str());
                    return Err(IgniteError::InvalidOperation {
                        operation: String::from_str("validate_integrity"),
                        reason,
                    });
                }
                k = k + 1;
            }
            i = i + 1;
        }
        // Residency and tier rules for every entry.
        let mut i: usize = 0;
        while i < rn
            invariant
                self@.rep_ok(),
                rn == self@.relationships.len(),
                rn == self.relationships@.len(),
                i <= rn,
                forall|a: int|
                    0 <= a < i ==> self@.has_key((#[trigger] self@.relationships[a]).0),
                forall|a: int, b: int|
                    0 <= a < i && 0 <= b < self@.relationships[a].1.len() ==> self@.has_key(
                        #[trigger] self@.relationships[a].1[b],
                    ) && spec_can_control(
                        self@.type_of(self@.relationships[a].0),
                        self@.type_of(self@.relationships[a].1[b]),
                    ),
            decreases rn - i,
        {
            let parent_fp = self.relationships[i].0.clone();
            let parent_type = match self.find_key_index(&parent_fp) {
                Some(pi) => self.keys[pi].key_type(),
                None => {
                    proof {
                        assert(self@.relationships[i as int].1.len() > 0);
                        lemma_lookup_children_skip_first_match(self@.relationships, i as int);
                        assert(self@.has_edge(
                            parent_fp@,
                            self@.relationships[i as int].1[0],
                        ));
                        assert(!self@.edges_resident());
                    }
                    let mut reason = String::new();
                    reason.append("Missing parent key: ");
                    let ps = parent_fp.display_string();
                    reason.append(ps.as_str());
                    return Err(IgniteError::InvalidOperation {
                        operation: String::from_str("validate_integrity"),
                        reason,
                    });
                },
            };
            let n = self.relationships[i].1.len();
            let mut k: usize = 0;
            while k < n
                invariant
                    self@.rep_ok(),
                    i < self@.relationships.len(),
                    parent_fp@ == self@.relationships[i as int].0,
                    parent_type == self@.type_of(parent_fp@),
                    self@.has_key(parent_fp@),
                    n == self.relationships@[i as int].1@.len(),
                    n == self@.relationships[i as int].1.len(),
                    k <= n,
                    forall|b: int|
                        0 <= b < k ==> self@.has_key(
                            #[trigger] self@.relationships[i as int].1[b],
                        ) && spec_can_control(
                            self@.type_of(self@.relationships[i as int].0),
                            self@.type_of(self@.relationships[i as int].1[b]),
                        ),
                decreases n - k,
            {
                let child_fp = self.relationships[i].1[k].clone();
                proof {
                    lemma_lookup_children_skip_first_match(self@.relationships, i as int);
                    assert(self@.children_of(parent_fp@) == self@.relationships[i as int].1);
                    assert(self@.children_of(parent_fp@)[k as int] == child_fp@);
                    assert(self@.children_of(parent_fp@).contains(child_fp@));
                    assert(self@.has_edge(parent_fp@, child_fp@));
                }
                let child_type = match self.find_key_index(&child_fp) {
                    Some(ci) => self.keys[ci].key_type(),
                    None => {
                        proof {
                            assert(!self@.edges_resident());
                        }
                        let mut reason = String::new();
                        reason.append("Missing child key: ");
                        let cs = child_fp.display_string();
                        reason.append(cs.as_str());
                        return Err(IgniteError::InvalidOperation {
                            operation: String::from_str("validate_integrity"),
                            reason,
                        });
                    },
                };
                if !parent_type.can_control(child_type) {
                    proof {
                        assert(!self@.edges_controlled());
                    }
                    let mut reason = String::new();
                    reason.append("Invalid hierarchy: ");
                    reason.append(parent_type.description());
                    reason.append(" cannot control ");
                    reason.append(child_type.description());
                    return Err(IgniteError::InvalidOperation {
                        operation: String::from_str("validate_integrity"),
                        reason,
                    });
                }
                k = k + 1;
            }
            i = i + 1;
        }
        // The reverse map must record exactly the parent of every edge.
        let mut i: usize = 0;
        while i < rn
            invariant
                self@.rep_ok(),
                rn == self@.relationships.len(),
                rn == self.relationships@.len(),
                i <= rn,
                forall|a: int, b: int|
                    0 <= a < i && 0 <= b < self@.relationships[a].1.len() ==> self@.parent_of(
                        #[trigger] self@.relationships[a].1[b],
                    ) == Some(self@.relationships[a].0),
            decreases rn - i,
        {
            let parent_fp = self.relationships[i].0.clone();
            let n = self.relationships[i].1.len();
            let mut k: usize = 0;
            while k < n
                invariant
                    self@.rep_ok(),
                    i < self@.relationships.len(),
                    parent_fp@ == self@.relationships[i as int].0,
                    n == self.relationships@[i as int].1@.len(),
                    n == self@.relationships[i as int].1.len(),
                    k <= n,
                    forall|b: int|
                        0 <= b < k ==> self@.parent_of(
                            #[trigger] self@.relationships[i as int].1[b],
                        ) == Some(self@.relationships[i as int].0),
                decreases n - k,
            {
                let child_fp = self.relationships[i].1[k].clone();
                proof {
                    assert(child_fp@ == self@.relationships[i as int].1[k as int]);
                    lemma_lookup_children_skip_first_match(self@.relationships, i as int);
                    assert(self@.children_of(parent_fp@)[k as int] == child_fp@);
                    assert(self@.children_of(parent_fp@).contains(child_fp@));
                    assert(self@.has_edge(parent_fp@, child_fp@));
                }
                let recorded = match self.find_rev_index(&child_fp) {
                    Some(ri) => self.reverse_relationships[ri].1.eq_fp(&parent_fp),
                    None => {
                        proof {
                            assert(self@.parent_of(child_fp@) is None);
                        }
                        false
                    },
                };
                if !recorded {
                    proof {
                        assert(self@.parent_of(child_fp@) != Some(parent_fp@));
                        assert(!self@.reverse_is_inverse());
                    }
                    let mut reason = String::new();
                    reason.append("Reverse relationship mismatch: ");
                    let ps = parent_fp.display_string();
                    reason.append(ps.as_str());
                    reason.append(" -> ");
                    let cs = child_fp.display_string();
                    reason.append(cs.as_str());
                    return Err(IgniteError::InvalidOperation {
                        operation: String::from_str("validate_integrity"),
                        reason,
                    });
                }
                k = k + 1;
            }
            i = i + 1;
        }
        // Every reverse entry must correspond to a stored edge.
        let vn = self.reverse_relationships.len();
        let mut j: usize = 0;
        while j < vn
            invariant
                self@.rep_ok(),
                vn == self@.reverse.len(),
                vn == self.reverse_relationships@.len(),
                j <= vn,
                forall|a: int|
                    0 <= a < j ==> self@.has_edge(
                        (#[trigger] self@.reverse[a]).1,
                        self@.reverse[a].0,
                    ),
            decreases vn - j,
        {
            let child_fp = self.reverse_relationships[j].0.clone();
            let par_fp = self.reverse_relationships[j].1.clone();
            if !self.has_authority(&par_fp, &child_fp) {
                proof {
                    lemma_lookup_parent_skip_first_match(self@.reverse, j as int);
                    assert(self@.parent_of(child_fp@) == Some(par_fp@));
                    assert(!self@.has_edge(par_fp@, child_fp@));
                    assert(!self@.reverse_is_inverse());
                }
                let mut reason = String::new();
                reason.append("Reverse relationship without edge: ");
                let ps = par_fp.display_string();
                reason.append(ps.as_str());
                reason.append(" -> ");
                let cs = child_fp.display_string();
                reason.append(cs.as_str());
                return Err(IgniteError::InvalidOperation {
                    operation: String::from_str("validate_integrity"),
                    reason,
                });
            }
            j = j + 1;
        }
        proof {
            assert forall|p: FingerprintView, c: FingerprintView| #[trigger] self@.has_edge(p, c)
                implies self@.has_key(p) && self@.has_key(c) && spec_can_control(
                self@.type_of(p),
                self@.type_of(c),
            ) && self@.parent_of(c) == Some(p) by {
                lemma_lookup_children_index(self@.relationships, p);
                let a = choose|a: int|
                    0 <= a < self@.relationships.len() && (#[trigger] self@.relationships[a]).0
                        == p && self@.relationships[a].1 == lookup_children(
                        self@.relationships,
                        p,
                    )->Some_0;
                let b = choose|b: int|
                    0 <= b < self@.relationships[a].1.len() && self@.relationships[a].1[b] == c;
                assert(self@.has_key(self@.relationships[a].1[b]));
                assert(self@.parent_of(self@.relationships[a].1[b]) == Some(
                    self@.relationships[a].0,
                ));
            }
            assert forall|p: FingerprintView, c: FingerprintView|
                self@.parent_of(c) == Some(p) implies #[trigger] self@.has_edge(p, c) by {
                lemma_lookup_parent_index(self@.reverse, c);
                let a = choose|a: int|
                    0 <= a < self@.reverse.len() && (#[trigger] self@.reverse[a]).0 == c
                        && self@.reverse[a].1 == lookup_parent(self@.reverse, c)->Some_0;
                assert(self@.has_edge(self@.reverse[a].1, self@.reverse[a].0));
            }
            assert(self@.reverse_is_inverse());
            lemma_wf_implies_acyclic(self@);
        }
        Ok(())
    }
}

/// The first-match parent lookup finds exactly the entry whose key is
/// unique in the sequence.
pub proof fn lemma_lookup_parent_skip_first_match(
    rev: Seq<(FingerprintView, FingerprintView)>,
    i: int,
)
    requires
        0 <= i < rev.len(),
        forall|a: int, b: int| 0 <= a < b < rev.len() ==> rev[a].0 != rev[b].0,
    ensures
        lookup_parent(rev, rev[i].0) == Some(rev[i].1),
{
    assert forall|j: int| 0 <= j < i implies rev[j].0 != rev[i].0 by {}
    lemma_lookup_parent_skip(rev, rev[i].0, i);
    assert(rev.skip(i)[0] == rev[i]);
}

/// A successful parent lookup names some entry of the sequence.
pub proof fn lemma_lookup_parent_index(rev: Seq<(FingerprintView, FingerprintView)>, fp: FingerprintView)
    requires
        lookup_parent(rev, fp) is Some,
    ensures
        exists|i: int|
            0 <= i < rev.len() && (#[trigger] rev[i]).0 == fp && rev[i].1 == lookup_parent(
                rev,
                fp,
            )->Some_0,
    decreases rev.len(),
{
    if rev.len() > 0 && rev[0].0 != fp {
        lemma_lookup_parent_index(rev.drop_first(), fp);
        let i = choose|i: int|
            0 <= i < rev.drop_first().len() && (#[trigger] rev.drop_first()[i]).0 == fp
                && rev.drop_first()[i].1 == lookup_parent(rev.drop_first(), fp)->Some_0;
        assert(rev[i + 1] == rev.drop_first()[i]);
    }
}

/// The first-match children lookup finds exactly the entry whose key is
/// unique in the sequence.
pub proof fn lemma_lookup_children_skip_first_match(
    rels: Seq<(FingerprintView, Seq<FingerprintView>)>,
    i: int,
)
    requires
        0 <= i < rels.len(),
        forall|a: int, b: int| 0 <= a < b < rels.len() ==> rels[a].0 != rels[b].0,
    ensures
        lookup_children(rels, rels[i].0) == Some(rels[i].1),
{
    assert forall|j: int| 0 <= j < i implies rels[j].0 != rels[i].0 by {}
    lemma_lookup_children_skip(rels, rels[i].0, i);
    assert(rels.skip(i)[0] == rels[i]);
}

/// Registering a fresh key and looking its fingerprint up returns
/// exactly that key; a fingerprint already present is what `add_key`
/// rejects, leaving the chain unchanged.
pub proof fn lemma_register_then_lookup(keys: Seq<AuthorityKeyView>, k: AuthorityKeyView)
    requires
        lookup_key(keys, k.fingerprint) is None,
    ensures
        lookup_key(keys.push(k), k.fingerprint) == Some(k),
{
    lemma_lookup_key_push(keys, k, k.fingerprint);
}

impl Default for AuthorityChain {
    /// The default chain is empty.
    fn default() -> (r: Self)
        ensures
            r@.wf(),
            r@.keys == Seq::<AuthorityKeyView>::empty(),
    {
        AuthorityChain::new()
    }
}

} // verus!


