//! Affected-key manifests: digest-sealed records of the descendants
//! invalidated by a rotation or revocation. The canonical JSON form — one
//! line, keys ordered, strings escaped — is the exact byte input of the
//! sealing digest; the digest object itself is spliced in only when the
//! manifest is written out.

use vstd::prelude::*;

use crate::clock::MAX_TIMESTAMP_MICROS;
use crate::clock::compact_time_of;
use crate::clock::compact_time_utc;
use crate::clock::now_micros_clamped;
use crate::clock::rfc3339_of;
use crate::clock::rfc3339_utc;
use crate::crypto::sha256;
use crate::errors::IgniteError;
use crate::errors::IgniteResult;
use crate::errors::is_crypto_error;
use crate::errors::is_invalid_operation;
use crate::hierarchy::KeyType;
use crate::hierarchy::spec_key_type_name;
use crate::material::FingerprintView;
use crate::material::KeyFingerprint;
use crate::material::spec_fp_text;
use crate::proofs::spec_payload_digest;
use crate::text::json_escape;
use crate::text::spec_escape;
use crate::text::str_eq;
use crate::text::to_hex;

verus! {

/// Kind of manifest event.
#[derive(Debug, Clone, Copy, PartialEq, Eq, Structural)]
pub enum ManifestEventType {
    Rotation,
    Revocation,
}

/// The wire name of an event type.
pub open spec fn spec_event_type_name(t: ManifestEventType) -> Seq<char> {
    match t {
        ManifestEventType::Rotation => "rotation"@,
        ManifestEventType::Revocation => "revocation"@,
    }
}

impl ManifestEventType {
    /// The wire name.
    pub fn as_str(&self) -> (r: &'static str)
        ensures
            r@ == spec_event_type_name(*self),
    {
        match self {
            ManifestEventType::Rotation => "rotation",
            ManifestEventType::Revocation => "revocation",
        }
    }

    /// Parse a wire name; anything else is rejected.
    pub fn from_str(s: &str) -> (r: IgniteResult<Self>)
        ensures
            match r {
                Ok(t) => spec_event_type_name(t) == s@,
                Err(e) => s@ != "rotation"@ && s@ != "revocation"@ && is_invalid_operation(
                    e,
                    "parse_event_type"@,
                ),
            },
    {
        if str_eq(s, "rotation") {
            Ok(ManifestEventType::Rotation)
        } else if str_eq(s, "revocation") {
            Ok(ManifestEventType::Revocation)
        } else {
            let mut reason = String::new();
            reason.append("Unknown event type: ");
            reason.append(s);
            Err(IgniteError::InvalidOperation {
                operation: String::from_str("parse_event_type"),
                reason,
            })
        }
    }
}

/// Mathematical view of a manifest event.
pub struct ManifestEventView {
    pub event_type: ManifestEventType,
    pub parent_fingerprint: FingerprintView,
    pub initiated_at: i64,
    pub initiated_by: Seq<char>,
    pub reason: Seq<char>,
}

/// Event metadata for a manifest.
#[derive(Debug, Clone)]
pub struct ManifestEvent {
    pub event_type: ManifestEventType,
    pub parent_fingerprint: KeyFingerprint,
    pub initiated_at: i64,
    pub initiated_by: String,
    pub reason: String,
}

impl View for ManifestEvent {
    type V = ManifestEventView;

    closed spec fn view(&self) -> ManifestEventView {
        ManifestEventView {
            event_type: self.event_type,
            parent_fingerprint: self.parent_fingerprint@,
            initiated_at: self.initiated_at,
            initiated_by: self.initiated_by@,
            reason: self.reason@,
        }
    }
}

impl ManifestEvent {
    /// A fresh event, initiated now by the command-line front end.
    pub fn new(event_type: ManifestEventType, parent_fingerprint: KeyFingerprint, reason: &str) -> (r: Self)
        ensures
            r@.event_type == event_type,
            r@.parent_fingerprint == parent_fingerprint@,
            r@.initiated_by == "ignite-cli"@,
            r@.reason == reason@,
            0 <= r@.initiated_at <= MAX_TIMESTAMP_MICROS,
    {
        ManifestEvent {
            event_type,
            parent_fingerprint,
            initiated_at: now_micros_clamped(),
            initiated_by: String::from_str("ignite-cli"),
            reason: reason.to_owned(),
        }
    }
}

/// Mathematical view of a manifest digest.
pub struct ManifestDigestView {
    pub algorithm: Seq<char>,
    pub value: Seq<char>,
    pub manifest_body: Seq<char>,
}

/// Digest metadata sealing a manifest.
#[derive(Debug, Clone)]
pub struct ManifestDigest {
    pub algorithm: String,
    pub value: String,
    pub manifest_body: String,
}

impl View for ManifestDigest {
    type V = ManifestDigestView;

    closed spec fn view(&self) -> ManifestDigestView {
        ManifestDigestView {
            algorithm: self.algorithm@,
            value: self.value@,
            manifest_body: self.manifest_body@,
        }
    }
}

impl ManifestDigest {
    /// Digest a canonical JSON body with SHA-256.
    pub fn compute(canonical_json: &str) -> (r: Self)
        ensures
            r@.algorithm == "SHA256"@,
            r@.value == spec_payload_digest(canonical_json@),
            r@.manifest_body == "canonical"@,
    {
        let digest_bytes = sha256(canonical_json.as_bytes());
        ManifestDigest {
            algorithm: String::from_str("SHA256"),
            value: to_hex(digest_bytes.as_slice()),
            manifest_body: String::from_str("canonical"),
        }
    }
}

/// Mathematical view of a scope.
pub struct ManifestScopeView {
    pub paths: Seq<Seq<char>>,
    pub env: Seq<char>,
}

/// Scope metadata for an affected key: paths and environment.
#[derive(Debug, Clone)]
pub struct ManifestScope {
    pub paths: Vec<String>,
    pub env: String,
}

impl View for ManifestScope {
    type V = ManifestScopeView;

    closed spec fn view(&self) -> ManifestScopeView {
        ManifestScopeView { paths: self.paths@.map_values(|p: String| p@), env: self.env@ }
    }
}

impl ManifestScope {
    /// Assemble a scope; path order is the caller's.
    pub fn new(paths: Vec<String>, env: &str) -> (r: Self)
        ensures
            r@.paths == paths@.map_values(|p: String| p@),
            r@.env == env@,
    {
        ManifestScope { paths, env: env.to_owned() }
    }
}

/// The JSON array body for a list of paths: quoted, escaped, joined by
/// commas.
pub open spec fn spec_paths_json(ps: Seq<Seq<char>>) -> Seq<char>
    decreases ps.len(),
{
    if ps.len() == 0 {
        Seq::empty()
    } else if ps.len() == 1 {
        "\""@ + spec_escape(ps[0]) + "\""@
    } else {
        "\""@ + spec_escape(ps[0]) + "\""@ + ","@ + spec_paths_json(ps.drop_first())
    }
}

proof fn lemma_paths_json_snoc(ps: Seq<Seq<char>>, p: Seq<char>)
    ensures
        spec_paths_json(ps.push(p)) == if ps.len() == 0 {
            "\""@ + spec_escape(p) + "\""@
        } else {
            spec_paths_json(ps) + ","@ + "\""@ + spec_escape(p) + "\""@
        },
    decreases ps.len(),
{
    if ps.len() == 0 {
        assert(ps.push(p)[0] == p);
        assert(spec_paths_json(ps.push(p)) =~= "\""@ + spec_escape(p) + "\""@);
    } else {
        assert(ps.push(p).drop_first() =~= ps.drop_first().push(p));
        lemma_paths_json_snoc(ps.drop_first(), p);
        if ps.len() == 1 {
            assert(spec_paths_json(ps.push(p)) =~= spec_paths_json(ps) + ","@ + "\""@
                + spec_escape(p) + "\""@);
        } else {
            assert(spec_paths_json(ps.push(p)) =~= spec_paths_json(ps) + ","@ + "\""@
                + spec_escape(p) + "\""@);
        }
    }
}

/// The JSON form of a scope object.
pub open spec fn spec_scope_json(s: ManifestScopeView) -> Seq<char> {
    "{\"env\":\""@ + spec_escape(s.env) + "\",\"paths\":["@ + spec_paths_json(s.paths) + "]}"@
}

/// Render a scope as JSON.
fn scope_json(s: &ManifestScope) -> (r: String)
    ensures
        r@ == spec_scope_json(s@),
{
    let mut r = String::new();
    r.append("{\"env\":\"");
    let env_escaped = json_escape(s.env.as_str());
    r.append(env_escaped.as_str());
    r.append("\",\"paths\":[");
    let n = s.paths.len();
    let mut i: usize = 0;
    let ghost paths_view = s@.paths;
    while i < n
        invariant
            n == s.paths@.len(),
            paths_view == s@.paths,
            paths_view == s.paths@.map_values(|p: String| p@),
            i <= n,
            r@ == spec_scope_json(s@).take(
                ("{\"env\":\""@ + spec_escape(s@.env) + "\",\"paths\":["@).len() as int,
            ) + spec_paths_json(paths_view.take(i as int)),
        decreases n - i,
    {
        if i > 0 {
            r.append(",");
        }
        r.append("\"");
        let escaped = json_escape(s.paths[i].as_str());
        r.append(escaped.as_str());
        r.append("\"");
        proof {
            lemma_paths_json_snoc(paths_view.take(i as int), paths_view[i as int]);
            assert(paths_view.take(i as int).push(paths_view[i as int]) =~= paths_view.take(
                i + 1,
            ));
            assert(r@ =~= spec_scope_json(s@).take(
                ("{\"env\":\""@ + spec_escape(s@.env) + "\",\"paths\":["@).len() as int,
            ) + spec_paths_json(paths_view.take(i + 1)));
        }
        i = i + 1;
    }
    r.append("]}");
    proof {
        assert(paths_view.take(n as int) =~= paths_view);
        assert(r@ =~= spec_scope_json(s@));
    }
    r
}

/// Mathematical view of an affected child entry.
pub struct ManifestChildView {
    pub fingerprint: FingerprintView,
    pub role: KeyType,
    pub status: Seq<char>,
    pub ciphertext_md5: Option<Seq<char>>,
    pub scope: Option<ManifestScopeView>,
    pub issued_at: i64,
    pub revoked_at: Option<i64>,
}

impl ManifestChildView {
    /// The timestamps a renderer must be able to express.
    pub open spec fn times_in_range(self) -> bool {
        &&& 0 <= self.issued_at <= MAX_TIMESTAMP_MICROS
        &&& self.revoked_at matches Some(t) ==> 0 <= t <= MAX_TIMESTAMP_MICROS
    }
}

/// A single affected child key entry.
#[derive(Debug, Clone)]
pub struct ManifestChild {
    pub fingerprint: KeyFingerprint,
    pub role: KeyType,
    pub status: String,
    pub ciphertext_md5: Option<String>,
    pub scope: Option<ManifestScope>,
    pub issued_at: i64,
    pub revoked_at: Option<i64>,
}

impl View for ManifestChild {
    type V = ManifestChildView;

    closed spec fn view(&self) -> ManifestChildView {
        ManifestChildView {
            fingerprint: self.fingerprint@,
            role: self.role,
            status: self.status@,
            ciphertext_md5: match self.ciphertext_md5 {
                Some(m) => Some(m@),
                None => None,
            },
            scope: match self.scope {
                Some(s) => Some(s@),
                None => None,
            },
            issued_at: self.issued_at,
            revoked_at: self.revoked_at,
        }
    }
}

/// The canonical JSON of one child entry: optional keys appear only when
/// set, in the documented order.
pub open spec fn spec_child_canonical(c: ManifestChildView) -> Seq<char> {
    "{"@ + (match c.ciphertext_md5 {
        Some(m) => "\"ciphertext_md5\":\""@ + spec_escape(m) + "\","@,
        None => Seq::empty(),
    }) + "\"fingerprint\":\""@ + spec_fp_text(c.fingerprint) + "\",\"issued_at\":\""@ + rfc3339_of(
        c.issued_at,
    ) + "\",\"role\":\""@ + spec_key_type_name(c.role) + "\","@ + (match c.scope {
        Some(s) => "\"scope\":"@ + spec_scope_json(s) + ","@,
        None => Seq::empty(),
    }) + "\"status\":\""@ + spec_escape(c.status) + "\""@ + (match c.revoked_at {
        Some(t) => ",\"revoked_at\":\""@ + rfc3339_of(t) + "\""@,
        None => Seq::empty(),
    }) + "}"@
}

impl ManifestChild {
    /// A fresh entry with no optional fields set.
    pub fn new(fingerprint: KeyFingerprint, role: KeyType, status: &str, issued_at: i64) -> (r:
        Self)
        ensures
            r@.fingerprint == fingerprint@,
            r@.role == role,
            r@.status == status@,
            r@.ciphertext_md5 is None,
            r@.scope is None,
            r@.issued_at == issued_at,
            r@.revoked_at is None,
    {
        ManifestChild {
            fingerprint,
            role,
            status: status.to_owned(),
            ciphertext_md5: None,
            scope: None,
            issued_at,
            revoked_at: None,
        }
    }

    /// Record the revocation instant.
    pub fn with_revocation(self, revoked_at: i64) -> (r: Self)
        ensures
            r@ == (ManifestChildView { revoked_at: Some(revoked_at), ..self@ }),
    {
        ManifestChild { revoked_at: Some(revoked_at), ..self }
    }

    /// Attach a scope.
    pub fn with_scope(self, scope: ManifestScope) -> (r: Self)
        ensures
            r@ == (ManifestChildView { scope: Some(scope@), ..self@ }),
    {
        ManifestChild { scope: Some(scope), ..self }
    }

    /// Record the ciphertext digest of the re-encrypted payload.
    pub fn with_ciphertext_md5(self, md5: String) -> (r: Self)
        ensures
            r@ == (ManifestChildView { ciphertext_md5: Some(md5@), ..self@ }),
    {
        ManifestChild { ciphertext_md5: Some(md5), ..self }
    }

    /// Render the canonical JSON of this entry.
    #[verifier::rlimit(60)]
    fn to_canonical_json(&self) -> (r: String)
        requires
            self@.times_in_range(),
        ensures
            r@ == spec_child_canonical(self@),
    {
        let mut r = String::new();
        r.append("{");
        match &self.ciphertext_md5 {
            Some(m) => {
                r.append("\"ciphertext_md5\":\"");
                let escaped = json_escape(m.as_str());
                r.append(escaped.as_str());
                r.append("\",");
            },
            None => {},
        }
        r.append("\"fingerprint\":\"");
        let fp_text = self.fingerprint.display_string();
        r.append(fp_text.as_str());
        r.append("\",\"issued_at\":\"");
        let issued = rfc3339_utc(self.issued_at);
        r.append(issued.as_str());
        r.append("\",\"role\":\"");
        r.append(self.role.as_str());
        r.append("\",");
        match &self.scope {
            Some(s) => {
                r.append("\"scope\":");
                let sj = scope_json(s);
                r.append(sj.as_str());
                r.append(",");
            },
            None => {},
        }
        r.append("\"status\":\"");
        let status_escaped = json_escape(self.status.as_str());
        r.append(status_escaped.as_str());
        r.append("\"");
        match self.revoked_at {
            Some(t) => {
                r.append(",\"revoked_at\":\"");
                let revoked = rfc3339_utc(t);
                r.append(revoked.as_str());
                r.append("\"");
            },
            None => {},
        }
        r.append("}");
        proof {
            assert(r@ =~= spec_child_canonical(self@));
        }
        r
    }
}

/// The JSON array body for the children list.
pub open spec fn spec_children_json(cs: Seq<ManifestChildView>) -> Seq<char>
    decreases cs.len(),
{
    if cs.len() == 0 {
        Seq::empty()
    } else if cs.len() == 1 {
        spec_child_canonical(cs[0])
    } else {
        spec_child_canonical(cs[0]) + ","@ + spec_children_json(cs.drop_first())
    }
}

proof fn lemma_children_json_snoc(cs: Seq<ManifestChildView>, c: ManifestChildView)
    ensures
        spec_children_json(cs.push(c)) == if cs.len() == 0 {
            spec_child_canonical(c)
        } else {
            spec_children_json(cs) + ","@ + spec_child_canonical(c)
        },
    decreases cs.len(),
{
    if cs.len() == 0 {
        assert(cs.push(c)[0] == c);
        assert(spec_children_json(cs.push(c)) =~= spec_child_canonical(c));
    } else {
        assert(cs.push(c).drop_first() =~= cs.drop_first().push(c));
        lemma_children_json_snoc(cs.drop_first(), c);
        assert(spec_children_json(cs.push(c)) =~= spec_children_json(cs) + ","@
            + spec_child_canonical(c));
    }
}

/// The JSON form of the event object.
pub open spec fn spec_event_json(e: ManifestEventView) -> Seq<char> {
    "{\"event_type\":\""@ + spec_event_type_name(e.event_type) + "\",\"initiated_at\":\""@
        + rfc3339_of(e.initiated_at) + "\",\"initiated_by\":\""@ + spec_escape(e.initiated_by)
        + "\",\"parent_fingerprint\":\""@ + spec_fp_text(e.parent_fingerprint) + "\",\"reason\":\""@
        + spec_escape(e.reason) + "\"}"@
}

/// Mathematical view of a manifest.
pub struct ManifestView {
    pub schema_version: Seq<char>,
    pub event: ManifestEventView,
    pub digest: Option<ManifestDigestView>,
    pub children: Seq<ManifestChildView>,
}

impl ManifestView {
    /// The timestamps a renderer must be able to express.
    pub open spec fn times_in_range(self) -> bool {
        &&& 0 <= self.event.initiated_at <= MAX_TIMESTAMP_MICROS
        &&& forall|i: int|
            0 <= i < self.children.len() ==> (#[trigger] self.children[i]).times_in_range()
    }
}

/// The canonical JSON of a manifest: children, event and schema version,
/// without the digest object.
pub open spec fn spec_manifest_canonical(m: ManifestView) -> Seq<char> {
    "{\"children\":["@ + spec_children_json(m.children) + "],\"event\":"@ + spec_event_json(
        m.event,
    ) + ",\"schema_version\":\""@ + m.schema_version + "\"}"@
}

/// The output JSON with the digest object spliced in between the
/// children and the event.
pub open spec fn spec_manifest_with_digest(m: ManifestView, d: ManifestDigestView) -> Seq<char> {
    "{\"children\":["@ + spec_children_json(m.children) + "],\"digest\":{\"algorithm\":\""@
        + d.algorithm + "\",\"manifest_body\":\""@ + d.manifest_body + "\",\"value\":\""@ + d.value
        + "\"},\"event\":"@ + spec_event_json(m.event) + ",\"schema_version\":\""@
        + m.schema_version + "\"}"@
}

/// Complete affected-key manifest.
#[derive(Debug, Clone)]
pub struct AffectedKeyManifest {
    pub schema_version: String,
    pub event: ManifestEvent,
    pub digest: Option<ManifestDigest>,
    pub children: Vec<ManifestChild>,
}

impl View for AffectedKeyManifest {
    type V = ManifestView;

    closed spec fn view(&self) -> ManifestView {
        ManifestView {
            schema_version: self.schema_version@,
            event: self.event@,
            digest: match self.digest {
                Some(d) => Some(d@),
                None => None,
            },
            children: self.children@.map_values(|c: ManifestChild| c@),
        }
    }
}

impl AffectedKeyManifest {
    /// A fresh manifest for an event: schema 1.0, no children, unsealed.
    pub fn new(event: ManifestEvent) -> (r: Self)
        ensures
            r@.schema_version == "1.0"@,
            r@.event == event@,
            r@.digest is None,
            r@.children == Seq::<ManifestChildView>::empty(),
    {
        let r = AffectedKeyManifest {
            schema_version: String::from_str("1.0"),
            event,
            digest: None,
            children: Vec::new(),
        };
        proof {
            assert(r@.children =~= Seq::<ManifestChildView>::empty());
        }
        r
    }

    /// Append an affected child entry.
    pub fn add_child(&mut self, child: ManifestChild)
        ensures
            final(self)@ == (ManifestView {
                children: old(self)@.children.push(child@),
                ..old(self)@
            }),
    {
        let ghost pre = self@;
        self.children.push(child);
        proof {
            assert(self@.children =~= pre.children.push(self.children@.last()@));
        }
    }

    /// Whether every timestamp in the manifest lies in the range the
    /// renderers accept; callers holding foreign data check this before
    /// rendering or verifying.
    pub fn times_in_range_check(&self) -> (r: bool)
        ensures
            r == self@.times_in_range(),
    {
        if !(0 <= self.event.initiated_at && self.event.initiated_at <= MAX_TIMESTAMP_MICROS) {
            return false;
        }
        let n = self.children.len();
        let mut i: usize = 0;
        while i < n
            invariant
                n == self.children@.len(),
                self@.children == self.children@.map_values(|c: ManifestChild| c@),
                i <= n,
                0 <= self@.event.initiated_at <= MAX_TIMESTAMP_MICROS,
                forall|j: int| 0 <= j < i ==> (#[trigger] self@.children[j]).times_in_range(),
            decreases n - i,
        {
            let c = &self.children[i];
            if !(0 <= c.issued_at && c.issued_at <= MAX_TIMESTAMP_MICROS) {
                proof {
                    assert(!self@.children[i as int].times_in_range());
                }
                return false;
            }
            match c.revoked_at {
                Some(t) => {
                    if !(0 <= t && t <= MAX_TIMESTAMP_MICROS) {
                        proof {
                            assert(!self@.children[i as int].times_in_range());
                        }
                        return false;
                    }
                },
                None => {},
            }
            proof {
                assert(self@.children[i as int].times_in_range());
            }
            i = i + 1;
        }
        true
    }

    /// Render the canonical JSON form, without any digest object.
    pub fn to_canonical_json(&self) -> (r: IgniteResult<String>)
        requires
            self@.times_in_range(),
        ensures
            r matches Ok(s) && s@ == spec_manifest_canonical(self@),
    {
        let mut r = String::new();
        r.append("{\"children\":[");
        let n = self.children.len();
        let mut i: usize = 0;
        let ghost children_view = self@.children;
        while i < n
            invariant
                n == self.children@.len(),
                children_view == self@.children,
                children_view == self.children@.map_values(|c: ManifestChild| c@),
                self@.times_in_range(),
                i <= n,
                r@ == "{\"children\":["@ + spec_children_json(children_view.take(i as int)),
            decreases n - i,
        {
            if i > 0 {
                r.append(",");
            }
            proof {
                assert(children_view[i as int].times_in_range());
            }
            let cj = self.children[i].to_canonical_json();
            r.append(cj.as_str());
            proof {
                lemma_children_json_snoc(children_view.take(i as int), children_view[i as int]);
                assert(children_view.take(i as int).push(children_view[i as int])
                    =~= children_view.take(i + 1));
                assert(r@ =~= "{\"children\":["@ + spec_children_json(children_view.take(i + 1)));
            }
            i = i + 1;
        }
        r.append("],\"event\":");
        let ev = self.event_json();
        r.append(ev.as_str());
        r.append(",\"schema_version\":\"");
        r.append(self.schema_version.as_str());
        r.append("\"}");
        proof {
            assert(children_view.take(n as int) =~= children_view);
            assert(r@ =~= spec_manifest_canonical(self@));
        }
        Ok(r)
    }

    /// Render the event object.
    fn event_json(&self) -> (r: String)
        requires
            0 <= self@.event.initiated_at <= MAX_TIMESTAMP_MICROS,
        ensures
            r@ == spec_event_json(self@.event),
    {
        let mut r = String::new();
        r.append("{\"event_type\":\"");
        r.append(self.event.event_type.as_str());
        r.append("\",\"initiated_at\":\"");
        let initiated = rfc3339_utc(self.event.initiated_at);
        r.append(initiated.as_str());
        r.append("\",\"initiated_by\":\"");
        let by_escaped = json_escape(self.event.initiated_by.as_str());
        r.append(by_escaped.as_str());
        r.append("\",\"parent_fingerprint\":\"");
        let fp_text = self.event.parent_fingerprint.display_string();
        r.append(fp_text.as_str());
        r.append("\",\"reason\":\"");
        let reason_escaped = json_escape(self.event.reason.as_str());
        r.append(reason_escaped.as_str());
        r.append("\"}");
        proof {
            assert(r@ =~= spec_event_json(self@.event));
        }
        r
    }

    /// Seal the manifest: compute and store the digest of the canonical
    /// form.
    pub fn compute_digest(&mut self) -> (r: IgniteResult<()>)
        requires
            old(self)@.times_in_range(),
        ensures
            r is Ok,
            final(self)@ == (ManifestView {
                digest: Some(
                    ManifestDigestView {
                        algorithm: "SHA256"@,
                        value: spec_payload_digest(spec_manifest_canonical(old(self)@)),
                        manifest_body: "canonical"@,
                    },
                ),
                ..old(self)@
            }),
    {
        let canonical = match self.to_canonical_json() {
            Ok(c) => c,
            Err(e) => {
                return Err(e);
            },
        };
        self.digest = Some(ManifestDigest::compute(canonical.as_str()));
        Ok(())
    }

    /// Render the output JSON with the digest object included.
    pub fn to_json_with_digest(&self) -> (r: IgniteResult<String>)
        requires
            self@.times_in_range(),
        ensures
            match r {
                Ok(s) => self@.digest matches Some(d) && s@ == spec_manifest_with_digest(self@, d),
                Err(e) => self@.digest is None && is_invalid_operation(e, "serialize_manifest"@),
            },
    {
        let digest = match &self.digest {
            Some(d) => d,
            None => {
                return Err(IgniteError::InvalidOperation {
                    operation: String::from_str("serialize_manifest"),
                    reason: String::from_str("Digest not computed - call compute_digest() first"),
                });
            },
        };
        let mut r = String::new();
        r.append("{\"children\":[");
        let n = self.children.len();
        let mut i: usize = 0;
        let ghost children_view = self@.children;
        while i < n
            invariant
                n == self.children@.len(),
                children_view == self@.children,
                children_view == self.children@.map_values(|c: ManifestChild| c@),
                self@.times_in_range(),
                i <= n,
                r@ == "{\"children\":["@ + spec_children_json(children_view.take(i as int)),
            decreases n - i,
        {
            if i > 0 {
                r.append(",");
            }
            proof {
                assert(children_view[i as int].times_in_range());
            }
            let cj = self.children[i].to_canonical_json();
            r.append(cj.as_str());
            proof {
                lemma_children_json_snoc(children_view.take(i as int), children_view[i as int]);
                assert(children_view.take(i as int).push(children_view[i as int])
                    =~= children_view.take(i + 1));
                assert(r@ =~= "{\"children\":["@ + spec_children_json(children_view.take(i + 1)));
            }
            i = i + 1;
        }
        r.append("],\"digest\":{\"algorithm\":\"");
        r.append(digest.algorithm.as_str());
        r.append("\",\"manifest_body\":\"");
        r.append(digest.manifest_body.as_str());
        r.append("\",\"value\":\"");
        r.append(digest.value.as_str());
        r.append("\"},\"event\":");
        let ev = self.event_json();
        r.append(ev.as_str());
        r.append(",\"schema_version\":\"");
        r.append(self.schema_version.as_str());
        r.append("\"}");
        proof {
            assert(children_view.take(n as int) =~= children_view);
            assert(self@.digest matches Some(d) && r@ =~= spec_manifest_with_digest(self@, d));
        }
        Ok(r)
    }

    /// Recompute the canonical digest and compare it with the sealed one.
    pub fn verify_digest(&self) -> (r: IgniteResult<()>)
        requires
            self@.times_in_range(),
        ensures
            r is Ok <==> (self@.digest matches Some(d) && d.value == spec_payload_digest(
                spec_manifest_canonical(self@),
            )),
            self@.digest is None ==> (r matches Err(e) && is_invalid_operation(
                e,
                "verify_manifest_digest"@,
            )),
            (self@.digest matches Some(d) && d.value != spec_payload_digest(
                spec_manifest_canonical(self@),
            )) ==> (r matches Err(e) && is_crypto_error(e, "verify_manifest_digest"@)),
    {
        let stored = match &self.digest {
            Some(d) => d,
            None => {
                return Err(IgniteError::InvalidOperation {
                    operation: String::from_str("verify_manifest_digest"),
                    reason: String::from_str("No digest present in manifest"),
                });
            },
        };
        let canonical = match self.to_canonical_json() {
            Ok(c) => c,
            Err(e) => {
                return Err(e);
            },
        };
        let computed = ManifestDigest::compute(canonical.as_str());
        if computed.value == stored.value {
            Ok(())
        } else {
            Err(IgniteError::CryptoError {
                operation: String::from_str("verify_manifest_digest"),
                reason: String::from_str("Digest mismatch - manifest may have been tampered with"),
            })
        }
    }

    /// The relative storage name: parent prefix, compact timestamp and
    /// event type.
    pub fn filename(&self) -> (r: String)
        requires
            0 <= self@.event.initiated_at <= MAX_TIMESTAMP_MICROS,
        ensures
            r@ == self@.event.parent_fingerprint.hex.take(
                if self@.event.parent_fingerprint.hex.len() < 8 {
                    self@.event.parent_fingerprint.hex.len() as int
                } else {
                    8
                },
            ) + "/"@ + compact_time_of(self@.event.initiated_at) + "_"@ + spec_event_type_name(
                self@.event.event_type,
            ) + ".json"@,
    {
        let mut r = String::new();
        let short = self.event.parent_fingerprint.short();
        r.append(short.as_str());
        r.append("/");
        let stamp = compact_time_utc(self.event.initiated_at);
        r.append(stamp.as_str());
        r.append("_");
        r.append(self.event.event_type.as_str());
        r.append(".json");
        r
    }
}

/// Sealing then checking succeeds: the digest stored by `compute_digest`
/// is exactly the digest of the canonical form, which does not read the
/// digest field, so the freshly sealed manifest passes `verify_digest`.
pub proof fn lemma_seal_then_verify(m: ManifestView)
    ensures
        ({
            let sealed = ManifestView {
                digest: Some(
                    ManifestDigestView {
                        algorithm: "SHA256"@,
                        value: spec_payload_digest(spec_manifest_canonical(m)),
                        manifest_body: "canonical"@,
                    },
                ),
                ..m
            };
            sealed.digest matches Some(d) && d.value == spec_payload_digest(
                spec_manifest_canonical(sealed),
            )
        }),
{
}

/// The canonical JSON of a manifest is a function of its contents alone:
/// equal manifests serialize to identical bytes on every rendering.
pub proof fn lemma_manifest_canonical_deterministic(m1: ManifestView, m2: ManifestView)
    requires
        m1 == m2,
    ensures
        spec_manifest_canonical(m1) == spec_manifest_canonical(m2),
{
}

} // verus!
