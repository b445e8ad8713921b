//! Generation-stamped handles owned by runtime sessions: acquire, resolve,
//! retain, release and cascade release when a runtime session closes.
//!
//! The registry keeps its records ordered by key (kind, then token), so a
//! close reports leaked handles in key order.
use vstd::prelude::*;

use crate::runtime::error::{RuntimeError, RuntimeErrorKind};
use crate::runtime::media::{
    descriptors_same_device, descriptors_same_frame_metadata, same_device, same_frame_metadata,
    TextureHandleDescriptor,
};
use crate::runtime::session::{RuntimeSessionId, SessionIdView};
use crate::text::{lemma_numbered_ids_distinct, 
    append_str, append_string, decimal, lemma_seq_char_lt_asymmetric, lemma_seq_char_lt_irreflexive,
    lemma_seq_char_lt_total, lemma_seq_char_lt_transitive, lit, seq_char_lt, str_lt, u64_to_decimal,
};

verus! {

/// What a handle stands for.
#[derive(Debug, Clone, Copy, PartialEq, Eq, Structural)]
pub enum HandleKind {
    RuntimeSession,
    ProjectSession,
    Media,
    Frame,
    Texture,
    Artifact,
}

/// Position of a kind in the key order (declaration order).
pub open spec fn kind_rank(k: HandleKind) -> int {
    match k {
        HandleKind::RuntimeSession => 0,
        HandleKind::ProjectSession => 1,
        HandleKind::Media => 2,
        HandleKind::Frame => 3,
        HandleKind::Texture => 4,
        HandleKind::Artifact => 5,
    }
}

/// Token prefix of handles of a kind.
pub open spec fn kind_prefix(k: HandleKind) -> Seq<char> {
    match k {
        HandleKind::RuntimeSession => "runtimeHandle"@,
        HandleKind::ProjectSession => "projectSessionHandle"@,
        HandleKind::Media => "mediaHandle"@,
        HandleKind::Frame => "frameHandle"@,
        HandleKind::Texture => "textureHandle"@,
        HandleKind::Artifact => "artifactHandle"@,
    }
}

impl HandleKind {
    fn token_prefix(self) -> (s: &'static str)
        ensures
            s@ == kind_prefix(self),
    {
        match self {
            HandleKind::RuntimeSession => "runtimeHandle",
            HandleKind::ProjectSession => "projectSessionHandle",
            HandleKind::Media => "mediaHandle",
            HandleKind::Frame => "frameHandle",
            HandleKind::Texture => "textureHandle",
            HandleKind::Artifact => "artifactHandle",
        }
    }

    fn rank(self) -> (r: u8)
        ensures
            r as int == kind_rank(self),
    {
        match self {
            HandleKind::RuntimeSession => 0,
            HandleKind::ProjectSession => 1,
            HandleKind::Media => 2,
            HandleKind::Frame => 3,
            HandleKind::Texture => 4,
            HandleKind::Artifact => 5,
        }
    }
}

/// Value of a handle token.
pub struct TokenView {
    pub kind: HandleKind,
    pub token: Seq<char>,
    pub owner: SessionIdView,
    pub generation: u64,
}

/// A handle: kind, opaque token, owning runtime session and generation.
#[derive(Debug, Clone)]
pub struct HandleToken {
    kind: HandleKind,
    token: String,
    owner_session: RuntimeSessionId,
    generation: u64,
}

impl View for HandleToken {
    type V = TokenView;

    closed spec fn view(&self) -> TokenView {
        TokenView { kind: self.kind, token: self.token@, owner: self.owner_session@, generation: self.generation }
    }
}

impl HandleToken {
    pub fn from_raw_parts(kind: HandleKind, token: String, owner_session: RuntimeSessionId, generation: u64) -> (t: Self)
        ensures
            t@ == (TokenView { kind, token: token@, owner: owner_session@, generation }),
    {
        HandleToken { kind, token, owner_session, generation }
    }

    pub fn kind(&self) -> (k: HandleKind)
        ensures
            k == self@.kind,
    {
        self.kind
    }

    pub fn as_str(&self) -> (s: &str)
        ensures
            s@ == self@.token,
    {
        self.token.as_str()
    }

    pub fn owner_session(&self) -> (o: &RuntimeSessionId)
        ensures
            o@ == self@.owner,
    {
        &self.owner_session
    }

    pub fn generation(&self) -> (g: u64)
        ensures
            g == self@.generation,
    {
        self.generation
    }

    /// The same handle stamped with another generation.
    pub fn with_generation(&self, generation: u64) -> (t: Self)
        ensures
            t@ == (TokenView { generation, ..self@ }),
    {
        HandleToken {
            kind: self.kind,
            token: self.token.clone(),
            owner_session: self.owner_session.duplicate(),
            generation,
        }
    }

    /// An equal copy.
    pub fn duplicate(&self) -> (t: Self)
        ensures
            t@ == self@,
    {
        self.with_generation(self.generation)
    }

    fn same_key(&self, other: &HandleToken) -> (r: bool)
        ensures
            r == same_key(self@, other@),
    {
        self.kind == other.kind && self.token == other.token
    }

    fn key_lt(&self, other: &HandleToken) -> (r: bool)
        ensures
            r == key_lt(self@, other@),
    {
        let a = self.kind.rank();
        let b = other.kind.rank();
        if a < b {
            true
        } else if a > b {
            false
        } else {
            proof {
                lemma_rank_injective(self.kind, other.kind);
            }
            str_lt(self.token.as_str(), other.token.as_str())
        }
    }
}

/// Handles are looked up by kind and token.
pub open spec fn same_key(a: TokenView, b: TokenView) -> bool {
    a.kind == b.kind && a.token == b.token
}

/// Key order: kind first, then token characters.
pub open spec fn key_lt(a: TokenView, b: TokenView) -> bool {
    kind_rank(a.kind) < kind_rank(b.kind) || (a.kind == b.kind && seq_char_lt(a.token, b.token))
}

proof fn lemma_rank_injective(a: HandleKind, b: HandleKind)
    ensures
        kind_rank(a) == kind_rank(b) <==> a == b,
{
}

proof fn lemma_key_order(a: TokenView, b: TokenView, c: TokenView)
    ensures
        !key_lt(a, a),
        key_lt(a, b) && key_lt(b, c) ==> key_lt(a, c),
        same_key(a, b) || key_lt(a, b) || key_lt(b, a),
        key_lt(a, b) ==> !key_lt(b, a) && !same_key(a, b),
        same_key(a, b) ==> (key_lt(a, c) == key_lt(b, c) && key_lt(c, a) == key_lt(c, b)),
{
    lemma_seq_char_lt_irreflexive(a.token);
    lemma_seq_char_lt_total(a.token, b.token);
    if key_lt(a, b) && key_lt(b, c) && a.kind == b.kind && b.kind == c.kind {
        lemma_seq_char_lt_transitive(a.token, b.token, c.token);
    }
    if key_lt(a, b) && a.kind == b.kind {
        lemma_seq_char_lt_asymmetric(a.token, b.token);
        lemma_seq_char_lt_irreflexive(a.token);
    }
    lemma_rank_injective(a.kind, b.kind);
    lemma_rank_injective(b.kind, c.kind);
    lemma_rank_injective(a.kind, c.kind);
}

/// How a handle was released.
#[derive(Debug, Clone, Copy, PartialEq, Eq, Structural)]
pub enum HandleReleaseState {
    Explicit,
    CascadeClose,
}

/// Result of releasing a handle.
#[derive(Debug, Clone)]
pub struct HandleReleaseReport {
    pub token: HandleToken,
    pub kind: HandleKind,
    pub owner_session: RuntimeSessionId,
    pub generation: u64,
    pub outstanding_count: usize,
    pub release_state: HandleReleaseState,
}

/// Result of resolving or retaining a handle.
#[derive(Debug, Clone)]
pub struct HandleResolution {
    pub token: HandleToken,
    pub kind: HandleKind,
    pub owner_session: RuntimeSessionId,
    pub generation: u64,
}

/// A handle still outstanding when its runtime session closed.
#[derive(Debug, Clone)]
pub struct RuntimeLeakDiagnostic {
    pub token: HandleToken,
    pub kind: HandleKind,
    pub owner_session: RuntimeSessionId,
    pub generation: u64,
    pub outstanding_count: usize,
    pub release_state: HandleReleaseState,
}

/// Result of closing a runtime session.
#[derive(Debug, Clone)]
pub struct RuntimeCloseReport {
    pub owner_session: RuntimeSessionId,
    pub leak_diagnostics: Vec<RuntimeLeakDiagnostic>,
}

/// Texture metadata a resolve expects the handle to have.
#[derive(Debug, Clone)]
pub struct TextureResolveExpectation {
    pub descriptor: TextureHandleDescriptor,
}

/// A request for a new handle.
#[derive(Debug, Clone)]
pub struct HandleAcquireRequest {
    kind: HandleKind,
    owner_session: RuntimeSessionId,
    texture: Option<TextureHandleDescriptor>,
    lease_expires_at_us: Option<u64>,
}

/// Value of an acquire request.
pub struct RequestView {
    pub kind: HandleKind,
    pub owner: SessionIdView,
    pub texture: Option<TextureHandleDescriptor>,
    pub lease: Option<u64>,
}

impl View for HandleAcquireRequest {
    type V = RequestView;

    closed spec fn view(&self) -> RequestView {
        RequestView {
            kind: self.kind,
            owner: self.owner_session@,
            texture: self.texture,
            lease: self.lease_expires_at_us,
        }
    }
}

impl HandleAcquireRequest {
    fn new(kind: HandleKind, owner_session: RuntimeSessionId) -> (r: Self)
        ensures
            r@ == (RequestView { kind, owner: owner_session@, texture: None, lease: None }),
    {
        HandleAcquireRequest { kind, owner_session, texture: None, lease_expires_at_us: None }
    }

    pub fn runtime_session(owner_session: RuntimeSessionId) -> (r: Self)
        ensures
            r@ == (RequestView { kind: HandleKind::RuntimeSession, owner: owner_session@, texture: None, lease: None }),
    {
        Self::new(HandleKind::RuntimeSession, owner_session)
    }

    pub fn project_session(owner_session: RuntimeSessionId) -> (r: Self)
        ensures
            r@ == (RequestView { kind: HandleKind::ProjectSession, owner: owner_session@, texture: None, lease: None }),
    {
        Self::new(HandleKind::ProjectSession, owner_session)
    }

    pub fn media(owner_session: RuntimeSessionId) -> (r: Self)
        ensures
            r@ == (RequestView { kind: HandleKind::Media, owner: owner_session@, texture: None, lease: None }),
    {
        Self::new(HandleKind::Media, owner_session)
    }

    pub fn frame(owner_session: RuntimeSessionId) -> (r: Self)
        ensures
            r@ == (RequestView { kind: HandleKind::Frame, owner: owner_session@, texture: None, lease: None }),
    {
        Self::new(HandleKind::Frame, owner_session)
    }

    pub fn texture(owner_session: RuntimeSessionId, descriptor: TextureHandleDescriptor) -> (r: Self)
        ensures
            r@ == (RequestView {
                kind: HandleKind::Texture,
                owner: owner_session@,
                texture: Some(descriptor),
                lease: None,
            }),
    {
        HandleAcquireRequest {
            kind: HandleKind::Texture,
            owner_session,
            texture: Some(descriptor),
            lease_expires_at_us: None,
        }
    }

    pub fn artifact(owner_session: RuntimeSessionId) -> (r: Self)
        ensures
            r@ == (RequestView { kind: HandleKind::Artifact, owner: owner_session@, texture: None, lease: None }),
    {
        Self::new(HandleKind::Artifact, owner_session)
    }

    /// The same request with a lease that expires at `expires_at_us`.
    pub fn with_lease_expires_at_us(self, expires_at_us: u64) -> (r: Self)
        ensures
            r@ == (RequestView { lease: Some(expires_at_us), ..self@ }),
    {
        HandleAcquireRequest { lease_expires_at_us: Some(expires_at_us), ..self }
    }
}

/// Value of a registry record.
pub struct RecordView {
    pub token: TokenView,
    pub texture: Option<TextureHandleDescriptor>,
    pub count: nat,
    pub lease: Option<u64>,
    pub released: Option<HandleReleaseState>,
}

/// Value of the registry: the id counter and the records in key order.
pub struct RegistryView {
    pub next_id: u64,
    pub records: Seq<RecordView>,
}

/// Records are strictly ordered by key, so each key occurs once.
pub open spec fn records_sorted(recs: Seq<RecordView>) -> bool {
    forall|i: int, j: int| 0 <= i < j < recs.len() ==> key_lt(#[trigger] recs[i].token, #[trigger] recs[j].token)
}

/// A handle that is not released has at least one reference.
pub open spec fn counts_consistent(recs: Seq<RecordView>) -> bool {
    forall|i: int| 0 <= i < recs.len() ==> (#[trigger] recs[i]).released is None ==> recs[i].count >= 1
}

/// Index of the record with the key of `t`, or -1.
pub open spec fn record_index(recs: Seq<RecordView>, t: TokenView) -> int
    decreases recs.len(),
{
    if recs.len() == 0 {
        -1
    } else if same_key(recs.last().token, t) {
        recs.len() - 1
    } else {
        record_index(recs.drop_last(), t)
    }
}

/// Index at which a record with the key of `t` belongs in key order.
pub open spec fn insert_pos(recs: Seq<RecordView>, t: TokenView) -> int
    decreases recs.len(),
{
    if recs.len() == 0 {
        0
    } else if key_lt(t, recs[0].token) {
        0
    } else {
        1 + insert_pos(recs.drop_first(), t)
    }
}

/// Stores a record, replacing the record with the same key if there is one.
pub open spec fn spec_insert(recs: Seq<RecordView>, r: RecordView) -> Seq<RecordView> {
    let i = record_index(recs, r.token);
    if i >= 0 {
        recs.update(i, r)
    } else {
        recs.insert(insert_pos(recs, r.token), r)
    }
}

/// The checks every use of a handle goes through, in order: known key, same
/// owner on both sides, current generation, not released, lease not expired.
pub open spec fn spec_validate(recs: Seq<RecordView>, owner: SessionIdView, t: TokenView, now: u64) -> Result<int, RuntimeErrorKind> {
    let i = record_index(recs, t);
    if i < 0 {
        Err(RuntimeErrorKind::UnknownHandle)
    } else if recs[i].token.owner != owner || t.owner != recs[i].token.owner {
        Err(RuntimeErrorKind::WrongOwner)
    } else if t.generation != recs[i].token.generation {
        Err(RuntimeErrorKind::StaleGeneration)
    } else if recs[i].released is Some {
        Err(RuntimeErrorKind::DoubleRelease)
    } else if recs[i].lease matches Some(expires) && now > expires {
        Err(RuntimeErrorKind::LeaseExpired)
    } else {
        Ok(i)
    }
}

/// Message of a failed handle check on token `tok`.
pub open spec fn validate_message(kind: RuntimeErrorKind, tok: Seq<char>) -> Seq<char> {
    match kind {
        RuntimeErrorKind::UnknownHandle => "handle not found: "@ + tok,
        RuntimeErrorKind::WrongOwner => "handle "@ + tok + " owner session mismatch"@,
        RuntimeErrorKind::StaleGeneration => "handle "@ + tok + " generation is stale"@,
        RuntimeErrorKind::DoubleRelease => "handle "@ + tok + " was already released"@,
        _ => "handle "@ + tok + " lease expired"@,
    }
}

/// A record counts as outstanding for (owner, kind) while not released.
pub open spec fn is_live(r: RecordView, owner: SessionIdView, kind: HandleKind) -> bool {
    r.token.kind == kind && r.token.owner == owner && r.released is None
}

/// Number of outstanding handles of a kind owned by a session.
pub open spec fn outstanding(recs: Seq<RecordView>, owner: SessionIdView, kind: HandleKind) -> nat
    decreases recs.len(),
{
    if recs.len() == 0 {
        0
    } else {
        outstanding(recs.drop_last(), owner, kind) + if is_live(recs.last(), owner, kind) { 1nat } else { 0nat }
    }
}

/// `n + 1`, saturating at `u64::MAX`.
pub open spec fn sat_inc(n: u64) -> u64 {
    if n == u64::MAX { u64::MAX } else { (n + 1) as u64 }
}

/// Token `{prefix}-{id}` created for a request.
pub open spec fn acquired_token(req: RequestView, id: u64) -> TokenView {
    TokenView { kind: req.kind, token: kind_prefix(req.kind) + "-"@ + decimal(id as nat), owner: req.owner, generation: 1 }
}

/// Registry state and result of an acquire.
pub open spec fn spec_acquire(v: RegistryView, req: RequestView) -> (RegistryView, Result<TokenView, RuntimeErrorKind>) {
    if req.kind == HandleKind::Texture && req.texture is None {
        (v, Err(RuntimeErrorKind::InvalidRequest))
    } else {
        let id = sat_inc(v.next_id);
        let t = acquired_token(req, id);
        let r = RecordView { token: t, texture: req.texture, count: 1, lease: req.lease, released: None };
        (RegistryView { next_id: id, records: spec_insert(v.records, r) }, Ok(t))
    }
}

/// Records after one more reference to record `i` is taken.
pub open spec fn spec_retain_records(recs: Seq<RecordView>, i: int) -> Seq<RecordView> {
    recs.update(i, RecordView { count: recs[i].count + 1, ..recs[i] })
}

/// Records after one reference to record `i` is dropped: the last reference
/// marks it explicitly released.
pub open spec fn spec_release_records(recs: Seq<RecordView>, i: int) -> Seq<RecordView> {
    if recs[i].count > 1 {
        recs.update(i, RecordView { count: (recs[i].count - 1) as nat, ..recs[i] })
    } else {
        recs.update(i, RecordView { count: 0, released: Some(HandleReleaseState::Explicit), ..recs[i] })
    }
}

/// A record after its owner session closed.
pub open spec fn cascade(r: RecordView, owner: SessionIdView) -> RecordView {
    if r.token.owner == owner && r.released is None {
        RecordView { count: 0, released: Some(HandleReleaseState::CascadeClose), ..r }
    } else {
        r
    }
}

pub open spec fn spec_close_records(recs: Seq<RecordView>, owner: SessionIdView) -> Seq<RecordView> {
    Seq::new(recs.len(), |i: int| cascade(recs[i], owner))
}

/// The (token, outstanding count) of each record a close cascades, in order.
pub open spec fn spec_leaks(recs: Seq<RecordView>, owner: SessionIdView) -> Seq<(TokenView, nat)>
    decreases recs.len(),
{
    if recs.len() == 0 {
        Seq::empty()
    } else {
        let rest = spec_leaks(recs.drop_last(), owner);
        let r = recs.last();
        if r.token.owner == owner && r.released is None {
            rest.push((r.token, r.count))
        } else {
            rest
        }
    }
}

struct HandleRecord {
    token: HandleToken,
    texture: Option<TextureHandleDescriptor>,
    outstanding_count: usize,
    lease_expires_at_us: Option<u64>,
    release_state: Option<HandleReleaseState>,
}

impl HandleRecord {
    spec fn view(&self) -> RecordView {
        RecordView {
            token: self.token@,
            texture: self.texture,
            count: self.outstanding_count as nat,
            lease: self.lease_expires_at_us,
            released: self.release_state,
        }
    }
}

spec fn records_view(recs: Seq<HandleRecord>) -> Seq<RecordView> {
    Seq::new(recs.len(), |i: int| recs[i].view())
}

/// The handles of all runtime sessions.
pub struct HandleRegistry {
    next_id: u64,
    records: Vec<HandleRecord>,
}

impl View for HandleRegistry {
    type V = RegistryView;

    closed spec fn view(&self) -> RegistryView {
        RegistryView { next_id: self.next_id, records: records_view(self.records@) }
    }
}

impl Default for HandleRegistry {
    fn default() -> (r: Self)
        ensures
            r@.next_id == 0,
            r@.records.len() == 0,
    {
        let r = HandleRegistry { next_id: 0, records: Vec::new() };
        assert(r@.records =~= Seq::<RecordView>::empty());
        r
    }
}

// ---------------------------------------------------------------------------
// Lemmas about the record sequence
// ---------------------------------------------------------------------------

proof fn lemma_record_index(recs: Seq<RecordView>, t: TokenView)
    ensures
        -1 <= record_index(recs, t) < recs.len(),
        record_index(recs, t) >= 0 ==> same_key(recs[record_index(recs, t)].token, t),
        record_index(recs, t) == -1 <==> forall|k: int| 0 <= k < recs.len() ==> !same_key(#[trigger] recs[k].token, t),
    decreases recs.len(),
{
    if recs.len() > 0 {
        lemma_record_index(recs.drop_last(), t);
        assert forall|k: int| 0 <= k < recs.len() - 1 implies #[trigger] recs[k] == recs.drop_last()[k] by {}
    }
}

proof fn lemma_sorted_index(recs: Seq<RecordView>, t: TokenView, k: int)
    requires
        records_sorted(recs),
        0 <= k < recs.len(),
        same_key(recs[k].token, t),
    ensures
        record_index(recs, t) == k,
{
    lemma_record_index(recs, t);
    let m = record_index(recs, t);
    if m != k {
        lemma_key_order(recs[m].token, recs[k].token, t);
        if m < k {
            assert(key_lt(recs[m].token, recs[k].token));
        } else {
            assert(key_lt(recs[k].token, recs[m].token));
            lemma_key_order(recs[k].token, recs[m].token, t);
        }
    }
}

proof fn lemma_insert_pos(recs: Seq<RecordView>, t: TokenView)
    requires
        records_sorted(recs),
        record_index(recs, t) == -1,
    ensures
        0 <= insert_pos(recs, t) <= recs.len(),
        forall|k: int| 0 <= k < insert_pos(recs, t) ==> key_lt(#[trigger] recs[k].token, t),
        forall|k: int| insert_pos(recs, t) <= k < recs.len() ==> key_lt(t, #[trigger] recs[k].token),
    decreases recs.len(),
{
    lemma_record_index(recs, t);
    if recs.len() > 0 {
        let rest = recs.drop_first();
        assert forall|i: int, j: int| 0 <= i < j < rest.len() implies key_lt(#[trigger] rest[i].token, #[trigger] rest[j].token) by {
            assert(rest[i] == recs[i + 1]);
            assert(rest[j] == recs[j + 1]);
        }
        assert forall|k: int| 0 <= k < rest.len() implies !same_key(#[trigger] rest[k].token, t) by {
            assert(rest[k] == recs[k + 1]);
        }
        lemma_record_index(rest, t);
        if key_lt(t, recs[0].token) {
            assert forall|k: int| 0 <= k < recs.len() implies key_lt(t, #[trigger] recs[k].token) by {
                if k > 0 {
                    lemma_key_order(t, recs[0].token, recs[k].token);
                }
            }
        } else {
            lemma_key_order(recs[0].token, t, t);
            assert(!same_key(recs[0].token, t));
            lemma_insert_pos(rest, t);
            assert forall|k: int| 0 <= k < insert_pos(recs, t) implies key_lt(#[trigger] recs[k].token, t) by {
                if k > 0 {
                    assert(recs[k] == rest[k - 1]);
                }
            }
            assert forall|k: int| insert_pos(recs, t) <= k < recs.len() implies key_lt(t, #[trigger] recs[k].token) by {
                assert(recs[k] == rest[k - 1]);
            }
        }
    }
}

proof fn lemma_spec_insert(recs: Seq<RecordView>, r: RecordView)
    requires
        records_sorted(recs),
    ensures
        records_sorted(spec_insert(recs, r)),
        record_index(spec_insert(recs, r), r.token) >= 0,
        spec_insert(recs, r)[record_index(spec_insert(recs, r), r.token)] == r,
        forall|t: TokenView| !same_key(t, r.token) ==> (#[trigger] record_index(recs, t) >= 0 <==> record_index(
            spec_insert(recs, r),
            t,
        ) >= 0),
        forall|t: TokenView| !same_key(t, r.token) && #[trigger] record_index(recs, t) >= 0 ==> spec_insert(recs, r)[record_index(
            spec_insert(recs, r),
            t,
        )] == recs[record_index(recs, t)],
        counts_consistent(recs) && (r.released is None ==> r.count >= 1) ==> counts_consistent(spec_insert(recs, r)),
{
    lemma_record_index(recs, r.token);
    let i = record_index(recs, r.token);
    let ns = spec_insert(recs, r);
    if counts_consistent(recs) && (r.released is None ==> r.count >= 1) {
        if i >= 0 {
            assert forall|k: int| 0 <= k < ns.len() implies (#[trigger] ns[k]).released is None ==> ns[k].count >= 1 by {
                if k != i {
                    assert(ns[k] == recs[k]);
                }
            }
        } else {
            let p = insert_pos(recs, r.token);
            lemma_insert_pos(recs, r.token);
            assert forall|k: int| 0 <= k < ns.len() implies (#[trigger] ns[k]).released is None ==> ns[k].count >= 1 by {
                if k < p {
                    assert(ns[k] == recs[k]);
                } else if k > p {
                    assert(ns[k] == recs[k - 1]);
                }
            }
        }
    }
    if i >= 0 {
        assert forall|a: int, b: int| 0 <= a < b < ns.len() implies key_lt(#[trigger] ns[a].token, #[trigger] ns[b].token) by {
            assert(key_lt(recs[a].token, recs[b].token));
            if a == i {
                lemma_key_order(recs[a].token, r.token, recs[b].token);
            }
            if b == i {
                lemma_key_order(recs[b].token, r.token, recs[a].token);
            }
        }
        lemma_sorted_index(ns, r.token, i);
        assert forall|t: TokenView| !same_key(t, r.token) implies (#[trigger] record_index(recs, t) >= 0 <==> record_index(ns, t) >= 0)
            && (record_index(recs, t) >= 0 ==> ns[record_index(ns, t)] == recs[record_index(recs, t)]) by {
            lemma_record_index(recs, t);
            lemma_record_index(ns, t);
            if record_index(recs, t) >= 0 {
                let k = record_index(recs, t);
                lemma_key_order(recs[k].token, t, r.token);
                lemma_key_order(recs[i].token, r.token, t);
                assert(k != i);
                lemma_sorted_index(ns, t, k);
            } else {
                assert forall|k: int| 0 <= k < ns.len() implies !same_key(#[trigger] ns[k].token, t) by {
                    if k == i {
                        lemma_key_order(t, r.token, r.token);
                    }
                }
            }
        }
    } else {
        lemma_insert_pos(recs, r.token);
        let p = insert_pos(recs, r.token);
        assert forall|a: int, b: int| 0 <= a < b < ns.len() implies key_lt(#[trigger] ns[a].token, #[trigger] ns[b].token) by {
            if a < p && b < p {
                assert(key_lt(recs[a].token, recs[b].token));
            } else if a < p && b == p {
            } else if a < p && b > p {
                assert(ns[b] == recs[b - 1]);
                lemma_key_order(recs[a].token, r.token, recs[b - 1].token);
            } else if a == p {
                assert(ns[b] == recs[b - 1]);
            } else {
                assert(ns[a] == recs[a - 1]);
                assert(ns[b] == recs[b - 1]);
                assert(key_lt(recs[a - 1].token, recs[b - 1].token));
            }
        }
        lemma_sorted_index(ns, r.token, p);
        assert forall|t: TokenView| !same_key(t, r.token) implies (#[trigger] record_index(recs, t) >= 0 <==> record_index(ns, t) >= 0)
            && (record_index(recs, t) >= 0 ==> ns[record_index(ns, t)] == recs[record_index(recs, t)]) by {
            lemma_record_index(recs, t);
            lemma_record_index(ns, t);
            if record_index(recs, t) >= 0 {
                let k = record_index(recs, t);
                if k < p {
                    lemma_sorted_index(ns, t, k);
                } else {
                    assert(ns[k + 1] == recs[k]);
                    lemma_sorted_index(ns, t, k + 1);
                }
            } else {
                assert forall|k: int| 0 <= k < ns.len() implies !same_key(#[trigger] ns[k].token, t) by {
                    if k == p {
                        lemma_key_order(t, r.token, r.token);
                    } else if k < p {
                        assert(ns[k] == recs[k]);
                    } else {
                        assert(ns[k] == recs[k - 1]);
                    }
                }
            }
        }
    }
}

proof fn lemma_update_keeps_index(recs: Seq<RecordView>, i: int, r: RecordView, t: TokenView)
    requires
        0 <= i < recs.len(),
        same_key(recs[i].token, r.token),
    ensures
        record_index(recs.update(i, r), t) == record_index(recs, t),
    decreases recs.len(),
{
    let ns = recs.update(i, r);
    if recs.len() > 0 {
        if i < recs.len() - 1 {
            assert(ns.drop_last() =~= recs.drop_last().update(i, r));
            lemma_update_keeps_index(recs.drop_last(), i, r, t);
        } else {
            assert(ns.drop_last() =~= recs.drop_last());
        }
    }
}

proof fn lemma_update_keeps_sorted(recs: Seq<RecordView>, i: int, r: RecordView)
    requires
        records_sorted(recs),
        0 <= i < recs.len(),
        same_key(recs[i].token, r.token),
    ensures
        records_sorted(recs.update(i, r)),
{
    let ns = recs.update(i, r);
    assert forall|a: int, b: int| 0 <= a < b < ns.len() implies key_lt(#[trigger] ns[a].token, #[trigger] ns[b].token) by {
        assert(key_lt(recs[a].token, recs[b].token));
        if a == i {
            lemma_key_order(recs[a].token, r.token, recs[b].token);
        }
        if b == i {
            lemma_key_order(recs[b].token, r.token, recs[a].token);
        }
    }
}

proof fn lemma_outstanding_update(recs: Seq<RecordView>, i: int, r: RecordView, owner: SessionIdView, kind: HandleKind)
    requires
        0 <= i < recs.len(),
    ensures
        outstanding(recs.update(i, r), owner, kind) + (if is_live(recs[i], owner, kind) { 1int } else { 0int })
            == outstanding(recs, owner, kind) + (if is_live(r, owner, kind) { 1int } else { 0int }),
    decreases recs.len(),
{
    let ns = recs.update(i, r);
    if i < recs.len() - 1 {
        assert(ns.drop_last() =~= recs.drop_last().update(i, r));
        lemma_outstanding_update(recs.drop_last(), i, r, owner, kind);
    } else {
        assert(ns.drop_last() =~= recs.drop_last());
    }
}

proof fn lemma_outstanding_insert(recs: Seq<RecordView>, p: int, r: RecordView, owner: SessionIdView, kind: HandleKind)
    requires
        0 <= p <= recs.len(),
    ensures
        outstanding(recs.insert(p, r), owner, kind) == outstanding(recs, owner, kind) + (if is_live(r, owner, kind) { 1nat } else { 0nat }),
    decreases recs.len(),
{
    let ns = recs.insert(p, r);
    if p == recs.len() {
        assert(ns.drop_last() =~= recs);
    } else {
        assert(ns.drop_last() =~= recs.drop_last().insert(p, r));
        lemma_outstanding_insert(recs.drop_last(), p, r, owner, kind);
    }
}

proof fn lemma_outstanding_close(recs: Seq<RecordView>, owner: SessionIdView, kind: HandleKind, other: SessionIdView)
    ensures
        outstanding(spec_close_records(recs, owner), owner, kind) == 0,
        other != owner ==> outstanding(spec_close_records(recs, owner), other, kind) == outstanding(recs, other, kind),
    decreases recs.len(),
{
    if recs.len() > 0 {
        assert(spec_close_records(recs, owner).drop_last() =~= spec_close_records(recs.drop_last(), owner));
        lemma_outstanding_close(recs.drop_last(), owner, kind, other);
    }
}

proof fn lemma_outstanding_bound(recs: Seq<RecordView>, owner: SessionIdView, kind: HandleKind)
    ensures
        outstanding(recs, owner, kind) <= recs.len(),
    decreases recs.len(),
{
    if recs.len() > 0 {
        lemma_outstanding_bound(recs.drop_last(), owner, kind);
    }
}

// ---------------------------------------------------------------------------
// Laws
// ---------------------------------------------------------------------------

/// A handle that was just acquired resolves for its owner, at any time up to
/// its lease, with the requested kind, the owner and generation 1.
pub proof fn law_acquired_handle_resolves(v: RegistryView, req: RequestView, now: u64)
    requires
        records_sorted(v.records),
        spec_acquire(v, req).1 is Ok,
        req.lease matches Some(expires) ==> now <= expires,
    ensures
        spec_validate(spec_acquire(v, req).0.records, req.owner, spec_acquire(v, req).1->Ok_0, now) is Ok,
        spec_acquire(v, req).0.records[spec_validate(spec_acquire(v, req).0.records, req.owner, spec_acquire(v, req).1->Ok_0, now)->Ok_0].token
            == spec_acquire(v, req).1->Ok_0,
{
    let id = sat_inc(v.next_id);
    let t = acquired_token(req, id);
    let r = RecordView { token: t, texture: req.texture, count: 1, lease: req.lease, released: None };
    lemma_spec_insert(v.records, r);
}

/// Releasing the last reference of a handle releases it for good: every
/// later resolve, retain or release of that token fails as a double release.
pub proof fn law_released_handle_fails_closed(recs: Seq<RecordView>, owner: SessionIdView, t: TokenView, now: u64)
    requires
        spec_validate(recs, owner, t, 0) is Ok,
        recs[spec_validate(recs, owner, t, 0)->Ok_0].count <= 1,
    ensures
        spec_validate(spec_release_records(recs, spec_validate(recs, owner, t, 0)->Ok_0), owner, t, now)
            == Err::<int, RuntimeErrorKind>(RuntimeErrorKind::DoubleRelease),
{
    let i = spec_validate(recs, owner, t, 0)->Ok_0;
    lemma_record_index(recs, t);
    let r = RecordView { count: 0, released: Some(HandleReleaseState::Explicit), ..recs[i] };
    lemma_update_keeps_index(recs, i, r, t);
}

/// A retained handle survives one release and still resolves.
pub proof fn law_retain_then_release_keeps_handle(recs: Seq<RecordView>, owner: SessionIdView, t: TokenView, now: u64)
    requires
        counts_consistent(recs),
        spec_validate(recs, owner, t, now) is Ok,
        recs[spec_validate(recs, owner, t, now)->Ok_0].count < usize::MAX,
    ensures
        spec_validate(
            spec_release_records(
                spec_retain_records_saturating(recs, spec_validate(recs, owner, t, now)->Ok_0),
                spec_validate(recs, owner, t, now)->Ok_0,
            ),
            owner,
            t,
            now,
        ) == spec_validate(recs, owner, t, now),
{
    let i = spec_validate(recs, owner, t, now)->Ok_0;
    lemma_record_index(recs, t);
    assert(spec_retain_records_saturating(recs, i) == spec_retain_records(recs, i));
    let r1 = RecordView { count: recs[i].count + 1, ..recs[i] };
    lemma_update_keeps_index(recs, i, r1, t);
    let recs1 = recs.update(i, r1);
    let r2 = RecordView { count: (recs1[i].count - 1) as nat, ..recs1[i] };
    lemma_update_keeps_index(recs1, i, r2, t);
    assert(spec_release_records(recs1, i) =~= recs);
}

/// Acquiring a handle under a fresh key and releasing it leaves every
/// outstanding count as it was.
pub proof fn law_acquire_release_restores_counts(v: RegistryView, req: RequestView, owner: SessionIdView, kind: HandleKind)
    requires
        records_sorted(v.records),
        spec_acquire(v, req).1 is Ok,
        record_index(v.records, spec_acquire(v, req).1->Ok_0) == -1,
    ensures
        outstanding(spec_acquire(v, req).0.records, req.owner, req.kind) == outstanding(v.records, req.owner, req.kind) + 1,
        spec_validate(spec_acquire(v, req).0.records, req.owner, spec_acquire(v, req).1->Ok_0, 0) is Ok,
        outstanding(
            spec_release_records(
                spec_acquire(v, req).0.records,
                spec_validate(spec_acquire(v, req).0.records, req.owner, spec_acquire(v, req).1->Ok_0, 0)->Ok_0,
            ),
            owner,
            kind,
        ) == outstanding(v.records, owner, kind),
{
    let id = sat_inc(v.next_id);
    let t = acquired_token(req, id);
    let r = RecordView { token: t, texture: req.texture, count: 1, lease: None, released: None };
    let r = RecordView { lease: req.lease, ..r };
    lemma_spec_insert(v.records, r);
    lemma_insert_pos(v.records, t);
    let p = insert_pos(v.records, t);
    lemma_outstanding_insert(v.records, p, r, owner, kind);
    lemma_outstanding_insert(v.records, p, r, req.owner, req.kind);
    let recs1 = v.records.insert(p, r);
    lemma_sorted_index(recs1, t, p);
    let r2 = RecordView { count: 0, released: Some(HandleReleaseState::Explicit), ..r };
    lemma_outstanding_update(recs1, p, r2, owner, kind);
}

/// Closing a runtime session leaves none of its handles outstanding and
/// leaves every other session's handles as they were.
pub proof fn law_close_releases_owned_handles(recs: Seq<RecordView>, owner: SessionIdView, kind: HandleKind, other: SessionIdView)
    ensures
        outstanding(spec_close_records(recs, owner), owner, kind) == 0,
        other != owner ==> outstanding(spec_close_records(recs, owner), other, kind) == outstanding(recs, other, kind),
        forall|i: int| 0 <= i < recs.len() && #[trigger] recs[i].token.owner != owner ==> spec_close_records(recs, owner)[i] == recs[i],
{
    lemma_outstanding_close(recs, owner, kind, other);
}

/// Closing a runtime session a second time finds nothing left to cascade:
/// its report lists no leaks, and the records stay as the first close left them.
pub proof fn law_second_close_reports_no_leaks(recs: Seq<RecordView>, owner: SessionIdView)
    ensures
        spec_leaks(spec_close_records(recs, owner), owner).len() == 0,
        spec_close_records(spec_close_records(recs, owner), owner) == spec_close_records(recs, owner),
    decreases recs.len(),
{
    let closed = spec_close_records(recs, owner);
    if recs.len() > 0 {
        assert(closed.drop_last() =~= spec_close_records(recs.drop_last(), owner));
        law_second_close_reports_no_leaks(recs.drop_last(), owner);
    }
    assert(spec_close_records(closed, owner) =~= closed);
}

/// Records after `k` retains of record `i`.
pub open spec fn repeat_retain(recs: Seq<RecordView>, i: int, k: nat) -> Seq<RecordView>
    decreases k,
{
    if k == 0 {
        recs
    } else {
        spec_retain_records_saturating(repeat_retain(recs, i, (k - 1) as nat), i)
    }
}

/// Records after `k` releases of record `i`.
pub open spec fn repeat_release(recs: Seq<RecordView>, i: int, k: nat) -> Seq<RecordView>
    decreases k,
{
    if k == 0 {
        recs
    } else {
        spec_release_records(repeat_release(recs, i, (k - 1) as nat), i)
    }
}

/// Record `i` with its reference count set to `c`.
pub open spec fn with_count(recs: Seq<RecordView>, i: int, c: nat) -> Seq<RecordView> {
    recs.update(i, RecordView { count: c, ..recs[i] })
}

proof fn lemma_repeat_retain(recs: Seq<RecordView>, i: int, k: nat)
    requires
        0 <= i < recs.len(),
        recs[i].count + k <= usize::MAX,
    ensures
        repeat_retain(recs, i, k) == with_count(recs, i, recs[i].count + k),
    decreases k,
{
    if k == 0 {
        assert(with_count(recs, i, recs[i].count) =~= recs);
    } else {
        lemma_repeat_retain(recs, i, (k - 1) as nat);
        let prev = with_count(recs, i, recs[i].count + (k - 1) as nat);
        assert(spec_retain_records(prev, i) =~= with_count(recs, i, recs[i].count + k));
    }
}

proof fn lemma_repeat_release(recs: Seq<RecordView>, i: int, c: nat, j: nat)
    requires
        0 <= i < recs.len(),
        c >= 1,
        j <= recs[i].count - c,
        recs[i].count >= c,
    ensures
        repeat_release(recs, i, j) == with_count(recs, i, (recs[i].count - j) as nat),
    decreases j,
{
    if j == 0 {
        assert(with_count(recs, i, recs[i].count) =~= recs);
    } else {
        lemma_repeat_release(recs, i, c, (j - 1) as nat);
        let prev = with_count(recs, i, (recs[i].count - (j - 1)) as nat);
        assert(prev[i].count > 1);
        assert(spec_release_records(prev, i) =~= with_count(recs, i, (recs[i].count - j) as nat));
    }
}

proof fn lemma_with_count_keeps_checks(recs: Seq<RecordView>, i: int, c: nat, owner: SessionIdView, t: TokenView, now: u64, o: SessionIdView, kind: HandleKind)
    requires
        0 <= i < recs.len(),
        c >= 1 || recs[i].released is Some,
    ensures
        spec_validate(with_count(recs, i, c), owner, t, now) == spec_validate(recs, owner, t, now),
        outstanding(with_count(recs, i, c), o, kind) == outstanding(recs, o, kind),
{
    let r = RecordView { count: c, ..recs[i] };
    lemma_update_keeps_index(recs, i, r, t);
    lemma_record_index(recs, t);
    lemma_outstanding_update(recs, i, r, o, kind);
}

/// A handle retained `k` times survives the next `k` releases: after each
/// of them it still resolves to the same record and every outstanding count
/// is as before the retains, and after the `k`-th the records are exactly as
/// before. For a handle held once, the release after those drops its owner's
/// count of that kind by one, and every later use fails as a double release.
pub proof fn law_retains_then_releases_keep_handle(
    recs: Seq<RecordView>,
    owner: SessionIdView,
    t: TokenView,
    now: u64,
    k: nat,
    o: SessionIdView,
    kind: HandleKind,
)
    requires
        counts_consistent(recs),
        spec_validate(recs, owner, t, now) is Ok,
        recs[spec_validate(recs, owner, t, now)->Ok_0].count + k <= usize::MAX,
    ensures
        forall|j: nat| j <= k ==> {
            let after = #[trigger] repeat_release(
                repeat_retain(recs, spec_validate(recs, owner, t, now)->Ok_0, k),
                spec_validate(recs, owner, t, now)->Ok_0,
                j,
            );
            &&& spec_validate(after, owner, t, now) == spec_validate(recs, owner, t, now)
            &&& outstanding(after, o, kind) == outstanding(recs, o, kind)
        },
        repeat_release(
            repeat_retain(recs, spec_validate(recs, owner, t, now)->Ok_0, k),
            spec_validate(recs, owner, t, now)->Ok_0,
            k,
        ) == recs,
        recs[spec_validate(recs, owner, t, now)->Ok_0].count == 1 ==> {
            let last = repeat_release(
                repeat_retain(recs, spec_validate(recs, owner, t, now)->Ok_0, k),
                spec_validate(recs, owner, t, now)->Ok_0,
                k + 1,
            );
            &&& outstanding(last, owner, t.kind) + 1 == outstanding(recs, owner, t.kind)
            &&& spec_validate(last, owner, t, now) == Err::<int, RuntimeErrorKind>(RuntimeErrorKind::DoubleRelease)
        },
{
    let i = spec_validate(recs, owner, t, now)->Ok_0;
    lemma_record_index(recs, t);
    let c = recs[i].count;
    assert(c >= 1);
    lemma_repeat_retain(recs, i, k);
    let up = with_count(recs, i, c + k);
    assert(up[i].count == c + k);
    assert forall|j: nat| j <= k implies {
        let after = #[trigger] repeat_release(repeat_retain(recs, i, k), i, j);
        &&& spec_validate(after, owner, t, now) == spec_validate(recs, owner, t, now)
        &&& outstanding(after, o, kind) == outstanding(recs, o, kind)
    } by {
        lemma_repeat_release(up, i, c, j);
        assert(with_count(up, i, (c + k - j) as nat) =~= with_count(recs, i, (c + k - j) as nat));
        lemma_with_count_keeps_checks(recs, i, (c + k - j) as nat, owner, t, now, o, kind);
    }
    lemma_repeat_release(up, i, c, k);
    assert(with_count(up, i, c) =~= recs);
    if c == 1 {
        assert(repeat_release(up, i, k + 1) == spec_release_records(recs, i));
        let r2 = RecordView { count: 0, released: Some(HandleReleaseState::Explicit), ..recs[i] };
        lemma_outstanding_update(recs, i, r2, owner, t.kind);
        lemma_update_keeps_index(recs, i, r2, t);
        assert(recs[i].token.kind == t.kind);
        assert(recs[i].token.owner == owner);
    }
}

// ---------------------------------------------------------------------------
// Registry operations
// ---------------------------------------------------------------------------

pub open spec fn resolution_matches(res: HandleResolution, t: TokenView, r: RecordView) -> bool {
    res.token@ == t && res.kind == r.token.kind && res.owner_session@ == r.token.owner && res.generation == r.token.generation
}

/// A token `{prefix}-{n}` of its kind with `1 <= n <= bound`.
pub open spec fn handle_numbered(t: TokenView, bound: u64) -> bool {
    exists|n: nat| 1 <= n <= bound && t.token == kind_prefix(t.kind) + "-"@ + decimal(n)
}

/// Every record's token is numbered at most `bound`.
pub open spec fn tokens_numbered(recs: Seq<RecordView>, bound: u64) -> bool {
    forall|i: int| 0 <= i < recs.len() ==> handle_numbered(#[trigger] recs[i].token, bound)
}

proof fn lemma_handle_numbered_grows(t: TokenView, a: u64, b: u64)
    requires
        handle_numbered(t, a),
        a <= b,
    ensures
        handle_numbered(t, b),
{
    let n = choose|n: nat| 1 <= n <= a && t.token == kind_prefix(t.kind) + "-"@ + decimal(n);
    assert(1 <= n <= b && t.token == kind_prefix(t.kind) + "-"@ + decimal(n));
}

/// A token numbered at most `bound` never has the key of the token of its
/// kind numbered above `bound`.
proof fn lemma_handle_numbered_differs(t: TokenView, bound: u64, u: TokenView, m: nat)
    requires
        handle_numbered(t, bound),
        m > bound,
        u.token == kind_prefix(u.kind) + "-"@ + decimal(m),
    ensures
        !same_key(t, u),
{
    let n = choose|n: nat| 1 <= n <= bound && t.token == kind_prefix(t.kind) + "-"@ + decimal(n);
    if t.kind == u.kind {
        lemma_numbered_ids_distinct(kind_prefix(t.kind) + "-"@, n, m);
    }
}

/// Changes that keep every token keep the numbering.
proof fn lemma_tokens_numbered_same_tokens(a: Seq<RecordView>, b: Seq<RecordView>, bound: u64)
    requires
        tokens_numbered(a, bound),
        a.len() == b.len(),
        forall|i: int| 0 <= i < a.len() ==> #[trigger] b[i].token == a[i].token,
    ensures
        tokens_numbered(b, bound),
{
    assert forall|i: int| 0 <= i < b.len() implies handle_numbered(#[trigger] b[i].token, bound) by {
        assert(b[i].token == a[i].token);
    }
}

/// Storing a numbered record keeps the numbering.
proof fn lemma_tokens_numbered_insert(recs: Seq<RecordView>, r: RecordView, bound: u64)
    requires
        records_sorted(recs),
        tokens_numbered(recs, bound),
        handle_numbered(r.token, bound),
    ensures
        tokens_numbered(spec_insert(recs, r), bound),
{
    let ns = spec_insert(recs, r);
    let i = record_index(recs, r.token);
    lemma_record_index(recs, r.token);
    if i >= 0 {
        assert forall|k: int| 0 <= k < ns.len() implies handle_numbered(#[trigger] ns[k].token, bound) by {
            if k != i {
                assert(ns[k] == recs[k]);
            }
        }
    } else {
        lemma_insert_pos(recs, r.token);
        let p = insert_pos(recs, r.token);
        assert forall|k: int| 0 <= k < ns.len() implies handle_numbered(#[trigger] ns[k].token, bound) by {
            if k < p {
                assert(ns[k] == recs[k]);
            } else if k > p {
                assert(ns[k] == recs[k - 1]);
            }
        }
    }
}

impl HandleRegistry {
    #[verifier::type_invariant]
    spec fn wf(&self) -> bool {
        &&& records_sorted(records_view(self.records@))
        &&& counts_consistent(records_view(self.records@))
        &&& tokens_numbered(records_view(self.records@), self.next_id)
    }

    fn find_index(&self, token: &HandleToken) -> (r: Option<usize>)
        ensures
            self@.records.len() == self.records@.len(),
            match r {
                Some(i) => i < self.records@.len() && record_index(self@.records, token@) == i as int,
                None => record_index(self@.records, token@) == -1,
            },
    {
        proof {
            use_type_invariant(self);
            lemma_record_index(self@.records, token@);
        }
        let ghost recs = self@.records;
        let mut j: usize = 0;
        while j < self.records.len()
            invariant
                recs == self@.records,
                records_sorted(recs),
                j <= recs.len(),
                recs.len() == self.records@.len(),
                forall|k: int| 0 <= k < j ==> !same_key(#[trigger] recs[k].token, token@),
            decreases recs.len() - j,
        {
            proof {
                assert(recs[j as int] == self.records@[j as int].view());
            }
            if self.records[j].token.same_key(token) {
                proof {
                    lemma_sorted_index(recs, token@, j as int);
                }
                return Some(j);
            }
            j = j + 1;
        }
        proof {
            lemma_record_index(recs, token@);
        }
        None
    }

    /// Validation as a method; the records stay unchanged.
    fn validated_index(&self, owner_session: &RuntimeSessionId, token: &HandleToken, now_us: u64) -> (r: Result<usize, RuntimeError>)
        ensures
            match r {
                Ok(i) => spec_validate(self@.records, owner_session@, token@, now_us) == Ok::<int, RuntimeErrorKind>(i as int)
                    && i < self@.records.len() && i < self.records@.len(),
                Err(e) => spec_validate(self@.records, owner_session@, token@, now_us) == Err::<int, RuntimeErrorKind>(e.kind)
                    && e.message@ == validate_message(e.kind, token@.token),
            },
    {
        let ghost recs = self@.records;
        let i = match self.find_index(token) {
            Some(i) => i,
            None => {
                let mut message = lit("handle not found: ");
                append_str(&mut message, token.as_str());
                return Err(RuntimeError::new(RuntimeErrorKind::UnknownHandle, message));
            },
        };
        let record = &self.records[i];
        proof {
            assert(recs[i as int] == record.view());
        }
        if !record.token.owner_session.same_as(owner_session) || !token.owner_session.same_as(&record.token.owner_session) {
            return Err(handle_error(RuntimeErrorKind::WrongOwner, token.as_str(), " owner session mismatch"));
        }
        if token.generation != record.token.generation {
            return Err(handle_error(RuntimeErrorKind::StaleGeneration, token.as_str(), " generation is stale"));
        }
        if record.release_state.is_some() {
            return Err(double_release(token));
        }
        match record.lease_expires_at_us {
            Some(expires_at_us) => {
                if now_us > expires_at_us {
                    return Err(handle_error(RuntimeErrorKind::LeaseExpired, token.as_str(), " lease expired"));
                }
            },
            None => {},
        }
        Ok(i)
    }

    /// Registers a new handle `{prefix}-{n}` at generation 1 with one
    /// outstanding reference, `n` being the next value of the id counter.
    /// A texture handle needs texture metadata (`InvalidRequest` otherwise).
    pub fn acquire(&mut self, request: HandleAcquireRequest) -> (r: Result<HandleToken, RuntimeError>)
        ensures
            final(self)@ == spec_acquire(old(self)@, request@).0,
            match r {
                Ok(t) => spec_acquire(old(self)@, request@).1 == Ok::<TokenView, RuntimeErrorKind>(t@)
                    && (old(self)@.next_id < u64::MAX ==> record_index(old(self)@.records, t@) == -1),
                Err(e) => spec_acquire(old(self)@, request@).1 == Err::<TokenView, RuntimeErrorKind>(e.kind)
                    && e.message@ == "texture handles require texture metadata"@,
            },
    {
        proof {
            use_type_invariant(&*self);
        }
        if request.kind == HandleKind::Texture && request.texture.is_none() {
            return Err(RuntimeError::new(
                RuntimeErrorKind::InvalidRequest,
                lit("texture handles require texture metadata"),
            ));
        }
        let id_number = if self.next_id == u64::MAX { u64::MAX } else { self.next_id + 1 };
        let mut text = lit(request.kind.token_prefix());
        append_str(&mut text, "-");
        let digits = u64_to_decimal(id_number);
        append_string(&mut text, &digits);
        let kind = request.kind;
        let token = HandleToken::from_raw_parts(kind, text, request.owner_session, 1);
        let record = HandleRecord {
            token: token.duplicate(),
            texture: request.texture,
            outstanding_count: 1,
            lease_expires_at_us: request.lease_expires_at_us,
            release_state: None,
        };
        proof {
            assert(token@ == acquired_token(request@, id_number));
            assert(handle_numbered(token@, id_number)) by {
                assert(1 <= id_number as nat <= id_number
                    && token@.token == kind_prefix(token@.kind) + "-"@ + decimal(id_number as nat));
            }
            if self.next_id < u64::MAX {
                let recs = self@.records;
                assert forall|k: int| 0 <= k < recs.len() implies !same_key(#[trigger] recs[k].token, token@) by {
                    lemma_handle_numbered_differs(recs[k].token, self.next_id, token@, id_number as nat);
                }
                lemma_record_index(recs, token@);
            }
        }
        self.store(record, id_number);
        Ok(token)
    }

    fn store(&mut self, record: HandleRecord, next_id: u64)
        requires
            record.release_state is None ==> record.outstanding_count >= 1,
            old(self)@.next_id <= next_id,
            handle_numbered(record.token@, next_id),
        ensures
            final(self)@ == (RegistryView { next_id, records: spec_insert(old(self)@.records, record.view()) }),
    {
        proof {
            use_type_invariant(&*self);
        }
        let ghost recs = self@.records;
        let ghost rv = record.view();
        proof {
            lemma_record_index(recs, rv.token);
            lemma_spec_insert(recs, rv);
            assert forall|i: int| 0 <= i < recs.len() implies handle_numbered(#[trigger] recs[i].token, next_id) by {
                lemma_handle_numbered_grows(recs[i].token, self.next_id, next_id);
            }
            lemma_tokens_numbered_insert(recs, rv, next_id);
        }
        let found = self.find_index(&record.token);
        let mut records: Vec<HandleRecord> = Vec::new();
        std::mem::swap(&mut records, &mut self.records);
        match found {
            Some(i) => {
                records.set(i, record);
                proof {
                    assert(records_view(records@) =~= recs.update(i as int, rv));
                    lemma_update_keeps_sorted(recs, i as int, rv);
                }
            },
            None => {
                proof {
                    lemma_insert_pos(recs, rv.token);
                }
                let ghost ip = insert_pos(recs, rv.token);
                let mut p: usize = 0;
                while p < records.len()
                    invariant_except_break
                        p <= ip,
                    invariant
                        recs == records_view(records@),
                        rv == record.view(),
                        0 <= ip <= recs.len(),
                        p <= recs.len(),
                        forall|k: int| 0 <= k < ip ==> key_lt(#[trigger] recs[k].token, rv.token),
                        forall|k: int| ip <= k < recs.len() ==> key_lt(rv.token, #[trigger] recs[k].token),
                    ensures
                        p == ip,
                    decreases recs.len() - p,
                {
                    proof {
                        assert(recs[p as int] == records@[p as int].view());
                    }
                    if record.token.key_lt(&records[p].token) {
                        proof {
                            if (p as int) < ip {
                                lemma_key_order(recs[p as int].token, rv.token, rv.token);
                            }
                        }
                        break;
                    }
                    p = p + 1;
                }
                records.insert(p, record);
                proof {
                    assert(records_view(records@) =~= recs.insert(p as int, rv));
                }
            },
        }
        *self = HandleRegistry { next_id, records };
    }

    /// Number of handles of `kind` owned by `owner_session` not yet released.
    pub fn outstanding_count(&self, owner_session: &RuntimeSessionId, kind: HandleKind) -> (n: usize)
        ensures
            n == outstanding(self@.records, owner_session@, kind),
    {
        let ghost recs = self@.records;
        let mut count: usize = 0;
        let mut j: usize = 0;
        while j < self.records.len()
            invariant
                recs == self@.records,
                j <= recs.len(),
                count == outstanding(recs.subrange(0, j as int), owner_session@, kind),
                count <= j,
            decreases recs.len() - j,
        {
            let record = &self.records[j];
            proof {
                assert(recs[j as int] == record.view());
                assert(recs.subrange(0, j + 1).drop_last() =~= recs.subrange(0, j as int));
            }
            if record.token.kind == kind && record.token.owner_session.same_as(owner_session) && record.release_state.is_none() {
                count = count + 1;
            }
            j = j + 1;
        }
        proof {
            assert(recs.subrange(0, recs.len() as int) =~= recs);
        }
        count
    }

    /// Checks a handle for its owner at time `now_us` without changing it.
    pub fn resolve(&self, owner_session: &RuntimeSessionId, token: &HandleToken, now_us: u64) -> (r: Result<HandleResolution, RuntimeError>)
        ensures
            match r {
                Ok(res) => spec_validate(self@.records, owner_session@, token@, now_us) is Ok
                    && resolution_matches(res, token@, self@.records[spec_validate(self@.records, owner_session@, token@, now_us)->Ok_0]),
                Err(e) => spec_validate(self@.records, owner_session@, token@, now_us) == Err::<int, RuntimeErrorKind>(e.kind)
                    && e.message@ == validate_message(e.kind, token@.token),
            },
    {
        let i = match self.validated_index(owner_session, token, now_us) {
            Ok(i) => i,
            Err(e) => return Err(e),
        };
        Ok(self.resolution_at(i, token))
    }

    fn resolution_at(&self, i: usize, token: &HandleToken) -> (res: HandleResolution)
        requires
            i < self@.records.len(),
        ensures
            resolution_matches(res, token@, self@.records[i as int]),
    {
        let record = &self.records[i];
        proof {
            assert(self@.records[i as int] == record.view());
        }
        HandleResolution {
            token: token.duplicate(),
            kind: record.token.kind,
            owner_session: record.token.owner_session.duplicate(),
            generation: record.token.generation,
        }
    }

    /// Resolves a texture handle, also requiring it to be a texture handle
    /// registered with the expected device (`WrongDevice` otherwise) and frame
    /// metadata (`TextureMetadataMismatch` otherwise).
    pub fn resolve_texture(
        &self,
        owner_session: &RuntimeSessionId,
        token: &HandleToken,
        expectation: &TextureResolveExpectation,
        now_us: u64,
    ) -> (r: Result<HandleResolution, RuntimeError>)
        ensures
            match spec_validate(self@.records, owner_session@, token@, now_us) {
                Err(k) => r matches Err(e) && e.kind == k && e.message@ == validate_message(k, token@.token),
                Ok(i) => {
                    let rec = self@.records[i];
                    if rec.token.kind != HandleKind::Texture {
                        r matches Err(e) && e.kind == RuntimeErrorKind::WrongKind
                            && e.message@ == "handle "@ + token@.token + " is not a texture handle"@
                    } else if rec.texture is None {
                        r matches Err(e) && e.kind == RuntimeErrorKind::WrongKind
                            && e.message@ == "texture handle "@ + token@.token + " has no texture metadata"@
                    } else if !same_device(rec.texture->Some_0, expectation.descriptor) {
                        r matches Err(e) && e.kind == RuntimeErrorKind::WrongDevice
                            && e.message@ == "texture handle device identity does not match"@
                    } else if !same_frame_metadata(rec.texture->Some_0, expectation.descriptor) {
                        r matches Err(e) && e.kind == RuntimeErrorKind::TextureMetadataMismatch
                            && e.message@ == "texture handle frame metadata does not match"@
                    } else {
                        r matches Ok(res) && resolution_matches(res, token@, rec)
                    }
                },
            },
    {
        let i = match self.validated_index(owner_session, token, now_us) {
            Ok(i) => i,
            Err(e) => return Err(e),
        };
        let record = &self.records[i];
        proof {
            assert(self@.records[i as int] == record.view());
        }
        if record.token.kind != HandleKind::Texture {
            let mut message = lit("handle ");
            append_str(&mut message, token.as_str());
            append_str(&mut message, " is not a texture handle");
            return Err(RuntimeError::new(RuntimeErrorKind::WrongKind, message));
        }
        let descriptor = match &record.texture {
            Some(d) => d,
            None => {
                let mut message = lit("texture handle ");
                append_str(&mut message, token.as_str());
                append_str(&mut message, " has no texture metadata");
                return Err(RuntimeError::new(RuntimeErrorKind::WrongKind, message));
            },
        };
        if !descriptors_same_device(descriptor, &expectation.descriptor) {
            return Err(RuntimeError::new(
                RuntimeErrorKind::WrongDevice,
                lit("texture handle device identity does not match"),
            ));
        }
        if !descriptors_same_frame_metadata(descriptor, &expectation.descriptor) {
            return Err(RuntimeError::new(
                RuntimeErrorKind::TextureMetadataMismatch,
                lit("texture handle frame metadata does not match"),
            ));
        }
        Ok(self.resolution_at(i, token))
    }

    /// Takes one more reference to a valid handle.
    pub fn retain(&mut self, owner_session: &RuntimeSessionId, token: &HandleToken, now_us: u64) -> (r: Result<HandleResolution, RuntimeError>)
        ensures
            match spec_validate(old(self)@.records, owner_session@, token@, now_us) {
                Err(k) => {
                    &&& final(self)@ == old(self)@
                    &&& r matches Err(e) && e.kind == k && e.message@ == validate_message(k, token@.token)
                },
                Ok(i) => {
                    &&& final(self)@ == (RegistryView {
                        next_id: old(self)@.next_id,
                        records: spec_retain_records_saturating(old(self)@.records, i),
                    })
                    &&& r matches Ok(res) && resolution_matches(res, token@, old(self)@.records[i])
                },
            },
    {
        proof {
            use_type_invariant(&*self);
        }
        let i = match self.validated_index(owner_session, token, now_us) {
            Ok(i) => i,
            Err(e) => return Err(e),
        };
        let res = self.resolution_at(i, token);
        let ghost recs = self@.records;
        let mut records: Vec<HandleRecord> = Vec::new();
        std::mem::swap(&mut records, &mut self.records);
        let mut record = records.remove(i);
        proof {
            assert(record.view() == recs[i as int]);
        }
        record.outstanding_count = if record.outstanding_count == usize::MAX { usize::MAX } else { record.outstanding_count + 1 };
        records.insert(i, record);
        proof {
            if recs[i as int].count == usize::MAX {
                assert(records_view(records@) =~= recs);
            } else {
                let nr = RecordView { count: recs[i as int].count + 1, ..recs[i as int] };
                assert(records_view(records@) =~= recs.update(i as int, nr));
                lemma_update_keeps_sorted(recs, i as int, nr);
            }
        }
        proof {
            assert forall|k: int| 0 <= k < recs.len() implies #[trigger] records_view(records@)[k].token == recs[k].token by {}
            lemma_tokens_numbered_same_tokens(recs, records_view(records@), self.next_id);
        }
        let next_id = self.next_id;
        *self = HandleRegistry { next_id, records };
        Ok(res)
    }

    /// Drops one reference to a valid handle (time is not checked); the
    /// last reference releases it explicitly. Reports the owner's remaining
    /// outstanding count of that kind.
    pub fn release(&mut self, owner_session: &RuntimeSessionId, token: &HandleToken) -> (r: Result<HandleReleaseReport, RuntimeError>)
        ensures
            match spec_validate(old(self)@.records, owner_session@, token@, 0) {
                Err(k) => {
                    &&& final(self)@ == old(self)@
                    &&& r matches Err(e) && e.kind == k && e.message@ == validate_message(k, token@.token)
                },
                Ok(i) => {
                    &&& final(self)@ == (RegistryView {
                        next_id: old(self)@.next_id,
                        records: spec_release_records(old(self)@.records, i),
                    })
                    &&& r matches Ok(rep) && rep.token@ == token@ && rep.kind == old(self)@.records[i].token.kind
                        && rep.owner_session@ == old(self)@.records[i].token.owner
                        && rep.generation == old(self)@.records[i].token.generation
                        && rep.outstanding_count == outstanding(final(self)@.records, owner_session@, rep.kind)
                        && rep.release_state == HandleReleaseState::Explicit
                },
            },
    {
        proof {
            use_type_invariant(&*self);
        }
        let i = match self.validated_index(owner_session, token, 0) {
            Ok(i) => i,
            Err(e) => return Err(e),
        };
        let res = self.resolution_at(i, token);
        let ghost recs = self@.records;
        let mut records: Vec<HandleRecord> = Vec::new();
        std::mem::swap(&mut records, &mut self.records);
        let mut record = records.remove(i);
        proof {
            assert(record.view() == recs[i as int]);
        }
        if record.outstanding_count > 1 {
            record.outstanding_count = record.outstanding_count - 1;
        } else {
            record.release_state = Some(HandleReleaseState::Explicit);
            record.outstanding_count = 0;
        }
        records.insert(i, record);
        proof {
            let nr = if recs[i as int].count > 1 {
                RecordView { count: (recs[i as int].count - 1) as nat, ..recs[i as int] }
            } else {
                RecordView { count: 0, released: Some(HandleReleaseState::Explicit), ..recs[i as int] }
            };
            assert(records_view(records@) =~= recs.update(i as int, nr));
            lemma_update_keeps_sorted(recs, i as int, nr);
        }
        proof {
            assert forall|k: int| 0 <= k < recs.len() implies #[trigger] records_view(records@)[k].token == recs[k].token by {}
            lemma_tokens_numbered_same_tokens(recs, records_view(records@), self.next_id);
        }
        let next_id = self.next_id;
        *self = HandleRegistry { next_id, records };
        let outstanding_count = self.outstanding_count(owner_session, res.kind);
        Ok(HandleReleaseReport {
            token: res.token,
            kind: res.kind,
            owner_session: res.owner_session,
            generation: res.generation,
            outstanding_count,
            release_state: HandleReleaseState::Explicit,
        })
    }

    /// Releases every outstanding handle of a runtime session as a cascade
    /// close and reports each one, in key order, with the count it had.
    pub fn close_runtime_session(&mut self, owner_session: &RuntimeSessionId) -> (report: RuntimeCloseReport)
        ensures
            final(self)@ == (RegistryView {
                next_id: old(self)@.next_id,
                records: spec_close_records(old(self)@.records, owner_session@),
            }),
            report.owner_session@ == owner_session@,
            report.leak_diagnostics@.len() == spec_leaks(old(self)@.records, owner_session@).len(),
            forall|k: int| 0 <= k < report.leak_diagnostics@.len() ==> {
                let d = #[trigger] report.leak_diagnostics@[k];
                let l = spec_leaks(old(self)@.records, owner_session@)[k];
                &&& d.token@ == l.0
                &&& d.kind == l.0.kind
                &&& d.owner_session@ == l.0.owner
                &&& d.generation == l.0.generation
                &&& d.outstanding_count == l.1
                &&& d.release_state == HandleReleaseState::CascadeClose
            },
    {
        proof {
            use_type_invariant(&*self);
        }
        let ghost recs = self@.records;
        let mut records: Vec<HandleRecord> = Vec::new();
        std::mem::swap(&mut records, &mut self.records);
        let mut leak_diagnostics: Vec<RuntimeLeakDiagnostic> = Vec::new();
        let mut j: usize = 0;
        while j < records.len()
            invariant
                records@.len() == recs.len(),
                j <= recs.len(),
                forall|k: int| 0 <= k < j ==> #[trigger] records@[k].view() == cascade(recs[k], owner_session@),
                forall|k: int| j <= k < recs.len() ==> #[trigger] records@[k].view() == recs[k],
                leak_diagnostics@.len() == spec_leaks(recs.subrange(0, j as int), owner_session@).len(),
                forall|k: int| 0 <= k < leak_diagnostics@.len() ==> {
                    let d = #[trigger] leak_diagnostics@[k];
                    let l = spec_leaks(recs.subrange(0, j as int), owner_session@)[k];
                    &&& d.token@ == l.0
                    &&& d.kind == l.0.kind
                    &&& d.owner_session@ == l.0.owner
                    &&& d.generation == l.0.generation
                    &&& d.outstanding_count == l.1
                    &&& d.release_state == HandleReleaseState::CascadeClose
                },
            decreases recs.len() - j,
        {
            let mut record = records.remove(j);
            proof {
                assert(record.view() == recs[j as int]);
                assert(recs.subrange(0, j + 1).drop_last() =~= recs.subrange(0, j as int));
                assert(recs.subrange(0, j + 1).last() == recs[j as int]);
            }
            if record.token.owner_session.same_as(owner_session) && record.release_state.is_none() {
                let outstanding_count = record.outstanding_count;
                record.release_state = Some(HandleReleaseState::CascadeClose);
                record.outstanding_count = 0;
                leak_diagnostics.push(RuntimeLeakDiagnostic {
                    token: record.token.duplicate(),
                    kind: record.token.kind,
                    owner_session: record.token.owner_session.duplicate(),
                    generation: record.token.generation,
                    outstanding_count,
                    release_state: HandleReleaseState::CascadeClose,
                });
            }
            records.insert(j, record);
            j = j + 1;
        }
        proof {
            assert(recs.subrange(0, recs.len() as int) =~= recs);
            assert(records_view(records@) =~= spec_close_records(recs, owner_session@));
            let ns = spec_close_records(recs, owner_session@);
            assert forall|a: int, b: int| 0 <= a < b < ns.len() implies key_lt(#[trigger] ns[a].token, #[trigger] ns[b].token) by {
                assert(key_lt(recs[a].token, recs[b].token));
            }
        }
        proof {
            assert forall|k: int| 0 <= k < recs.len() implies #[trigger] records_view(records@)[k].token == recs[k].token by {}
            lemma_tokens_numbered_same_tokens(recs, records_view(records@), self.next_id);
        }
        let next_id = self.next_id;
        *self = HandleRegistry { next_id, records };
        RuntimeCloseReport { owner_session: owner_session.duplicate(), leak_diagnostics }
    }
}

/// Records after a retain of record `i`; the count saturates.
pub open spec fn spec_retain_records_saturating(recs: Seq<RecordView>, i: int) -> Seq<RecordView> {
    if recs[i].count == usize::MAX {
        recs
    } else {
        spec_retain_records(recs, i)
    }
}

fn handle_error(kind: RuntimeErrorKind, token: &str, suffix: &str) -> (e: RuntimeError)
    ensures
        e.kind == kind,
        e.message@ == "handle "@ + token@ + suffix@,
{
    let mut message = lit("handle ");
    append_str(&mut message, token);
    append_str(&mut message, suffix);
    RuntimeError::new(kind, message)
}

fn double_release(token: &HandleToken) -> (e: RuntimeError)
    ensures
        e.kind == RuntimeErrorKind::DoubleRelease,
        e.message@ == "handle "@ + token@.token + " was already released"@,
{
    handle_error(RuntimeErrorKind::DoubleRelease, token.as_str(), " was already released")
}

} // verus!
