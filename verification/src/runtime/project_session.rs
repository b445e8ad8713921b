//! Project sessions: handles to open project bundles, numbered in order of
//! opening, with a revision that each save advances. Reading and writing
//! bundles happens outside; this service keeps the records.
use vstd::prelude::*;

use crate::engine::model::{same_draft, Draft};
use crate::runtime::error::{RuntimeError, RuntimeErrorKind};
use crate::runtime::session::RuntimeSessionId;
use crate::text::{append_str, append_string, decimal, lemma_numbered_ids_distinct, lit, str_eq, u64_to_decimal};

verus! {

/// Handle of an open project session.
#[derive(Debug, Clone)]
pub struct ProjectSessionHandle {
    token: String,
    owner_session: RuntimeSessionId,
    generation: u64,
}

/// Value of a project session handle: token, owner session, generation.
pub type ProjectHandleView = (Seq<char>, (Seq<char>, u64), u64);

impl View for ProjectSessionHandle {
    type V = ProjectHandleView;

    closed spec fn view(&self) -> ProjectHandleView {
        (self.token@, self.owner_session@, self.generation)
    }
}

impl ProjectSessionHandle {
    fn new(token: String, owner_session: RuntimeSessionId, generation: u64) -> (h: Self)
        ensures
            h@ == (token@, owner_session@, generation),
    {
        ProjectSessionHandle { token, owner_session, generation }
    }

    /// The opaque token.
    pub fn as_str(&self) -> (s: &str)
        ensures
            s@ == self@.0,
    {
        self.token.as_str()
    }

    /// The runtime session that opened the project.
    pub fn owner_session(&self) -> (s: &RuntimeSessionId)
        ensures
            s@ == self@.1,
    {
        &self.owner_session
    }

    /// The handle's generation.
    pub fn generation(&self) -> (g: u64)
        ensures
            g == self@.2,
    {
        self.generation
    }

    /// An equal copy.
    pub fn duplicate(&self) -> (h: Self)
        ensures
            h@ == self@,
    {
        ProjectSessionHandle {
            token: self.token.clone(),
            owner_session: self.owner_session.duplicate(),
            generation: self.generation,
        }
    }

    /// Equality of token, owner and generation.
    pub fn same_as(&self, other: &ProjectSessionHandle) -> (r: bool)
        ensures
            r == (self@ == other@),
    {
        self.generation == other.generation && self.token == other.token && self.owner_session.same_as(&other.owner_session)
    }
}

/// A request to save an open project session.
#[derive(Debug, Clone)]
pub struct SaveProjectSessionRequest {
    pub handle: ProjectSessionHandle,
}

/// A problem found while opening a project that does not stop it.
#[derive(Debug, Clone, PartialEq, Eq)]
pub enum ProjectSessionWarning {
    MissingMaterial {
        material_id: String,
        uri: String,
        resolved_path: Option<String>,
    },
}

/// What opening a project reports.
#[derive(Debug, Clone)]
pub struct ProjectSessionOpened {
    pub handle: ProjectSessionHandle,
    pub revision: u64,
    pub bundle_path: String,
    pub project_json_path: String,
    pub draft_id: String,
    pub draft_name: String,
    pub warnings: Vec<ProjectSessionWarning>,
}

/// The state of an open project session.
#[derive(Debug, Clone)]
pub struct ProjectSessionSnapshot {
    pub handle: ProjectSessionHandle,
    pub revision: u64,
    pub bundle_path: String,
    pub project_json_path: String,
    pub draft: Draft,
}

#[derive(Debug, Clone)]
struct ProjectSessionRecord {
    handle: ProjectSessionHandle,
    revision: u64,
    bundle_path: String,
    project_json_path: String,
    draft: Draft,
}

/// Value of a session record: handle, revision, bundle path, project file
/// path.
pub type ProjectRecordView = (ProjectHandleView, u64, Seq<char>, Seq<char>);

spec fn record_view(r: ProjectSessionRecord) -> ProjectRecordView {
    (r.handle@, r.revision, r.bundle_path@, r.project_json_path@)
}

/// Handles of the records are distinct.
pub open spec fn handles_unique(v: Seq<ProjectRecordView>) -> bool {
    forall|a: int, b: int| 0 <= a < b < v.len() ==> (#[trigger] v[a]).0 != (#[trigger] v[b]).0
}

/// Position of the record with handle `h` among `v`, or -1.
pub open spec fn position_of(v: Seq<ProjectRecordView>, h: ProjectHandleView) -> int
    decreases v.len(),
{
    if v.len() == 0 {
        -1
    } else if v.last().0 == h {
        v.len() - 1
    } else {
        position_of(v.drop_last(), h)
    }
}

proof fn lemma_position_of(v: Seq<ProjectRecordView>, h: ProjectHandleView)
    ensures
        -1 <= position_of(v, h) < v.len(),
        position_of(v, h) >= 0 ==> v[position_of(v, h)].0 == h,
        position_of(v, h) == -1 ==> forall|k: int| 0 <= k < v.len() ==> #[trigger] v[k].0 != h,
    decreases v.len(),
{
    if v.len() > 0 && v.last().0 != h {
        lemma_position_of(v.drop_last(), h);
        if position_of(v, h) == -1 {
            assert forall|k: int| 0 <= k < v.len() implies #[trigger] v[k].0 != h by {
                if k < v.len() - 1 {
                    assert(v[k] == v.drop_last()[k]);
                }
            }
        }
    }
}

proof fn lemma_unique_position(v: Seq<ProjectRecordView>, k: int)
    requires
        handles_unique(v),
        0 <= k < v.len(),
    ensures
        position_of(v, v[k].0) == k,
    decreases v.len(),
{
    if k < v.len() - 1 {
        assert(v.last().0 != v[k].0);
        assert(handles_unique(v.drop_last()));
        lemma_unique_position(v.drop_last(), k);
    }
}

/// Revision of the first record among the first `n` whose token is `token`.
pub open spec fn revision_by_token(v: Seq<ProjectRecordView>, token: Seq<char>, n: int) -> Option<u64>
    decreases n,
{
    if n <= 0 {
        None
    } else {
        match revision_by_token(v, token, n - 1) {
            Some(r) => Some(r),
            None => if v[n - 1].0.0 == token { Some(v[n - 1].1) } else { None },
        }
    }
}

proof fn lemma_revision_by_token_settles(v: Seq<ProjectRecordView>, token: Seq<char>, a: int, b: int)
    requires
        a <= b,
        revision_by_token(v, token, a) is Some,
    ensures
        revision_by_token(v, token, b) == revision_by_token(v, token, a),
    decreases b - a,
{
    if a < b {
        lemma_revision_by_token_settles(v, token, a, b - 1);
    }
}

/// Recording a save of an open session keeps every handle distinct, and
/// reading that session afterwards finds the saved record and draft at the
/// same position.
pub proof fn law_snapshot_reads_recorded_save(
    records: Seq<ProjectRecordView>,
    drafts: Seq<Draft>,
    h: ProjectHandleView,
    revision: u64,
    bundle_path: Seq<char>,
    project_json_path: Seq<char>,
    draft: Draft,
)
    requires
        handles_unique(records),
        records.len() == drafts.len(),
        position_of(records, h) >= 0,
    ensures
        ({
            let p = position_of(records, h);
            let saved = (h, revision, bundle_path, project_json_path);
            let new_records = records.update(p, saved);
            let new_drafts = drafts.update(p, draft);
            &&& handles_unique(new_records)
            &&& position_of(new_records, h) == p
            &&& new_records[p] == saved
            &&& new_drafts[p] == draft
            &&& forall|k: int| 0 <= k < records.len() && k != p ==> #[trigger] new_records[k] == records[k] && new_drafts[k] == drafts[k]
        }),
{
    let p = position_of(records, h);
    lemma_position_of(records, h);
    let saved = (h, revision, bundle_path, project_json_path);
    let new_records = records.update(p, saved);
    assert(handles_unique(new_records)) by {
        assert forall|a: int, b: int| 0 <= a < b < new_records.len() implies (#[trigger] new_records[a]).0 != (#[trigger] new_records[b]).0 by {
            if a == p {
                assert(records[b].0 != records[p].0);
            } else if b == p {
                assert(records[a].0 != records[p].0);
            } else {
                assert(records[a].0 != records[b].0);
            }
        }
    }
    lemma_unique_position(new_records, p);
}

/// Opening a project registers it so that reading its handle finds the
/// record and draft just registered, with every handle still distinct.
pub proof fn law_snapshot_reads_opened_project(
    records: Seq<ProjectRecordView>,
    drafts: Seq<Draft>,
    rec: ProjectRecordView,
    draft: Draft,
)
    requires
        handles_unique(records),
        records.len() == drafts.len(),
    ensures
        ({
            let p = position_of(records, rec.0);
            let (new_records, new_drafts) = if p >= 0 {
                (records.update(p, rec), drafts.update(p, draft))
            } else {
                (records.push(rec), drafts.push(draft))
            };
            let q = position_of(new_records, rec.0);
            &&& handles_unique(new_records)
            &&& q >= 0
            &&& new_records[q] == rec
            &&& new_drafts[q] == draft
        }),
{
    let p = position_of(records, rec.0);
    lemma_position_of(records, rec.0);
    if p >= 0 {
        law_snapshot_reads_recorded_save(records, drafts, rec.0, rec.1, rec.2, rec.3, draft);
    } else {
        let new_records = records.push(rec);
        assert(handles_unique(new_records)) by {
            assert forall|a: int, b: int| 0 <= a < b < new_records.len() implies (#[trigger] new_records[a]).0 != (#[trigger] new_records[b]).0 by {
                if b == records.len() {
                    assert(records[a].0 != rec.0);
                } else {
                    assert(records[a].0 != records[b].0);
                }
            }
        }
        lemma_unique_position(new_records, records.len() as int);
    }
}

/// The open project sessions, each handle at most once.
pub struct ProjectSessionService {
    next_id: u64,
    sessions: Vec<ProjectSessionRecord>,
}

/// The message of an unknown project session.
pub open spec fn not_found_message(token: Seq<char>) -> Seq<char> {
    "project session not found: "@ + token
}

impl ProjectSessionService {
    /// The records, in order of first opening.
    pub closed spec fn records(&self) -> Seq<ProjectRecordView> {
        self.sessions@.map_values(|r: ProjectSessionRecord| record_view(r))
    }

    /// The drafts of the records, in the same order.
    pub closed spec fn drafts(&self) -> Seq<Draft> {
        self.sessions@.map_values(|r: ProjectSessionRecord| r.draft)
    }

    /// Number of sessions opened so far.
    pub closed spec fn opened_count(&self) -> u64 {
        self.next_id
    }

    #[verifier::type_invariant]
    spec fn well_formed(self) -> bool {
        handles_unique(self.sessions@.map_values(|r: ProjectSessionRecord| record_view(r)))
    }

    /// No open sessions.
    pub fn new() -> (s: Self)
        ensures
            s.records().len() == 0,
            s.drafts().len() == 0,
            s.opened_count() == 0,
    {
        let s = ProjectSessionService { next_id: 0, sessions: Vec::new() };
        proof {
            assert(s.sessions@.map_values(|r: ProjectSessionRecord| record_view(r)) =~= Seq::<ProjectRecordView>::empty());
        }
        s
    }

    fn find(&self, handle: &ProjectSessionHandle) -> (r: Option<usize>)
        ensures
            match r {
                Some(i) => i as int == position_of(self.records(), handle@) && i < self.records().len(),
                None => position_of(self.records(), handle@) == -1,
            },
    {
        proof {
            use_type_invariant(self);
            lemma_position_of(self.records(), handle@);
        }
        let mut i: usize = 0;
        while i < self.sessions.len()
            invariant
                i <= self.sessions@.len(),
                handles_unique(self.records()),
                self.records().len() == self.sessions@.len(),
                forall|k: int| 0 <= k < i ==> #[trigger] self.records()[k].0 != handle@,
            decreases self.sessions@.len() - i,
        {
            proof {
                assert(self.records()[i as int] == record_view(self.sessions@[i as int]));
            }
            if self.sessions[i].handle.same_as(handle) {
                proof {
                    lemma_unique_position(self.records(), i as int);
                }
                return Some(i);
            }
            i = i + 1;
        }
        proof {
            let p = position_of(self.records(), handle@);
            if p >= 0 {
                assert(self.records()[p].0 == handle@);
            }
        }
        None
    }

    /// The current revision of the session whose token is `session_id`,
    /// if one is open.
    pub fn current_revision(&self, session_id: &str) -> (r: Option<u64>)
        ensures
            r == revision_by_token(self.records(), session_id@, self.records().len() as int),
    {
        let ghost v = self.records();
        let mut i: usize = 0;
        while i < self.sessions.len()
            invariant
                v == self.records(),
                v.len() == self.sessions@.len(),
                i <= v.len(),
                revision_by_token(v, session_id@, i as int) is None,
            decreases v.len() - i,
        {
            proof {
                assert(v[i as int] == record_view(self.sessions@[i as int]));
            }
            if str_eq(self.sessions[i].handle.as_str(), session_id) {
                proof {
                    lemma_revision_by_token_settles(v, session_id@, i + 1, v.len() as int);
                }
                return Some(self.sessions[i].revision);
            }
            i = i + 1;
        }
        None
    }

    /// Registers a project that was just opened or created, under its
    /// draft's name. It gets the
    /// handle `projectSession-N` (N counting openings, saturating),
    /// generation 1 and revision 1; a record with the same handle is
    /// replaced, any other record is kept.
    pub fn insert_opened_project(
        &mut self,
        runtime_session: RuntimeSessionId,
        bundle_path: String,
        project_json_path: String,
        draft: Draft,
        warnings: Vec<ProjectSessionWarning>,
    ) -> (opened: ProjectSessionOpened)
        ensures
            final(self).opened_count() == if old(self).opened_count() == u64::MAX { u64::MAX } else { (old(self).opened_count() + 1) as u64 },
            opened.handle@ == ("projectSession-"@ + decimal(final(self).opened_count() as nat), runtime_session@, 1u64),
            opened.revision == 1,
            opened.bundle_path@ == bundle_path@,
            opened.project_json_path@ == project_json_path@,
            opened.draft_id == draft.draft_id,
            opened.draft_name@ == draft.name@,
            opened.warnings == warnings,
            ({
                let rec = (opened.handle@, 1u64, bundle_path@, project_json_path@);
                let p = position_of(old(self).records(), opened.handle@);
                if p >= 0 {
                    final(self).records() == old(self).records().update(p, rec)
                        && final(self).drafts() == old(self).drafts().update(p, draft)
                } else {
                    final(self).records() == old(self).records().push(rec)
                        && final(self).drafts() == old(self).drafts().push(draft)
                }
            }),
    {
        proof {
            use_type_invariant(&*self);
        }
        let id_number = if self.next_id == u64::MAX { u64::MAX } else { self.next_id + 1 };
        let mut token = lit("projectSession-");
        let digits = u64_to_decimal(id_number);
        append_string(&mut token, &digits);
        let handle = ProjectSessionHandle::new(token, runtime_session, 1);
        let opened = ProjectSessionOpened {
            handle: handle.duplicate(),
            revision: 1,
            bundle_path: bundle_path.clone(),
            project_json_path: project_json_path.clone(),
            draft_id: draft.draft_id.clone(),
            draft_name: draft.name.clone(),
            warnings,
        };
        let record = ProjectSessionRecord { handle, revision: 1, bundle_path, project_json_path, draft };
        let ghost rec = record_view(record);
        let ghost old_records = self.records();
        let ghost old_drafts = self.drafts();
        let found = self.find(&record.handle);
        let mut sessions = Vec::new();
        std::mem::swap(&mut sessions, &mut self.sessions);
        match found {
            Some(i) => {
                sessions.set(i, record);
            },
            None => {
                sessions.push(record);
            },
        }
        proof {
            let nv = sessions@.map_values(|r: ProjectSessionRecord| record_view(r));
            lemma_position_of(old_records, rec.0);
            match found {
                Some(i) => {
                    assert(nv =~= old_records.update(i as int, rec));
                    assert(sessions@.map_values(|r: ProjectSessionRecord| r.draft) =~= old_drafts.update(i as int, draft));
                },
                None => {
                    assert(nv =~= old_records.push(rec));
                    assert(sessions@.map_values(|r: ProjectSessionRecord| r.draft) =~= old_drafts.push(draft));
                },
            }
            assert(handles_unique(nv));
        }
        self.next_id = id_number;
        self.sessions = sessions;
        opened
    }

    /// The state of an open session.
    pub fn snapshot(&self, handle: &ProjectSessionHandle) -> (r: Result<ProjectSessionSnapshot, RuntimeError>)
        ensures
            match r {
                Ok(s) => {
                    let p = position_of(self.records(), handle@);
                    &&& p >= 0
                    &&& s.handle@ == handle@
                    &&& (s.handle@, s.revision, s.bundle_path@, s.project_json_path@) == self.records()[p]
                    &&& same_draft(s.draft, self.drafts()[p])
                },
                Err(e) => position_of(self.records(), handle@) == -1
                    && e.kind == RuntimeErrorKind::UnknownProjectSession
                    && e.message@ == not_found_message(handle@.0),
            },
    {
        match self.find(handle) {
            Some(i) => {
                let record = &self.sessions[i];
                proof {
                    lemma_position_of(self.records(), handle@);
                    assert(self.records()[i as int] == record_view(self.sessions@[i as int]));
                    assert(self.drafts()[i as int] == self.sessions@[i as int].draft);
                }
                Ok(ProjectSessionSnapshot {
                    handle: record.handle.duplicate(),
                    revision: record.revision,
                    bundle_path: record.bundle_path.clone(),
                    project_json_path: record.project_json_path.clone(),
                    draft: record.draft.duplicate(),
                })
            },
            None => {
                let mut message = lit("project session not found: ");
                append_str(&mut message, handle.as_str());
                Err(RuntimeError::new(RuntimeErrorKind::UnknownProjectSession, message))
            },
        }
    }

    /// The bundle path and draft to write when saving a session.
    pub fn save_source(&self, request: &SaveProjectSessionRequest) -> (r: Result<(&String, &Draft), RuntimeError>)
        ensures
            match r {
                Ok((path, draft)) => {
                    let p = position_of(self.records(), request.handle@);
                    p >= 0 && path@ == self.records()[p].2 && *draft == self.drafts()[p]
                },
                Err(e) => position_of(self.records(), request.handle@) == -1
                    && e.kind == RuntimeErrorKind::UnknownProjectSession
                    && e.message@ == not_found_message(request.handle@.0),
            },
    {
        match self.find(&request.handle) {
            Some(i) => {
                proof {
                    assert(self.records()[i as int] == record_view(self.sessions@[i as int]));
                    assert(self.drafts()[i as int] == self.sessions@[i as int].draft);
                }
                Ok((&self.sessions[i].bundle_path, &self.sessions[i].draft))
            },
            None => {
                let mut message = lit("project session not found: ");
                append_str(&mut message, request.handle.as_str());
                Err(RuntimeError::new(RuntimeErrorKind::UnknownProjectSession, message))
            },
        }
    }

    /// Records a completed save: the revision advances (saturating) and the
    /// record takes the saved paths and draft; returns the new state.
    pub fn record_saved(
        &mut self,
        request: &SaveProjectSessionRequest,
        bundle_path: String,
        project_json_path: String,
        draft: Draft,
    ) -> (r: Result<ProjectSessionSnapshot, RuntimeError>)
        ensures
            match r {
                Ok(s) => {
                    let p = position_of(old(self).records(), request.handle@);
                    let old_rec = old(self).records()[p];
                    let rev = if old_rec.1 == u64::MAX { u64::MAX } else { (old_rec.1 + 1) as u64 };
                    &&& p >= 0
                    &&& final(self).records() == old(self).records().update(p, (old_rec.0, rev, bundle_path@, project_json_path@))
                    &&& final(self).drafts() == old(self).drafts().update(p, draft)
                    &&& final(self).opened_count() == old(self).opened_count()
                    &&& s.handle@ == request.handle@
                    &&& s.revision == rev
                    &&& s.bundle_path@ == bundle_path@
                    &&& s.project_json_path@ == project_json_path@
                    &&& same_draft(s.draft, draft)
                },
                Err(e) => position_of(old(self).records(), request.handle@) == -1
                    && e.kind == RuntimeErrorKind::UnknownProjectSession
                    && e.message@ == not_found_message(request.handle@.0)
                    && final(self).records() == old(self).records()
                    && final(self).drafts() == old(self).drafts()
                    && final(self).opened_count() == old(self).opened_count(),
            },
    {
        proof {
            use_type_invariant(&*self);
        }
        let i = match self.find(&request.handle) {
            Some(i) => i,
            None => {
                let mut message = lit("project session not found: ");
                append_str(&mut message, request.handle.as_str());
                return Err(RuntimeError::new(RuntimeErrorKind::UnknownProjectSession, message));
            },
        };
        let ghost old_records = self.records();
        let ghost old_drafts = self.drafts();
        let old_revision = self.sessions[i].revision;
        let revision = if old_revision == u64::MAX { u64::MAX } else { old_revision + 1 };
        let snapshot = ProjectSessionSnapshot {
            handle: self.sessions[i].handle.duplicate(),
            revision,
            bundle_path: bundle_path.clone(),
            project_json_path: project_json_path.clone(),
            draft: draft.duplicate(),
        };
        let record = ProjectSessionRecord {
            handle: self.sessions[i].handle.duplicate(),
            revision,
            bundle_path,
            project_json_path,
            draft,
        };
        proof {
            lemma_position_of(old_records, request.handle@);
            assert(old_records[i as int] == record_view(self.sessions@[i as int]));
        }
        let mut sessions = Vec::new();
        std::mem::swap(&mut sessions, &mut self.sessions);
        let ghost rec = record_view(record);
        let ghost d = record.draft;
        sessions.set(i, record);
        proof {
            let nv = sessions@.map_values(|r: ProjectSessionRecord| record_view(r));
            assert(nv =~= old_records.update(i as int, rec));
            assert(sessions@.map_values(|r: ProjectSessionRecord| r.draft) =~= old_drafts.update(i as int, d));
            assert(handles_unique(nv));
        }
        self.sessions = sessions;
        Ok(snapshot)
    }
}


/// Projects opened at different counter values get different handles.
pub proof fn law_opened_project_handles_distinct(a: nat, b: nat)
    ensures
        a != b ==> "projectSession-"@ + decimal(a) != "projectSession-"@ + decimal(b),
{
    lemma_numbered_ids_distinct("projectSession-"@, a, b);
}

} // verus!
