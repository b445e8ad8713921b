//! Runtime sessions: opaque, generation-stamped identities handed to
//! adapters, kept in a registry.
use vstd::prelude::*;

use crate::runtime::error::{RuntimeError, RuntimeErrorKind};
use crate::text::{append_string, decimal, lemma_numbered_ids_distinct, lit, u64_to_decimal};

verus! {

/// Identity of a runtime session: an opaque token and a generation.
#[derive(Debug, Clone)]
pub struct RuntimeSessionId {
    token: String,
    generation: u64,
}

/// Value of a session identity: token characters and generation.
pub type SessionIdView = (Seq<char>, u64);

impl View for RuntimeSessionId {
    type V = SessionIdView;

    closed spec fn view(&self) -> SessionIdView {
        (self.token@, self.generation)
    }
}

impl RuntimeSessionId {
    pub(crate) fn new(token: String, generation: u64) -> (id: Self)
        ensures
            id@ == (token@, generation),
    {
        RuntimeSessionId { token, generation }
    }

    pub fn as_str(&self) -> (s: &str)
        ensures
            s@ == self@.0,
    {
        self.token.as_str()
    }

    pub fn generation(&self) -> (g: u64)
        ensures
            g == self@.1,
    {
        self.generation
    }

    /// The same token at another generation.
    pub fn with_generation(&self, generation: u64) -> (id: Self)
        ensures
            id@ == (self@.0, generation),
    {
        RuntimeSessionId { token: self.token.clone(), generation }
    }

    /// An equal copy.
    pub fn duplicate(&self) -> (id: Self)
        ensures
            id@ == self@,
    {
        RuntimeSessionId { token: self.token.clone(), generation: self.generation }
    }

    /// Equality of token and generation.
    pub fn same_as(&self, other: &RuntimeSessionId) -> (r: bool)
        ensures
            r == (self@ == other@),
    {
        self.generation == other.generation && self.token == other.token
    }
}

/// Options for creating a runtime session.
#[derive(Debug, Clone, Default)]
pub struct RuntimeSessionConfig {
    pub diagnostic_label: Option<String>,
}

/// Adapter description attached to a session by an adapter layer.
#[derive(Debug, Clone)]
pub struct AdapterMetadata {
    pub adapter: String,
}

/// A runtime session.
#[derive(Debug, Clone)]
pub struct RuntimeSession {
    pub id: RuntimeSessionId,
    pub diagnostic_label: Option<String>,
    pub adapter_metadata: Option<AdapterMetadata>,
}

pub open spec fn opt_string_view(o: Option<String>) -> Option<Seq<char>> {
    match o {
        Some(s) => Some(s@),
        None => None,
    }
}

pub fn duplicate_opt_string(o: &Option<String>) -> (r: Option<String>)
    ensures
        opt_string_view(r) == opt_string_view(*o),
{
    match o {
        Some(s) => Some(s.clone()),
        None => None,
    }
}

/// The value of a session: identity, label, adapter name.
pub type SessionView = (SessionIdView, Option<Seq<char>>, Option<Seq<char>>);

pub open spec fn session_view(s: RuntimeSession) -> SessionView {
    (
        s.id@,
        opt_string_view(s.diagnostic_label),
        match s.adapter_metadata {
            Some(m) => Some(m.adapter@),
            None => None,
        },
    )
}

impl RuntimeSession {
    pub fn duplicate(&self) -> (s: Self)
        ensures
            session_view(s) == session_view(*self),
    {
        RuntimeSession {
            id: self.id.duplicate(),
            diagnostic_label: duplicate_opt_string(&self.diagnostic_label),
            adapter_metadata: match &self.adapter_metadata {
                Some(m) => Some(AdapterMetadata { adapter: m.adapter.clone() }),
                None => None,
            },
        }
    }
}

/// Index of the session with identity `id` in `sessions`, or -1.
pub open spec fn session_index(sessions: Seq<RuntimeSession>, id: SessionIdView) -> int
    decreases sessions.len(),
{
    if sessions.len() == 0 {
        -1
    } else if sessions.last().id@ == id {
        sessions.len() - 1
    } else {
        session_index(sessions.drop_last(), id)
    }
}

proof fn lemma_session_index(sessions: Seq<RuntimeSession>, id: SessionIdView)
    ensures
        -1 <= session_index(sessions, id) < sessions.len(),
        session_index(sessions, id) >= 0 ==> sessions[session_index(sessions, id)].id@ == id,
        session_index(sessions, id) == -1 <==> forall|i: int| 0 <= i < sessions.len() ==> #[trigger] sessions[i].id@ != id,
    decreases sessions.len(),
{
    if sessions.len() > 0 {
        lemma_session_index(sessions.drop_last(), id);
        if sessions.last().id@ != id {
            assert forall|i: int| 0 <= i < sessions.len() - 1 implies #[trigger] sessions[i] == sessions.drop_last()[i] by {}
        }
    }
}

pub open spec fn ids_unique(sessions: Seq<RuntimeSession>) -> bool {
    forall|i: int, j: int|
        0 <= i < j < sessions.len() ==> #[trigger] sessions[i].id@ != #[trigger] sessions[j].id@
}

proof fn lemma_unique_index(s: Seq<RuntimeSession>, id: SessionIdView)
    requires
        ids_unique(s),
    ensures
        session_index(s, id) == -1 <==> forall|k: int| 0 <= k < s.len() ==> #[trigger] s[k].id@ != id,
        forall|k: int| 0 <= k < s.len() && #[trigger] s[k].id@ == id ==> session_index(s, id) == k,
{
    lemma_session_index(s, id);
    assert forall|k: int| 0 <= k < s.len() && #[trigger] s[k].id@ == id implies session_index(s, id) == k by {
        let m = session_index(s, id);
        if m != k {
            if m < k {
                assert(s[m].id@ != s[k].id@);
            } else {
                assert(s[k].id@ != s[m].id@);
            }
        }
    }
}

/// The sessions created so far, one per identity.
pub struct RuntimeSessionRegistry {
    next_id: u64,
    sessions: Vec<RuntimeSession>,
}

impl Default for RuntimeSessionRegistry {
    fn default() -> (r: Self)
        ensures
            r.spec_next_id() == 0,
            forall|id: SessionIdView| #[trigger] r.lookup(id) is None,
    {
        RuntimeSessionRegistry { next_id: 0, sessions: Vec::new() }
    }
}

/// An identity `runtime-{n}` at generation 1 with `1 <= n <= bound`.
pub open spec fn numbered_below(id: SessionIdView, bound: u64) -> bool {
    exists|n: nat| 1 <= n <= bound && id == ("runtime-"@ + decimal(n), 1u64)
}

proof fn lemma_numbered_below_grows(id: SessionIdView, a: u64, b: u64)
    requires
        numbered_below(id, a),
        a <= b,
    ensures
        numbered_below(id, b),
{
    let n = choose|n: nat| 1 <= n <= a && id == ("runtime-"@ + decimal(n), 1u64);
    assert(1 <= n <= b && id == ("runtime-"@ + decimal(n), 1u64));
}

/// An identity numbered at most `bound` is not the one numbered `m > bound`.
proof fn lemma_numbered_below_differs(id: SessionIdView, bound: u64, m: nat)
    requires
        numbered_below(id, bound),
        m > bound,
    ensures
        id != ("runtime-"@ + decimal(m), 1u64),
{
    let n = choose|n: nat| 1 <= n <= bound && id == ("runtime-"@ + decimal(n), 1u64);
    lemma_numbered_ids_distinct("runtime-"@, n, m);
}

impl RuntimeSessionRegistry {
    #[verifier::type_invariant]
    spec fn wf(&self) -> bool {
        &&& ids_unique(self.sessions@)
        &&& forall|i: int| 0 <= i < self.sessions@.len() ==> numbered_below(#[trigger] self.sessions@[i].id@, self.next_id)
    }

    /// Counter of created sessions (saturating).
    pub closed spec fn spec_next_id(&self) -> u64 {
        self.next_id
    }

    /// The session registered under identity `id`, if any.
    pub closed spec fn lookup(&self, id: SessionIdView) -> Option<SessionView> {
        let i = session_index(self.sessions@, id);
        if i >= 0 {
            Some(session_view(self.sessions@[i]))
        } else {
            None
        }
    }

    /// Creates a session `runtime-{n}` at generation 1, where `n` is the
    /// next value of the session counter, and registers it (replacing any
    /// session with the same identity). Never fails.
    pub fn create_session(&mut self, config: RuntimeSessionConfig) -> (r: Result<RuntimeSession, RuntimeError>)
        ensures
            final(self).spec_next_id() == if old(self).spec_next_id() == u64::MAX {
                u64::MAX
            } else {
                (old(self).spec_next_id() + 1) as u64
            },
            r is Ok,
            r matches Ok(s) ==> s.id@ == ("runtime-"@ + decimal(final(self).spec_next_id() as nat), 1u64),
            r matches Ok(s) ==> opt_string_view(s.diagnostic_label) == opt_string_view(config.diagnostic_label),
            r matches Ok(s) ==> s.adapter_metadata is None,
            r matches Ok(s) ==> final(self).lookup(s.id@) == Some(session_view(s)),
            r matches Ok(s) ==> (old(self).spec_next_id() < u64::MAX ==> old(self).lookup(s.id@) is None),
            r matches Ok(s) ==> forall|other: SessionIdView| other != s.id@ ==> #[trigger] final(self).lookup(other)
                == old(self).lookup(other),
    {
        proof {
            use_type_invariant(&*self);
        }
        let id_number = if self.next_id == u64::MAX { u64::MAX } else { self.next_id + 1 };
        let mut token = lit("runtime-");
        let digits = u64_to_decimal(id_number);
        append_string(&mut token, &digits);
        let session = RuntimeSession {
            id: RuntimeSessionId::new(token, 1),
            diagnostic_label: config.diagnostic_label,
            adapter_metadata: None,
        };
        let stored = session.duplicate();
        let ghost old_sessions = self.sessions@;
        let found = self.find(&session.id);
        proof {
            if self.next_id < u64::MAX {
                assert forall|k: int| 0 <= k < old_sessions.len() implies #[trigger] old_sessions[k].id@ != session.id@ by {
                    lemma_numbered_below_differs(old_sessions[k].id@, self.next_id, id_number as nat);
                }
                lemma_unique_index(old_sessions, session.id@);
            }
        }
        let ghost old_next = self.next_id;
        let mut sessions: Vec<RuntimeSession> = Vec::new();
        std::mem::swap(&mut sessions, &mut self.sessions);
        proof {
            lemma_unique_index(old_sessions, session.id@);
        }
        match found {
            Some(i) => {
                sessions.set(i, stored);
                proof {
                    let ns = sessions@;
                    assert forall|a: int, b: int| 0 <= a < b < ns.len() implies #[trigger] ns[a].id@ != #[trigger] ns[b].id@ by {
                        if a != i && b != i {
                            assert(old_sessions[a].id@ != old_sessions[b].id@);
                        } else if a == i {
                            assert(old_sessions[a].id@ != old_sessions[b].id@);
                        } else {
                            assert(old_sessions[a].id@ != old_sessions[b].id@);
                        }
                    }
                    lemma_unique_index(ns, session.id@);
                    assert(ns[i as int].id@ == session.id@);
                    assert forall|other: SessionIdView| other != session.id@ implies
                        session_index(ns, other) == session_index(old_sessions, other) by {
                        lemma_unique_index(ns, other);
                        lemma_unique_index(old_sessions, other);
                        lemma_session_index(old_sessions, other);
                        lemma_session_index(ns, other);
                        if session_index(old_sessions, other) >= 0 {
                            let k = session_index(old_sessions, other);
                            assert(ns[k].id@ == other);
                        } else {
                            assert forall|k: int| 0 <= k < ns.len() implies #[trigger] ns[k].id@ != other by {
                                if k != i {
                                    assert(old_sessions[k].id@ != other);
                                }
                            }
                        }
                    }
                }
            },
            None => {
                sessions.push(stored);
                proof {
                    let ns = sessions@;
                    assert forall|a: int, b: int| 0 <= a < b < ns.len() implies #[trigger] ns[a].id@ != #[trigger] ns[b].id@ by {
                        if b == ns.len() - 1 {
                            assert(old_sessions[a].id@ != session.id@);
                        } else {
                            assert(old_sessions[a].id@ != old_sessions[b].id@);
                        }
                    }
                    lemma_unique_index(ns, session.id@);
                    assert(ns[ns.len() - 1].id@ == session.id@);
                    assert forall|other: SessionIdView| other != session.id@ implies
                        session_index(ns, other) == session_index(old_sessions, other) by {
                        lemma_unique_index(ns, other);
                        lemma_unique_index(old_sessions, other);
                        lemma_session_index(old_sessions, other);
                        lemma_session_index(ns, other);
                        if session_index(old_sessions, other) >= 0 {
                            let k = session_index(old_sessions, other);
                            assert(ns[k].id@ == other);
                        } else {
                            assert forall|k: int| 0 <= k < ns.len() implies #[trigger] ns[k].id@ != other by {
                                if k < old_sessions.len() {
                                    assert(old_sessions[k].id@ != other);
                                }
                            }
                        }
                    }
                }
            },
        }
        proof {
            assert(numbered_below(session.id@, id_number)) by {
                assert(1 <= id_number as nat <= id_number && session.id@ == ("runtime-"@ + decimal(id_number as nat), 1u64));
            }
            assert forall|k: int| 0 <= k < sessions@.len() implies numbered_below(#[trigger] sessions@[k].id@, id_number) by {
                if sessions@[k].id@ != session.id@ {
                    assert(k < old_sessions.len() && sessions@[k] == old_sessions[k]);
                    lemma_numbered_below_grows(old_sessions[k].id@, old_next, id_number);
                }
            }
        }
        *self = RuntimeSessionRegistry { next_id: id_number, sessions };
        proof {
            assert forall|other: SessionIdView| other != session.id@ implies #[trigger] self.lookup(other)
                == old(self).lookup(other) by {
                lemma_session_index(old_sessions, other);
                let k = session_index(old_sessions, other);
                if k >= 0 {
                    assert(old_sessions[k].id@ == other);
                    assert(self.sessions@[k] == old_sessions[k]);
                }
            }
        }
        Ok(session)
    }

    /// Whether a session with identity `id` is registered.
    pub fn contains_session(&self, id: &RuntimeSessionId) -> (r: bool)
        ensures
            r == self.lookup(id@) is Some,
    {
        let i = self.find(id);
        i.is_some()
    }

    fn find(&self, id: &RuntimeSessionId) -> (r: Option<usize>)
        ensures
            match r {
                Some(i) => i == session_index(self.sessions@, id@) && i < self.sessions@.len(),
                None => session_index(self.sessions@, id@) == -1,
            },
    {
        proof {
            use_type_invariant(self);
            lemma_unique_index(self.sessions@, id@);
        }
        let mut j: usize = 0;
        while j < self.sessions.len()
            invariant
                j <= self.sessions@.len(),
                forall|k: int| 0 <= k < j ==> #[trigger] self.sessions@[k].id@ != id@,
            decreases self.sessions@.len() - j,
        {
            if self.sessions[j].id.same_as(id) {
                proof {
                    use_type_invariant(self);
                    lemma_unique_index(self.sessions@, id@);
                    assert(self.sessions@[j as int].id@ == id@);
                }
                return Some(j);
            }
            j = j + 1;
        }
        proof {
            use_type_invariant(self);
            lemma_unique_index(self.sessions@, id@);
        }
        None
    }

    /// The session registered under `id`, or `UnknownRuntimeSession`.
    pub fn session(&self, id: &RuntimeSessionId) -> (r: Result<&RuntimeSession, RuntimeError>)
        ensures
            match r {
                Ok(s) => self.lookup(id@) == Some(session_view(*s)) && s.id@ == id@,
                Err(e) => self.lookup(id@) is None && e.kind == RuntimeErrorKind::UnknownRuntimeSession
                    && e.message@ == "runtime session not found: "@ + id@.0,
            },
    {
        match self.find(id) {
            Some(i) => {
                proof {
                    lemma_session_index(self.sessions@, id@);
                }
                Ok(&self.sessions[i])
            },
            None => {
                let mut message = lit("runtime session not found: ");
                let token = lit(id.as_str());
                append_string(&mut message, &token);
                Err(RuntimeError::new(RuntimeErrorKind::UnknownRuntimeSession, message))
            },
        }
    }
}


/// Sessions created at different counter values get different identities:
/// successive creations never collide until the counter saturates.
pub proof fn law_created_session_ids_distinct(a: nat, b: nat)
    ensures
        a != b ==> ("runtime-"@ + decimal(a), 1u64) != ("runtime-"@ + decimal(b), 1u64),
{
    lemma_numbered_ids_distinct("runtime-"@, a, b);
}

} // verus!
