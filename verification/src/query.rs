//! Query model for exact and filtered lookups.
use crate::error::{self, MemoryError, MemoryResult};
use crate::scope::{self, MemoryScope};
use crate::subject::MemorySubject;
use crate::taxonomy::{MemoryStatus, MemoryType};
use crate::temporal;
use crate::text;
use vstd::prelude::*;
use vstd::string::*;

verus! {

/// Default result budget when a caller does not specify one.
pub const DEFAULT_QUERY_LIMIT: u32 = 50;

/// Hard ceiling on `limit` to protect stores and callers.
pub const MAX_QUERY_LIMIT: u32 = 1_000;

/// A filtered, non-semantic lookup over canonical records.
#[derive(Debug, PartialEq, Eq)]
pub struct MemoryQuery {
    /// Scope partition; pinned dimensions must match exactly.
    pub scope: MemoryScope,
    /// Restrict to these types; empty means all types.
    pub memory_types: Vec<MemoryType>,
    /// Restrict to these statuses; defaults to active only.
    pub statuses: Vec<MemoryStatus>,
    /// Optional subject anchor for exact structured lookup.
    pub subject: Option<MemorySubject>,
    /// Optional plain-text keyword filter.
    pub text: Option<String>,
    /// Temporal snapshot: facts valid at this instant. `None` means now.
    pub valid_at: Option<i64>,
    /// Maximum number of results.
    pub limit: u32,
}

/// Mathematical view of a query.
pub struct QueryView {
    pub scope: MemoryScope,
    pub memory_types: Seq<MemoryType>,
    pub statuses: Seq<MemoryStatus>,
    pub subject: Option<MemorySubject>,
    pub text: Option<String>,
    pub valid_at: Option<i64>,
    pub limit: u32,
}

impl View for MemoryQuery {
    type V = QueryView;

    open spec fn view(&self) -> QueryView {
        QueryView {
            scope: self.scope,
            memory_types: self.memory_types@,
            statuses: self.statuses@,
            subject: self.subject,
            text: self.text,
            valid_at: self.valid_at,
            limit: self.limit,
        }
    }
}

/// The query accepts a memory type: no type restriction, or listed.
pub open spec fn accepts_type_spec(q: QueryView, t: MemoryType) -> bool {
    q.memory_types.len() == 0 || q.memory_types.contains(t)
}

/// The query accepts a status: listed.
pub open spec fn accepts_status_spec(q: QueryView, s: MemoryStatus) -> bool {
    q.statuses.contains(s)
}

/// The first invariant the query breaks, as `(field, reason)`.
pub open spec fn query_problem(q: QueryView) -> Option<(Seq<char>, Seq<char>)> {
    if q.limit == 0 {
        Some(("limit"@, "must be greater than zero"@))
    } else if q.limit > MAX_QUERY_LIMIT {
        Some(("limit"@, "must not exceed 1000"@))
    } else if q.text matches Some(t) && text::blank_spec(t@) {
        Some(("text"@, "must not be blank"@))
    } else {
        None
    }
}

/// Every lifecycle status, canonical order.
pub open spec fn all_statuses() -> Seq<MemoryStatus> {
    seq![
        MemoryStatus::Active,
        MemoryStatus::Superseded,
        MemoryStatus::Quarantined,
        MemoryStatus::Archived,
        MemoryStatus::Deleted,
    ]
}

/// The five statuses, in canonical order.
pub fn all_statuses_vec() -> (v: Vec<MemoryStatus>)
    ensures
        v@ == all_statuses(),
{
    let mut v = Vec::new();
    v.push(MemoryStatus::Active);
    v.push(MemoryStatus::Superseded);
    v.push(MemoryStatus::Quarantined);
    v.push(MemoryStatus::Archived);
    v.push(MemoryStatus::Deleted);
    assert(v@ =~= all_statuses());
    v
}

/// History mode accepts every status.
pub proof fn lemma_all_statuses_complete(s: MemoryStatus)
    ensures
        all_statuses().contains(s),
{
    match s {
        MemoryStatus::Active => assert(all_statuses()[0] == s),
        MemoryStatus::Superseded => assert(all_statuses()[1] == s),
        MemoryStatus::Quarantined => assert(all_statuses()[2] == s),
        MemoryStatus::Archived => assert(all_statuses()[3] == s),
        MemoryStatus::Deleted => assert(all_statuses()[4] == s),
    }
}

fn vec_contains_type(v: &Vec<MemoryType>, t: MemoryType) -> (b: bool)
    ensures
        b == v@.contains(t),
{
    let mut i: usize = 0;
    while i < v.len()
        invariant
            i <= v@.len(),
            forall|k: int| 0 <= k < i ==> v@[k] != t,
        decreases v@.len() - i,
    {
        if v[i] == t {
            assert(v@[i as int] == t);
            return true;
        }
        i = i + 1;
    }
    false
}

fn vec_contains_status(v: &Vec<MemoryStatus>, s: MemoryStatus) -> (b: bool)
    ensures
        b == v@.contains(s),
{
    let mut i: usize = 0;
    while i < v.len()
        invariant
            i <= v@.len(),
            forall|k: int| 0 <= k < i ==> v@[k] != s,
        decreases v@.len() - i,
    {
        if v[i] == s {
            assert(v@[i as int] == s);
            return true;
        }
        i = i + 1;
    }
    false
}

impl MemoryQuery {
    /// Starts a query scoped to nothing (global wildcard), active
    /// records only, 50 results at most.
    pub fn new() -> (q: Self)
        ensures
            scope::scope_is_empty(q.scope@),
            q@.memory_types.len() == 0,
            q@.statuses == seq![MemoryStatus::Active],
            q.subject is None,
            q.text is None,
            q.valid_at is None,
            q.limit == DEFAULT_QUERY_LIMIT,
    {
        let mut statuses = Vec::new();
        statuses.push(MemoryStatus::Active);
        assert(statuses@ =~= seq![MemoryStatus::Active]);
        MemoryQuery {
            scope: MemoryScope::empty(),
            memory_types: Vec::new(),
            statuses,
            subject: None,
            text: None,
            valid_at: None,
            limit: DEFAULT_QUERY_LIMIT,
        }
    }

    /// Pins the query scope.
    pub fn with_scope(self, scope: MemoryScope) -> (q: Self)
        ensures
            q@ == (QueryView { scope, ..self@ }),
    {
        MemoryQuery { scope, ..self }
    }

    /// Restricts to one memory type.
    pub fn of_type(self, memory_type: MemoryType) -> (q: Self)
        ensures
            q@ == (QueryView { memory_types: seq![memory_type], ..self@ }),
    {
        let mut types = Vec::new();
        types.push(memory_type);
        assert(types@ =~= seq![memory_type]);
        MemoryQuery { memory_types: types, ..self }
    }

    /// Restricts to several memory types.
    pub fn of_types(self, types: Vec<MemoryType>) -> (q: Self)
        ensures
            q@ == (QueryView { memory_types: types@, ..self@ }),
    {
        MemoryQuery { memory_types: types, ..self }
    }

    /// Anchors the query on a subject.
    pub fn with_subject(self, subject: MemorySubject) -> (q: Self)
        ensures
            q@ == (QueryView { subject: Some(subject), ..self@ }),
    {
        MemoryQuery { subject: Some(subject), ..self }
    }

    /// Sets a keyword filter.
    pub fn with_text(self, text: &str) -> (q: Self)
        ensures
            q@ == (QueryView { text: q.text, ..self@ }),
            q.text matches Some(t) && t@ == text@,
    {
        MemoryQuery { text: Some(String::from_str(text)), ..self }
    }

    /// Sets the temporal snapshot instant.
    pub fn valid_at(self, at: i64) -> (q: Self)
        ensures
            q@ == (QueryView { valid_at: Some(at), ..self@ }),
    {
        MemoryQuery { valid_at: Some(at), ..self }
    }

    /// Includes retired statuses (history inspection).
    pub fn include_history(self) -> (q: Self)
        ensures
            q@ == (QueryView { statuses: all_statuses(), ..self@ }),
    {
        MemoryQuery { statuses: all_statuses_vec(), ..self }
    }

    /// Caps results.
    pub fn with_limit(self, limit: u32) -> (q: Self)
        ensures
            q@ == (QueryView { limit, ..self@ }),
    {
        MemoryQuery { limit, ..self }
    }

    /// Validates the limit bounds and that a keyword filter is not blank.
    pub fn validated(self) -> (r: MemoryResult<Self>)
        ensures
            match r {
                Ok(q) => query_problem(self@) is None && q@ == self@,
                Err(e) => query_problem(self@) matches Some(p) && error::is_validation(e, p.0, p.1),
            },
    {
        if self.limit == 0 {
            return Err(MemoryError::validation("limit", "must be greater than zero"));
        }
        if self.limit > MAX_QUERY_LIMIT {
            return Err(MemoryError::validation("limit", "must not exceed 1000"));
        }
        if let Some(t) = &self.text {
            if text::is_blank(t.as_str()) {
                return Err(MemoryError::validation("text", "must not be blank"));
            }
        }
        Ok(self)
    }

    /// Effective snapshot instant: the pinned one, or `now` when unset.
    pub fn effective_valid_at_or(&self, now: i64) -> (t: i64)
        ensures
            t == match self.valid_at {
                Some(at) => at,
                None => now,
            },
    {
        match self.valid_at {
            Some(at) => at,
            None => now,
        }
    }

    /// Effective snapshot instant (the current time when unset).
    pub fn effective_valid_at(&self) -> (t: i64)
        ensures
            self.valid_at matches Some(at) ==> t == at,
    {
        match self.valid_at {
            Some(at) => at,
            None => temporal::now_millis(),
        }
    }

    /// True when the query accepts the given type.
    pub fn accepts_type(&self, t: MemoryType) -> (b: bool)
        ensures
            b == accepts_type_spec(self@, t),
    {
        self.memory_types.len() == 0 || vec_contains_type(&self.memory_types, t)
    }

    /// True when the query accepts the given status.
    pub fn accepts_status(&self, s: MemoryStatus) -> (b: bool)
        ensures
            b == accepts_status_spec(self@, s),
    {
        vec_contains_status(&self.statuses, s)
    }
}

impl Default for MemoryQuery {
    fn default() -> (q: Self)
        ensures
            scope::scope_is_empty(q.scope@),
            q@.memory_types.len() == 0,
            q@.statuses == seq![MemoryStatus::Active],
            q.subject is None,
            q.text is None,
            q.valid_at is None,
            q.limit == DEFAULT_QUERY_LIMIT,
    {
        MemoryQuery::new()
    }
}

} // verus!
