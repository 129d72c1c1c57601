//! Prospective memory: goals, commitments, and their lifecycle.
//!
//! The engine stores and surfaces commitments; it never wakes itself
//! up. EXPIRED is derived from the deadline at read time.
use crate::content::{PayloadView, StructuredPayload};
use crate::error::{self, MemoryError, MemoryResult};
use crate::id::MemoryId;
use crate::record::MemoryRecord;
use crate::subject;
use crate::taxonomy::MemoryType;
use crate::text;
use vstd::prelude::*;
use vstd::string::*;

verus! {

/// Commitment lifecycle states.
#[derive(Clone, Copy, Debug, PartialEq, Eq, Structural)]
pub enum GoalState {
    Planned,
    Active,
    Waiting,
    Blocked,
    Completed,
    Cancelled,
}

/// Completed and cancelled goals are final.
pub open spec fn goal_terminal(s: GoalState) -> bool {
    s == GoalState::Completed || s == GoalState::Cancelled
}

/// The legal lifecycle edges.
pub open spec fn goal_edge(from: GoalState, to: GoalState) -> bool {
    match (from, to) {
        (GoalState::Planned, GoalState::Active) => true,
        (GoalState::Planned, GoalState::Cancelled) => true,
        (GoalState::Active, GoalState::Waiting) => true,
        (GoalState::Active, GoalState::Blocked) => true,
        (GoalState::Active, GoalState::Completed) => true,
        (GoalState::Active, GoalState::Cancelled) => true,
        (GoalState::Waiting, GoalState::Active) => true,
        (GoalState::Waiting, GoalState::Blocked) => true,
        (GoalState::Waiting, GoalState::Cancelled) => true,
        (GoalState::Blocked, GoalState::Active) => true,
        (GoalState::Blocked, GoalState::Cancelled) => true,
        _ => false,
    }
}

/// Name of a state as it appears in messages.
pub open spec fn goal_state_name(s: GoalState) -> Seq<char> {
    match s {
        GoalState::Planned => "Planned"@,
        GoalState::Active => "Active"@,
        GoalState::Waiting => "Waiting"@,
        GoalState::Blocked => "Blocked"@,
        GoalState::Completed => "Completed"@,
        GoalState::Cancelled => "Cancelled"@,
    }
}

impl GoalState {
    /// The states of goals that are still open.
    pub const OPEN_STATES: [GoalState; 4] = [
        GoalState::Planned,
        GoalState::Active,
        GoalState::Waiting,
        GoalState::Blocked,
    ];

    /// Terminal states stay terminal.
    pub fn is_terminal(&self) -> (b: bool)
        ensures
            b == goal_terminal(*self),
    {
        match self {
            GoalState::Completed | GoalState::Cancelled => true,
            _ => false,
        }
    }

    fn can_transition_to(&self, next: GoalState) -> (b: bool)
        ensures
            b == goal_edge(*self, next),
    {
        match (self, next) {
            (GoalState::Planned, GoalState::Active) => true,
            (GoalState::Planned, GoalState::Cancelled) => true,
            (GoalState::Active, GoalState::Waiting) => true,
            (GoalState::Active, GoalState::Blocked) => true,
            (GoalState::Active, GoalState::Completed) => true,
            (GoalState::Active, GoalState::Cancelled) => true,
            (GoalState::Waiting, GoalState::Active) => true,
            (GoalState::Waiting, GoalState::Blocked) => true,
            (GoalState::Waiting, GoalState::Cancelled) => true,
            (GoalState::Blocked, GoalState::Active) => true,
            (GoalState::Blocked, GoalState::Cancelled) => true,
            _ => false,
        }
    }

    /// Name of the state as it appears in messages.
    pub fn name(&self) -> (s: &'static str)
        ensures
            s@ == goal_state_name(*self),
    {
        match self {
            GoalState::Planned => "Planned",
            GoalState::Active => "Active",
            GoalState::Waiting => "Waiting",
            GoalState::Blocked => "Blocked",
            GoalState::Completed => "Completed",
            GoalState::Cancelled => "Cancelled",
        }
    }
}

/// Terminal states have no way out, nothing returns to Planned, only an
/// active goal completes, and every open goal can be cancelled.
pub proof fn lemma_goal_lifecycle(a: GoalState, b: GoalState)
    ensures
        goal_terminal(a) ==> !goal_edge(a, b),
        !goal_edge(a, GoalState::Planned),
        goal_edge(a, GoalState::Completed) <==> a == GoalState::Active,
        !goal_terminal(a) ==> goal_edge(a, GoalState::Cancelled),
{
}

/// The edge table, state by state: a planned goal starts or is
/// cancelled; an active goal waits, blocks, completes or is cancelled; a
/// waiting goal resumes, blocks or is cancelled; a blocked goal resumes
/// or is cancelled; completed and cancelled goals go nowhere.
pub proof fn lemma_goal_edges_exactly(a: GoalState, b: GoalState)
    ensures
        goal_edge(a, b) <==> {
            ||| (a == GoalState::Planned && (b == GoalState::Active || b
                == GoalState::Cancelled))
            ||| (a == GoalState::Active && (b == GoalState::Waiting || b == GoalState::Blocked
                || b == GoalState::Completed || b == GoalState::Cancelled))
            ||| (a == GoalState::Waiting && (b == GoalState::Active || b == GoalState::Blocked
                || b == GoalState::Cancelled))
            ||| (a == GoalState::Blocked && (b == GoalState::Active || b
                == GoalState::Cancelled))
        },
{
}

/// A goal that waits or is blocked can always resume: both return to
/// Active once what held them up is resolved.
pub proof fn lemma_held_goals_resume()
    ensures
        goal_edge(GoalState::Blocked, GoalState::Active),
        goal_edge(GoalState::Waiting, GoalState::Active),
        goal_edge(GoalState::Planned, GoalState::Active),
        !goal_edge(GoalState::Active, GoalState::Active),
{
}

/// Derived state for open goals past their deadline.
#[derive(Clone, Copy, Debug, PartialEq, Eq, Structural)]
pub enum EffectiveGoalState {
    Stored(GoalState),
    Expired,
}

/// Structured metadata stored with a goal record.
#[derive(Debug, PartialEq, Eq)]
pub struct GoalMetadata {
    pub state: GoalState,
    /// Deadline instant (milliseconds since the epoch).
    pub deadline: Option<i64>,
    /// Goals or memories this one depends on.
    pub dependencies: Vec<MemoryId>,
    /// What should bring this goal back to attention.
    pub trigger_description: Option<String>,
    /// How the agent (or a human) knows it is done.
    pub completion_criteria: Option<String>,
}

/// Mathematical view of goal metadata.
pub struct GoalMetadataView {
    pub state: GoalState,
    pub deadline: Option<i64>,
    pub dependencies: Seq<MemoryId>,
    pub trigger_description: Option<String>,
    pub completion_criteria: Option<String>,
}

impl View for GoalMetadata {
    type V = GoalMetadataView;

    open spec fn view(&self) -> GoalMetadataView {
        GoalMetadataView {
            state: self.state,
            deadline: self.deadline,
            dependencies: self.dependencies@,
            trigger_description: self.trigger_description,
            completion_criteria: self.completion_criteria,
        }
    }
}

/// Effective state at `now`: EXPIRED for open goals whose deadline has
/// passed, the stored state otherwise.
pub open spec fn effective_state_at(m: GoalMetadataView, now: int) -> EffectiveGoalState {
    if m.deadline matches Some(d) && d <= now && !goal_terminal(m.state) {
        EffectiveGoalState::Expired
    } else {
        EffectiveGoalState::Stored(m.state)
    }
}

/// Clones a vector of identifiers.
pub fn clone_ids(v: &Vec<MemoryId>) -> (r: Vec<MemoryId>)
    ensures
        r@ == v@,
{
    let mut r: Vec<MemoryId> = Vec::new();
    let mut i: usize = 0;
    while i < v.len()
        invariant
            i <= v@.len(),
            r@ == v@.subrange(0, i as int),
        decreases v@.len() - i,
    {
        r.push(v[i]);
        i = i + 1;
    }
    assert(v@.subrange(0, v@.len() as int) =~= v@);
    r
}

impl Clone for GoalMetadata {
    fn clone(&self) -> (r: Self)
        ensures
            r@ == self@,
    {
        GoalMetadata {
            state: self.state,
            deadline: self.deadline,
            dependencies: clone_ids(&self.dependencies),
            trigger_description: subject::clone_opt_string(&self.trigger_description),
            completion_criteria: subject::clone_opt_string(&self.completion_criteria),
        }
    }
}

impl GoalMetadata {
    /// Computes the effective state at `now`, deriving EXPIRED for open
    /// goals whose deadline has passed.
    pub fn effective_state(&self, now: i64) -> (e: EffectiveGoalState)
        ensures
            e == effective_state_at(self@, now as int),
    {
        if let Some(deadline) = self.deadline {
            if deadline <= now && !self.state.is_terminal() {
                return EffectiveGoalState::Expired;
            }
        }
        EffectiveGoalState::Stored(self.state)
    }
}

/// Expiry is derived, never stored: terminal goals keep their state
/// whatever the clock says, and goals without a deadline never expire.
pub proof fn lemma_expiry_is_derived(m: GoalMetadataView, now: int)
    ensures
        goal_terminal(m.state) ==> effective_state_at(m, now) == EffectiveGoalState::Stored(m.state),
        m.deadline is None ==> effective_state_at(m, now) == EffectiveGoalState::Stored(m.state),
        effective_state_at(m, now) is Expired ==> (m.deadline matches Some(d) && d <= now),
{
}

/// The goal metadata a record carries, if it is a goal.
pub open spec fn goal_metadata_of(r: MemoryRecord) -> Option<GoalMetadataView> {
    if r.memory_type == MemoryType::Prospective {
        match r.content.structured {
            Some(StructuredPayload::Goal(m)) => Some(m@),
            _ => None,
        }
    } else {
        None
    }
}

/// Every dependency appears in `resolved` as completed.
pub open spec fn dependencies_done(deps: Seq<MemoryId>, resolved: Seq<(MemoryId, GoalState)>) -> bool {
    forall|i: int|
        0 <= i < deps.len() ==> exists|j: int|
            0 <= j < resolved.len() && #[trigger] resolved[j].0 == #[trigger] deps[i]
                && resolved[j].1 == GoalState::Completed
}

/// Typed view over a prospective canonical record.
#[derive(Debug)]
pub struct GoalView<'a> {
    record: &'a MemoryRecord,
    metadata: GoalMetadata,
}

impl<'a> GoalView<'a> {
    /// The viewed record.
    pub closed spec fn spec_record(&self) -> MemoryRecord {
        *self.record
    }

    /// The metadata the view read.
    pub closed spec fn spec_metadata(&self) -> GoalMetadataView {
        self.metadata@
    }

    /// Interprets a record as a goal when it is prospective and carries
    /// goal metadata.
    pub fn from_record(record: &'a MemoryRecord) -> (v: Option<GoalView<'a>>)
        ensures
            match v {
                Some(view) => goal_metadata_of(*record) == Some(view.spec_metadata())
                    && view.spec_record() == *record,
                None => goal_metadata_of(*record) is None,
            },
    {
        match record.memory_type {
            MemoryType::Prospective => {},
            _ => return None,
        }
        match &record.content.structured {
            Some(StructuredPayload::Goal(m)) => Some(GoalView { record, metadata: m.clone() }),
            _ => None,
        }
    }

    /// Wraps metadata into a record's structured content.
    pub fn into_content(metadata: GoalMetadata) -> (p: StructuredPayload)
        ensures
            p@ == PayloadView::Goal(metadata@),
    {
        StructuredPayload::Goal(metadata)
    }

    /// The structured metadata.
    pub fn metadata(&self) -> (m: &GoalMetadata)
        ensures
            m@ == self.spec_metadata(),
    {
        &self.metadata
    }

    /// The underlying canonical record.
    pub fn record(&self) -> (r: &MemoryRecord)
        ensures
            *r == self.spec_record(),
    {
        self.record
    }

    /// True when every dependency has reached `Completed` among the
    /// `resolved` goal states supplied by the caller.
    pub fn dependencies_satisfied(&self, resolved: &Vec<(MemoryId, GoalState)>) -> (b: bool)
        ensures
            b == dependencies_done(self.spec_metadata().dependencies, resolved@),
    {
        let deps = &self.metadata.dependencies;
        let mut i: usize = 0;
        while i < deps.len()
            invariant
                i <= deps@.len(),
                deps@ == self.spec_metadata().dependencies,
                dependencies_done(deps@.subrange(0, i as int), resolved@),
            decreases deps@.len() - i,
        {
            let dep = deps[i];
            let mut found = false;
            let mut j: usize = 0;
            while j < resolved.len()
                invariant
                    j <= resolved@.len(),
                    found ==> exists|k: int|
                        0 <= k < resolved@.len() && #[trigger] resolved@[k].0 == dep
                            && resolved@[k].1 == GoalState::Completed,
                    !found ==> forall|k: int|
                        0 <= k < j ==> !(#[trigger] resolved@[k].0 == dep && resolved@[k].1
                            == GoalState::Completed),
                decreases resolved@.len() - j,
            {
                let (id, state) = resolved[j];
                if id == dep && state == GoalState::Completed {
                    found = true;
                }
                j = j + 1;
            }
            if !found {
                assert(!dependencies_done(deps@, resolved@)) by {
                    assert(deps@[i as int] == dep);
                }
                return false;
            }
            assert forall|t: int|
                0 <= t < i + 1 implies exists|k: int|
                0 <= k < resolved@.len() && #[trigger] resolved@[k].0 == #[trigger] deps@.subrange(
                    0,
                    i + 1,
                )[t] && resolved@[k].1 == GoalState::Completed by {
                if t < i {
                    assert(deps@.subrange(0, i as int)[t] == deps@.subrange(0, i + 1)[t]);
                } else {
                    assert(deps@.subrange(0, i + 1)[t] == dep);
                }
            }
            i = i + 1;
        }
        assert(deps@.subrange(0, deps@.len() as int) =~= deps@);
        true
    }
}

/// Validates a goal lifecycle transition; the error names the rejected
/// edge.
pub fn validate_transition(current: GoalState, next: GoalState) -> (r: MemoryResult<()>)
    ensures
        r is Ok <==> goal_edge(current, next),
        r matches Err(e) ==> error::is_validation(
            e,
            "goal_state"@,
            "illegal transition "@ + goal_state_name(current) + " -> "@ + goal_state_name(next),
        ),
{
    if current.can_transition_to(next) {
        Ok(())
    } else {
        let msg = text::concat3("illegal transition ", current.name(), " -> ");
        let msg = text::concat2(msg.as_str(), next.name());
        Err(MemoryError::validation("goal_state", msg.as_str()))
    }
}

} // verus!
