//! Procedural memory: instructions and runbooks as governed documents.
//!
//! Procedures live as canonical records (`MemoryType::Procedural`)
//! whose structured payload carries lifecycle metadata. The engine
//! retrieves procedures; it never executes them.
use crate::content::StructuredPayload;
use crate::error::{self, MemoryError, MemoryResult};
use crate::record::MemoryRecord;
use crate::subject;
use crate::taxonomy::MemoryType;
use crate::temporal;
use crate::text;
use vstd::prelude::*;
use vstd::string::*;

verus! {

/// Approval lifecycle states.
#[derive(Clone, Copy, Debug, PartialEq, Eq, Structural)]
pub enum ProcedureState {
    Draft,
    Review,
    Approved,
    Active,
    Deprecated,
    Revoked,
}

/// The legal lifecycle edges.
pub open spec fn procedure_edge(from: ProcedureState, to: ProcedureState) -> bool {
    match (from, to) {
        (ProcedureState::Draft, ProcedureState::Review) => true,
        (ProcedureState::Review, ProcedureState::Approved) => true,
        (ProcedureState::Review, ProcedureState::Draft) => true,
        (ProcedureState::Approved, ProcedureState::Active) => true,
        (ProcedureState::Approved, ProcedureState::Revoked) => true,
        (ProcedureState::Active, ProcedureState::Deprecated) => true,
        (ProcedureState::Deprecated, ProcedureState::Revoked) => true,
        (ProcedureState::Revoked, ProcedureState::Draft) => true,
        _ => false,
    }
}

/// Name of a state as it appears in messages.
pub open spec fn procedure_state_name(s: ProcedureState) -> Seq<char> {
    match s {
        ProcedureState::Draft => "Draft"@,
        ProcedureState::Review => "Review"@,
        ProcedureState::Approved => "Approved"@,
        ProcedureState::Active => "Active"@,
        ProcedureState::Deprecated => "Deprecated"@,
        ProcedureState::Revoked => "Revoked"@,
    }
}

impl ProcedureState {
    /// All states in canonical order.
    pub const ALL: [ProcedureState; 6] = [
        ProcedureState::Draft,
        ProcedureState::Review,
        ProcedureState::Approved,
        ProcedureState::Active,
        ProcedureState::Deprecated,
        ProcedureState::Revoked,
    ];

    fn can_transition_to(&self, next: ProcedureState) -> (b: bool)
        ensures
            b == procedure_edge(*self, next),
    {
        match (self, next) {
            (ProcedureState::Draft, ProcedureState::Review) => true,
            (ProcedureState::Review, ProcedureState::Approved) => true,
            (ProcedureState::Review, ProcedureState::Draft) => true,
            (ProcedureState::Approved, ProcedureState::Active) => true,
            (ProcedureState::Approved, ProcedureState::Revoked) => true,
            (ProcedureState::Active, ProcedureState::Deprecated) => true,
            (ProcedureState::Deprecated, ProcedureState::Revoked) => true,
            (ProcedureState::Revoked, ProcedureState::Draft) => true,
            _ => false,
        }
    }

    /// True when procedures in this state are retrievable by default:
    /// only active ones are.
    pub fn is_operative(&self) -> (b: bool)
        ensures
            b <==> *self == ProcedureState::Active,
    {
        match self {
            ProcedureState::Active => true,
            _ => false,
        }
    }

    /// Name of the state as it appears in messages.
    pub fn name(&self) -> (s: &'static str)
        ensures
            s@ == procedure_state_name(*self),
    {
        match self {
            ProcedureState::Draft => "Draft",
            ProcedureState::Review => "Review",
            ProcedureState::Approved => "Approved",
            ProcedureState::Active => "Active",
            ProcedureState::Deprecated => "Deprecated",
            ProcedureState::Revoked => "Revoked",
        }
    }
}

/// The lifecycle is governed: activation only follows approval,
/// nothing skips review on the way from draft, no state loops onto
/// itself, and a revoked procedure can only be reworked from draft.
pub proof fn lemma_procedure_lifecycle(a: ProcedureState, b: ProcedureState)
    ensures
        procedure_edge(a, ProcedureState::Active) <==> a == ProcedureState::Approved,
        procedure_edge(ProcedureState::Draft, b) <==> b == ProcedureState::Review,
        procedure_edge(ProcedureState::Revoked, b) <==> b == ProcedureState::Draft,
        !procedure_edge(a, a),
{
}

/// The edge table, state by state: a draft goes to review; a review is
/// approved or sent back to draft; an approved procedure is activated or
/// revoked; an active one is deprecated; a deprecated one is revoked; a
/// revoked one is reworked from draft.
pub proof fn lemma_procedure_edges_exactly(a: ProcedureState, b: ProcedureState)
    ensures
        procedure_edge(a, b) <==> {
            ||| (a == ProcedureState::Draft && b == ProcedureState::Review)
            ||| (a == ProcedureState::Review && (b == ProcedureState::Approved || b
                == ProcedureState::Draft))
            ||| (a == ProcedureState::Approved && (b == ProcedureState::Active || b
                == ProcedureState::Revoked))
            ||| (a == ProcedureState::Active && b == ProcedureState::Deprecated)
            ||| (a == ProcedureState::Deprecated && b == ProcedureState::Revoked)
            ||| (a == ProcedureState::Revoked && b == ProcedureState::Draft)
        },
{
}

/// Structured metadata stored with a procedure record.
#[derive(Debug, PartialEq, Eq)]
pub struct ProcedureMetadata {
    pub state: ProcedureState,
    /// Owner team or agent responsible for the document.
    pub owner: String,
    /// Compatibility tag ("agent-v2", "k8s-1.29", ...).
    pub compatibility: Option<String>,
    pub effective_from: Option<i64>,
    pub effective_to: Option<i64>,
}

impl Clone for ProcedureMetadata {
    fn clone(&self) -> (r: Self)
        ensures
            r == *self,
    {
        ProcedureMetadata {
            state: self.state,
            owner: self.owner.clone(),
            compatibility: subject::clone_opt_string(&self.compatibility),
            effective_from: self.effective_from,
            effective_to: self.effective_to,
        }
    }
}

/// The procedure metadata a record carries, if it is a procedure.
pub open spec fn procedure_metadata_of(r: MemoryRecord) -> Option<ProcedureMetadata> {
    if r.memory_type == MemoryType::Procedural {
        match r.content.structured {
            Some(StructuredPayload::Procedure(m)) => Some(m),
            _ => None,
        }
    } else {
        None
    }
}

/// The procedure is in force at `now` (both bounds inclusive).
pub open spec fn procedure_effective_at(m: ProcedureMetadata, now: int) -> bool {
    (m.effective_from matches Some(f) ==> f <= now) && (m.effective_to matches Some(t) ==> t
        >= now)
}

/// Typed view over a procedural canonical record.
#[derive(Debug)]
pub struct ProcedureView<'a> {
    record: &'a MemoryRecord,
    metadata: ProcedureMetadata,
}

impl<'a> ProcedureView<'a> {
    /// The viewed record.
    pub closed spec fn spec_record(&self) -> MemoryRecord {
        *self.record
    }

    /// The metadata the view read.
    pub closed spec fn spec_metadata(&self) -> ProcedureMetadata {
        self.metadata
    }

    /// Interprets a record as a procedure when it is procedural and
    /// carries procedure metadata.
    pub fn from_record(record: &'a MemoryRecord) -> (v: Option<ProcedureView<'a>>)
        ensures
            match v {
                Some(view) => procedure_metadata_of(*record) == Some(view.spec_metadata())
                    && view.spec_record() == *record,
                None => procedure_metadata_of(*record) is None,
            },
    {
        match record.memory_type {
            MemoryType::Procedural => {},
            _ => return None,
        }
        match &record.content.structured {
            Some(StructuredPayload::Procedure(m)) => Some(ProcedureView { record, metadata: m.clone() }),
            _ => None,
        }
    }

    /// Wraps metadata into a record's structured content.
    pub fn into_content(metadata: &ProcedureMetadata) -> (p: StructuredPayload)
        ensures
            p == StructuredPayload::Procedure(*metadata),
    {
        StructuredPayload::Procedure(metadata.clone())
    }

    /// Lifecycle state of the procedure.
    pub fn state(&self) -> (s: ProcedureState)
        ensures
            s == self.spec_metadata().state,
    {
        self.metadata.state
    }

    /// Owner of the document.
    pub fn owner(&self) -> (o: &str)
        ensures
            o@ == self.spec_metadata().owner@,
    {
        self.metadata.owner.as_str()
    }

    /// The structured metadata.
    pub fn metadata(&self) -> (m: &ProcedureMetadata)
        ensures
            *m == self.spec_metadata(),
    {
        &self.metadata
    }

    /// True when the effectiveness window holds `now` (bounds inclusive).
    pub fn is_effective_at(&self, now: i64) -> (b: bool)
        ensures
            b == procedure_effective_at(self.spec_metadata(), now as int),
    {
        let after = match self.metadata.effective_from {
            None => true,
            Some(f) => f <= now,
        };
        let before = match self.metadata.effective_to {
            None => true,
            Some(t) => t >= now,
        };
        after && before
    }

    /// True when the effectiveness window holds the current time.
    pub fn is_currently_effective(&self) -> (b: bool)
        ensures
            exists|now: i64| b == #[trigger] procedure_effective_at(self.spec_metadata(), now as int),
    {
        self.is_effective_at(temporal::now_millis())
    }

    /// The underlying canonical record.
    pub fn record(&self) -> (r: &MemoryRecord)
        ensures
            *r == self.spec_record(),
    {
        self.record
    }
}

/// The message naming an illegal edge.
pub open spec fn illegal_transition_message(from: Seq<char>, to: Seq<char>) -> Seq<char> {
    "illegal transition "@ + from + " -> "@ + to
}

/// Validates a lifecycle transition for an existing procedure record;
/// the error names the rejected edge.
pub fn validate_transition(current: ProcedureState, next: ProcedureState) -> (r: MemoryResult<()>)
    ensures
        r is Ok <==> procedure_edge(current, next),
        r matches Err(e) ==> error::is_validation(
            e,
            "procedure_state"@,
            illegal_transition_message(
                procedure_state_name(current),
                procedure_state_name(next),
            ),
        ),
{
    if current.can_transition_to(next) {
        Ok(())
    } else {
        let msg = text::concat3("illegal transition ", current.name(), " -> ");
        let msg = text::concat2(msg.as_str(), next.name());
        Err(MemoryError::validation("procedure_state", msg.as_str()))
    }
}

} // verus!
