//! Memory taxonomy: the five functional memory types and the lifecycle
//! status of a record.
use vstd::prelude::*;

verus! {

/// The five functional memory kinds supported by the engine.
#[derive(Clone, Copy, Debug, PartialEq, Eq, Hash, Structural)]
pub enum MemoryType {
    /// Active state for the current turn or task.
    Working,
    /// Past events, interactions, and their outcomes.
    Episodic,
    /// Durable facts, preferences, entities, and relationships.
    Semantic,
    /// Instructions, skills, and reusable procedures.
    Procedural,
    /// Future goals, commitments, and unfinished work.
    Prospective,
}

/// Lowercase snake_case name of a memory type.
pub open spec fn memory_type_name(t: MemoryType) -> Seq<char> {
    match t {
        MemoryType::Working => "working"@,
        MemoryType::Episodic => "episodic"@,
        MemoryType::Semantic => "semantic"@,
        MemoryType::Procedural => "procedural"@,
        MemoryType::Prospective => "prospective"@,
    }
}

impl MemoryType {
    /// Every memory type, in canonical order.
    pub const ALL: [MemoryType; 5] = [
        MemoryType::Working,
        MemoryType::Episodic,
        MemoryType::Semantic,
        MemoryType::Procedural,
        MemoryType::Prospective,
    ];

    /// Lowercase snake_case name matching the serialized form.
    pub fn as_str(&self) -> (name: &'static str)
        ensures
            name@ == memory_type_name(*self),
    {
        match self {
            MemoryType::Working => "working",
            MemoryType::Episodic => "episodic",
            MemoryType::Semantic => "semantic",
            MemoryType::Procedural => "procedural",
            MemoryType::Prospective => "prospective",
        }
    }

    /// True if records of this type are short-lived by nature: only
    /// working memory is.
    pub fn is_transient(&self) -> (b: bool)
        ensures
            b <==> *self == MemoryType::Working,
    {
        match self {
            MemoryType::Working => true,
            _ => false,
        }
    }
}

/// Lifecycle state of a memory record.
#[derive(Clone, Copy, Debug, PartialEq, Eq, Hash, Structural)]
pub enum MemoryStatus {
    /// Current, valid memory.
    Active,
    /// Replaced by a newer version; retained as history.
    Superseded,
    /// Retained but hidden from normal retrieval pending review.
    Quarantined,
    /// Archived out of the hot path but still addressable.
    Archived,
    /// Tombstone; physical removal happens during lifecycle sweeps.
    Deleted,
}

/// Statuses that surface in default retrieval.
pub open spec fn status_retrievable(s: MemoryStatus) -> bool {
    s == MemoryStatus::Active || s == MemoryStatus::Archived
}

/// Statuses that have left active duty.
pub open spec fn status_retired(s: MemoryStatus) -> bool {
    !status_retrievable(s) || s == MemoryStatus::Archived
}

/// Lowercase name of a status.
pub open spec fn memory_status_name(s: MemoryStatus) -> Seq<char> {
    match s {
        MemoryStatus::Active => "active"@,
        MemoryStatus::Superseded => "superseded"@,
        MemoryStatus::Quarantined => "quarantined"@,
        MemoryStatus::Archived => "archived"@,
        MemoryStatus::Deleted => "deleted"@,
    }
}

impl MemoryStatus {
    /// Every lifecycle status, canonical order.
    pub const ALL_STATUSES: [MemoryStatus; 5] = [
        MemoryStatus::Active,
        MemoryStatus::Superseded,
        MemoryStatus::Quarantined,
        MemoryStatus::Archived,
        MemoryStatus::Deleted,
    ];

    /// Status assigned to freshly created records.
    pub fn initial() -> (s: Self)
        ensures
            s == MemoryStatus::Active,
    {
        MemoryStatus::Active
    }

    /// True when the record should surface in default retrieval.
    pub fn is_retrievable(&self) -> (b: bool)
        ensures
            b == status_retrievable(*self),
    {
        match self {
            MemoryStatus::Active | MemoryStatus::Archived => true,
            _ => false,
        }
    }

    /// True once the record has left active duty.
    pub fn is_retired(&self) -> (b: bool)
        ensures
            b == status_retired(*self),
    {
        !self.is_retrievable() || match self {
            MemoryStatus::Archived => true,
            _ => false,
        }
    }

    /// Lowercase name used when rendering the status.
    pub fn as_str(&self) -> (name: &'static str)
        ensures
            name@ == memory_status_name(*self),
    {
        match self {
            MemoryStatus::Active => "active",
            MemoryStatus::Superseded => "superseded",
            MemoryStatus::Quarantined => "quarantined",
            MemoryStatus::Archived => "archived",
            MemoryStatus::Deleted => "deleted",
        }
    }
}

/// Retired statuses are a superset of the non-retrievable ones, and
/// the only retired status that still surfaces is `Archived`.
pub proof fn lemma_retired_covers_non_retrievable(s: MemoryStatus)
    ensures
        !status_retrievable(s) ==> status_retired(s),
        status_retired(s) && status_retrievable(s) <==> s == MemoryStatus::Archived,
        !status_retired(s) <==> s == MemoryStatus::Active,
{
}

} // verus!
