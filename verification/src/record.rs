//! The canonical memory record.
use crate::content::{ContentView, MemoryContent};
use crate::id::MemoryId;
use crate::provenance::{self, Provenance, RetentionPolicy, SourceKind};
use crate::scope::{self, MemoryScope};
use crate::subject::{self, MemorySubject};
use crate::taxonomy::{self, MemoryStatus, MemoryType};
use crate::temporal::{self, ValidityWindow};
use vstd::prelude::*;
use vstd::string::*;

verus! {

/// Scores (confidence, importance, similarity) are fixed-point values in
/// millionths: `SCORE_SCALE` stands for 1.0.
pub const SCORE_SCALE: u32 = 1_000_000;

/// The neutral midpoint score (0.5).
pub const NEUTRAL_SCORE: u32 = 500_000;

/// A score clamped into `[0, SCORE_SCALE]`.
pub open spec fn clamp_score(x: int) -> u32 {
    if x < 0 {
        0
    } else if x > SCORE_SCALE {
        SCORE_SCALE
    } else {
        x as u32
    }
}

/// Clamps a fixed-point score into `[0, SCORE_SCALE]`.
pub fn clamp_score_value(x: i64) -> (r: u32)
    ensures
        r == clamp_score(x as int),
{
    if x < 0 {
        0
    } else if x > SCORE_SCALE as i64 {
        SCORE_SCALE
    } else {
        x as u32
    }
}

/// The single canonical representation stored by the engine.
#[derive(Debug, PartialEq, Eq)]
pub struct MemoryRecord {
    pub id: MemoryId,
    pub memory_type: MemoryType,
    pub subtype: Option<String>,
    pub scope: MemoryScope,
    pub subject: Option<MemorySubject>,
    pub content: MemoryContent,
    /// Caller- or classifier-assigned certainty in `[0, SCORE_SCALE]`.
    pub confidence: u32,
    /// Retrieval priority hint in `[0, SCORE_SCALE]`.
    pub importance: u32,
    pub valid_from: Option<i64>,
    pub valid_to: Option<i64>,
    pub status: MemoryStatus,
    /// Monotonic revision; bumped by every governance change.
    pub version: u64,
    /// Predecessor this record replaced, if any.
    pub supersedes: Option<MemoryId>,
    pub provenance: Provenance,
    pub retention: RetentionPolicy,
    pub created_at: i64,
    pub updated_at: i64,
}

/// Mathematical view of a record.
pub struct RecordView {
    pub id: MemoryId,
    pub memory_type: MemoryType,
    pub subtype: Option<String>,
    pub scope: MemoryScope,
    pub subject: Option<MemorySubject>,
    pub content: ContentView,
    pub confidence: u32,
    pub importance: u32,
    pub valid_from: Option<i64>,
    pub valid_to: Option<i64>,
    pub status: MemoryStatus,
    pub version: u64,
    pub supersedes: Option<MemoryId>,
    pub provenance: Provenance,
    pub retention: RetentionPolicy,
    pub created_at: i64,
    pub updated_at: i64,
}

impl View for MemoryRecord {
    type V = RecordView;

    open spec fn view(&self) -> RecordView {
        RecordView {
            id: self.id,
            memory_type: self.memory_type,
            subtype: self.subtype,
            scope: self.scope,
            subject: self.subject,
            content: self.content@,
            confidence: self.confidence,
            importance: self.importance,
            valid_from: self.valid_from,
            valid_to: self.valid_to,
            status: self.status,
            version: self.version,
            supersedes: self.supersedes,
            provenance: self.provenance,
            retention: self.retention,
            created_at: self.created_at,
            updated_at: self.updated_at,
        }
    }
}

/// The validity window of a record.
pub open spec fn validity_of(r: RecordView) -> ValidityWindow {
    ValidityWindow { from: r.valid_from, to: r.valid_to }
}

/// The fact holds at `at` and the record surfaces in retrieval.
pub open spec fn valid_at(r: RecordView, at: int) -> bool {
    taxonomy::status_retrievable(r.status) && temporal::window_contains(validity_of(r), at)
}

/// A freshly created record of the given type and content, stamped at
/// `now`: neutral scores, unbounded validity, active at version 1,
/// agent provenance and standard retention.
pub open spec fn fresh_record(r: RecordView, memory_type: MemoryType, content: ContentView, now: int) -> bool {
    &&& r.memory_type == memory_type
    &&& r.subtype is None
    &&& scope::scope_is_empty(r.scope@)
    &&& r.subject is None
    &&& r.content == content
    &&& r.confidence == NEUTRAL_SCORE
    &&& r.importance == NEUTRAL_SCORE
    &&& r.valid_from is None
    &&& r.valid_to is None
    &&& r.status == MemoryStatus::Active
    &&& r.version == 1
    &&& r.supersedes is None
    &&& r.provenance.source == SourceKind::Agent
    &&& r.provenance.actor_id is None
    &&& r.provenance.source_uri is None
    &&& r.provenance.trace_id is None
    &&& r.provenance.recorded_at == now
    &&& r.retention == provenance::standard_policy()
    &&& r.created_at == now
    &&& r.updated_at == now
}

impl MemoryRecord {
    /// Builds a new active record with the given identity, stamped at
    /// `now`.
    pub fn new_at(id: MemoryId, memory_type: MemoryType, content: MemoryContent, now: i64) -> (r: Self)
        ensures
            r.id == id,
            fresh_record(r@, memory_type, content@, now as int),
    {
        MemoryRecord {
            id,
            memory_type,
            subtype: None,
            scope: MemoryScope::empty(),
            subject: None,
            content,
            confidence: NEUTRAL_SCORE,
            importance: NEUTRAL_SCORE,
            valid_from: None,
            valid_to: None,
            status: MemoryStatus::initial(),
            version: 1,
            supersedes: None,
            provenance: Provenance::at(SourceKind::Agent, now),
            retention: RetentionPolicy::standard(),
            created_at: now,
            updated_at: now,
        }
    }

    /// Builds a new active record with a generated identity, stamped
    /// with the current time.
    pub fn new(memory_type: MemoryType, content: MemoryContent) -> (r: Self)
        ensures
            fresh_record(r@, memory_type, content@, r.created_at as int),
    {
        MemoryRecord::new_at(MemoryId::generate(), memory_type, content, temporal::now_millis())
    }

    /// Clamps `confidence` into `[0, SCORE_SCALE]` and returns the record.
    pub fn with_confidence(self, confidence: i64) -> (r: Self)
        ensures
            r@ == (RecordView { confidence: clamp_score(confidence as int), ..self@ }),
    {
        MemoryRecord { confidence: clamp_score_value(confidence), ..self }
    }

    /// Clamps `importance` into `[0, SCORE_SCALE]` and returns the record.
    pub fn with_importance(self, importance: i64) -> (r: Self)
        ensures
            r@ == (RecordView { importance: clamp_score(importance as int), ..self@ }),
    {
        MemoryRecord { importance: clamp_score_value(importance), ..self }
    }

    /// Sets the scope partition.
    pub fn with_scope(self, scope: MemoryScope) -> (r: Self)
        ensures
            r@ == (RecordView { scope, ..self@ }),
    {
        MemoryRecord { scope, ..self }
    }

    /// Sets the subject.
    pub fn with_subject(self, subject: MemorySubject) -> (r: Self)
        ensures
            r@ == (RecordView { subject: Some(subject), ..self@ }),
    {
        MemoryRecord { subject: Some(subject), ..self }
    }

    /// Sets the subtype label (e.g. "preference", "commitment").
    pub fn with_subtype(self, subtype: &str) -> (r: Self)
        ensures
            subject::opt_seq(r.subtype) == Some(subtype@),
            r@ == (RecordView { subtype: r.subtype, ..self@ }),
    {
        MemoryRecord { subtype: Some(String::from_str(subtype)), ..self }
    }

    /// Sets provenance.
    pub fn with_provenance(self, provenance: Provenance) -> (r: Self)
        ensures
            r@ == (RecordView { provenance, ..self@ }),
    {
        MemoryRecord { provenance, ..self }
    }

    /// Sets retention policy.
    pub fn with_retention(self, retention: RetentionPolicy) -> (r: Self)
        ensures
            r@ == (RecordView { retention, ..self@ }),
    {
        MemoryRecord { retention, ..self }
    }

    /// Sets the validity window.
    pub fn with_validity(self, window: ValidityWindow) -> (r: Self)
        ensures
            r@ == (RecordView { valid_from: window.from, valid_to: window.to, ..self@ }),
    {
        MemoryRecord { valid_from: window.from, valid_to: window.to, ..self }
    }

    /// The record's validity as a window struct.
    pub fn validity(&self) -> (w: ValidityWindow)
        ensures
            w == validity_of(self@),
    {
        ValidityWindow { from: self.valid_from, to: self.valid_to }
    }

    /// True when the fact holds at `at` and the record is retrievable.
    pub fn is_valid_at(&self, at: i64) -> (b: bool)
        ensures
            b == valid_at(self@, at as int),
    {
        self.status.is_retrievable() && self.validity().contains(at)
    }

    /// True when retention has lapsed at `now`.
    pub fn is_expired(&self, now: i64) -> (b: bool)
        ensures
            b == provenance::policy_expired(self.retention, now as int),
    {
        self.retention.is_expired(now)
    }

    /// The successor of this record for an update, with the given
    /// identity and stamp: it inherits scope, type, subtype, subject,
    /// scores, retention and provenance lineage, and points back at this
    /// record.
    pub fn derive_successor_at(&self, id: MemoryId, content: MemoryContent, now: i64) -> (next: Self)
        ensures
            successor_of(next@, self@, content@, now as int),
            next.id == id,
    {
        let mut next = MemoryRecord::new_at(id, self.memory_type, content, now);
        next.scope = self.scope.clone();
        next.subtype = subject::clone_opt_string(&self.subtype);
        next.subject = match &self.subject {
            Some(s) => Some(s.clone()),
            None => None,
        };
        next.confidence = self.confidence;
        next.importance = self.importance;
        next.retention = self.retention;
        next.provenance = self.provenance.clone();
        next.supersedes = Some(self.id);
        next
    }

    /// Produces the successor of this record with a fresh identity,
    /// distinct from this record's, stamped now; the original is left
    /// untouched.
    pub fn derive_successor(&self, content: MemoryContent) -> (next: Self)
        ensures
            successor_of(next@, self@, content@, next.created_at as int),
            next.id != self.id,
    {
        let id = distinct_from(MemoryId::generate(), self.id);
        self.derive_successor_at(id, content, temporal::now_millis())
    }
}

/// `candidate`, or, in the one case where it equals `avoid`, `avoid`
/// with its lowest bit flipped.
pub open spec fn distinct_id(candidate: MemoryId, avoid: MemoryId) -> MemoryId {
    if candidate == avoid {
        MemoryId(avoid.0 ^ 1u128)
    } else {
        candidate
    }
}

/// An identifier for a successor that differs from its predecessor's. A
/// fresh UUIDv7 can only equal the predecessor's id if that id came from a
/// foreign clock; flipping its lowest random bit keeps it a version 7
/// identifier that differs from the predecessor's.
pub(crate) fn distinct_from(candidate: MemoryId, avoid: MemoryId) -> (id: MemoryId)
    ensures
        id == distinct_id(candidate, avoid),
        id != avoid,
{
    if candidate.0 == avoid.0 {
        let v = avoid.0;
        assert(v ^ 1u128 != v) by (bit_vector);
        MemoryId(v ^ 1u128)
    } else {
        candidate
    }
}

/// `next` is the successor of `prev` carrying `content`, stamped `now`.
pub open spec fn successor_of(next: RecordView, prev: RecordView, content: ContentView, now: int) -> bool {
    &&& next.memory_type == prev.memory_type
    &&& next.scope == prev.scope
    &&& next.subtype == prev.subtype
    &&& next.subject == prev.subject
    &&& next.content == content
    &&& next.confidence == prev.confidence
    &&& next.importance == prev.importance
    &&& next.retention == prev.retention
    &&& next.supersedes == Some(prev.id)
    &&& next.valid_from is None
    &&& next.valid_to is None
    &&& next.status == MemoryStatus::Active
    &&& next.version == 1
    &&& next.provenance == prev.provenance
    &&& next.created_at == now
    &&& next.updated_at == now
}

impl Clone for MemoryRecord {
    fn clone(&self) -> (r: Self)
        ensures
            r@ == self@,
    {
        MemoryRecord {
            id: self.id,
            memory_type: self.memory_type,
            subtype: subject::clone_opt_string(&self.subtype),
            scope: self.scope.clone(),
            subject: match &self.subject {
                Some(s) => Some(s.clone()),
                None => None,
            },
            content: self.content.clone(),
            confidence: self.confidence,
            importance: self.importance,
            valid_from: self.valid_from,
            valid_to: self.valid_to,
            status: self.status,
            version: self.version,
            supersedes: self.supersedes,
            provenance: self.provenance.clone(),
            retention: self.retention,
            created_at: self.created_at,
            updated_at: self.updated_at,
        }
    }
}

} // verus!
