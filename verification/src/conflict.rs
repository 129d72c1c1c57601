//! Contradiction detection and resolution policy.
//!
//! Rule-based negation detection covers the common cases ("is not",
//! "no longer", "never", "stopped") with same-subject anchoring. Value
//! mismatches without explicit negation stay ambiguous: guessing a
//! contradiction from wording alone is how memory systems corrupt
//! themselves.
use crate::error::MemoryResult;
use crate::id::MemoryId;
use crate::provenance;
use crate::record::{self, MemoryRecord, RecordView};
use crate::subject;
use crate::taxonomy::{self, MemoryStatus};
use crate::temporal;
use crate::text;
use vstd::prelude::*;
use vstd::string::*;

verus! {

/// How an incoming fact relates to existing state.
#[derive(Clone, Copy, Debug, PartialEq, Eq, Structural)]
pub enum ConflictKind {
    /// No comparable existing fact.
    Consistent,
    /// Byte or wording duplicate (dedup's domain; surfaced for completeness).
    Duplicate,
    /// Incoming explicitly replaces an open fact.
    Supersedes,
    /// Incoming asserts the opposite of an open fact.
    Contradicts,
    /// Related but unresolvable by rules alone.
    Ambiguous,
    /// The detector wants human eyes before anything changes.
    ReviewRequired,
}

impl ConflictKind {
    /// Stable snake_case label.
    pub fn as_str(&self) -> (s: &'static str)
        ensures
            s@ == match *self {
                ConflictKind::Consistent => "consistent"@,
                ConflictKind::Duplicate => "duplicate"@,
                ConflictKind::Supersedes => "supersedes"@,
                ConflictKind::Contradicts => "contradicts"@,
                ConflictKind::Ambiguous => "ambiguous"@,
                ConflictKind::ReviewRequired => "review_required"@,
            },
    {
        match self {
            ConflictKind::Consistent => "consistent",
            ConflictKind::Duplicate => "duplicate",
            ConflictKind::Supersedes => "supersedes",
            ConflictKind::Contradicts => "contradicts",
            ConflictKind::Ambiguous => "ambiguous",
            ConflictKind::ReviewRequired => "review_required",
        }
    }
}

/// Analysis of one incoming record against one existing record.
#[derive(Debug, PartialEq, Eq)]
pub struct ConflictAnalysis {
    pub kind: ConflictKind,
    /// Existing record involved (None when consistent).
    pub existing_id: Option<MemoryId>,
    /// Why this classification was reached.
    pub rationale: String,
}

/// What should physically happen on write.
#[derive(Clone, Copy, Debug, PartialEq, Eq, Structural)]
pub enum SupersessionOutcome {
    /// Store incoming normally.
    Write,
    /// Close the existing fact's window, then store incoming as its
    /// successor.
    ReplaceExisting {
        /// Record being retired (status superseded, window closed).
        closing_id: MemoryId,
    },
    /// Store incoming quarantined; nothing else changes.
    QuarantineIncoming,
}

/// The analysis of `incoming` against `existing`: different (or absent)
/// subjects are consistent; on a shared subject an explicit negation
/// contradicts, a value conflict needs review, anything else is
/// ambiguous.
pub open spec fn analysis_spec(
    incoming: RecordView,
    existing: RecordView,
    negates: bool,
    value_conflict: bool,
) -> (ConflictKind, Option<MemoryId>) {
    if !subject::subject_keys_match(incoming.subject, existing.subject) {
        (ConflictKind::Consistent, None)
    } else if negates {
        (ConflictKind::Contradicts, Some(existing.id))
    } else if value_conflict {
        (ConflictKind::ReviewRequired, Some(existing.id))
    } else {
        (ConflictKind::Ambiguous, Some(existing.id))
    }
}

/// The explanation attached to each analysis.
pub open spec fn rationale_of(kind: ConflictKind) -> Seq<char> {
    match kind {
        ConflictKind::Consistent => "different subjects"@,
        ConflictKind::Contradicts => "explicit negation of an open fact"@,
        ConflictKind::ReviewRequired => "same subject with differing values"@,
        _ => "related statements without detectable conflict"@,
    }
}

/// Authority dominates confidence: a more authoritative source wins
/// outright; on equal authority the newcomer wins when it is at least
/// as confident.
pub open spec fn dominates(incoming: RecordView, existing: RecordView) -> bool {
    let a = provenance::authority_of(incoming.provenance.source);
    let b = provenance::authority_of(existing.provenance.source);
    if a != b {
        a > b
    } else {
        incoming.confidence >= existing.confidence
    }
}

/// The outcome for an analysis of `kind` naming `named` as the existing
/// record.
pub open spec fn outcome_spec(
    kind: ConflictKind,
    named: Option<MemoryId>,
    incoming: RecordView,
    existing: RecordView,
) -> SupersessionOutcome {
    match kind {
        ConflictKind::Consistent | ConflictKind::Supersedes | ConflictKind::Duplicate => {
            SupersessionOutcome::Write
        },
        ConflictKind::ReviewRequired => SupersessionOutcome::QuarantineIncoming,
        ConflictKind::Ambiguous => if dominates(incoming, existing) {
            SupersessionOutcome::ReplaceExisting { closing_id: existing.id }
        } else {
            SupersessionOutcome::QuarantineIncoming
        },
        ConflictKind::Contradicts => SupersessionOutcome::ReplaceExisting {
            closing_id: match named {
                Some(id) => id,
                None => existing.id,
            },
        },
    }
}

/// `closed` is `existing` retired at `now`: its window ends at `now`
/// unless it had already been bounded, it is superseded, and it was
/// touched at `now`; nothing else changes.
pub open spec fn closed_at(closed: RecordView, existing: RecordView, now: int) -> bool {
    closed == RecordView {
        valid_to: match existing.valid_to {
            Some(t) => Some(t),
            None => Some(now as i64),
        },
        status: MemoryStatus::Superseded,
        updated_at: now as i64,
        ..existing
    }
}

/// Decides outcomes after analysis. A pure function of its inputs.
#[derive(Clone, Copy, Debug)]
pub struct ResolutionPolicy;

impl ResolutionPolicy {
    /// Analyzes incoming against a single open existing fact.
    ///
    /// `negates` answers: does the incoming statement assert the
    /// opposite of the existing one?
    pub fn analyze(
        &self,
        incoming: &MemoryRecord,
        existing: &MemoryRecord,
        negates: bool,
        value_conflict: bool,
    ) -> (a: ConflictAnalysis)
        ensures
            (a.kind, a.existing_id) == analysis_spec(incoming@, existing@, negates, value_conflict),
            a.rationale@ == rationale_of(a.kind),
    {
        if !subject::subject_keys_equal(&incoming.subject, &existing.subject) {
            return ConflictAnalysis {
                kind: ConflictKind::Consistent,
                existing_id: None,
                rationale: String::from_str("different subjects"),
            };
        }
        if negates {
            return ConflictAnalysis {
                kind: ConflictKind::Contradicts,
                existing_id: Some(existing.id),
                rationale: String::from_str("explicit negation of an open fact"),
            };
        }
        if value_conflict {
            return ConflictAnalysis {
                kind: ConflictKind::ReviewRequired,
                existing_id: Some(existing.id),
                rationale: String::from_str("same subject with differing values"),
            };
        }
        ConflictAnalysis {
            kind: ConflictKind::Ambiguous,
            existing_id: Some(existing.id),
            rationale: String::from_str("related statements without detectable conflict"),
        }
    }

    /// Resolves an analysis into a concrete outcome.
    ///
    /// Authority dominates confidence: a user's word outranks a more
    /// confident agent guess. A direct negation always retires the old
    /// fact, which survives as history.
    pub fn resolve(
        &self,
        analysis: &ConflictAnalysis,
        incoming: &MemoryRecord,
        existing: &MemoryRecord,
    ) -> (o: SupersessionOutcome)
        ensures
            o == outcome_spec(analysis.kind, analysis.existing_id, incoming@, existing@),
    {
        match analysis.kind {
            ConflictKind::Consistent | ConflictKind::Supersedes => SupersessionOutcome::Write,
            ConflictKind::Duplicate => SupersessionOutcome::Write,
            ConflictKind::ReviewRequired => SupersessionOutcome::QuarantineIncoming,
            ConflictKind::Ambiguous => {
                if self.incoming_dominates(incoming, existing) {
                    SupersessionOutcome::ReplaceExisting { closing_id: existing.id }
                } else {
                    SupersessionOutcome::QuarantineIncoming
                }
            },
            ConflictKind::Contradicts => {
                let closing_id = match analysis.existing_id {
                    Some(id) => id,
                    None => existing.id,
                };
                SupersessionOutcome::ReplaceExisting { closing_id }
            },
        }
    }

    /// Whether the incoming record outranks the existing one.
    pub fn incoming_dominates(&self, incoming: &MemoryRecord, existing: &MemoryRecord) -> (b: bool)
        ensures
            b == dominates(incoming@, existing@),
    {
        let in_auth = incoming.provenance.source.default_authority();
        let ex_auth = existing.provenance.source.default_authority();
        if in_auth != ex_auth {
            return in_auth > ex_auth;
        }
        incoming.confidence >= existing.confidence
    }

    /// Closes an existing fact's validity window as superseded at `now`.
    pub fn close_window_at(existing: &mut MemoryRecord, now: i64) -> (r: MemoryResult<()>)
        ensures
            r is Ok,
            closed_at(final(existing)@, old(existing)@, now as int),
    {
        if existing.valid_to.is_none() {
            existing.valid_to = Some(now);
        }
        existing.status = MemoryStatus::Superseded;
        existing.updated_at = now;
        Ok(())
    }

    /// Closes an existing fact's validity window as superseded, now.
    ///
    /// The record is mutated for the caller to persist; its history
    /// remains fully addressable.
    pub fn close_window(existing: &mut MemoryRecord) -> (r: MemoryResult<()>)
        ensures
            r is Ok,
            closed_at(final(existing)@, old(existing)@, final(existing).updated_at as int),
    {
        ResolutionPolicy::close_window_at(existing, temporal::now_millis())
    }
}

/// Records on different (or missing) subjects are always consistent,
/// whatever the negation and value signals say.
pub proof fn lemma_different_subjects_consistent(
    incoming: RecordView,
    existing: RecordView,
    negates: bool,
    value_conflict: bool,
)
    requires
        !subject::subject_keys_match(incoming.subject, existing.subject),
    ensures
        analysis_spec(incoming, existing, negates, value_conflict) == (ConflictKind::Consistent, None::<MemoryId>),
        outcome_spec(ConflictKind::Consistent, None, incoming, existing) == SupersessionOutcome::Write,
{
}

/// An explicit negation on the same subject retires the existing fact
/// regardless of either side's authority or confidence.
pub proof fn lemma_contradiction_supersedes(incoming: RecordView, existing: RecordView, value_conflict: bool)
    requires
        subject::subject_keys_match(incoming.subject, existing.subject),
    ensures
        ({
            let a = analysis_spec(incoming, existing, true, value_conflict);
            outcome_spec(a.0, a.1, incoming, existing) == SupersessionOutcome::ReplaceExisting {
                closing_id: existing.id,
            }
        }),
{
}

/// A value conflict without negation always quarantines the newcomer.
pub proof fn lemma_value_conflict_quarantines(incoming: RecordView, existing: RecordView)
    requires
        subject::subject_keys_match(incoming.subject, existing.subject),
    ensures
        ({
            let a = analysis_spec(incoming, existing, false, true);
            outcome_spec(a.0, a.1, incoming, existing) == SupersessionOutcome::QuarantineIncoming
        }),
{
}

/// Authority dominates confidence: a strictly more authoritative
/// newcomer wins an ambiguous clash and a strictly less authoritative
/// one loses it, whatever the confidences.
pub proof fn lemma_authority_dominates_confidence(incoming: RecordView, existing: RecordView)
    ensures
        provenance::authority_of(incoming.provenance.source) > provenance::authority_of(
            existing.provenance.source,
        ) ==> outcome_spec(ConflictKind::Ambiguous, Some(existing.id), incoming, existing)
            == (SupersessionOutcome::ReplaceExisting { closing_id: existing.id }),
        provenance::authority_of(incoming.provenance.source) < provenance::authority_of(
            existing.provenance.source,
        ) ==> outcome_spec(ConflictKind::Ambiguous, Some(existing.id), incoming, existing)
            == SupersessionOutcome::QuarantineIncoming,
{
}

/// A closed record leaves active retrieval for good, and a window that
/// was open ends at the closing instant.
pub proof fn lemma_closed_leaves_retrieval(closed: RecordView, existing: RecordView, now: int, at: int)
    requires
        closed_at(closed, existing, now),
        existing.valid_to is None,
        i64::MIN <= now <= i64::MAX,
        now <= at,
    ensures
        !record::valid_at(closed, at),
        temporal::window_ended(record::validity_of(closed), at),
        taxonomy::status_retired(closed.status),
        !taxonomy::status_retrievable(closed.status),
{
}

/// The negation cues, each padded with spaces so that a hit needs word
/// boundaries.
pub open spec fn negation_cue_in(p: Seq<char>) -> bool {
    text::contains_spec(p, " no longer "@) || text::contains_spec(p, " is not "@)
        || text::contains_spec(p, " does not "@) || text::contains_spec(p, " never "@)
        || text::contains_spec(p, " stopped "@) || text::contains_spec(p, " removed "@)
}

/// The lowercased text, padded with one space on each side, holds a
/// negation cue.
pub open spec fn negation_spec(t: Seq<char>) -> bool {
    negation_cue_in(seq![' '] + text::str_lowercase(t) + seq![' '])
}

/// Cheap negation check over normalized text.
pub fn detects_negation(t: &str) -> (b: bool)
    ensures
        b == negation_spec(t@),
{
    let lower = text::lowercase(t);
    let padded = text::concat3(" ", lower.as_str(), " ");
    proof {
        reveal_strlit(" ");
        assert(padded@ =~= seq![' '] + text::str_lowercase(t@) + seq![' ']);
    }
    let p = padded.as_str();
    text::contains(p, " no longer ") || text::contains(p, " is not ") || text::contains(p, " does not ")
        || text::contains(p, " never ") || text::contains(p, " stopped ") || text::contains(
        p,
        " removed ",
    )
}

} // verus!
