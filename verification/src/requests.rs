//! Request types for the engine facade.
//!
//! Keeping these separate from [`MemoryRecord`] lets callers express
//! intent without inventing ids, timestamps or versioning themselves.
use crate::config::EngineConfig;
use crate::content::{self, MemoryContent};
use crate::error::{self, MemoryError, MemoryResult};
use crate::id::MemoryId;
use crate::provenance::{Provenance, RetentionPolicy, SourceKind};
use crate::record::{self, MemoryRecord, RecordView, NEUTRAL_SCORE};
use crate::scope::MemoryScope;
use crate::subject::{self, MemorySubject};
use crate::taxonomy::{MemoryStatus, MemoryType};
use crate::temporal;
use crate::text;
use vstd::prelude::*;
use vstd::string::*;

verus! {

/// Intent to create a new long-term or short-term memory.
#[derive(Debug)]
pub struct RememberRequest {
    /// Functional memory kind to classify this record as.
    pub memory_type: MemoryType,
    /// Payload to remember.
    pub content: MemoryContent,
    /// Optional refinement ("preference", "commitment", ...).
    pub subtype: Option<String>,
    /// Scope partition; defaults to the engine's configured scope.
    pub scope: Option<MemoryScope>,
    /// Optional subject anchor.
    pub subject: Option<MemorySubject>,
    /// Certainty in millionths, clamped into `[0, 1_000_000]` on write;
    /// defaults to neutral.
    pub confidence: i64,
    /// Retrieval priority in millionths, clamped on write; defaults to
    /// neutral.
    pub importance: i64,
    /// Retention policy; defaults to standard.
    pub retention: RetentionPolicy,
    /// Origin classification; defaults to agent.
    pub source: SourceKind,
    /// Specific actor behind the write.
    pub actor_id: Option<String>,
}

/// Why a request is refused under `config`, as `(field, reason)`.
pub open spec fn remember_problem(req: RememberRequest, config: EngineConfig) -> Option<(Seq<char>, Seq<char>)> {
    if content::content_empty(req.content@) {
        Some(("content"@, "must not be empty"@))
    } else if req.content.text@.len() > config.limits.max_content_chars {
        Some(
            (
                "content"@,
                "exceeds max_content_chars ("@ + error::decimal(config.limits.max_content_chars as nat)
                    + ")"@,
            ),
        )
    } else {
        None
    }
}

/// `r` is the record that `req` becomes with identity `id`, stamped
/// `now`, when the engine's default scope is `default_scope`.
pub open spec fn remembered(r: RecordView, req: RememberRequest, default_scope: MemoryScope, id: MemoryId, now: int) -> bool {
    &&& r.id == id
    &&& r.memory_type == req.memory_type
    &&& r.content == req.content@
    &&& r.subtype == req.subtype
    &&& r.scope == match req.scope {
        Some(s) => s,
        None => default_scope,
    }
    &&& r.subject == req.subject
    &&& r.confidence == record::clamp_score(req.confidence as int)
    &&& r.importance == record::clamp_score(req.importance as int)
    &&& r.retention == req.retention
    &&& r.provenance.source == req.source
    &&& r.provenance.actor_id == req.actor_id
    &&& r.provenance.source_uri is None
    &&& r.provenance.trace_id is None
    &&& r.provenance.recorded_at == now
    &&& r.valid_from is None
    &&& r.valid_to is None
    &&& r.status == MemoryStatus::Active
    &&& r.version == 1
    &&& r.supersedes is None
    &&& r.created_at == now
    &&& r.updated_at == now
}

impl RememberRequest {
    /// Minimal text memory of a given type with neutral scores, standard
    /// retention and agent provenance.
    pub fn new(memory_type: MemoryType, content: &str) -> (r: Self)
        ensures
            r.memory_type == memory_type,
            r.content.text@ == content@,
            r.content.structured is None,
            r.content.tags@.len() == 0,
            r.subtype is None,
            r.scope is None,
            r.subject is None,
            r.confidence == NEUTRAL_SCORE,
            r.importance == NEUTRAL_SCORE,
            r.retention == crate::provenance::standard_policy(),
            r.source == SourceKind::Agent,
            r.actor_id is None,
    {
        RememberRequest {
            memory_type,
            content: MemoryContent::from_text(content),
            subtype: None,
            scope: None,
            subject: None,
            confidence: NEUTRAL_SCORE as i64,
            importance: NEUTRAL_SCORE as i64,
            retention: RetentionPolicy::standard(),
            source: SourceKind::Agent,
            actor_id: None,
        }
    }

    /// Pins the writing scope.
    pub fn with_scope(self, scope: MemoryScope) -> (r: Self)
        ensures
            r == (RememberRequest { scope: Some(scope), ..self }),
    {
        RememberRequest { scope: Some(scope), ..self }
    }

    /// Anchors the memory on a subject.
    pub fn with_subject(self, subject: MemorySubject) -> (r: Self)
        ensures
            r == (RememberRequest { subject: Some(subject), ..self }),
    {
        RememberRequest { subject: Some(subject), ..self }
    }

    /// Sets a subtype label.
    pub fn with_subtype(self, subtype: &str) -> (r: Self)
        ensures
            subject::opt_seq(r.subtype) == Some(subtype@),
            r == (RememberRequest { subtype: r.subtype, ..self }),
    {
        RememberRequest { subtype: Some(String::from_str(subtype)), ..self }
    }

    /// Overrides certainty (millionths).
    pub fn with_confidence(self, confidence: i64) -> (r: Self)
        ensures
            r == (RememberRequest { confidence, ..self }),
    {
        RememberRequest { confidence, ..self }
    }

    /// Overrides retrieval priority (millionths).
    pub fn with_importance(self, importance: i64) -> (r: Self)
        ensures
            r == (RememberRequest { importance, ..self }),
    {
        RememberRequest { importance, ..self }
    }

    /// Overrides retention.
    pub fn with_retention(self, retention: RetentionPolicy) -> (r: Self)
        ensures
            r == (RememberRequest { retention, ..self }),
    {
        RememberRequest { retention, ..self }
    }

    /// Declares provenance: the source kind and the actor behind it.
    pub fn from_source(self, source: SourceKind, actor_id: &str) -> (r: Self)
        ensures
            subject::opt_seq(r.actor_id) == Some(actor_id@),
            r == (RememberRequest { source, actor_id: r.actor_id, ..self }),
    {
        RememberRequest { source, actor_id: Some(String::from_str(actor_id)), ..self }
    }

    /// Validates against configured limits: content must not be empty
    /// and must fit the character budget.
    pub fn validated(&self, config: &EngineConfig) -> (r: MemoryResult<()>)
        ensures
            match remember_problem(*self, *config) {
                None => r is Ok,
                Some(p) => r matches Err(e) && error::is_validation(e, p.0, p.1),
            },
    {
        if self.content.is_empty() {
            return Err(MemoryError::validation("content", "must not be empty"));
        }
        if self.content.char_len() > config.limits.max_content_chars {
            let n = error::decimal_string(config.limits.max_content_chars as u64);
            let reason = text::concat3("exceeds max_content_chars (", n.as_str(), ")");
            proof {
                reveal_strlit("exceeds max_content_chars (");
                reveal_strlit(")");
            }
            return Err(MemoryError::Validation { field: "content", reason });
        }
        Ok(())
    }

    /// The record this request becomes with identity `id`, stamped `now`.
    pub fn into_record_at(self, default_scope: MemoryScope, id: MemoryId, now: i64) -> (r: MemoryRecord)
        ensures
            remembered(r@, self, default_scope, id, now as int),
    {
        let scope = match self.scope {
            Some(s) => s,
            None => default_scope,
        };
        let record = MemoryRecord::new_at(id, self.memory_type, self.content, now).with_scope(
            scope,
        ).with_confidence(self.confidence).with_importance(self.importance).with_retention(
            self.retention,
        );
        let provenance = match &self.actor_id {
            Some(actor) => Provenance::at(self.source, now).with_actor(actor.as_str()),
            None => Provenance::at(self.source, now),
        };
        proof {
            if self.actor_id is Some {
                assert(subject::opt_seq(provenance.actor_id) == subject::opt_seq(self.actor_id));
            }
        }
        let actor_id = subject::clone_opt_string(&self.actor_id);
        MemoryRecord {
            subtype: self.subtype,
            subject: self.subject,
            provenance: Provenance { actor_id, ..provenance },
            ..record
        }
    }

    /// The record this request becomes, with a fresh identity stamped
    /// now.
    pub fn into_record(self, default_scope: MemoryScope) -> (r: MemoryRecord)
        ensures
            remembered(r@, self, default_scope, r.id, r.created_at as int),
    {
        let id = MemoryId::generate();
        let now = temporal::now_millis();
        self.into_record_at(default_scope, id, now)
    }
}

impl Clone for RememberRequest {
    fn clone(&self) -> (r: Self)
        ensures
            r.content@ == self.content@,
            r.memory_type == self.memory_type,
            r.subtype == self.subtype,
            r.scope == self.scope,
            r.subject == self.subject,
            r.confidence == self.confidence,
            r.importance == self.importance,
            r.retention == self.retention,
            r.source == self.source,
            r.actor_id == self.actor_id,
    {
        RememberRequest {
            memory_type: self.memory_type,
            content: self.content.clone(),
            subtype: subject::clone_opt_string(&self.subtype),
            scope: match &self.scope {
                Some(s) => Some(s.clone()),
                None => None,
            },
            subject: match &self.subject {
                Some(s) => Some(s.clone()),
                None => None,
            },
            confidence: self.confidence,
            importance: self.importance,
            retention: self.retention,
            source: self.source,
            actor_id: subject::clone_opt_string(&self.actor_id),
        }
    }
}

/// Intent to replace the content of an existing memory.
///
/// The engine never rewrites records in place: it derives a successor
/// linked through `supersedes` and retires the original, preserving
/// full history.
#[derive(Debug)]
pub struct UpdateRequest {
    /// Record being revised.
    pub id: MemoryId,
    /// Scope of the caller; must contain the record's scope.
    pub scope: MemoryScope,
    /// New payload.
    pub content: MemoryContent,
    /// New certainty in millionths, when the caller wants to change it.
    pub confidence: Option<i64>,
    /// New retrieval priority in millionths, when the caller wants to
    /// change it.
    pub importance: Option<i64>,
}

impl UpdateRequest {
    /// Revises a record's text content.
    pub fn content(id: MemoryId, scope: MemoryScope, content: &str) -> (r: Self)
        ensures
            r.id == id,
            r.scope == scope,
            r.content.text@ == content@,
            r.content.structured is None,
            r.content.tags@.len() == 0,
            r.confidence is None,
            r.importance is None,
    {
        UpdateRequest { id, scope, content: MemoryContent::from_text(content), confidence: None, importance: None }
    }

    /// Overrides the successor's certainty (millionths).
    pub fn with_confidence(self, confidence: i64) -> (r: Self)
        ensures
            r == (UpdateRequest { confidence: Some(confidence), ..self }),
    {
        UpdateRequest { confidence: Some(confidence), ..self }
    }

    /// Overrides the successor's retrieval priority (millionths).
    pub fn with_importance(self, importance: i64) -> (r: Self)
        ensures
            r == (UpdateRequest { importance: Some(importance), ..self }),
    {
        UpdateRequest { importance: Some(importance), ..self }
    }
}

} // verus!
