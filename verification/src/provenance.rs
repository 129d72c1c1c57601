//! Where a memory came from and how long it should be kept.
use crate::subject;
use crate::temporal;
use vstd::prelude::*;
use vstd::string::*;

verus! {

/// Kind of origin that produced a memory.
#[derive(Clone, Copy, Debug, PartialEq, Eq, Hash, Structural)]
pub enum SourceKind {
    /// Stated directly by a human user.
    User,
    /// Asserted by an agent during its work.
    Agent,
    /// Produced by engine-internal processes.
    System,
    /// Result of a tool invocation.
    Tool,
    /// Imported from outside the agent runtime.
    External,
}

/// Authority weight of a source, in millionths: users outrank imports,
/// which outrank tools, system processes and agents, in that order.
pub open spec fn authority_of(s: SourceKind) -> u32 {
    match s {
        SourceKind::User => 900_000,
        SourceKind::External => 800_000,
        SourceKind::Tool => 700_000,
        SourceKind::System => 600_000,
        SourceKind::Agent => 500_000,
    }
}

impl SourceKind {
    /// Default authority weight used by conflict resolution and ranking,
    /// in millionths of full authority.
    pub fn default_authority(&self) -> (a: u32)
        ensures
            a == authority_of(*self),
    {
        match self {
            SourceKind::User => 900_000,
            SourceKind::External => 800_000,
            SourceKind::Tool => 700_000,
            SourceKind::System => 600_000,
            SourceKind::Agent => 500_000,
        }
    }
}

/// Human statements outrank tool output, which outranks agent
/// inference; distinct sources never tie.
pub proof fn lemma_authority_order(a: SourceKind, b: SourceKind)
    ensures
        authority_of(SourceKind::User) > authority_of(SourceKind::Agent),
        authority_of(SourceKind::Tool) > authority_of(SourceKind::Agent),
        authority_of(a) == authority_of(b) <==> a == b,
{
}

/// Provenance trail of a memory record.
#[derive(Debug, PartialEq, Eq)]
pub struct Provenance {
    /// What kind of source created this memory.
    pub source: SourceKind,
    /// Identifier of the specific actor (user id, agent name, tool name).
    pub actor_id: Option<String>,
    /// Optional URI pointing at the originating artifact.
    pub source_uri: Option<String>,
    /// Distributed-trace correlation for auditing write paths.
    pub trace_id: Option<String>,
    /// When the memory was captured (milliseconds since the epoch).
    pub recorded_at: i64,
}

impl Provenance {
    /// Provenance stamped at `recorded_at` from the given source kind.
    pub fn at(source: SourceKind, recorded_at: i64) -> (p: Self)
        ensures
            p.source == source,
            p.actor_id is None,
            p.source_uri is None,
            p.trace_id is None,
            p.recorded_at == recorded_at,
    {
        Provenance { source, actor_id: None, source_uri: None, trace_id: None, recorded_at }
    }

    /// Provenance stamped now from the given source kind.
    pub fn now(source: SourceKind) -> (p: Self)
        ensures
            p.source == source,
            p.actor_id is None,
            p.source_uri is None,
            p.trace_id is None,
    {
        Provenance::at(source, temporal::now_millis())
    }

    /// Attaches an actor identifier.
    pub fn with_actor(self, actor_id: &str) -> (p: Self)
        ensures
            subject::opt_seq(p.actor_id) == Some(actor_id@),
            p.source == self.source,
            p.source_uri == self.source_uri,
            p.trace_id == self.trace_id,
            p.recorded_at == self.recorded_at,
    {
        Provenance { actor_id: Some(String::from_str(actor_id)), ..self }
    }

    /// Attaches a trace identifier.
    pub fn with_trace(self, trace_id: &str) -> (p: Self)
        ensures
            subject::opt_seq(p.trace_id) == Some(trace_id@),
            p.source == self.source,
            p.actor_id == self.actor_id,
            p.source_uri == self.source_uri,
            p.recorded_at == self.recorded_at,
    {
        Provenance { trace_id: Some(String::from_str(trace_id)), ..self }
    }
}

impl Clone for Provenance {
    fn clone(&self) -> (r: Self)
        ensures
            r == *self,
    {
        Provenance {
            source: self.source,
            actor_id: subject::clone_opt_string(&self.actor_id),
            source_uri: subject::clone_opt_string(&self.source_uri),
            trace_id: subject::clone_opt_string(&self.trace_id),
            recorded_at: self.recorded_at,
        }
    }
}

/// How aggressively a memory may be forgotten.
#[derive(Clone, Copy, Debug, PartialEq, Eq, Structural)]
pub enum RetentionClass {
    /// May be dropped as soon as it expires; no archival.
    Ephemeral,
    /// Kept for the session that produced it.
    Session,
    /// Default long-lived retention under policy sweeps.
    Standard,
    /// Never expired automatically; deletion requires explicit action.
    Permanent,
}

/// Retention metadata attached to every record.
#[derive(Clone, Copy, Debug, PartialEq, Eq, Structural)]
pub struct RetentionPolicy {
    /// Coarse retention class.
    pub class: RetentionClass,
    /// Absolute expiry instant, if any.
    pub expires_at: Option<i64>,
}

/// The standard policy as a value.
pub open spec fn standard_policy() -> RetentionPolicy {
    RetentionPolicy { class: RetentionClass::Standard, expires_at: None }
}

/// The policy has lapsed at `now`.
pub open spec fn policy_expired(p: RetentionPolicy, now: int) -> bool {
    p.expires_at matches Some(at) && at <= now
}

impl RetentionPolicy {
    /// Policy used when callers do not specify one.
    pub fn standard() -> (p: Self)
        ensures
            p.class == RetentionClass::Standard,
            p.expires_at is None,
    {
        RetentionPolicy { class: RetentionClass::Standard, expires_at: None }
    }

    /// Ephemeral policy expiring at the given instant.
    pub fn expiring_at(expires_at: i64) -> (p: Self)
        ensures
            p.class == RetentionClass::Ephemeral,
            p.expires_at == Some(expires_at),
    {
        RetentionPolicy { class: RetentionClass::Ephemeral, expires_at: Some(expires_at) }
    }

    /// Permanent policy.
    pub fn permanent() -> (p: Self)
        ensures
            p.class == RetentionClass::Permanent,
            p.expires_at is None,
    {
        RetentionPolicy { class: RetentionClass::Permanent, expires_at: None }
    }

    /// True when the policy has lapsed at `now`.
    pub fn is_expired(&self, now: i64) -> (b: bool)
        ensures
            b == policy_expired(*self, now as int),
    {
        match self.expires_at {
            Some(at) => at <= now,
            None => false,
        }
    }
}

} // verus!
