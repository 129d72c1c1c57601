//! Audit trail events and the in-memory sink.
use crate::error::MemoryResult;
use crate::id::MemoryId;
use vstd::prelude::*;

verus! {

/// Governance-relevant actions worth auditing.
#[derive(Clone, Copy, Debug, PartialEq, Eq, Structural)]
pub enum AuditAction {
    Read,
    Write,
    Delete,
    Export,
}

/// One auditable governance event.
#[derive(Debug, PartialEq, Eq)]
pub struct AuditEvent {
    /// Instant of the event, in milliseconds since the Unix epoch.
    pub at: i64,
    /// Who attempted access ("user:u-1", "agent:researcher").
    pub principal: String,
    /// What they tried to do.
    pub action: AuditAction,
    /// Which record, when known.
    pub record_id: Option<MemoryId>,
    /// Whether the engine allowed it.
    pub allowed: bool,
    /// Why (denial reason or rule name).
    pub detail: String,
}

/// In-memory audit sink for tests and local inspection; events are kept
/// in arrival order.
#[derive(Debug)]
pub struct InMemoryAuditor {
    pub events: Vec<AuditEvent>,
}

impl InMemoryAuditor {
    /// An auditor with no events.
    pub fn new() -> (a: Self)
        ensures
            a.events@.len() == 0,
    {
        InMemoryAuditor { events: Vec::new() }
    }

    /// Name for logs.
    pub fn name(&self) -> (n: &'static str)
        ensures
            n@ == "in-memory"@,
    {
        "in-memory"
    }

    /// Number of recorded events.
    pub fn len(&self) -> (n: usize)
        ensures
            n == self.events@.len(),
    {
        self.events.len()
    }

    /// True when nothing has been recorded.
    pub fn is_empty(&self) -> (b: bool)
        ensures
            b == (self.events@.len() == 0),
    {
        self.events.len() == 0
    }

    /// Records one event after those already kept; recording never fails.
    pub fn record(&mut self, event: AuditEvent) -> (r: MemoryResult<()>)
        ensures
            r is Ok,
            final(self).events@ == old(self).events@.push(event),
    {
        self.events.push(event);
        Ok(())
    }
}

impl Default for InMemoryAuditor {
    fn default() -> (a: Self)
        ensures
            a.events@.len() == 0,
    {
        InMemoryAuditor::new()
    }
}

} // verus!
