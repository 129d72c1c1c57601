//! Authorization: who may see or write what.
//!
//! Deny answers are authoritative: the engine treats `false` as a hard
//! filter, so the record never reaches serialization, not even as
//! metadata.
use crate::error::MemoryResult;
use crate::record::{MemoryRecord, RecordView};
use crate::scope::{self, MemoryScope, ScopeView};
use crate::split::views;
use vstd::prelude::*;
use vstd::string::*;

verus! {

/// The caller attempting access.
#[derive(Debug)]
pub struct Principal {
    /// Stable identity (user or service id).
    pub id: String,
    /// Coarse roles; authorizers interpret them freely.
    pub roles: Vec<String>,
    /// Scope the principal acts within.
    pub scope: MemoryScope,
}

impl Principal {
    /// An identity with no roles acting in the unrestricted scope.
    pub fn new(id: &str) -> (p: Self)
        ensures
            p.id@ == id@,
            p.roles@.len() == 0,
            scope::scope_is_empty(p.scope@),
    {
        Principal { id: String::from_str(id), roles: Vec::new(), scope: MemoryScope::empty() }
    }

    /// Attaches a role after those already held.
    pub fn with_role(self, role: &str) -> (p: Self)
        ensures
            p.id == self.id,
            p.scope == self.scope,
            views(p.roles@) == views(self.roles@).push(role@),
    {
        let mut roles = self.roles;
        let ghost before = views(roles@);
        roles.push(String::from_str(role));
        assert(views(roles@) =~= before.push(role@));
        Principal { id: self.id, roles, scope: self.scope }
    }

    /// Pins the acting scope.
    pub fn with_scope(self, scope: MemoryScope) -> (p: Self)
        ensures
            p.id == self.id,
            p.roles == self.roles,
            p.scope == scope,
    {
        Principal { id: self.id, roles: self.roles, scope }
    }
}

/// The scope-identity rule: a principal may touch exactly the records
/// that its pinned scope dimensions match.
pub open spec fn scope_allows(principal: ScopeView, record: RecordView) -> bool {
    scope::scope_contains(principal, record.scope@)
}

/// Scope-identity authorizer: principals see exactly what their pinned
/// scope dimensions match. Roles widen nothing; this is the safe default
/// for multi-tenant deployments.
#[derive(Clone, Copy, Debug)]
pub struct ScopeAuthorizer;

impl ScopeAuthorizer {
    /// Name for logs.
    pub fn name(&self) -> (n: &'static str)
        ensures
            n@ == "scope"@,
    {
        "scope"
    }

    /// May `principal` see this record?
    pub fn authorize_read(&self, principal: &Principal, record: &MemoryRecord) -> (b: bool)
        ensures
            b == scope_allows(principal.scope@, record@),
    {
        principal.scope.contains(&record.scope)
    }

    /// May `principal` write this record? Writes must land inside the
    /// principal's own scope: narrowing it is allowed, escaping it is not.
    pub fn authorize_write(&self, principal: &Principal, record: &MemoryRecord) -> (b: bool)
        ensures
            b == scope_allows(principal.scope@, record@),
    {
        principal.scope.contains(&record.scope)
    }
}

/// Result alias shared by policy checks.
pub type PolicyResult<T> = MemoryResult<T>;

/// A principal with no pinned dimension may read and write every record;
/// a principal pinned to a tenant never reaches a record of another
/// tenant.
pub proof fn lemma_scope_authorization(principal: ScopeView, record: RecordView)
    ensures
        scope::scope_is_empty(principal) ==> scope_allows(principal, record),
        (principal.tenant matches Some(t) && record.scope@.tenant != Some(t)) ==> !scope_allows(
            principal,
            record,
        ),
{
    if scope::scope_is_empty(principal) {
        scope::lemma_empty_scope_contains_all(principal, record.scope@);
    }
}

/// Writes may narrow the scope but not escape it: whatever a principal
/// may write, any principal whose scope contains the first one's may
/// write too.
pub proof fn lemma_wider_principals_allow_more(wide: ScopeView, narrow: ScopeView, record: RecordView)
    requires
        scope::scope_contains(wide, narrow),
        scope_allows(narrow, record),
    ensures
        scope_allows(wide, record),
{
    scope::lemma_contains_preorder(wide, narrow, record.scope@);
}

} // verus!
