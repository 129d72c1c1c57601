//! Multi-tenant scoping model.
//!
//! A [`MemoryScope`] names the partition a memory belongs to. Every
//! dimension is optional; when a query sets a dimension it acts as an
//! equality filter, unset dimensions are wildcards.
use crate::subject;
use crate::text;
use vstd::prelude::*;
use vstd::string::*;

verus! {

/// The seven scope dimensions as mathematical values.
pub struct ScopeView {
    pub tenant: Option<Seq<char>>,
    pub organization: Option<Seq<char>>,
    pub workspace: Option<Seq<char>>,
    pub user: Option<Seq<char>>,
    pub agent: Option<Seq<char>>,
    pub session: Option<Seq<char>>,
    pub task: Option<Seq<char>>,
}

/// Partition keys attached to every memory record and query.
#[derive(Debug, PartialEq, Eq)]
pub struct MemoryScope {
    pub tenant_id: Option<String>,
    pub organization_id: Option<String>,
    pub workspace_id: Option<String>,
    pub user_id: Option<String>,
    pub agent_id: Option<String>,
    pub session_id: Option<String>,
    pub task_id: Option<String>,
}

impl View for MemoryScope {
    type V = ScopeView;

    open spec fn view(&self) -> ScopeView {
        ScopeView {
            tenant: subject::opt_seq(self.tenant_id),
            organization: subject::opt_seq(self.organization_id),
            workspace: subject::opt_seq(self.workspace_id),
            user: subject::opt_seq(self.user_id),
            agent: subject::opt_seq(self.agent_id),
            session: subject::opt_seq(self.session_id),
            task: subject::opt_seq(self.task_id),
        }
    }
}

/// A pinned dimension must equal the candidate's; an unset one matches
/// anything.
pub open spec fn dim_ok(pin: Option<Seq<char>>, actual: Option<Seq<char>>) -> bool {
    match pin {
        None => true,
        Some(p) => actual == Some(p),
    }
}

/// `candidate` lies inside `scope`.
pub open spec fn scope_contains(scope: ScopeView, candidate: ScopeView) -> bool {
    &&& dim_ok(scope.tenant, candidate.tenant)
    &&& dim_ok(scope.organization, candidate.organization)
    &&& dim_ok(scope.workspace, candidate.workspace)
    &&& dim_ok(scope.user, candidate.user)
    &&& dim_ok(scope.agent, candidate.agent)
    &&& dim_ok(scope.session, candidate.session)
    &&& dim_ok(scope.task, candidate.task)
}

/// No dimension is pinned.
pub open spec fn scope_is_empty(s: ScopeView) -> bool {
    &&& s.tenant is None
    &&& s.organization is None
    &&& s.workspace is None
    &&& s.user is None
    &&& s.agent is None
    &&& s.session is None
    &&& s.task is None
}

/// Two pins of one dimension can be merged.
pub open spec fn dim_compatible(a: Option<Seq<char>>, b: Option<Seq<char>>) -> bool {
    match (a, b) {
        (Some(x), Some(y)) => x == y,
        _ => true,
    }
}

/// Merge of two compatible pins.
pub open spec fn dim_merge(a: Option<Seq<char>>, b: Option<Seq<char>>) -> Option<Seq<char>> {
    match a {
        None => b,
        Some(x) => Some(x),
    }
}

/// Every dimension of the two scopes can be merged.
pub open spec fn scopes_compatible(a: ScopeView, b: ScopeView) -> bool {
    &&& dim_compatible(a.tenant, b.tenant)
    &&& dim_compatible(a.organization, b.organization)
    &&& dim_compatible(a.workspace, b.workspace)
    &&& dim_compatible(a.user, b.user)
    &&& dim_compatible(a.agent, b.agent)
    &&& dim_compatible(a.session, b.session)
    &&& dim_compatible(a.task, b.task)
}

/// Dimension-wise merge of two scopes.
pub open spec fn scope_merge(a: ScopeView, b: ScopeView) -> ScopeView {
    ScopeView {
        tenant: dim_merge(a.tenant, b.tenant),
        organization: dim_merge(a.organization, b.organization),
        workspace: dim_merge(a.workspace, b.workspace),
        user: dim_merge(a.user, b.user),
        agent: dim_merge(a.agent, b.agent),
        session: dim_merge(a.session, b.session),
        task: dim_merge(a.task, b.task),
    }
}

/// Intersection of two scopes: the merge when compatible, none when any
/// dimension is pinned to two different values.
pub open spec fn scope_intersect(a: ScopeView, b: ScopeView) -> Option<ScopeView> {
    if scopes_compatible(a, b) {
        Some(scope_merge(a, b))
    } else {
        None
    }
}

/// 1 for a pinned dimension, 0 otherwise.
pub open spec fn pinned(d: Option<Seq<char>>) -> nat {
    if d is Some {
        1
    } else {
        0
    }
}

/// Number of pinned dimensions.
pub open spec fn scope_specificity(s: ScopeView) -> nat {
    pinned(s.tenant) + pinned(s.organization) + pinned(s.workspace) + pinned(s.user) + pinned(
        s.agent,
    ) + pinned(s.session) + pinned(s.task)
}

fn dim_matches(expected: &Option<String>, actual: &Option<String>) -> (b: bool)
    ensures
        b == dim_ok(subject::opt_seq(*expected), subject::opt_seq(*actual)),
{
    match expected {
        None => true,
        Some(pin) => match actual {
            Some(a) => *a == *pin,
            None => false,
        },
    }
}

fn reconcile(a: &Option<String>, b: &Option<String>) -> (r: Option<Option<String>>)
    ensures
        r is Some <==> dim_compatible(subject::opt_seq(*a), subject::opt_seq(*b)),
        r matches Some(m) ==> subject::opt_seq(m) == dim_merge(
            subject::opt_seq(*a),
            subject::opt_seq(*b),
        ),
{
    match (a, b) {
        (None, _) => Some(subject::clone_opt_string(b)),
        (_, None) => Some(subject::clone_opt_string(a)),
        (Some(x), Some(y)) => {
            if *x == *y {
                Some(Some(x.clone()))
            } else {
                None
            }
        },
    }
}

fn pin_count(d: &Option<String>) -> (n: usize)
    ensures
        n == pinned(subject::opt_seq(*d)),
{
    if d.is_some() {
        1
    } else {
        0
    }
}

impl MemoryScope {
    /// The scope with no dimension pinned: the universal wildcard.
    pub fn empty() -> (s: Self)
        ensures
            scope_is_empty(s@),
    {
        MemoryScope {
            tenant_id: None,
            organization_id: None,
            workspace_id: None,
            user_id: None,
            agent_id: None,
            session_id: None,
            task_id: None,
        }
    }

    /// Creates a builder for ergonomic scope construction.
    pub fn builder() -> (b: MemoryScopeBuilder)
        ensures
            scope_is_empty(b.0@),
    {
        MemoryScopeBuilder(MemoryScope::empty())
    }

    /// True if no dimension is pinned.
    pub fn is_empty(&self) -> (b: bool)
        ensures
            b == scope_is_empty(self@),
    {
        self.tenant_id.is_none() && self.organization_id.is_none() && self.workspace_id.is_none()
            && self.user_id.is_none() && self.agent_id.is_none() && self.session_id.is_none()
            && self.task_id.is_none()
    }

    /// Number of pinned dimensions.
    pub fn specificity(&self) -> (n: usize)
        ensures
            n == scope_specificity(self@),
    {
        pin_count(&self.tenant_id) + pin_count(&self.organization_id) + pin_count(
            &self.workspace_id,
        ) + pin_count(&self.user_id) + pin_count(&self.agent_id) + pin_count(&self.session_id)
            + pin_count(&self.task_id)
    }

    /// True when `candidate` belongs inside this scope: every dimension
    /// pinned here must match exactly; dimensions left unset here are
    /// wildcards.
    pub fn contains(&self, candidate: &MemoryScope) -> (b: bool)
        ensures
            b == scope_contains(self@, candidate@),
    {
        dim_matches(&self.tenant_id, &candidate.tenant_id) && dim_matches(
            &self.organization_id,
            &candidate.organization_id,
        ) && dim_matches(&self.workspace_id, &candidate.workspace_id) && dim_matches(
            &self.user_id,
            &candidate.user_id,
        ) && dim_matches(&self.agent_id, &candidate.agent_id) && dim_matches(
            &self.session_id,
            &candidate.session_id,
        ) && dim_matches(&self.task_id, &candidate.task_id)
    }

    /// Narrows this scope with the pinned dimensions of `other`.
    ///
    /// Conflicting pins return `None` rather than silently picking a
    /// winner.
    pub fn intersect(&self, other: &MemoryScope) -> (r: Option<MemoryScope>)
        ensures
            match r {
                Some(m) => scope_intersect(self@, other@) == Some(m@),
                None => scope_intersect(self@, other@) is None,
            },
    {
        let tenant_id = match reconcile(&self.tenant_id, &other.tenant_id) {
            Some(v) => v,
            None => return None,
        };
        let organization_id = match reconcile(&self.organization_id, &other.organization_id) {
            Some(v) => v,
            None => return None,
        };
        let workspace_id = match reconcile(&self.workspace_id, &other.workspace_id) {
            Some(v) => v,
            None => return None,
        };
        let user_id = match reconcile(&self.user_id, &other.user_id) {
            Some(v) => v,
            None => return None,
        };
        let agent_id = match reconcile(&self.agent_id, &other.agent_id) {
            Some(v) => v,
            None => return None,
        };
        let session_id = match reconcile(&self.session_id, &other.session_id) {
            Some(v) => v,
            None => return None,
        };
        let task_id = match reconcile(&self.task_id, &other.task_id) {
            Some(v) => v,
            None => return None,
        };
        Some(
            MemoryScope {
                tenant_id,
                organization_id,
                workspace_id,
                user_id,
                agent_id,
                session_id,
                task_id,
            },
        )
    }

    /// Rendering used for display: `scope[k=v,...]` over the pinned
    /// dimensions, in canonical order.
    pub fn to_display(&self) -> (r: String)
        ensures
            r@ == "scope["@ + render_dims(self@) + "]"@,
    {
        let mut parts = String::new();
        let mut first = true;
        append_dim(&mut parts, &mut first, "tenant", &self.tenant_id);
        append_dim(&mut parts, &mut first, "org", &self.organization_id);
        append_dim(&mut parts, &mut first, "workspace", &self.workspace_id);
        append_dim(&mut parts, &mut first, "user", &self.user_id);
        append_dim(&mut parts, &mut first, "agent", &self.agent_id);
        append_dim(&mut parts, &mut first, "session", &self.session_id);
        append_dim(&mut parts, &mut first, "task", &self.task_id);
        text::concat3("scope[", parts.as_str(), "]")
    }
}

/// `k=v` for a pinned dimension.
pub open spec fn render_pair(label: Seq<char>, v: Seq<char>) -> Seq<char> {
    label + "="@ + v
}

/// Appends `k=v` to `acc`, comma separated.
pub open spec fn render_step(acc: Seq<char>, label: Seq<char>, d: Option<Seq<char>>) -> Seq<char> {
    match d {
        None => acc,
        Some(v) => if acc.len() == 0 {
            render_pair(label, v)
        } else {
            acc + ","@ + render_pair(label, v)
        },
    }
}

/// Comma separated `k=v` list over the pinned dimensions.
pub open spec fn render_dims(s: ScopeView) -> Seq<char> {
    let a0 = render_step(Seq::empty(), "tenant"@, s.tenant);
    let a1 = render_step(a0, "org"@, s.organization);
    let a2 = render_step(a1, "workspace"@, s.workspace);
    let a3 = render_step(a2, "user"@, s.user);
    let a4 = render_step(a3, "agent"@, s.agent);
    let a5 = render_step(a4, "session"@, s.session);
    render_step(a5, "task"@, s.task)
}

fn append_dim(parts: &mut String, first: &mut bool, label: &str, d: &Option<String>)
    requires
        *old(first) <==> old(parts)@.len() == 0,
    ensures
        final(parts)@ == render_step(old(parts)@, label@, subject::opt_seq(*d)),
        *final(first) <==> final(parts)@.len() == 0,
{
    proof {
        reveal_strlit("=");
        reveal_strlit(",");
    }
    match d {
        None => {},
        Some(v) => {
            if !*first {
                parts.append(",");
            }
            parts.append(label);
            parts.append("=");
            parts.append(v.as_str());
            *first = false;
        },
    }
}

impl Clone for MemoryScope {
    fn clone(&self) -> (r: Self)
        ensures
            r == *self,
    {
        MemoryScope {
            tenant_id: subject::clone_opt_string(&self.tenant_id),
            organization_id: subject::clone_opt_string(&self.organization_id),
            workspace_id: subject::clone_opt_string(&self.workspace_id),
            user_id: subject::clone_opt_string(&self.user_id),
            agent_id: subject::clone_opt_string(&self.agent_id),
            session_id: subject::clone_opt_string(&self.session_id),
            task_id: subject::clone_opt_string(&self.task_id),
        }
    }
}

impl Default for MemoryScope {
    fn default() -> (s: Self)
        ensures
            scope_is_empty(s@),
    {
        MemoryScope::empty()
    }
}

/// Fluent builder for [`MemoryScope`].
#[derive(Debug)]
pub struct MemoryScopeBuilder(pub MemoryScope);

impl MemoryScopeBuilder {
    /// A builder with no dimension pinned.
    pub fn new() -> (b: Self)
        ensures
            scope_is_empty(b.0@),
    {
        MemoryScopeBuilder(MemoryScope::empty())
    }

    /// Pins the tenant.
    pub fn tenant(self, value: &str) -> (b: Self)
        ensures
            b.0@ == (ScopeView { tenant: Some(value@), ..self.0@ }),
    {
        MemoryScopeBuilder(MemoryScope { tenant_id: Some(String::from_str(value)), ..self.0 })
    }

    /// Pins the organization.
    pub fn organization(self, value: &str) -> (b: Self)
        ensures
            b.0@ == (ScopeView { organization: Some(value@), ..self.0@ }),
    {
        MemoryScopeBuilder(MemoryScope { organization_id: Some(String::from_str(value)), ..self.0 })
    }

    /// Pins the workspace.
    pub fn workspace(self, value: &str) -> (b: Self)
        ensures
            b.0@ == (ScopeView { workspace: Some(value@), ..self.0@ }),
    {
        MemoryScopeBuilder(MemoryScope { workspace_id: Some(String::from_str(value)), ..self.0 })
    }

    /// Pins the user.
    pub fn user(self, value: &str) -> (b: Self)
        ensures
            b.0@ == (ScopeView { user: Some(value@), ..self.0@ }),
    {
        MemoryScopeBuilder(MemoryScope { user_id: Some(String::from_str(value)), ..self.0 })
    }

    /// Pins the agent.
    pub fn agent(self, value: &str) -> (b: Self)
        ensures
            b.0@ == (ScopeView { agent: Some(value@), ..self.0@ }),
    {
        MemoryScopeBuilder(MemoryScope { agent_id: Some(String::from_str(value)), ..self.0 })
    }

    /// Pins the session.
    pub fn session(self, value: &str) -> (b: Self)
        ensures
            b.0@ == (ScopeView { session: Some(value@), ..self.0@ }),
    {
        MemoryScopeBuilder(MemoryScope { session_id: Some(String::from_str(value)), ..self.0 })
    }

    /// Pins the task.
    pub fn task(self, value: &str) -> (b: Self)
        ensures
            b.0@ == (ScopeView { task: Some(value@), ..self.0@ }),
    {
        MemoryScopeBuilder(MemoryScope { task_id: Some(String::from_str(value)), ..self.0 })
    }

    /// Finishes construction.
    pub fn build(self) -> (s: MemoryScope)
        ensures
            s == self.0,
    {
        self.0
    }
}

/// The empty scope is the universal wildcard: it contains every scope.
pub proof fn lemma_empty_scope_contains_all(wildcard: ScopeView, candidate: ScopeView)
    requires
        scope_is_empty(wildcard),
    ensures
        scope_contains(wildcard, candidate),
{
}

/// Containment is reflexive and transitive: a scope contains itself,
/// and nesting composes.
pub proof fn lemma_contains_preorder(a: ScopeView, b: ScopeView, c: ScopeView)
    ensures
        scope_contains(a, a),
        scope_contains(a, b) && scope_contains(b, c) ==> scope_contains(a, c),
{
}

/// Intersection is exact: a candidate lies in the intersection of two
/// scopes iff it lies in both; when the scopes contradict each other no
/// candidate lies in both. The intersection is also symmetric.
pub proof fn lemma_intersect_is_conjunction(a: ScopeView, b: ScopeView, candidate: ScopeView)
    ensures
        scope_intersect(a, b) matches Some(m) ==> (scope_contains(m, candidate) <==> (
        scope_contains(a, candidate) && scope_contains(b, candidate))),
        scope_intersect(a, b) is None ==> !(scope_contains(a, candidate) && scope_contains(
            b,
            candidate,
        )),
        scope_intersect(a, b) == scope_intersect(b, a),
{
}

/// The intersection of two compatible scopes is contained in both and
/// pins at least as many dimensions as either.
pub proof fn lemma_intersect_narrows(a: ScopeView, b: ScopeView)
    requires
        scope_intersect(a, b) is Some,
    ensures
        scope_contains(a, scope_intersect(a, b)->0),
        scope_contains(b, scope_intersect(a, b)->0),
        scope_specificity(scope_intersect(a, b)->0) >= scope_specificity(a),
        scope_specificity(scope_intersect(a, b)->0) >= scope_specificity(b),
{
}

} // verus!
