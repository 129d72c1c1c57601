//! Retention sweeps and coordinated forgetting.
//!
//! Deletion must invalidate every representation of a memory: the
//! canonical row and the graph edges it justifies. The sweep is the
//! only component that physically removes records that engine writes
//! merely tombstoned.
use crate::error::{MemoryError, MemoryResult};
use crate::graph::{self, InMemoryGraphStore, RelationView};
use crate::id::MemoryId;
use crate::provenance::RetentionClass;
use crate::query::{self, MemoryQuery};
use crate::record::{self, MemoryRecord, RecordView};
use crate::scope::{self, MemoryScope};
use crate::store::{self, InMemoryStore};
use crate::taxonomy::MemoryStatus;
use vstd::prelude::*;

verus! {

/// Grace period after expiry before standard-class records archive:
/// seven days, in milliseconds.
pub const ARCHIVE_GRACE_MS: i64 = 604_800_000;

/// Everything a sweep touched, for audits and tests.
#[derive(Debug, PartialEq, Eq)]
pub struct SweepReport {
    /// Hard-deleted everywhere (ephemeral and session classes).
    pub purged: Vec<MemoryId>,
    /// Moved to archived status (standard class past expiry and grace).
    pub archived: Vec<MemoryId>,
    /// Records left alone by design and counted for visibility.
    pub skipped: usize,
    /// Hook errors, one per failed hook call, in the order they happened;
    /// they never abort the sweep.
    pub hook_failures: Vec<HookFailure>,
}

/// An archival hook that failed on one record.
#[derive(Debug, PartialEq, Eq)]
pub struct HookFailure {
    /// The record the hook was observing.
    pub record_id: MemoryId,
    /// The hook's position in registration order.
    pub hook: usize,
    /// What the hook reported.
    pub error: MemoryError,
}

/// Views of hook failures as (record, hook, error).
pub open spec fn failure_views(v: Seq<HookFailure>) -> Seq<(MemoryId, usize, MemoryError)> {
    v.map_values(|f: HookFailure| (f.record_id, f.hook, f.error))
}

/// One step of a sweep, in the order it happened.
pub enum SweepStep {
    /// Hook number `hook` observed `record`, with this outcome.
    Hook { hook: usize, record: RecordView, outcome: MemoryResult<()> },
    /// The record was removed from every representation.
    Purged(MemoryId),
    /// The record was flipped to archived.
    Archived(MemoryId),
}

/// The hook failures among `steps`, in order.
pub open spec fn failures_in(steps: Seq<SweepStep>) -> Seq<(MemoryId, usize, MemoryError)>
    decreases steps.len(),
{
    if steps.len() == 0 {
        Seq::empty()
    } else {
        let f = failures_in(steps.drop_last());
        match steps.last() {
            SweepStep::Hook { hook, record, outcome: Err(e) } => f.push((record.id, hook, e)),
            _ => f,
        }
    }
}

/// `block` is one call of each of the `k` hooks, in registration order,
/// on `r`.
pub open spec fn hooks_on(block: Seq<SweepStep>, r: RecordView, k: int) -> bool {
    &&& block.len() == k
    &&& forall|j: int| 0 <= j < k ==> is_hook_call(#[trigger] block[j], j, r)
}

/// `s` is the call of hook number `j` on `r`.
pub open spec fn is_hook_call(s: SweepStep, j: int, r: RecordView) -> bool {
    match s {
        SweepStep::Hook { hook, record, .. } => hook == j && record == r,
        _ => false,
    }
}

/// The candidates a sweep at `now` purges or archives, in order.
pub open spec fn acted(cands: Seq<RecordView>, now: int) -> Seq<RecordView>
    decreases cands.len(),
{
    if cands.len() == 0 {
        Seq::empty()
    } else {
        let r = acted(cands.drop_last(), now);
        let a = sweep_action_spec(cands.last(), now);
        if a == SweepAction::Purge || a == SweepAction::Archive {
            r.push(cands.last())
        } else {
            r
        }
    }
}

/// The step that finishes acting on `r` at `now`.
pub open spec fn final_step(r: RecordView, now: int) -> SweepStep {
    if sweep_action_spec(r, now) == SweepAction::Purge {
        SweepStep::Purged(r.id)
    } else {
        SweepStep::Archived(r.id)
    }
}

/// `steps` is, for each acted record in order, one call of every hook on
/// it followed by its purge or archiving.
pub open spec fn sweep_steps(steps: Seq<SweepStep>, acted: Seq<RecordView>, k: int, now: int) -> bool
    decreases acted.len(),
{
    if acted.len() == 0 {
        steps.len() == 0
    } else {
        let n = steps.len();
        &&& n >= k + 1
        &&& sweep_steps(steps.take(n - k - 1), acted.drop_last(), k, now)
        &&& hooks_on(steps.subrange(n - k - 1, n - 1), acted.last(), k)
        &&& steps[n - 1] == final_step(acted.last(), now)
    }
}

/// Hook failures of concatenated steps are those of each part, in order.
pub proof fn lemma_failures_append(a: Seq<SweepStep>, b: Seq<SweepStep>)
    ensures
        failures_in(a + b) == failures_in(a) + failures_in(b),
    decreases b.len(),
{
    if b.len() == 0 {
        assert(a + b =~= a);
    } else {
        lemma_failures_append(a, b.drop_last());
        assert((a + b).drop_last() =~= a + b.drop_last());
        assert((a + b).last() == b.last());
    }
}

/// Hooks observe only what a sweep acts on: every record a sweep purges
/// or archives is due for that, so no hook ever sees a permanent record,
/// a skipped one or one whose expiry lies ahead.
pub proof fn lemma_hooks_see_only_acted(steps: Seq<SweepStep>, cands: Seq<RecordView>, k: int, now: int)
    requires
        sweep_steps(steps, acted(cands, now), k, now),
    ensures
        forall|j: int|
            0 <= j < steps.len() ==> match #[trigger] steps[j] {
                SweepStep::Hook { record, .. } => (sweep_action_spec(record, now) == SweepAction::Purge
                    || sweep_action_spec(record, now) == SweepAction::Archive) && record.retention.class
                    != RetentionClass::Permanent,
                _ => true,
            },
    decreases cands.len(),
{
    lemma_acted_due(cands, now);
    lemma_steps_hooks_in(steps, acted(cands, now), k, now);
    assert forall|j: int| 0 <= j < steps.len() implies match #[trigger] steps[j] {
        SweepStep::Hook { record, .. } => (sweep_action_spec(record, now) == SweepAction::Purge
            || sweep_action_spec(record, now) == SweepAction::Archive) && record.retention.class
            != RetentionClass::Permanent,
        _ => true,
    } by {
        if let SweepStep::Hook { record, .. } = steps[j] {
            lemma_retention_classes(record, now);
        }
    }
}

proof fn lemma_acted_due(cands: Seq<RecordView>, now: int)
    ensures
        forall|r: RecordView| #[trigger] acted(cands, now).contains(r) ==> sweep_action_spec(r, now)
            == SweepAction::Purge || sweep_action_spec(r, now) == SweepAction::Archive,
    decreases cands.len(),
{
    if cands.len() > 0 {
        lemma_acted_due(cands.drop_last(), now);
        let p = acted(cands.drop_last(), now);
        assert forall|r: RecordView| #[trigger] acted(cands, now).contains(r) implies sweep_action_spec(r, now)
            == SweepAction::Purge || sweep_action_spec(r, now) == SweepAction::Archive by {
            let a = acted(cands, now);
            let i = choose|i: int| 0 <= i < a.len() && a[i] == r;
            if i < p.len() {
                assert(a[i] == p[i]);
                assert(p.contains(r));
            }
        }
    }
}

proof fn lemma_steps_hooks_in(steps: Seq<SweepStep>, acted: Seq<RecordView>, k: int, now: int)
    requires
        sweep_steps(steps, acted, k, now),
    ensures
        forall|j: int|
            0 <= j < steps.len() ==> match #[trigger] steps[j] {
                SweepStep::Hook { record, .. } => acted.contains(record),
                _ => true,
            },
    decreases acted.len(),
{
    if acted.len() > 0 {
        let n = steps.len();
        let pre = steps.take(n - k - 1);
        let blk = steps.subrange(n - k - 1, n - 1);
        lemma_steps_hooks_in(pre, acted.drop_last(), k, now);
        assert(acted[acted.len() - 1] == acted.last());
        assert forall|j: int| 0 <= j < steps.len() implies match #[trigger] steps[j] {
            SweepStep::Hook { record, .. } => acted.contains(record),
            _ => true,
        } by {
            if j < n - k - 1 {
                assert(steps[j] == pre[j]);
                if let SweepStep::Hook { record, .. } = pre[j] {
                    let i = choose|i: int| 0 <= i < acted.drop_last().len() && acted.drop_last()[i] == record;
                    assert(acted[i] == record);
                }
            } else if j < n - 1 {
                assert(steps[j] == blk[j - (n - k - 1)]);
            }
        }
    }
}

proof fn lemma_step_extend(
    acc: Seq<SweepStep>,
    blk: Seq<SweepStep>,
    last: SweepStep,
    done: Seq<RecordView>,
    r: RecordView,
    k: int,
    now: int,
)
    requires
        k >= 0,
        sweep_steps(acc, done, k, now),
        hooks_on(blk, r, k),
        last == final_step(r, now),
    ensures
        sweep_steps(acc + blk + seq![last], done.push(r), k, now),
        failures_in(acc + blk + seq![last]) == failures_in(acc) + failures_in(blk),
{
    let s = acc + blk + seq![last];
    let n = s.len();
    assert(s.take(n - k - 1) =~= acc);
    assert(s.subrange(n - k - 1, n - 1) =~= blk);
    assert(s[n - 1] == last);
    assert(done.push(r).drop_last() =~= done);
    lemma_failures_append(acc, blk);
    assert(s.drop_last() =~= acc + blk);
}

/// A sweep without hooks reports no hook failures.
pub proof fn lemma_no_hooks_no_failures(steps: Seq<SweepStep>, acted: Seq<RecordView>, now: int)
    requires
        sweep_steps(steps, acted, 0, now),
    ensures
        failures_in(steps).len() == 0,
    decreases acted.len(),
{
    if acted.len() > 0 {
        let n = steps.len();
        lemma_no_hooks_no_failures(steps.take(n - 1), acted.drop_last(), now);
        assert(steps.drop_last() =~= steps.take(n - 1));
    }
}

impl SweepReport {
    /// Total records the sweep acted on.
    pub fn acted_on(&self) -> (n: usize)
        requires
            self.purged@.len() + self.archived@.len() <= usize::MAX,
        ensures
            n == self.purged@.len() + self.archived@.len(),
    {
        self.purged.len() + self.archived.len()
    }
}

impl Default for SweepReport {
    fn default() -> (r: Self)
        ensures
            r.purged@.len() == 0,
            r.archived@.len() == 0,
            r.skipped == 0,
            r.hook_failures@.len() == 0,
    {
        SweepReport { purged: Vec::new(), archived: Vec::new(), skipped: 0, hook_failures: Vec::new() }
    }
}

/// What a sweep does with one record.
#[derive(Clone, Copy, Debug, PartialEq, Eq, Structural)]
pub enum SweepAction {
    /// Nothing is due.
    Ignore,
    /// Remove from every representation.
    Purge,
    /// Flip to archived status, keeping the record addressable.
    Archive,
    /// Left alone by design, and counted.
    Skip,
}

/// The retention rules at `now`:
/// - no deadline: nothing due; permanent records still valid now are
///   counted as skipped;
/// - deadline still ahead: nothing due;
/// - ephemeral or session past expiry: purged;
/// - standard past expiry and the grace period, while active: archived;
///   already archived: counted as skipped;
/// - permanent: skipped.
pub open spec fn sweep_action_spec(r: RecordView, now: int) -> SweepAction {
    match r.retention.expires_at {
        None => if r.retention.class == RetentionClass::Permanent && record::valid_at(r, now) {
            SweepAction::Skip
        } else {
            SweepAction::Ignore
        },
        Some(e) => if e > now {
            SweepAction::Ignore
        } else {
            match r.retention.class {
                RetentionClass::Ephemeral | RetentionClass::Session => SweepAction::Purge,
                RetentionClass::Standard => if now >= e + ARCHIVE_GRACE_MS && r.status == MemoryStatus::Active {
                    SweepAction::Archive
                } else if r.status == MemoryStatus::Archived {
                    SweepAction::Skip
                } else {
                    SweepAction::Ignore
                },
                RetentionClass::Permanent => SweepAction::Skip,
            }
        },
    }
}

/// Decides what a sweep at `now` does with a record.
pub fn sweep_action(record: &MemoryRecord, now: i64) -> (a: SweepAction)
    ensures
        a == sweep_action_spec(record@, now as int),
{
    match record.retention.expires_at {
        None => {
            if record.retention.class == RetentionClass::Permanent && record.is_valid_at(now) {
                SweepAction::Skip
            } else {
                SweepAction::Ignore
            }
        },
        Some(e) => {
            if e > now {
                return SweepAction::Ignore;
            }
            match record.retention.class {
                RetentionClass::Ephemeral | RetentionClass::Session => SweepAction::Purge,
                RetentionClass::Standard => {
                    let past_grace = e <= i64::MAX - ARCHIVE_GRACE_MS && now >= e + ARCHIVE_GRACE_MS;
                    if past_grace && record.status == MemoryStatus::Active {
                        SweepAction::Archive
                    } else if record.status == MemoryStatus::Archived {
                        SweepAction::Skip
                    } else {
                        SweepAction::Ignore
                    }
                },
                RetentionClass::Permanent => SweepAction::Skip,
            }
        },
    }
}

/// Retention only ever removes ephemeral or session records, only
/// archives standard records once their grace period has run out, and
/// never acts on a permanent record.
pub proof fn lemma_retention_classes(r: RecordView, now: int)
    ensures
        sweep_action_spec(r, now) == SweepAction::Purge ==> (r.retention.class == RetentionClass::Ephemeral
            || r.retention.class == RetentionClass::Session) && (r.retention.expires_at matches Some(e) && e
            <= now),
        sweep_action_spec(r, now) == SweepAction::Archive ==> r.retention.class == RetentionClass::Standard
            && (r.retention.expires_at matches Some(e) && e + ARCHIVE_GRACE_MS <= now) && r.status
            == MemoryStatus::Active,
        r.retention.class == RetentionClass::Permanent ==> !(sweep_action_spec(r, now) == SweepAction::Purge
            || sweep_action_spec(r, now) == SweepAction::Archive),
        r.retention.expires_at matches Some(e) && e > now ==> sweep_action_spec(r, now) == SweepAction::Ignore,
{
}

/// The archived form of a record at `now`.
pub open spec fn archived_at(r: RecordView, now: int) -> RecordView {
    RecordView { status: MemoryStatus::Archived, updated_at: now as i64, ..r }
}

/// The store after the sweep handles one candidate.
pub open spec fn sweep_step(rs: Seq<RecordView>, c: RecordView, scope: MemoryScope, now: int) -> Seq<RecordView> {
    match sweep_action_spec(c, now) {
        SweepAction::Purge => store::delete_spec(rs, c.id, scope),
        SweepAction::Archive => store::upsert_spec(rs, archived_at(c, now)),
        _ => rs,
    }
}

/// The store after the sweep handles the candidates in order.
pub open spec fn sweep_fold(rs: Seq<RecordView>, cands: Seq<RecordView>, scope: MemoryScope, now: int) -> Seq<RecordView>
    decreases cands.len(),
{
    if cands.len() == 0 {
        rs
    } else {
        sweep_step(sweep_fold(rs, cands.drop_last(), scope, now), cands.last(), scope, now)
    }
}

/// Ids of the candidates with the given action, in order.
pub open spec fn ids_with(cands: Seq<RecordView>, now: int, action: SweepAction) -> Seq<MemoryId>
    decreases cands.len(),
{
    if cands.len() == 0 {
        Seq::empty()
    } else {
        let r = ids_with(cands.drop_last(), now, action);
        if sweep_action_spec(cands.last(), now) == action {
            r.push(cands.last().id)
        } else {
            r
        }
    }
}

/// Graph edges after removing the evidence of each id in order.
pub open spec fn edges_without_all(edges: Seq<RelationView>, ids: Seq<MemoryId>) -> Seq<RelationView>
    decreases ids.len(),
{
    if ids.len() == 0 {
        edges
    } else {
        graph::edges_without(edges_without_all(edges, ids.drop_last()), ids.last())
    }
}

/// The query a sweep runs: every type and status in `scope`, up to a
/// thousand candidates.
pub open spec fn sweep_query(scope: MemoryScope) -> query::QueryView {
    query::QueryView {
        scope,
        memory_types: Seq::empty(),
        statuses: query::all_statuses(),
        subject: None,
        text: None,
        valid_at: None,
        limit: 1000,
    }
}

pub(crate) proof fn lemma_delete_others(rs: Seq<RecordView>, id: MemoryId, scope: MemoryScope)
    requires
        store::ids_unique(rs),
    ensures
        forall|other: MemoryId| other != id ==> #[trigger] store::stored_record(store::delete_spec(rs, id, scope), other)
            == store::stored_record(rs, other),
{
    store::lemma_delete_keeps_unique(rs, id, scope);
    let d = store::delete_spec(rs, id, scope);
    assert forall|other: MemoryId| other != id implies #[trigger] store::stored_record(d, other) == store::stored_record(
        rs,
        other,
    ) by {
        match store::position_of(rs, id) {
            Some(i) => {
                assert(rs[i].id == id);
                if scope::scope_contains(scope@, rs[i].scope@) {
                    if exists|k: int| 0 <= k < rs.len() && (#[trigger] rs[k]).id == other {
                        let k = choose|k: int| 0 <= k < rs.len() && (#[trigger] rs[k]).id == other;
                        store::lemma_position_unique(rs, other, k);
                        assert(k != i);
                        let k2 = if k < i { k } else { k - 1 };
                        assert(d[k2] == rs[k]);
                        store::lemma_position_unique(d, other, k2);
                    } else {
                        assert forall|k: int| 0 <= k < d.len() implies (#[trigger] d[k]).id != other by {
                            let k2 = if k < i { k } else { k + 1 };
                            assert(d[k] == rs[k2]);
                        }
                    }
                }
            },
            None => {},
        }
    }
}

pub(crate) proof fn lemma_matching_subseq_distinct(rs: Seq<RecordView>, q: query::QueryView, at: int)
    requires
        store::ids_unique(rs),
    ensures
        store::ids_unique(store::matching(rs, q, at)),
        forall|k: int|
            0 <= k < store::matching(rs, q, at).len() ==> store::stored_record(
                rs,
                #[trigger] store::matching(rs, q, at)[k].id,
            ) == Some(store::matching(rs, q, at)[k]),
    decreases rs.len(),
{
    if rs.len() > 0 {
        let p = rs.drop_last();
        assert(store::ids_unique(p)) by {
            assert forall|a: int, b: int| 0 <= a < p.len() && 0 <= b < p.len() && a != b implies (
            #[trigger] p[a]).id != (#[trigger] p[b]).id by {
                assert(p[a] == rs[a] && p[b] == rs[b]);
            }
        }
        lemma_matching_subseq_distinct(p, q, at);
        let m = store::matching(p, q, at);
        let full = store::matching(rs, q, at);
        let last = rs.last();
        assert forall|k: int| 0 <= k < m.len() implies #[trigger] m[k].id != last.id && store::stored_record(
            rs,
            m[k].id,
        ) == Some(m[k]) by {
            let i = store::position_of(p, m[k].id)->0;
            assert(p[i] == m[k]);
            assert(rs[i] == m[k]);
            assert(i != rs.len() - 1);
            assert(rs[rs.len() - 1] == last);
            store::lemma_position_unique(rs, m[k].id, i);
        }
        store::lemma_position_unique(rs, last.id, rs.len() - 1);
        assert forall|a: int, b: int| 0 <= a < full.len() && 0 <= b < full.len() && a != b implies (
        #[trigger] full[a]).id != (#[trigger] full[b]).id by {
            if a < m.len() && b < m.len() {
                assert(full[a] == m[a] && full[b] == m[b]);
            } else if a < m.len() {
                assert(full[a] == m[a]);
                assert(m[a].id != last.id);
            } else {
                assert(full[b] == m[b]);
                assert(m[b].id != last.id);
            }
        }
        assert forall|k: int| 0 <= k < full.len() implies store::stored_record(rs, #[trigger] full[k].id) == Some(
            full[k],
        ) by {
            if k < m.len() {
                assert(full[k] == m[k]);
                assert(m[k].id != last.id);
            }
        }
    }
}

pub(crate) proof fn lemma_skip_count(cands: Seq<RecordView>, now: int)
    ensures
        ids_with(cands, now, SweepAction::Skip).len() <= cands.len(),
    decreases cands.len(),
{
    if cands.len() > 0 {
        lemma_skip_count(cands.drop_last(), now);
    }
}

/// The representations a sweep keeps in step: the canonical store and,
/// when attached, the entity graph.
#[derive(Debug)]
pub struct LifecycleProviders {
    pub store: InMemoryStore,
    pub graph: Option<InMemoryGraphStore>,
}

impl LifecycleProviders {
    /// Both representations are well formed.
    pub open spec fn wf(&self) -> bool {
        &&& self.store.wf()
        &&& (self.graph matches Some(g) ==> g.wf())
    }

    /// The graph's edges after the same change, or no graph.
    pub open spec fn graph_follows(&self, before: Option<InMemoryGraphStore>, f: spec_fn(Seq<RelationView>) -> Seq<RelationView>) -> bool {
        match before {
            None => self.graph is None,
            Some(g) => self.graph matches Some(g2) && g2.edge_views() == f(g.edge_views()),
        }
    }
}

/// Runs retention sweeps across the providers; hooks observe every
/// record before it is archived or purged, and never fail a sweep.
pub struct RetentionSweeper<H> {
    providers: LifecycleProviders,
    hooks: Vec<H>,
    log: Ghost<Seq<SweepStep>>,
}

impl<H: ArchivalHook> RetentionSweeper<H> {
    /// The providers the sweeper works on.
    pub closed spec fn providers_view(&self) -> LifecycleProviders {
        self.providers
    }

    /// Number of registered hooks.
    pub closed spec fn hook_count(&self) -> nat {
        self.hooks@.len()
    }

    /// Everything this sweeper's sweeps have done, in order.
    pub closed spec fn steps(&self) -> Seq<SweepStep> {
        self.log@
    }

    /// A sweeper over the given providers, with no hooks.
    pub fn new(providers: LifecycleProviders) -> (s: Self)
        ensures
            s.providers_view() == providers,
            s.hook_count() == 0,
            s.steps().len() == 0,
    {
        RetentionSweeper { providers, hooks: Vec::new(), log: Ghost(Seq::empty()) }
    }

    /// Gives the providers back.
    pub fn into_providers(self) -> (p: LifecycleProviders)
        ensures
            p == self.providers_view(),
    {
        self.providers
    }

    /// Registers an archival hook.
    pub fn with_hook(self, hook: H) -> (s: Self)
        ensures
            s.providers_view() == self.providers_view(),
            s.hook_count() == self.hook_count() + 1,
            s.steps() == self.steps(),
    {
        let mut hooks = self.hooks;
        hooks.push(hook);
        RetentionSweeper { providers: self.providers, hooks, log: self.log }
    }

    /// Lets every hook observe `record`, in registration order; failures
    /// are collected and never stop the remaining hooks.
    fn run_hooks(&mut self, record: &MemoryRecord, failures: &mut Vec<HookFailure>)
        ensures
            final(self).providers_view() == old(self).providers_view(),
            final(self).hook_count() == old(self).hook_count(),
            final(self).steps().len() >= old(self).steps().len(),
            final(self).steps().take(old(self).steps().len() as int) == old(self).steps(),
            hooks_on(
                final(self).steps().skip(old(self).steps().len() as int),
                record@,
                old(self).hook_count() as int,
            ),
            failure_views(final(failures)@) == failure_views(old(failures)@) + failures_in(
                final(self).steps().skip(old(self).steps().len() as int),
            ),
    {
        let ghost s0 = self.log@;
        let ghost f0 = failure_views(failures@);
        let mut i: usize = 0;
        while i < self.hooks.len()
            invariant
                i <= self.hooks@.len(),
                self.hooks@.len() == old(self).hook_count(),
                self.providers == old(self).providers_view(),
                s0 == old(self).steps(),
                self.log@.len() == s0.len() + i,
                self.log@.take(s0.len() as int) == s0,
                forall|j: int| 0 <= j < i ==> is_hook_call(#[trigger] self.log@.skip(s0.len() as int)[j], j, record@),
                failure_views(failures@) == f0 + failures_in(self.log@.skip(s0.len() as int)),
            decreases self.hooks@.len() - i,
        {
            let res = self.hooks[i].on_archive(record);
            let ghost before = self.log@;
            let ghost step = SweepStep::Hook { hook: i, record: record@, outcome: res };
            proof {
                self.log@ = self.log@.push(step);
                assert(self.log@.skip(s0.len() as int) =~= before.skip(s0.len() as int).push(step));
                assert(self.log@.take(s0.len() as int) =~= before.take(s0.len() as int));
                assert(self.log@.skip(s0.len() as int).drop_last() =~= before.skip(s0.len() as int));
            }
            match res {
                Ok(_) => {},
                Err(e) => {
                    let ghost fv = failure_views(failures@);
                    failures.push(HookFailure { record_id: record.id, hook: i, error: e });
                    assert(failure_views(failures@) =~= fv.push((record.id, i, e)));
                },
            }
            i = i + 1;
        }
    }

    /// Deletes one memory from every representation at once: the graph
    /// edges it justifies first, the canonical row last, so an
    /// interrupted deletion can strand an edge but never leave a row
    /// pointing at nothing. A record invisible from `scope` stays.
    pub fn coordinate_delete(&mut self, id: &MemoryId, scope: &MemoryScope) -> (r: MemoryResult<()>)
        requires
            old(self).providers_view().wf(),
        ensures
            r is Ok,
            final(self).providers_view().wf(),
            final(self).hook_count() == old(self).hook_count(),
            final(self).steps() == old(self).steps(),
            final(self).providers_view().store.records() == store::delete_spec(old(self).providers_view().store.records(), *id, *scope),
            final(self).providers_view().graph_follows(
                old(self).providers_view().graph,
                |e: Seq<RelationView>| graph::edges_without(e, *id),
            ),
    {
        if let Some(g) = &mut self.providers.graph {
            match g.remove_evidence(id) {
                Ok(_) => {},
                Err(e) => return Err(e),
            }
        }
        self.providers.store.delete(id, scope)
    }

    /// Sweeps the records of `scope` at `now` (every type and status, up
    /// to a thousand): ephemeral and session records past expiry are
    /// purged everywhere; standard records past expiry and the grace
    /// period are archived, kept addressable; permanent records are never
    /// touched. Returns what was done.
    pub fn sweep(&mut self, scope: &MemoryScope, now: i64) -> (r: MemoryResult<SweepReport>)
        requires
            old(self).providers_view().wf(),
        ensures
            final(self).providers_view().wf(),
            final(self).hook_count() == old(self).hook_count(),
            final(self).steps().len() >= old(self).steps().len(),
            final(self).steps().take(old(self).steps().len() as int) == old(self).steps(),
            r matches Ok(report) && ({
                let cands = store::query_spec(old(self).providers_view().store.records(), sweep_query(*scope), now as int);
                let purged = ids_with(cands, now as int, SweepAction::Purge);
                let done = final(self).steps().skip(old(self).steps().len() as int);
                &&& sweep_steps(done, acted(cands, now as int), old(self).hook_count() as int, now as int)
                &&& failure_views(report.hook_failures@) == failures_in(done)
                &&& final(self).providers_view().store.records() == sweep_fold(old(self).providers_view().store.records(), cands, *scope, now as int)
                &&& report.purged@ == purged
                &&& report.archived@ == ids_with(cands, now as int, SweepAction::Archive)
                &&& report.skipped == ids_with(cands, now as int, SweepAction::Skip).len()
                &&& final(self).providers_view().graph_follows(
                    old(self).providers_view().graph,
                    |e: Seq<RelationView>| edges_without_all(e, purged),
                )
            }),
    {
        let query = MemoryQuery {
            scope: scope.clone(),
            memory_types: Vec::new(),
            statuses: query::all_statuses_vec(),
            subject: None,
            text: None,
            valid_at: None,
            limit: 1000,
        };
        let ghost rs0 = self.providers.store.records();
        let ghost g0 = self.providers.graph;
        let ghost log0 = self.log@;
        let ghost k = self.hooks@.len() as int;
        let candidates = match self.providers.store.query_at(&query, now) {
            Ok(hits) => hits,
            Err(e) => return Err(e),
        };
        let ghost cands = store::record_views(candidates@);
        assert(query@ =~= sweep_query(*scope));
        assert(cands.len() <= 1000);
        proof {
            lemma_matching_subseq_distinct(rs0, query@, now as int);
            let m = store::matching(rs0, query@, now as int);
            if m.len() > 1000 {
                assert forall|a: int, b: int| 0 <= a < cands.len() && 0 <= b < cands.len() && a != b implies (
                #[trigger] cands[a]).id != (#[trigger] cands[b]).id by {
                    assert(cands[a] == m[a] && cands[b] == m[b]);
                }
                assert forall|k: int| 0 <= k < cands.len() implies store::stored_record(rs0, #[trigger] cands[k].id)
                    == Some(cands[k]) by {
                    assert(cands[k] == m[k]);
                }
            }
        }
        let mut report = SweepReport::default();
        let mut i: usize = 0;
        while i < candidates.len()
            invariant
                i <= candidates@.len(),
                candidates@.len() <= 1000,
                cands == store::record_views(candidates@),
                store::ids_unique(cands),
                self.providers.wf(),
                self.hook_count() == old(self).hook_count(),
                k == old(self).hook_count(),
                log0 == old(self).steps(),
                self.log@.len() >= log0.len(),
                self.log@.take(log0.len() as int) == log0,
                sweep_steps(self.log@.skip(log0.len() as int), acted(cands.take(i as int), now as int), k, now as int),
                failure_views(report.hook_failures@) == failures_in(self.log@.skip(log0.len() as int)),
                g0 == old(self).providers_view().graph,
                self.providers.store.records() == sweep_fold(rs0, cands.take(i as int), *scope, now as int),
                forall|j: int| i <= j < cands.len() ==> store::stored_record(self.providers.store.records(), #[trigger] cands[j].id)
                    == Some(cands[j]),
                report.purged@ == ids_with(cands.take(i as int), now as int, SweepAction::Purge),
                report.archived@ == ids_with(cands.take(i as int), now as int, SweepAction::Archive),
                report.skipped == ids_with(cands.take(i as int), now as int, SweepAction::Skip).len(),
                report.skipped <= i,
                match g0 {
                    None => self.providers.graph is None,
                    Some(g) => self.providers.graph matches Some(g2) && g2.edge_views() == edges_without_all(
                        g.edge_views(),
                        ids_with(cands.take(i as int), now as int, SweepAction::Purge),
                    ),
                },
            decreases candidates@.len() - i,
        {
            let c = &candidates[i];
            let ghost pre = cands.take(i as int);
            let ghost post = cands.take(i + 1);
            assert(post.drop_last() =~= pre);
            assert(post.last() == c@);
            assert(cands[i as int] == c@);
            let ghost before = self.providers.store.records();
            let ghost acc0 = self.log@.skip(log0.len() as int);
            proof {
                lemma_skip_count(pre, now as int);
                assert(self.log@ =~= log0 + acc0);
            }
            match sweep_action(c, now) {
                SweepAction::Purge => {
                    proof {
                        lemma_delete_others(before, c.id, *scope);
                        assert forall|j: int| i + 1 <= j < cands.len() implies cands[j].id != c.id by {
                            assert(cands[j].id != cands[i as int].id);
                        }
                    }
                    self.run_hooks(c, &mut report.hook_failures);
                    let ghost blk = self.log@.skip((log0.len() + acc0.len()) as int);
                    proof {
                        assert(self.log@ =~= log0 + acc0 + blk);
                    }
                    match self.coordinate_delete(&c.id, scope) {
                        Ok(_) => {},
                        Err(e) => return Err(e),
                    }
                    proof {
                        let last = SweepStep::Purged(c.id);
                        self.log@ = self.log@.push(last);
                        lemma_step_extend(acc0, blk, last, acted(pre, now as int), c@, k, now as int);
                        assert(self.log@.skip(log0.len() as int) =~= acc0 + blk + seq![last]);
                        assert(self.log@.take(log0.len() as int) =~= log0);
                    }
                    report.purged.push(c.id);
                    assert(ids_with(post, now as int, SweepAction::Purge) == ids_with(
                        pre,
                        now as int,
                        SweepAction::Purge,
                    ).push(c.id));
                    assert(ids_with(post, now as int, SweepAction::Purge).drop_last()
                        =~= ids_with(pre, now as int, SweepAction::Purge));
                },
                SweepAction::Archive => {
                    self.run_hooks(c, &mut report.hook_failures);
                    let ghost blk = self.log@.skip((log0.len() + acc0.len()) as int);
                    proof {
                        assert(self.log@ =~= log0 + acc0 + blk);
                    }
                    let mut archived = c.clone();
                    archived.status = MemoryStatus::Archived;
                    archived.updated_at = now;
                    proof {
                        store::lemma_upsert_stores(before, archived@);
                        assert forall|j: int| i + 1 <= j < cands.len() implies cands[j].id != c.id by {
                            assert(cands[j].id != cands[i as int].id);
                        }
                    }
                    match self.providers.store.update(&archived) {
                        Ok(_) => {},
                        Err(e) => return Err(e),
                    }
                    proof {
                        let last = SweepStep::Archived(c.id);
                        self.log@ = self.log@.push(last);
                        lemma_step_extend(acc0, blk, last, acted(pre, now as int), c@, k, now as int);
                        assert(self.log@.skip(log0.len() as int) =~= acc0 + blk + seq![last]);
                        assert(self.log@.take(log0.len() as int) =~= log0);
                    }
                    report.archived.push(c.id);
                },
                SweepAction::Skip => {
                    report.skipped = report.skipped + 1;
                },
                SweepAction::Ignore => {},
            }
            i = i + 1;
        }
        assert(cands.take(candidates@.len() as int) =~= cands);
        Ok(report)
    }
}

/// Observed when a record is archived or purged. Implementations might
/// ship copies to object storage, forward them to compliance pipelines,
/// or simply log; a hook's error is dropped and never aborts a sweep.
pub trait ArchivalHook {
    /// Name for logs.
    fn name(&self) -> &str;

    /// Called before an archived or purged record leaves default
    /// retrieval.
    fn on_archive(&self, record: &MemoryRecord) -> MemoryResult<()>;
}

/// Trivial logging hook, which succeeds for every record.
#[derive(Debug)]
pub struct LogArchiveHook;

impl ArchivalHook for LogArchiveHook {
    fn name(&self) -> (n: &str)
        ensures
            n@ == "log"@,
    {
        "log"
    }

    fn on_archive(&self, record: &MemoryRecord) -> (r: MemoryResult<()>)
        ensures
            r is Ok,
    {
        Ok(())
    }
}

} // verus!
