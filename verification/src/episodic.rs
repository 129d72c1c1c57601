//! Episodic memory: what happened, when, and how it went.
//!
//! Episodes are first-class records of agent experience (action,
//! outcome, feedback, trajectory) linked to canonical memories as
//! evidence. The store keeps and retrieves episodes; it does not
//! interpret them.
use crate::error::{self, MemoryError, MemoryResult};
use crate::id::MemoryId;
use crate::prospective;
use crate::scope::{self, MemoryScope, ScopeView};
use crate::subject;
use crate::temporal;
use crate::text;
use vstd::prelude::*;
use vstd::string::*;

verus! {

/// One lived experience of the agent. Times are milliseconds since the
/// Unix epoch.
#[derive(Debug, PartialEq, Eq)]
pub struct Episode {
    pub id: MemoryId,
    pub scope: MemoryScope,
    /// When the event happened in the world (not when recorded).
    pub event_time: i64,
    /// What the agent did.
    pub action: String,
    /// What happened as a result.
    pub outcome: String,
    /// Did the action achieve its goal?
    pub success: bool,
    /// Human or system feedback attached to the episode.
    pub feedback: Option<String>,
    /// Compressed multi-step story for long trajectories.
    pub trajectory_summary: Option<String>,
    /// Canonical memories cited as evidence.
    pub evidence_refs: Vec<MemoryId>,
    /// Wall-clock duration of the action, milliseconds.
    pub duration_ms: Option<u64>,
    pub recorded_at: i64,
}

/// Mathematical view of an episode.
pub struct EpisodeView {
    pub id: MemoryId,
    pub scope: ScopeView,
    pub event_time: i64,
    pub action: Seq<char>,
    pub outcome: Seq<char>,
    pub success: bool,
    pub feedback: Option<Seq<char>>,
    pub trajectory_summary: Option<Seq<char>>,
    pub evidence_refs: Seq<MemoryId>,
    pub duration_ms: Option<u64>,
    pub recorded_at: i64,
}

impl View for Episode {
    type V = EpisodeView;

    open spec fn view(&self) -> EpisodeView {
        EpisodeView {
            id: self.id,
            scope: self.scope@,
            event_time: self.event_time,
            action: self.action@,
            outcome: self.outcome@,
            success: self.success,
            feedback: subject::opt_seq(self.feedback),
            trajectory_summary: subject::opt_seq(self.trajectory_summary),
            evidence_refs: self.evidence_refs@,
            duration_ms: self.duration_ms,
            recorded_at: self.recorded_at,
        }
    }
}

impl Clone for Episode {
    fn clone(&self) -> (r: Self)
        ensures
            r@ == self@,
    {
        Episode {
            id: self.id,
            scope: self.scope.clone(),
            event_time: self.event_time,
            action: self.action.clone(),
            outcome: self.outcome.clone(),
            success: self.success,
            feedback: subject::clone_opt_string(&self.feedback),
            trajectory_summary: subject::clone_opt_string(&self.trajectory_summary),
            evidence_refs: prospective::clone_ids(&self.evidence_refs),
            duration_ms: self.duration_ms,
            recorded_at: self.recorded_at,
        }
    }
}

impl Episode {
    /// Starts a builder for a new successful episode with a fresh id,
    /// stamped now, in the unrestricted scope.
    pub fn builder(action: &str, outcome: &str) -> (b: EpisodeBuilder)
        ensures
            b.draft().action == action@,
            b.draft().outcome == outcome@,
            b.draft().success,
            b.draft().feedback is None,
            b.draft().trajectory_summary is None,
            b.draft().evidence_refs.len() == 0,
            b.draft().duration_ms is None,
            scope::scope_is_empty(b.draft().scope),
            b.draft().event_time == b.draft().recorded_at,
    {
        let now = temporal::now_millis();
        EpisodeBuilder {
            episode: Episode {
                id: MemoryId::generate(),
                scope: MemoryScope::empty(),
                event_time: now,
                action: String::from_str(action),
                outcome: String::from_str(outcome),
                success: true,
                feedback: None,
                trajectory_summary: None,
                evidence_refs: Vec::new(),
                duration_ms: None,
                recorded_at: now,
            },
        }
    }

    /// True when this episode cites `memory_id` as evidence.
    pub fn cites(&self, memory_id: &MemoryId) -> (b: bool)
        ensures
            b == self.evidence_refs@.contains(*memory_id),
    {
        let mut i: usize = 0;
        while i < self.evidence_refs.len()
            invariant
                i <= self.evidence_refs@.len(),
                forall|k: int| 0 <= k < i ==> self.evidence_refs@[k] != *memory_id,
            decreases self.evidence_refs@.len() - i,
        {
            if self.evidence_refs[i] == *memory_id {
                assert(self.evidence_refs@[i as int] == *memory_id);
                return true;
            }
            i = i + 1;
        }
        false
    }
}

/// Fluent builder for [`Episode`].
#[derive(Debug)]
pub struct EpisodeBuilder {
    episode: Episode,
}

impl EpisodeBuilder {
    /// The episode under construction.
    pub closed spec fn draft(&self) -> EpisodeView {
        self.episode@
    }

    /// Pins when the event happened (as opposed to when it was recorded).
    pub fn at(self, event_time: i64) -> (b: Self)
        ensures
            b.draft() == (EpisodeView { event_time, ..self.draft() }),
    {
        let mut e = self.episode;
        e.event_time = event_time;
        EpisodeBuilder { episode: e }
    }

    /// Marks failure.
    pub fn failed(self) -> (b: Self)
        ensures
            b.draft() == (EpisodeView { success: false, ..self.draft() }),
    {
        let mut e = self.episode;
        e.success = false;
        EpisodeBuilder { episode: e }
    }

    /// Attaches feedback.
    pub fn with_feedback(self, feedback: &str) -> (b: Self)
        ensures
            b.draft() == (EpisodeView { feedback: Some(feedback@), ..self.draft() }),
    {
        let mut e = self.episode;
        e.feedback = Some(String::from_str(feedback));
        EpisodeBuilder { episode: e }
    }

    /// Attaches a trajectory summary for multi-step work.
    pub fn with_trajectory(self, summary: &str) -> (b: Self)
        ensures
            b.draft() == (EpisodeView { trajectory_summary: Some(summary@), ..self.draft() }),
    {
        let mut e = self.episode;
        e.trajectory_summary = Some(String::from_str(summary));
        EpisodeBuilder { episode: e }
    }

    /// Cites canonical memories as evidence, after those already cited.
    pub fn citing(self, refs: Vec<MemoryId>) -> (b: Self)
        ensures
            b.draft() == (EpisodeView { evidence_refs: self.draft().evidence_refs + refs@, ..self.draft() }),
    {
        let mut e = self.episode;
        let ghost before = e@;
        let mut i: usize = 0;
        while i < refs.len()
            invariant
                i <= refs@.len(),
                e@ == (EpisodeView { evidence_refs: before.evidence_refs + refs@.subrange(0, i as int), ..before }),
            decreases refs@.len() - i,
        {
            e.evidence_refs.push(refs[i]);
            assert(before.evidence_refs + refs@.subrange(0, i + 1) =~= (before.evidence_refs + refs@.subrange(
                0,
                i as int,
            )).push(refs@[i as int]));
            i = i + 1;
        }
        assert(refs@.subrange(0, refs@.len() as int) =~= refs@);
        EpisodeBuilder { episode: e }
    }

    /// Sets the duration.
    pub fn lasting_ms(self, ms: u64) -> (b: Self)
        ensures
            b.draft() == (EpisodeView { duration_ms: Some(ms), ..self.draft() }),
    {
        let mut e = self.episode;
        e.duration_ms = Some(ms);
        EpisodeBuilder { episode: e }
    }

    /// Sets the scope.
    pub fn with_scope(self, scope: MemoryScope) -> (b: Self)
        ensures
            b.draft() == (EpisodeView { scope: scope@, ..self.draft() }),
    {
        let mut e = self.episode;
        e.scope = scope;
        EpisodeBuilder { episode: e }
    }

    /// Finishes construction.
    pub fn build(self) -> (e: Episode)
        ensures
            e@ == self.draft(),
    {
        self.episode
    }
}

/// Filter for episode retrieval.
#[derive(Debug)]
pub struct EpisodeQuery {
    /// Scope partition; pinned dimensions must match.
    pub scope: MemoryScope,
    /// Events at or after this instant.
    pub from: Option<i64>,
    /// Events before this instant.
    pub to: Option<i64>,
    /// Only successes or only failures; None means both.
    pub success: Option<bool>,
    /// Only episodes citing this canonical memory as evidence.
    pub citing_evidence: Option<MemoryId>,
    /// Maximum results, newest first; 0 means no limit.
    pub limit: u32,
}

impl Default for EpisodeQuery {
    fn default() -> (q: Self)
        ensures
            scope::scope_is_empty(q.scope@),
            q.from is None,
            q.to is None,
            q.success is None,
            q.citing_evidence is None,
            q.limit == 0,
    {
        EpisodeQuery {
            scope: MemoryScope::empty(),
            from: None,
            to: None,
            success: None,
            citing_evidence: None,
            limit: 0,
        }
    }
}

/// The episode passes every filter of the query.
pub open spec fn episode_matches(q: EpisodeQuery, e: EpisodeView) -> bool {
    &&& scope::scope_contains(q.scope@, e.scope)
    &&& (q.from matches Some(f) ==> f <= e.event_time)
    &&& (q.to matches Some(t) ==> e.event_time < t)
    &&& (q.success matches Some(s) ==> e.success == s)
    &&& (q.citing_evidence matches Some(id) ==> e.evidence_refs.contains(id))
}

/// The episodes that pass the query, in storage order.
pub open spec fn matching(eps: Seq<EpisodeView>, q: EpisodeQuery) -> Seq<EpisodeView>
    decreases eps.len(),
{
    if eps.len() == 0 {
        Seq::empty()
    } else {
        let r = matching(eps.drop_last(), q);
        if episode_matches(q, eps.last()) {
            r.push(eps.last())
        } else {
            r
        }
    }
}

/// Inserts `e` into a newest-first sequence, after every episode at
/// least as recent.
pub open spec fn insert_newest_first(s: Seq<EpisodeView>, e: EpisodeView) -> Seq<EpisodeView>
    decreases s.len(),
{
    if s.len() == 0 {
        seq![e]
    } else if s[0].event_time < e.event_time {
        seq![e] + s
    } else {
        seq![s[0]] + insert_newest_first(s.drop_first(), e)
    }
}

/// Stable newest-first ordering by event time: equal times keep their
/// storage order.
pub open spec fn newest_first(s: Seq<EpisodeView>) -> Seq<EpisodeView>
    decreases s.len(),
{
    if s.len() == 0 {
        Seq::empty()
    } else {
        insert_newest_first(newest_first(s.drop_last()), s.last())
    }
}

/// What a query returns: the matching episodes newest first, cut to
/// the limit when one is set.
pub open spec fn query_spec(eps: Seq<EpisodeView>, q: EpisodeQuery) -> Seq<EpisodeView> {
    let sorted = newest_first(matching(eps, q));
    if q.limit > 0 && sorted.len() > q.limit {
        sorted.take(q.limit as int)
    } else {
        sorted
    }
}

/// Position of the episode with `id`, if stored.
pub open spec fn position_of(eps: Seq<EpisodeView>, id: MemoryId) -> Option<int> {
    if exists|i: int| 0 <= i < eps.len() && (#[trigger] eps[i]).id == id {
        Some(choose|i: int| 0 <= i < eps.len() && (#[trigger] eps[i]).id == id)
    } else {
        None
    }
}

/// Appending replaces the episode with the same id, or adds it.
pub open spec fn append_spec(eps: Seq<EpisodeView>, e: EpisodeView) -> Seq<EpisodeView> {
    match position_of(eps, e.id) {
        Some(i) => eps.update(i, e),
        None => eps.push(e),
    }
}

/// The episode with `id`, if it is stored and visible from `scope`.
pub open spec fn get_spec(eps: Seq<EpisodeView>, id: MemoryId, scope: ScopeView) -> Option<EpisodeView> {
    match position_of(eps, id) {
        Some(i) => if scope::scope_contains(scope, eps[i].scope) {
            Some(eps[i])
        } else {
            None
        },
        None => None,
    }
}

/// Purging removes the episode with `id` when it is visible from
/// `scope`; an invisible episode stays invisible and untouched.
pub open spec fn purge_spec(eps: Seq<EpisodeView>, id: MemoryId, scope: ScopeView) -> Seq<EpisodeView> {
    match position_of(eps, id) {
        Some(i) => if scope::scope_contains(scope, eps[i].scope) {
            eps.remove(i)
        } else {
            eps
        },
        None => eps,
    }
}

/// No two stored episodes share an id.
pub open spec fn ids_unique(eps: Seq<EpisodeView>) -> bool {
    forall|i: int, j: int|
        0 <= i < eps.len() && 0 <= j < eps.len() && i != j ==> (#[trigger] eps[i]).id != (#[trigger] eps[j]).id
}

/// Views of a sequence of episodes.
pub open spec fn episode_views(v: Seq<Episode>) -> Seq<EpisodeView> {
    v.map_values(|e: Episode| e@)
}

/// Embedded episode store, one episode per id, in insertion order.
#[derive(Debug)]
pub struct InMemoryEpisodeStore {
    episodes: Vec<Episode>,
}

proof fn lemma_position_unique(eps: Seq<EpisodeView>, id: MemoryId, i: int)
    requires
        ids_unique(eps),
        0 <= i < eps.len(),
        eps[i].id == id,
    ensures
        position_of(eps, id) == Some(i),
{
}

proof fn lemma_insert_newest_first_at(s: Seq<EpisodeView>, e: EpisodeView, k: int)
    requires
        0 <= k <= s.len(),
        forall|j: int| 0 <= j < k ==> (#[trigger] s[j]).event_time >= e.event_time,
        k == s.len() || s[k].event_time < e.event_time,
    ensures
        insert_newest_first(s, e) == s.insert(k, e),
    decreases s.len(),
{
    if s.len() == 0 {
        assert(s.insert(k, e) =~= seq![e]);
    } else if k == 0 {
        assert(s.insert(0, e) =~= seq![e] + s);
    } else {
        let t = s.drop_first();
        assert forall|j: int| 0 <= j < k - 1 implies (#[trigger] t[j]).event_time >= e.event_time by {
            assert(t[j] == s[j + 1]);
        }
        lemma_insert_newest_first_at(t, e, k - 1);
        assert(seq![s[0]] + t.insert(k - 1, e) =~= s.insert(k, e));
    }
}

impl InMemoryEpisodeStore {
    /// The stored episodes, in insertion order.
    pub closed spec fn stored(&self) -> Seq<EpisodeView> {
        episode_views(self.episodes@)
    }

    /// Episode ids are unique.
    pub open spec fn wf(&self) -> bool {
        ids_unique(self.stored())
    }

    /// An empty store.
    pub fn new() -> (s: Self)
        ensures
            s.wf(),
            s.stored().len() == 0,
    {
        let s = InMemoryEpisodeStore { episodes: Vec::new() };
        assert(s.stored() =~= Seq::empty());
        s
    }

    /// Provider name for logs.
    pub fn name(&self) -> (n: &'static str)
        ensures
            n@ == "in-memory"@,
    {
        "in-memory"
    }

    /// Number of stored episodes.
    pub fn len(&self) -> (n: usize)
        ensures
            n == self.stored().len(),
    {
        self.episodes.len()
    }

    /// True when nothing is stored.
    pub fn is_empty(&self) -> (b: bool)
        ensures
            b == (self.stored().len() == 0),
    {
        self.episodes.len() == 0
    }

    fn find(&self, id: &MemoryId) -> (r: Option<usize>)
        requires
            self.wf(),
        ensures
            match r {
                Some(i) => i < self.stored().len() && position_of(self.stored(), *id) == Some(i as int),
                None => position_of(self.stored(), *id) is None,
            },
    {
        let ghost st = self.stored();
        let mut i: usize = 0;
        while i < self.episodes.len()
            invariant
                i <= self.episodes@.len(),
                st == episode_views(self.episodes@),
                ids_unique(st),
                forall|k: int| 0 <= k < i ==> (#[trigger] st[k]).id != *id,
            decreases self.episodes@.len() - i,
        {
            assert(st[i as int] == self.episodes@[i as int]@);
            if self.episodes[i].id == *id {
                proof {
                    lemma_position_unique(st, *id, i as int);
                }
                return Some(i);
            }
            i = i + 1;
        }
        None
    }

    /// Appends an episode; an episode with the same id is replaced. An
    /// episode with a blank action or outcome is refused.
    pub fn append(&mut self, episode: &Episode) -> (r: MemoryResult<()>)
        requires
            old(self).wf(),
        ensures
            final(self).wf(),
            (text::blank_spec(episode.action@) || text::blank_spec(episode.outcome@)) ==> (r matches Err(e)
                && error::is_validation(e, "action/outcome"@, "must not be empty"@)) && final(self).stored()
                == old(self).stored(),
            !(text::blank_spec(episode.action@) || text::blank_spec(episode.outcome@)) ==> r is Ok
                && final(self).stored() == append_spec(old(self).stored(), episode@),
    {
        if text::is_blank(episode.action.as_str()) || text::is_blank(episode.outcome.as_str()) {
            return Err(MemoryError::validation("action/outcome", "must not be empty"));
        }
        let ghost before = self.stored();
        match self.find(&episode.id) {
            Some(i) => {
                self.episodes.set(i, episode.clone());
                assert(self.stored() =~= before.update(i as int, episode@));
                assert forall|a: int, b: int|
                    0 <= a < self.stored().len() && 0 <= b < self.stored().len() && a != b implies (
                    #[trigger] self.stored()[a]).id != (#[trigger] self.stored()[b]).id by {
                    if a != i && b != i {
                        assert(self.stored()[a] == before[a]);
                        assert(self.stored()[b] == before[b]);
                    } else if a == i {
                        assert(self.stored()[b] == before[b]);
                        assert(before[i as int].id == episode.id);
                    } else {
                        assert(self.stored()[a] == before[a]);
                        assert(before[i as int].id == episode.id);
                    }
                }
            },
            None => {
                self.episodes.push(episode.clone());
                assert(self.stored() =~= before.push(episode@));
                assert forall|a: int, b: int|
                    0 <= a < self.stored().len() && 0 <= b < self.stored().len() && a != b implies (
                    #[trigger] self.stored()[a]).id != (#[trigger] self.stored()[b]).id by {
                    if a < before.len() && b < before.len() {
                        assert(self.stored()[a] == before[a]);
                        assert(self.stored()[b] == before[b]);
                    } else if a < before.len() {
                        assert(self.stored()[a] == before[a]);
                    } else {
                        assert(self.stored()[b] == before[b]);
                    }
                }
            },
        }
        Ok(())
    }

    /// Fetches one episode by id, if it is visible from `scope`.
    pub fn get(&self, id: &MemoryId, scope: &MemoryScope) -> (r: MemoryResult<Option<Episode>>)
        requires
            self.wf(),
        ensures
            r matches Ok(o) && match o {
                Some(e) => get_spec(self.stored(), *id, scope@) == Some(e@),
                None => get_spec(self.stored(), *id, scope@) is None,
            },
    {
        match self.find(id) {
            Some(i) => {
                let e = &self.episodes[i];
                assert(self.stored()[i as int] == e@);
                if scope.contains(&e.scope) {
                    Ok(Some(e.clone()))
                } else {
                    Ok(None)
                }
            },
            None => Ok(None),
        }
    }

    /// Filtered listing, newest event first, cut to the query's limit.
    pub fn query(&self, q: &EpisodeQuery) -> (r: MemoryResult<Vec<Episode>>)
        ensures
            r matches Ok(v) && episode_views(v@) == query_spec(self.stored(), *q),
    {
        let ghost st = self.stored();
        let mut hits: Vec<Episode> = Vec::new();
        let mut i: usize = 0;
        while i < self.episodes.len()
            invariant
                i <= self.episodes@.len(),
                st == episode_views(self.episodes@),
                episode_views(hits@) == newest_first(matching(st.take(i as int), *q)),
            decreases self.episodes@.len() - i,
        {
            let e = &self.episodes[i];
            assert(st[i as int] == e@);
            assert(st.take(i + 1).drop_last() =~= st.take(i as int));
            let keep = scope_and_filters(q, e);
            let ghost m0 = matching(st.take(i as int), *q);
            assert(st.take(i + 1).last() == e@);
            if keep {
                assert(m0.push(e@).drop_last() =~= m0);
                assert(matching(st.take(i + 1), *q) == m0.push(e@));
                let ghost h0 = episode_views(hits@);
                let mut k: usize = 0;
                while k < hits.len() && hits[k].event_time >= e.event_time
                    invariant
                        k <= hits@.len(),
                        h0 == episode_views(hits@),
                        forall|j: int| 0 <= j < k ==> (#[trigger] h0[j]).event_time >= e.event_time,
                    decreases hits@.len() - k,
                {
                    assert(h0[k as int] == hits@[k as int]@);
                    k = k + 1;
                }
                proof {
                    if k < hits@.len() {
                        assert(h0[k as int] == hits@[k as int]@);
                    }
                    lemma_insert_newest_first_at(h0, e@, k as int);
                }
                hits.insert(k, e.clone());
                assert(episode_views(hits@) =~= h0.insert(k as int, e@));
            }
            i = i + 1;
        }
        assert(st.take(self.episodes@.len() as int) =~= st);
        if q.limit > 0 && hits.len() > q.limit as usize {
            let ghost h0 = episode_views(hits@);
            hits.truncate(q.limit as usize);
            assert(episode_views(hits@) =~= h0.take(q.limit as int));
        }
        Ok(hits)
    }

    /// Physical removal, reserved for lifecycle sweeps; an episode not
    /// visible from `scope` is left alone, and purging twice is the
    /// same as purging once.
    pub fn purge(&mut self, id: &MemoryId, scope: &MemoryScope) -> (r: MemoryResult<()>)
        requires
            old(self).wf(),
        ensures
            r is Ok,
            final(self).wf(),
            final(self).stored() == purge_spec(old(self).stored(), *id, scope@),
    {
        let ghost before = self.stored();
        match self.find(id) {
            Some(i) => {
                assert(before[i as int] == self.episodes@[i as int]@);
                if !scope.contains(&self.episodes[i].scope) {
                    return Ok(());
                }
                self.episodes.remove(i);
                assert(self.stored() =~= before.remove(i as int));
                assert forall|a: int, b: int|
                    0 <= a < self.stored().len() && 0 <= b < self.stored().len() && a != b implies (
                    #[trigger] self.stored()[a]).id != (#[trigger] self.stored()[b]).id by {
                    let a2 = if a < i { a } else { a + 1 };
                    let b2 = if b < i { b } else { b + 1 };
                    assert(self.stored()[a] == before[a2]);
                    assert(self.stored()[b] == before[b2]);
                }
            },
            None => {},
        }
        Ok(())
    }
}

fn scope_and_filters(q: &EpisodeQuery, e: &Episode) -> (b: bool)
    ensures
        b == episode_matches(*q, e@),
{
    if !q.scope.contains(&e.scope) {
        return false;
    }
    if let Some(from) = q.from {
        if e.event_time < from {
            return false;
        }
    }
    if let Some(to) = q.to {
        if e.event_time >= to {
            return false;
        }
    }
    if let Some(success) = q.success {
        if e.success != success {
            return false;
        }
    }
    if let Some(ref_id) = q.citing_evidence {
        if !e.cites(&ref_id) {
            return false;
        }
    }
    true
}

/// Newest first: event times never increase along the sequence.
pub open spec fn is_newest_first(s: Seq<EpisodeView>) -> bool {
    forall|i: int, j: int| 0 <= i < j < s.len() ==> (#[trigger] s[i]).event_time >= (#[trigger] s[j]).event_time
}

proof fn lemma_insert_keeps_order_and_members(s: Seq<EpisodeView>, e: EpisodeView)
    requires
        is_newest_first(s),
    ensures
        is_newest_first(insert_newest_first(s, e)),
        insert_newest_first(s, e).len() == s.len() + 1,
        forall|x: EpisodeView| #[trigger] insert_newest_first(s, e).contains(x) <==> (s.contains(x) || x == e),
    decreases s.len(),
{
    let r = insert_newest_first(s, e);
    if s.len() == 0 {
        assert(r =~= seq![e]);
        assert forall|x: EpisodeView| #[trigger] r.contains(x) <==> (s.contains(x) || x == e) by {
            if r.contains(x) {
                assert(r[0] == e);
            }
            if x == e {
                assert(r[0] == x);
            }
        }
    } else if s[0].event_time < e.event_time {
        assert forall|x: EpisodeView| #[trigger] r.contains(x) <==> (s.contains(x) || x == e) by {
            if r.contains(x) {
                let k = choose|k: int| 0 <= k < r.len() && r[k] == x;
                if k > 0 {
                    assert(s[k - 1] == x);
                }
            }
            if s.contains(x) {
                let k = choose|k: int| 0 <= k < s.len() && s[k] == x;
                assert(r[k + 1] == x);
            }
            if x == e {
                assert(r[0] == x);
            }
        }
        assert forall|i: int, j: int| 0 <= i < j < r.len() implies (#[trigger] r[i]).event_time >= (
        #[trigger] r[j]).event_time by {
            if i == 0 {
                assert(s[0].event_time >= s[j - 1].event_time || j - 1 == 0);
            } else {
                assert(r[i] == s[i - 1] && r[j] == s[j - 1]);
            }
        }
    } else {
        let t = s.drop_first();
        assert(is_newest_first(t)) by {
            assert forall|i: int, j: int| 0 <= i < j < t.len() implies (#[trigger] t[i]).event_time >= (
            #[trigger] t[j]).event_time by {
                assert(t[i] == s[i + 1] && t[j] == s[j + 1]);
            }
        }
        lemma_insert_keeps_order_and_members(t, e);
        let rt = insert_newest_first(t, e);
        assert(r == seq![s[0]] + rt);
        assert forall|x: EpisodeView| #[trigger] r.contains(x) <==> (s.contains(x) || x == e) by {
            if r.contains(x) {
                let k = choose|k: int| 0 <= k < r.len() && r[k] == x;
                if k == 0 {
                    assert(s[0] == x);
                } else {
                    assert(rt[k - 1] == x);
                    assert(rt.contains(x));
                    if t.contains(x) {
                        let m = choose|m: int| 0 <= m < t.len() && t[m] == x;
                        assert(s[m + 1] == x);
                    }
                }
            }
            if s.contains(x) {
                let k = choose|k: int| 0 <= k < s.len() && s[k] == x;
                if k == 0 {
                    assert(r[0] == x);
                } else {
                    assert(t[k - 1] == x);
                    assert(t.contains(x));
                    assert(rt.contains(x));
                    let m = choose|m: int| 0 <= m < rt.len() && rt[m] == x;
                    assert(r[m + 1] == x);
                }
            }
            if x == e {
                assert(rt.contains(e));
                let m = choose|m: int| 0 <= m < rt.len() && rt[m] == e;
                assert(r[m + 1] == x);
            }
        }
        assert forall|i: int, j: int| 0 <= i < j < r.len() implies (#[trigger] r[i]).event_time >= (
        #[trigger] r[j]).event_time by {
            if i == 0 {
                let x = rt[j - 1];
                assert(rt.contains(x));
                if t.contains(x) {
                    let m = choose|m: int| 0 <= m < t.len() && t[m] == x;
                    assert(s[m + 1] == x);
                }
            } else {
                assert(r[i] == rt[i - 1] && r[j] == rt[j - 1]);
            }
        }
    }
}

proof fn lemma_newest_first_order_and_members(s: Seq<EpisodeView>)
    ensures
        is_newest_first(newest_first(s)),
        newest_first(s).len() == s.len(),
        forall|x: EpisodeView| #[trigger] newest_first(s).contains(x) <==> s.contains(x),
    decreases s.len(),
{
    if s.len() > 0 {
        let p = s.drop_last();
        lemma_newest_first_order_and_members(p);
        lemma_insert_keeps_order_and_members(newest_first(p), s.last());
        assert forall|x: EpisodeView| #[trigger] newest_first(s).contains(x) <==> s.contains(x) by {
            if s.contains(x) && x != s.last() {
                let k = choose|k: int| 0 <= k < s.len() && s[k] == x;
                assert(p[k] == x);
            }
            if p.contains(x) {
                let k = choose|k: int| 0 <= k < p.len() && p[k] == x;
                assert(s[k] == x);
            }
            if x == s.last() {
                assert(s[s.len() - 1] == x);
            }
        }
    } else {
        assert(newest_first(s) =~= Seq::<EpisodeView>::empty());
    }
}

proof fn lemma_matching_members(eps: Seq<EpisodeView>, q: EpisodeQuery, x: EpisodeView)
    ensures
        matching(eps, q).contains(x) ==> eps.contains(x) && episode_matches(q, x),
    decreases eps.len(),
{
    if eps.len() > 0 {
        let p = eps.drop_last();
        lemma_matching_members(p, q, x);
        let m = matching(p, q);
        if matching(eps, q).contains(x) {
            if episode_matches(q, eps.last()) && x == eps.last() {
                assert(eps[eps.len() - 1] == x);
            } else {
                if episode_matches(q, eps.last()) {
                    let k = choose|k: int| 0 <= k < m.len() + 1 && m.push(eps.last())[k] == x;
                    assert(m[k] == x);
                }
                let k = choose|k: int| 0 <= k < p.len() && p[k] == x;
                assert(eps[k] == x);
            }
        }
    }
}

/// Query results come newest first, and each one is a stored episode
/// that passes every filter of the query.
pub proof fn lemma_query_newest_first_and_filtered(eps: Seq<EpisodeView>, q: EpisodeQuery)
    ensures
        is_newest_first(query_spec(eps, q)),
        forall|i: int|
            0 <= i < query_spec(eps, q).len() ==> eps.contains(#[trigger] query_spec(eps, q)[i])
                && episode_matches(q, query_spec(eps, q)[i]),
        q.limit > 0 ==> query_spec(eps, q).len() <= q.limit,
{
    let m = matching(eps, q);
    let sorted = newest_first(m);
    lemma_newest_first_order_and_members(m);
    let r = query_spec(eps, q);
    assert forall|i: int| 0 <= i < r.len() implies eps.contains(#[trigger] r[i]) && episode_matches(q, r[i]) by {
        assert(r[i] == sorted[i]);
        assert(sorted.contains(sorted[i]));
        lemma_matching_members(eps, q, sorted[i]);
    }
    assert forall|i: int, j: int| 0 <= i < j < r.len() implies (#[trigger] r[i]).event_time >= (
    #[trigger] r[j]).event_time by {
        assert(r[i] == sorted[i] && r[j] == sorted[j]);
    }
}

proof fn lemma_matching_complete(eps: Seq<EpisodeView>, q: EpisodeQuery, x: EpisodeView)
    ensures
        eps.contains(x) && episode_matches(q, x) ==> matching(eps, q).contains(x),
    decreases eps.len(),
{
    if eps.len() > 0 && eps.contains(x) && episode_matches(q, x) {
        let p = eps.drop_last();
        let m = matching(p, q);
        if x == eps.last() {
            assert(matching(eps, q) == m.push(x));
            assert(m.push(x)[m.len() as int] == x);
        } else {
            let k = choose|k: int| 0 <= k < eps.len() && eps[k] == x;
            assert(p[k] == x);
            lemma_matching_complete(p, q, x);
            let j = choose|j: int| 0 <= j < m.len() && m[j] == x;
            if episode_matches(q, eps.last()) {
                assert(m.push(eps.last())[j] == x);
            }
        }
    }
}

/// Every episode a query returns is a stored one inside the query's
/// scope, inside its time window (`from` inclusive, `to` exclusive),
/// with the requested outcome when one is asked for (only successes for
/// `Some(true)`, only failures for `Some(false)`), and citing the
/// requested evidence when one is named. Without a limit, every stored
/// episode that passes those filters is returned.
pub proof fn lemma_query_filters(eps: Seq<EpisodeView>, q: EpisodeQuery)
    ensures
        forall|i: int|
            #![trigger query_spec(eps, q)[i]]
            0 <= i < query_spec(eps, q).len() ==> {
                let e = query_spec(eps, q)[i];
                &&& eps.contains(e)
                &&& scope::scope_contains(q.scope@, e.scope)
                &&& (q.from matches Some(f) ==> f <= e.event_time)
                &&& (q.to matches Some(t) ==> e.event_time < t)
                &&& (q.success matches Some(s) ==> e.success == s)
                &&& (q.success == Some(true) ==> e.success)
                &&& (q.success == Some(false) ==> !e.success)
                &&& (q.citing_evidence matches Some(id) ==> e.evidence_refs.contains(id))
            },
        q.limit == 0 ==> forall|x: EpisodeView|
            eps.contains(x) && scope::scope_contains(q.scope@, x.scope) && (q.from matches Some(f)
                ==> f <= x.event_time) && (q.to matches Some(t) ==> x.event_time < t) && (
            q.success matches Some(s) ==> x.success == s) && (q.citing_evidence matches Some(id)
                ==> x.evidence_refs.contains(id)) ==> #[trigger] query_spec(eps, q).contains(x),
{
    lemma_query_newest_first_and_filtered(eps, q);
    if q.limit == 0 {
        let m = matching(eps, q);
        lemma_newest_first_order_and_members(m);
        assert forall|x: EpisodeView|
            eps.contains(x) && scope::scope_contains(q.scope@, x.scope) && (q.from matches Some(f)
                ==> f <= x.event_time) && (q.to matches Some(t) ==> x.event_time < t) && (
            q.success matches Some(s) ==> x.success == s) && (q.citing_evidence matches Some(id)
                ==> x.evidence_refs.contains(id)) implies #[trigger] query_spec(eps, q).contains(x) by {
            assert(episode_matches(q, x));
            lemma_matching_complete(eps, q, x);
            assert(newest_first(m).contains(x));
        }
    }
}

/// An appended episode is found again by id from any scope that
/// contains its own, and from no other scope.
pub proof fn lemma_append_then_get(eps: Seq<EpisodeView>, e: EpisodeView, scope: ScopeView)
    requires
        ids_unique(eps),
    ensures
        ids_unique(append_spec(eps, e)),
        get_spec(append_spec(eps, e), e.id, scope) == (if scope::scope_contains(scope, e.scope) {
            Some(e)
        } else {
            None
        }),
{
    let a = append_spec(eps, e);
    match position_of(eps, e.id) {
        Some(i) => {
            assert(eps[i].id == e.id);
            assert forall|x: int, y: int| 0 <= x < a.len() && 0 <= y < a.len() && x != y implies (
            #[trigger] a[x]).id != (#[trigger] a[y]).id by {
                if x != i && y != i {
                    assert(a[x] == eps[x] && a[y] == eps[y]);
                } else if x == i {
                    assert(a[y] == eps[y]);
                } else {
                    assert(a[x] == eps[x]);
                }
            }
            lemma_position_unique(a, e.id, i);
        },
        None => {
            assert forall|x: int, y: int| 0 <= x < a.len() && 0 <= y < a.len() && x != y implies (
            #[trigger] a[x]).id != (#[trigger] a[y]).id by {
                if x < eps.len() && y < eps.len() {
                    assert(a[x] == eps[x] && a[y] == eps[y]);
                } else if x < eps.len() {
                    assert(a[x] == eps[x]);
                    assert(eps[x].id != e.id);
                } else {
                    assert(a[y] == eps[y]);
                    assert(eps[y].id != e.id);
                }
            }
            lemma_position_unique(a, e.id, eps.len() as int);
        },
    }
}

/// Purging is idempotent, and a purge from a scope that cannot see the
/// episode changes nothing.
pub proof fn lemma_purge_idempotent(eps: Seq<EpisodeView>, id: MemoryId, scope: ScopeView)
    requires
        ids_unique(eps),
    ensures
        purge_spec(purge_spec(eps, id, scope), id, scope) == purge_spec(eps, id, scope),
        (get_spec(eps, id, scope) is None) ==> purge_spec(eps, id, scope) == eps,
{
    match position_of(eps, id) {
        Some(i) => {
            if scope::scope_contains(scope, eps[i].scope) {
                let r = eps.remove(i);
                assert forall|k: int| 0 <= k < r.len() implies (#[trigger] r[k]).id != id by {
                    let k2 = if k < i { k } else { k + 1 };
                    assert(r[k] == eps[k2]);
                }
                assert(position_of(r, id) is None);
            }
        },
        None => {},
    }
}

} // verus!
