//! The engine facade over the embedded providers.
//!
//! Every write goes through request validation; content is never
//! rewritten in place (updates derive successors), forgetting
//! tombstones, and purging physically removes.
use crate::audit::{AuditAction, AuditEvent, InMemoryAuditor};
use crate::authz::{self, Principal, ScopeAuthorizer};
use crate::config::{self, EngineConfig, StoreConfig, WorkingStoreConfig};
use crate::content::{self, MemoryContent, PayloadView};
use crate::episodic::{self, Episode, EpisodeQuery, InMemoryEpisodeStore};
use crate::error::{self, MemoryError, MemoryResult};
use crate::graph::InMemoryGraphStore;
use crate::graph;
use crate::id::MemoryId;
use crate::lifecycle;
use crate::procedural::{self, ProcedureMetadata, ProcedureState, ProcedureView};
use crate::prospective::{self, EffectiveGoalState, GoalMetadata, GoalMetadataView, GoalState, GoalView};
use crate::query::{self, MemoryQuery};
use crate::record::{self, MemoryRecord, RecordView};
use crate::requests::{self, RememberRequest, UpdateRequest};
use crate::scope::{self, MemoryScope, ScopeView};
use crate::store::{self, InMemoryStore};
use crate::taxonomy::{MemoryStatus, MemoryType};
use crate::temporal;
use crate::text;
use crate::working::{self, InProcessWorkingStore, WorkingMemoryState};
use vstd::prelude::*;
use vstd::string::*;

verus! {

/// High-level memory engine: the canonical store, working memory, and
/// the optional graph, episode store, authorizer and auditor.
#[derive(Debug)]
pub struct MemoryEngine {
    pub(crate) config: EngineConfig,
    pub(crate) store: InMemoryStore,
    pub(crate) working: InProcessWorkingStore,
    pub(crate) graph: Option<InMemoryGraphStore>,
    pub(crate) episodes: Option<InMemoryEpisodeStore>,
    pub(crate) authorizer: Option<ScopeAuthorizer>,
    pub(crate) auditor: Option<InMemoryAuditor>,
}

/// After a write, `session` holds `data` until `expires_at`, and every
/// other session reads as before.
pub open spec fn session_written(
    before: Seq<working::WorkingEntry>,
    after: Seq<working::WorkingEntry>,
    session: Seq<char>,
    data: Seq<char>,
    expires_at: int,
) -> bool {
    &&& forall|t: int| #[trigger] working::live_state(after, session, t) == (if t < expires_at {
        Some(data)
    } else {
        None::<Seq<char>>
    })
    &&& forall|s: Seq<char>, t: int| s != session ==> #[trigger] working::live_state(after, s, t)
        == working::live_state(before, s, t)
}

/// The graph after the edges justified by `id` are removed: no graph
/// stays no graph.
pub open spec fn graph_without(before: Option<InMemoryGraphStore>, after: Option<InMemoryGraphStore>, id: MemoryId) -> bool {
    match before {
        None => after is None,
        Some(g) => after matches Some(g2) && g2.edge_views() == graph::edges_without(g.edge_views(), id),
    }
}

/// The predecessor retired by an update at `now`.
pub open spec fn retired(r: RecordView, now: int) -> RecordView {
    RecordView { status: MemoryStatus::Superseded, updated_at: now as i64, ..r }
}

/// The record tombstoned by a forget at `now`.
pub open spec fn tombstoned(r: RecordView, now: int) -> RecordView {
    RecordView { status: MemoryStatus::Deleted, updated_at: now as i64, ..r }
}

/// `next` is the successor an update request derives from `prev`, with
/// identity `id`, stamped `now`: a fresh active version linked back to
/// `prev` that inherits its scope, type, subject and retention, with
/// the requested scores (clamped) or the inherited ones.
pub open spec fn updated_successor(next: RecordView, prev: RecordView, req: UpdateRequest, id: MemoryId, now: int) -> bool {
    &&& next.id == id
    &&& record::successor_of(
        RecordView { confidence: prev.confidence, importance: prev.importance, ..next },
        prev,
        req.content@,
        now,
    )
    &&& next.confidence == match req.confidence {
        Some(c) => record::clamp_score(c as int),
        None => prev.confidence,
    }
    &&& next.importance == match req.importance {
        Some(i) => record::clamp_score(i as int),
        None => prev.importance,
    }
}

/// Following `supersedes` links back from `r` through records visible
/// from `scope`, newest first, taking at most `fuel` steps.
pub open spec fn back_chain(rs: Seq<RecordView>, r: RecordView, scope: MemoryScope, fuel: nat) -> Seq<RecordView>
    decreases fuel,
{
    if fuel == 0 {
        seq![r]
    } else {
        match r.supersedes {
            None => seq![r],
            Some(p) => match store::get_spec(rs, p, scope) {
                None => seq![r],
                Some(q) => seq![r] + back_chain(rs, q, scope, (fuel - 1) as nat),
            },
        }
    }
}

/// The supersession chain ending at `id`, oldest first; it follows at
/// most as many links as there are stored records.
pub open spec fn history_spec(rs: Seq<RecordView>, id: MemoryId, scope: MemoryScope) -> Seq<RecordView> {
    match store::get_spec(rs, id, scope) {
        None => Seq::empty(),
        Some(tip) => back_chain(rs, tip, scope, rs.len()).reverse(),
    }
}

/// The smaller of the batch ceiling and the largest `u32`.
pub open spec fn batch_ceiling(config: EngineConfig) -> int {
    if config.limits.max_batch_size > u32::MAX {
        u32::MAX as int
    } else {
        config.limits.max_batch_size as int
    }
}

impl MemoryEngine {
    /// The records in the canonical store.
    pub closed spec fn records(&self) -> Seq<RecordView> {
        self.store.records()
    }

    /// The configuration the engine was assembled with.
    pub closed spec fn config_spec(&self) -> EngineConfig {
        self.config
    }

    /// The working-memory entries.
    pub closed spec fn working_entries(&self) -> Seq<working::WorkingEntry> {
        self.working.entries()
    }

    /// The attached episode store, if any.
    pub closed spec fn episode_store(&self) -> Option<InMemoryEpisodeStore> {
        self.episodes
    }

    /// The attached graph, if any.
    pub closed spec fn graph_store(&self) -> Option<InMemoryGraphStore> {
        self.graph
    }

    /// The events the attached auditor has collected, if any.
    pub closed spec fn audit_trail(&self) -> Option<Seq<AuditEvent>> {
        match self.auditor {
            Some(a) => Some(a.events@),
            None => None,
        }
    }

    /// Whether an authorizer filters reads.
    pub closed spec fn governed(&self) -> bool {
        self.authorizer is Some
    }

    /// Every attached component is well formed.
    pub closed spec fn wf(&self) -> bool {
        &&& self.store.wf()
        &&& self.working.wf()
        &&& (self.graph matches Some(g) ==> g.wf())
        &&& (self.episodes matches Some(e) ==> e.wf())
    }

    /// A well-formed engine stores each record id at most once, so the
    /// store laws (`lemma_forget_tombstones`, `lemma_update_keeps_history`,
    /// ...) apply to its records.
    pub proof fn lemma_wf_ids_unique(&self)
        requires
            self.wf(),
        ensures
            store::ids_unique(self.records()),
    {
    }

    /// Assembles an engine from configuration.
    ///
    /// The configuration must validate. The embedded library provides
    /// the in-process store and working memory; a file-backed store, a
    /// PostgreSQL store or a Redis working store is reported as
    /// unsupported.
    pub fn from_config(config: EngineConfig) -> (r: MemoryResult<Self>)
        ensures
            config::config_problem(config) matches Some(p) ==> (r matches Err(e) && error::is_validation(
                e,
                p.0,
                p.1,
            )),
            config::config_problem(config) is None && config.store is Memory && !(config.working matches Some(
                WorkingStoreConfig::Redis { .. },
            )) ==> (r matches Ok(engine) && engine.wf() && engine.records().len() == 0
                && engine.working_entries().len() == 0 && engine.config_spec() == config
                && engine.episode_store() is None && engine.graph_store() is None
                && engine.audit_trail() is None && !engine.governed()),
            config::config_problem(config) is None && !(config.store is Memory) ==> r matches Err(
                MemoryError::Unsupported(_),
            ),
            config::config_problem(config) is None && config.store is Memory && (config.working matches Some(
                WorkingStoreConfig::Redis { .. },
            )) ==> r matches Err(MemoryError::Unsupported(_)),
    {
        match config.validated() {
            Ok(_) => {},
            Err(e) => return Err(e),
        }
        let store = match &config.store {
            StoreConfig::Memory => InMemoryStore::new(config.namespace.as_str()),
            StoreConfig::Local { .. } => {
                return Err(MemoryError::Unsupported(String::from_str("the file-backed local store is not part of this build")));
            },
            StoreConfig::Postgres { .. } => {
                return Err(MemoryError::Unsupported(String::from_str("built without the 'postgres' feature")));
            },
        };
        let working = match &config.working {
            None => InProcessWorkingStore::new(config.namespace.as_str()),
            Some(WorkingStoreConfig::InProcess) => InProcessWorkingStore::new(config.namespace.as_str()),
            Some(WorkingStoreConfig::Redis { .. }) => {
                return Err(MemoryError::Unsupported(String::from_str("redis working store lands in phase 03")));
            },
        };
        Ok(MemoryEngine { config, store, working, graph: None, episodes: None, authorizer: None, auditor: None })
    }

    /// Configuration the engine was assembled with.
    pub fn config(&self) -> (c: &EngineConfig)
        ensures
            *c == self.config_spec(),
    {
        &self.config
    }

    /// The canonical store.
    pub fn store(&self) -> (s: &InMemoryStore)
        ensures
            s.records() == self.records(),
    {
        &self.store
    }

    /// Attaches an episode store.
    pub fn with_episodes(self, episodes: InMemoryEpisodeStore) -> (e: Self)
        requires
            self.wf(),
            episodes.wf(),
        ensures
            e.wf(),
            e.records() == self.records(),
            e.config_spec() == self.config_spec(),
            e.episode_store() == Some(episodes),
            e.graph_store() == self.graph_store(),
            e.audit_trail() == self.audit_trail(),
            e.governed() == self.governed(),
    {
        MemoryEngine { episodes: Some(episodes), ..self }
    }

    /// Attaches an entity graph, which forgetting everywhere keeps in
    /// step with the canonical store.
    pub fn with_graph(self, graph: InMemoryGraphStore) -> (e: Self)
        requires
            self.wf(),
            graph.wf(),
        ensures
            e.wf(),
            e.records() == self.records(),
            e.config_spec() == self.config_spec(),
            e.graph_store() == Some(graph),
            e.episode_store() == self.episode_store(),
            e.audit_trail() == self.audit_trail(),
            e.governed() == self.governed(),
    {
        MemoryEngine { graph: Some(graph), ..self }
    }

    /// Attaches the scope authorizer to every governed read.
    pub fn with_authorizer(self, authorizer: ScopeAuthorizer) -> (e: Self)
        requires
            self.wf(),
        ensures
            e.wf(),
            e.records() == self.records(),
            e.config_spec() == self.config_spec(),
            e.governed(),
            e.graph_store() == self.graph_store(),
            e.episode_store() == self.episode_store(),
            e.audit_trail() == self.audit_trail(),
    {
        MemoryEngine { authorizer: Some(authorizer), ..self }
    }

    /// Attaches an auditor that receives every governed decision.
    pub fn with_auditor(self, auditor: InMemoryAuditor) -> (e: Self)
        requires
            self.wf(),
        ensures
            e.wf(),
            e.records() == self.records(),
            e.config_spec() == self.config_spec(),
            e.audit_trail() == Some(auditor.events@),
            e.governed() == self.governed(),
            e.graph_store() == self.graph_store(),
            e.episode_store() == self.episode_store(),
    {
        MemoryEngine { auditor: Some(auditor), ..self }
    }

    /// The attached auditor, if any.
    pub fn auditor(&self) -> (a: Option<&InMemoryAuditor>)
        ensures
            match a {
                Some(x) => self.audit_trail() == Some(x.events@),
                None => self.audit_trail() is None,
            },
    {
        match &self.auditor {
            Some(x) => Some(x),
            None => None,
        }
    }

    /// Stores a new memory with identity `id`, stamped `now`, and returns
    /// the canonical record. Requests that fail validation leave the
    /// store untouched.
    pub fn remember_at(&mut self, request: RememberRequest, id: MemoryId, now: i64) -> (r: MemoryResult<MemoryRecord>)
        requires
            old(self).wf(),
        ensures
            final(self).wf(),
            final(self).config_spec() == old(self).config_spec(),
            final(self).working_entries() == old(self).working_entries(),
            final(self).episode_store() == old(self).episode_store(),
            final(self).graph_store() == old(self).graph_store(),
            final(self).audit_trail() == old(self).audit_trail(),
            final(self).governed() == old(self).governed(),
            match requests::remember_problem(request, old(self).config_spec()) {
                Some(p) => (r matches Err(e) && error::is_validation(e, p.0, p.1)) && final(self).records()
                    == old(self).records(),
                None => r matches Ok(saved) && requests::remembered(
                    saved@,
                    request,
                    old(self).config_spec().default_scope,
                    id,
                    now as int,
                ) && final(self).records() == store::upsert_spec(old(self).records(), saved@),
            },
    {
        match request.validated(&self.config) {
            Ok(_) => {},
            Err(e) => return Err(e),
        }
        let record = request.into_record_at(self.config.default_scope.clone(), id, now);
        self.store.put(&record)
    }

    /// Stores a new memory with a fresh identity, stamped now.
    pub fn remember(&mut self, request: RememberRequest) -> (r: MemoryResult<MemoryRecord>)
        requires
            old(self).wf(),
        ensures
            final(self).wf(),
            final(self).config_spec() == old(self).config_spec(),
            final(self).working_entries() == old(self).working_entries(),
            final(self).episode_store() == old(self).episode_store(),
            final(self).graph_store() == old(self).graph_store(),
            final(self).audit_trail() == old(self).audit_trail(),
            final(self).governed() == old(self).governed(),
            match requests::remember_problem(request, old(self).config_spec()) {
                Some(p) => (r matches Err(e) && error::is_validation(e, p.0, p.1)) && final(self).records()
                    == old(self).records(),
                None => r matches Ok(saved) && requests::remembered(
                    saved@,
                    request,
                    old(self).config_spec().default_scope,
                    saved.id,
                    saved.created_at as int,
                ) && final(self).records() == store::upsert_spec(old(self).records(), saved@),
            },
    {
        let id = MemoryId::generate();
        let now = temporal::now_millis();
        self.remember_at(request, id, now)
    }

    /// Exact lookup by identifier within a scope: a record outside the
    /// scope is reported as absent.
    pub fn recall_exact(&self, id: MemoryId, scope: &MemoryScope) -> (r: MemoryResult<Option<MemoryRecord>>)
        requires
            self.wf(),
        ensures
            r matches Ok(o) && match o {
                Some(rec) => store::get_spec(self.records(), id, *scope) == Some(rec@),
                None => store::get_spec(self.records(), id, *scope) is None,
            },
    {
        self.store.get(&id, scope)
    }

    /// Filtered lookup at instant `now` (type, status, subject, keyword,
    /// temporal snapshot). The query must validate and its limit must
    /// not exceed the engine's batch ceiling.
    pub fn search_at(&self, query: MemoryQuery, now: i64) -> (r: MemoryResult<Vec<MemoryRecord>>)
        requires
            self.wf(),
        ensures
            query::query_problem(query@) matches Some(p) ==> (r matches Err(e) && error::is_validation(
                e,
                p.0,
                p.1,
            )),
            query::query_problem(query@) is None && query.limit > batch_ceiling(self.config_spec()) ==> (r matches Err(
                e,
            ) && error::is_validation(
                e,
                "limit"@,
                "exceeds engine max_batch_size ("@ + error::decimal(
                    self.config_spec().limits.max_batch_size as nat,
                ) + ")"@,
            )),
            query::query_problem(query@) is None && query.limit <= batch_ceiling(self.config_spec()) ==> (r matches Ok(
                v,
            ) && store::record_views(v@) == store::query_spec(
                self.records(),
                query@,
                match query.valid_at {
                    Some(t) => t as int,
                    None => now as int,
                },
            )),
    {
        let q = match query.validated() {
            Ok(q) => q,
            Err(e) => return Err(e),
        };
        let ceiling: u64 = if self.config.limits.max_batch_size as u64 > u32::MAX as u64 {
            u32::MAX as u64
        } else {
            self.config.limits.max_batch_size as u64
        };
        if q.limit as u64 > ceiling {
            let n = error::decimal_string(self.config.limits.max_batch_size as u64);
            let reason = text::concat3("exceeds engine max_batch_size (", n.as_str(), ")");
            proof {
                reveal_strlit("exceeds engine max_batch_size (");
                reveal_strlit(")");
            }
            return Err(MemoryError::Validation { field: "limit", reason });
        }
        let at = q.effective_valid_at_or(now);
        self.store.query_at(&q, at)
    }

    /// Filtered lookup now.
    pub fn search(&self, query: MemoryQuery) -> (r: MemoryResult<Vec<MemoryRecord>>)
        requires
            self.wf(),
        ensures
            query::query_problem(query@) matches Some(p) ==> (r matches Err(e) && error::is_validation(
                e,
                p.0,
                p.1,
            )),
            query::query_problem(query@) is None && query.limit > batch_ceiling(self.config_spec()) ==> (r matches Err(
                e,
            ) && error::is_validation(
                e,
                "limit"@,
                "exceeds engine max_batch_size ("@ + error::decimal(
                    self.config_spec().limits.max_batch_size as nat,
                ) + ")"@,
            )),
            query::query_problem(query@) is None && query.limit <= batch_ceiling(self.config_spec()) ==> (r matches Ok(
                v,
            ) && exists|at: int|
                (query.valid_at matches Some(t) ==> at == t) && store::record_views(v@)
                    == #[trigger] store::query_spec(self.records(), query@, at)),
    {
        let now = temporal::now_millis();
        self.search_at(query, now)
    }

    /// Replaces content by deriving a successor with identity
    /// `successor_id` (with its lowest bit flipped should it equal the
    /// predecessor's), stamped `now`; history is preserved. The
    /// predecessor is retired to `Superseded`.
    pub fn update_at(&mut self, request: UpdateRequest, successor_id: MemoryId, now: i64) -> (r: MemoryResult<MemoryRecord>)
        requires
            old(self).wf(),
        ensures
            final(self).wf(),
            final(self).config_spec() == old(self).config_spec(),
            final(self).working_entries() == old(self).working_entries(),
            final(self).episode_store() == old(self).episode_store(),
            final(self).graph_store() == old(self).graph_store(),
            final(self).audit_trail() == old(self).audit_trail(),
            final(self).governed() == old(self).governed(),
            content::content_empty(request.content@) ==> (r matches Err(e) && error::is_validation(
                e,
                "content"@,
                "must not be empty"@,
            )) && final(self).records() == old(self).records(),
            !content::content_empty(request.content@) && store::get_spec(
                old(self).records(),
                request.id,
                request.scope,
            ) is None ==> r == MemoryResult::<MemoryRecord>::Err(MemoryError::NotFound { memory_id: request.id })
                && final(self).records() == old(self).records(),
            !content::content_empty(request.content@) && store::get_spec(
                old(self).records(),
                request.id,
                request.scope,
            ) is Some ==> (r matches Ok(next) && ({
                let prev = store::get_spec(old(self).records(), request.id, request.scope)->0;
                &&& updated_successor(next@, prev, request, record::distinct_id(successor_id, request.id), now as int)
                &&& next.id != request.id
                &&& final(self).records() == store::upsert_spec(
                    store::upsert_spec(old(self).records(), next@),
                    retired(prev, now as int),
                )
            })),
    {
        if request.content.is_empty() {
            return Err(MemoryError::validation("content", "must not be empty"));
        }
        let existing = match self.store.get(&request.id, &request.scope) {
            Ok(Some(r)) => r,
            Ok(None) => return Err(MemoryError::NotFound { memory_id: request.id }),
            Err(e) => return Err(e),
        };
        let ghost prev = existing@;
        let sid = record::distinct_from(successor_id, request.id);
        let mut successor = existing.derive_successor_at(sid, request.content, now);
        if let Some(c) = request.confidence {
            successor.confidence = record::clamp_score_value(c);
        }
        if let Some(i) = request.importance {
            successor.importance = record::clamp_score_value(i);
        }
        let ghost before = self.store.records();
        proof {
            store::lemma_upsert_stores(before, successor@);
        }
        let saved = match self.store.put(&successor) {
            Ok(s) => s,
            Err(e) => return Err(e),
        };
        let mut retired_rec = existing;
        retired_rec.status = MemoryStatus::Superseded;
        retired_rec.updated_at = now;
        proof {
            let mid = self.store.records();
            if prev.id != successor@.id {
                assert(store::stored_record(mid, prev.id) == store::stored_record(before, prev.id));
            }
            assert(store::stored_record(mid, prev.id) is Some);
        }
        match self.store.update(&retired_rec) {
            Ok(_) => {},
            Err(e) => return Err(e),
        }
        Ok(saved)
    }

    /// Replaces content by deriving a successor with a fresh identity,
    /// stamped now.
    pub fn update(&mut self, request: UpdateRequest) -> (r: MemoryResult<MemoryRecord>)
        requires
            old(self).wf(),
        ensures
            final(self).wf(),
            final(self).config_spec() == old(self).config_spec(),
            content::content_empty(request.content@) ==> (r matches Err(e) && error::is_validation(
                e,
                "content"@,
                "must not be empty"@,
            )) && final(self).records() == old(self).records(),
            !content::content_empty(request.content@) && store::get_spec(
                old(self).records(),
                request.id,
                request.scope,
            ) is None ==> r == MemoryResult::<MemoryRecord>::Err(MemoryError::NotFound { memory_id: request.id })
                && final(self).records() == old(self).records(),
            !content::content_empty(request.content@) && store::get_spec(
                old(self).records(),
                request.id,
                request.scope,
            ) is Some ==> (r matches Ok(next) && ({
                let prev = store::get_spec(old(self).records(), request.id, request.scope)->0;
                &&& updated_successor(next@, prev, request, next.id, next.created_at as int)
                &&& next.id != request.id
                &&& final(self).records() == store::upsert_spec(
                    store::upsert_spec(old(self).records(), next@),
                    retired(prev, next.created_at as int),
                )
            })),
    {
        let id = MemoryId::generate();
        let now = temporal::now_millis();
        self.update_at(request, id, now)
    }

    /// Soft-deletes a memory (tombstone) at `now`, together with the
    /// graph edges it justifies; physical removal of the row happens in
    /// lifecycle sweeps. Returns whether this call changed anything: an
    /// absent, invisible or already deleted record is left as it is.
    pub fn forget_at(&mut self, id: MemoryId, scope: &MemoryScope, now: i64) -> (r: MemoryResult<bool>)
        requires
            old(self).wf(),
        ensures
            final(self).wf(),
            final(self).config_spec() == old(self).config_spec(),
            final(self).working_entries() == old(self).working_entries(),
            final(self).episode_store() == old(self).episode_store(),
            final(self).audit_trail() == old(self).audit_trail(),
            final(self).governed() == old(self).governed(),
            match store::get_spec(old(self).records(), id, *scope) {
                Some(rec) => if rec.status == MemoryStatus::Deleted {
                    r == MemoryResult::<bool>::Ok(false) && final(self).records() == old(self).records()
                        && final(self).graph_store() == old(self).graph_store()
                } else {
                    r == MemoryResult::<bool>::Ok(true) && final(self).records() == store::upsert_spec(
                        old(self).records(),
                        tombstoned(rec, now as int),
                    ) && graph_without(old(self).graph_store(), final(self).graph_store(), id)
                },
                None => r == MemoryResult::<bool>::Ok(false) && final(self).records() == old(self).records()
                    && final(self).graph_store() == old(self).graph_store(),
            },
    {
        let mut record = match self.store.get(&id, scope) {
            Ok(Some(r)) => r,
            Ok(None) => return Ok(false),
            Err(e) => return Err(e),
        };
        if record.status == MemoryStatus::Deleted {
            return Ok(false);
        }
        record.status = MemoryStatus::Deleted;
        record.updated_at = now;
        match self.store.update(&record) {
            Ok(_) => {},
            Err(e) => return Err(e),
        }
        if let Some(g) = &mut self.graph {
            let _ = g.remove_evidence(&id);
        }
        Ok(true)
    }

    /// Soft-deletes a memory now, together with the graph edges it
    /// justifies.
    pub fn forget(&mut self, id: MemoryId, scope: &MemoryScope) -> (r: MemoryResult<bool>)
        requires
            old(self).wf(),
        ensures
            final(self).wf(),
            final(self).config_spec() == old(self).config_spec(),
            final(self).working_entries() == old(self).working_entries(),
            final(self).episode_store() == old(self).episode_store(),
            final(self).audit_trail() == old(self).audit_trail(),
            final(self).governed() == old(self).governed(),
            match store::get_spec(old(self).records(), id, *scope) {
                Some(rec) => if rec.status == MemoryStatus::Deleted {
                    r == MemoryResult::<bool>::Ok(false) && final(self).records() == old(self).records()
                        && final(self).graph_store() == old(self).graph_store()
                } else {
                    r == MemoryResult::<bool>::Ok(true) && (exists|now: int|
                        final(self).records() == store::upsert_spec(old(self).records(), #[trigger] tombstoned(rec, now)))
                        && graph_without(old(self).graph_store(), final(self).graph_store(), id)
                },
                None => r == MemoryResult::<bool>::Ok(false) && final(self).records() == old(self).records()
                    && final(self).graph_store() == old(self).graph_store(),
            },
    {
        let now = temporal::now_millis();
        self.forget_at(id, scope, now)
    }

    /// Hard-deletes immediately (compliance erasure); a record invisible
    /// from `scope` stays.
    pub fn purge(&mut self, id: MemoryId, scope: &MemoryScope) -> (r: MemoryResult<()>)
        requires
            old(self).wf(),
        ensures
            r is Ok,
            final(self).wf(),
            final(self).config_spec() == old(self).config_spec(),
            final(self).working_entries() == old(self).working_entries(),
            final(self).episode_store() == old(self).episode_store(),
            final(self).graph_store() == old(self).graph_store(),
            final(self).audit_trail() == old(self).audit_trail(),
            final(self).governed() == old(self).governed(),
            final(self).records() == store::delete_spec(old(self).records(), id, *scope),
    {
        self.store.delete(&id, scope)
    }

    /// The supersession chain ending at `id`, oldest first.
    pub fn history(&self, id: MemoryId, scope: &MemoryScope) -> (r: MemoryResult<Vec<MemoryRecord>>)
        requires
            self.wf(),
        ensures
            r matches Ok(v) && store::record_views(v@) == history_spec(self.records(), id, *scope),
    {
        let ghost rs = self.records();
        let tip = match self.store.get(&id, scope) {
            Ok(Some(r)) => r,
            Ok(None) => return Ok(Vec::new()),
            Err(e) => return Err(e),
        };
        let ghost full = back_chain(rs, tip@, *scope, rs.len());
        let mut fuel: usize = self.store.len();
        let mut chain: Vec<MemoryRecord> = Vec::new();
        chain.push(tip.clone());
        let mut cursor = tip;
        let mut done = false;
        assert(store::record_views(chain@) =~= seq![cursor@]);
        while !done && fuel > 0
            invariant
                self.wf(),
                rs == self.records(),
                store::record_views(chain@).len() >= 1,
                store::record_views(chain@).last() == cursor@,
                store::record_views(chain@).drop_last() + back_chain(rs, cursor@, *scope, fuel as nat) == full,
                done ==> back_chain(rs, cursor@, *scope, fuel as nat) == seq![cursor@],
            decreases 2 * (fuel as int) + (if done {
                0int
            } else {
                1int
            }),
        {
            let ghost c0 = store::record_views(chain@);
            match cursor.supersedes {
                None => {
                    done = true;
                },
                Some(prev) => {
                    match self.store.get(&prev, scope) {
                        Ok(Some(rec)) => {
                            chain.push(rec.clone());
                            assert(store::record_views(chain@) =~= c0.push(rec@));
                            assert(store::record_views(chain@).drop_last() =~= c0);
                            assert(c0.drop_last() + seq![cursor@] =~= c0);
                            assert(back_chain(rs, cursor@, *scope, fuel as nat) == seq![cursor@] + back_chain(
                                rs,
                                rec@,
                                *scope,
                                (fuel - 1) as nat,
                            ));
                            assert(c0.drop_last() + (seq![cursor@] + back_chain(
                                rs,
                                rec@,
                                *scope,
                                (fuel - 1) as nat,
                            )) =~= c0 + back_chain(rs, rec@, *scope, (fuel - 1) as nat));
                            cursor = rec;
                            fuel = fuel - 1;
                        },
                        Ok(None) => {
                            done = true;
                        },
                        Err(e) => return Err(e),
                    }
                },
            }
        }
        let ghost cv = store::record_views(chain@);
        assert(back_chain(rs, cursor@, *scope, fuel as nat) == seq![cursor@]);
        assert(cv.drop_last() + seq![cursor@] =~= cv);
        let mut out: Vec<MemoryRecord> = Vec::new();
        let mut k: usize = chain.len();
        while k > 0
            invariant
                k <= chain@.len(),
                cv == store::record_views(chain@),
                store::record_views(out@) == cv.subrange(k as int, cv.len() as int).reverse(),
            decreases k,
        {
            let ghost o0 = store::record_views(out@);
            out.push(chain[k - 1].clone());
            assert(store::record_views(out@) =~= o0.push(cv[k - 1]));
            assert(cv.subrange(k - 1, cv.len() as int).reverse() =~= cv.subrange(k as int, cv.len() as int).reverse().push(
                cv[k - 1],
            ));
            k = k - 1;
        }
        assert(cv.subrange(0, cv.len() as int) =~= cv);
        Ok(out)
    }

    /// Writes session state at `now` with the configured default
    /// time-to-live.
    pub fn set_working_state_at(&mut self, session_id: &str, data: &str, now: i64) -> (r: MemoryResult<()>)
        requires
            old(self).wf(),
        ensures
            r is Ok,
            final(self).wf(),
            final(self).records() == old(self).records(),
            final(self).config_spec() == old(self).config_spec(),
            forall|t: int| #[trigger] working::live_state(final(self).working_entries(), session_id@, t) == (if t
                < working::expiry(now as int, old(self).config_spec().working_memory_ttl as int) {
                Some(data@)
            } else {
                None::<Seq<char>>
            }),
            forall|s: Seq<char>, t: int| s != session_id@ ==> #[trigger] working::live_state(
                final(self).working_entries(),
                s,
                t,
            ) == working::live_state(old(self).working_entries(), s, t),
    {
        let state = WorkingMemoryState::initial(session_id, data);
        let ttl = self.config.working_memory_ttl;
        self.working.set_at(&state, ttl, now)
    }

    /// Writes session state now with the configured default time-to-live.
    pub fn set_working_state(&mut self, session_id: &str, data: &str) -> (r: MemoryResult<()>)
        requires
            old(self).wf(),
        ensures
            r is Ok,
            final(self).wf(),
            final(self).records() == old(self).records(),
            final(self).config_spec() == old(self).config_spec(),
            exists|now: int|
                session_written(
                    old(self).working_entries(),
                    final(self).working_entries(),
                    session_id@,
                    data@,
                    #[trigger] working::expiry(now, old(self).config_spec().working_memory_ttl as int),
                ),
    {
        let now = temporal::now_millis();
        let r = self.set_working_state_at(session_id, data, now);
        assert(session_written(
            old(self).working_entries(),
            self.working_entries(),
            session_id@,
            data@,
            working::expiry(now as int, old(self).config_spec().working_memory_ttl as int),
        ));
        r
    }

    /// Writes session state at `now` with an explicit time-to-live in
    /// milliseconds.
    pub fn set_working_state_with_ttl_at(&mut self, session_id: &str, data: &str, ttl_ms: u64, now: i64) -> (r:
        MemoryResult<()>)
        requires
            old(self).wf(),
        ensures
            r is Ok,
            final(self).wf(),
            final(self).records() == old(self).records(),
            final(self).config_spec() == old(self).config_spec(),
            forall|t: int| #[trigger] working::live_state(final(self).working_entries(), session_id@, t) == (if t
                < working::expiry(now as int, ttl_ms as int) {
                Some(data@)
            } else {
                None::<Seq<char>>
            }),
            forall|s: Seq<char>, t: int| s != session_id@ ==> #[trigger] working::live_state(
                final(self).working_entries(),
                s,
                t,
            ) == working::live_state(old(self).working_entries(), s, t),
    {
        let state = WorkingMemoryState::initial(session_id, data);
        self.working.set_at(&state, ttl_ms, now)
    }

    /// Writes session state now with an explicit time-to-live.
    pub fn set_working_state_with_ttl(&mut self, session_id: &str, data: &str, ttl_ms: u64) -> (r: MemoryResult<()>)
        requires
            old(self).wf(),
        ensures
            r is Ok,
            final(self).wf(),
            final(self).records() == old(self).records(),
            final(self).config_spec() == old(self).config_spec(),
            exists|now: int|
                session_written(
                    old(self).working_entries(),
                    final(self).working_entries(),
                    session_id@,
                    data@,
                    #[trigger] working::expiry(now, ttl_ms as int),
                ),
    {
        let now = temporal::now_millis();
        let r = self.set_working_state_with_ttl_at(session_id, data, ttl_ms, now);
        assert(session_written(
            old(self).working_entries(),
            self.working_entries(),
            session_id@,
            data@,
            working::expiry(now as int, ttl_ms as int),
        ));
        r
    }

    /// Live session state at `now`; expired entries read as absent.
    pub fn working_state_at(&self, session_id: &str, now: i64) -> (r: MemoryResult<Option<WorkingMemoryState>>)
        requires
            self.wf(),
        ensures
            r matches Ok(o) && match o {
                Some(s) => s.session_id@ == session_id@ && working::live_state(
                    self.working_entries(),
                    session_id@,
                    now as int,
                ) == Some(s.data@),
                None => working::live_state(self.working_entries(), session_id@, now as int) is None,
            },
    {
        self.working.get_at(session_id, now)
    }

    /// Live session state now.
    pub fn working_state(&self, session_id: &str) -> (r: MemoryResult<Option<WorkingMemoryState>>)
        requires
            self.wf(),
        ensures
            r matches Ok(o) && exists|now: int|
                match o {
                    Some(s) => s.session_id@ == session_id@ && #[trigger] working::live_state(
                        self.working_entries(),
                        session_id@,
                        now,
                    ) == Some(s.data@),
                    None => #[trigger] working::live_state(self.working_entries(), session_id@, now) is None,
                },
    {
        let now = temporal::now_millis();
        self.working_state_at(session_id, now)
    }

    /// Drops session state immediately.
    pub fn clear_working_state(&mut self, session_id: &str) -> (r: MemoryResult<()>)
        requires
            old(self).wf(),
        ensures
            r is Ok,
            final(self).wf(),
            final(self).records() == old(self).records(),
            final(self).config_spec() == old(self).config_spec(),
            forall|t: int| #[trigger] working::live_state(final(self).working_entries(), session_id@, t) is None,
            forall|s: Seq<char>, t: int| s != session_id@ ==> #[trigger] working::live_state(
                final(self).working_entries(),
                s,
                t,
            ) == working::live_state(old(self).working_entries(), s, t),
    {
        self.working.delete(session_id)
    }

    /// Records an agent experience in the attached episode store; an
    /// engine without one does not track episodes.
    pub fn record_episode(&mut self, episode: &Episode) -> (r: MemoryResult<()>)
        requires
            old(self).wf(),
        ensures
            final(self).wf(),
            final(self).records() == old(self).records(),
            final(self).config_spec() == old(self).config_spec(),
            match old(self).episode_store() {
                None => r matches Err(MemoryError::Unsupported(m)) && m@
                    == "no episode store attached (see with_episodes)"@ && final(self).episode_store() is None,
                Some(s) => final(self).episode_store() matches Some(s2) && if text::blank_spec(episode.action@)
                    || text::blank_spec(episode.outcome@) {
                    r is Err && s2.stored() == s.stored()
                } else {
                    r is Ok && s2.stored() == episodic::append_spec(s.stored(), episode@)
                },
            },
    {
        match &mut self.episodes {
            Some(store) => store.append(episode),
            None => Err(MemoryError::Unsupported(String::from_str("no episode store attached (see with_episodes)"))),
        }
    }

    /// Episodes matching a query, newest first; empty without a store.
    pub fn recall_episodes(&self, query: &EpisodeQuery) -> (r: MemoryResult<Vec<Episode>>)
        requires
            self.wf(),
        ensures
            r matches Ok(v) && match self.episode_store() {
                None => v@.len() == 0,
                Some(s) => episodic::episode_views(v@) == episodic::query_spec(s.stored(), *query),
            },
    {
        match &self.episodes {
            Some(store) => store.query(query),
            None => Ok(Vec::new()),
        }
    }

    /// Episodes in `scope` citing a canonical memory as evidence.
    pub fn episodes_citing(&self, memory_id: &MemoryId, scope: &MemoryScope) -> (r: MemoryResult<Vec<Episode>>)
        requires
            self.wf(),
        ensures
            r matches Ok(v) && match self.episode_store() {
                None => v@.len() == 0,
                Some(s) => exists|q: EpisodeQuery|
                    q.scope == *scope && q.citing_evidence == Some(*memory_id) && q.from is None && q.to is None
                        && q.success is None && q.limit == 0 && episodic::episode_views(v@)
                        == episodic::query_spec(s.stored(), q),
            },
    {
        let q = EpisodeQuery { scope: scope.clone(), from: None, to: None, success: None, citing_evidence: Some(*memory_id), limit: 0 };
        self.recall_episodes(&q)
    }

    fn audit(&mut self, principal: &str, action: AuditAction, record_id: Option<MemoryId>, allowed: bool, detail: &str, now: i64)
        requires
            old(self).wf(),
        ensures
            final(self).wf(),
            final(self).records() == old(self).records(),
            final(self).config_spec() == old(self).config_spec(),
            final(self).governed() == old(self).governed(),
            final(self).working_entries() == old(self).working_entries(),
            final(self).episode_store() == old(self).episode_store(),
            final(self).graph_store() == old(self).graph_store(),
            match old(self).audit_trail() {
                None => final(self).audit_trail() is None,
                Some(t) => final(self).audit_trail() matches Some(t2) && t2.len() == t.len() + 1 && t2.drop_last() == t
                    && t2.last().principal@ == principal@ && t2.last().action == action && t2.last().record_id
                    == record_id && t2.last().allowed == allowed && t2.last().detail@ == detail@ && t2.last().at
                    == now,
            },
    {
        if let Some(auditor) = &mut self.auditor {
            let event = AuditEvent {
                at: now,
                principal: String::from_str(principal),
                action,
                record_id,
                allowed,
                detail: String::from_str(detail),
            };
            let _ = auditor.record(event);
        }
    }

    /// Governed exact lookup at `now`: a record the principal may not
    /// read is reported as absent (no oracle for probing), and every
    /// decision on a found record is audited.
    pub fn recall_exact_for_at(&mut self, principal: &Principal, id: MemoryId, scope: &MemoryScope, now: i64) -> (r:
        MemoryResult<Option<MemoryRecord>>)
        requires
            old(self).wf(),
        ensures
            final(self).wf(),
            final(self).records() == old(self).records(),
            final(self).config_spec() == old(self).config_spec(),
            final(self).governed() == old(self).governed(),
            r matches Ok(o) && match store::get_spec(old(self).records(), id, *scope) {
                None => o is None && final(self).audit_trail() == old(self).audit_trail(),
                Some(rec) => if !old(self).governed() {
                    (o matches Some(x) && x@ == rec) && final(self).audit_trail() == old(self).audit_trail()
                } else {
                    let allowed = authz::scope_allows(principal.scope@, rec);
                    &&& (allowed ==> (o matches Some(x) && x@ == rec))
                    &&& (!allowed ==> o is None)
                    &&& match old(self).audit_trail() {
                        None => final(self).audit_trail() is None,
                        Some(t) => final(self).audit_trail() matches Some(t2) && t2.len() == t.len() + 1
                            && t2.drop_last() == t && read_audited(t2.last(), principal.id@, principal.scope@, rec, now as int),
                    }
                },
            },
    {
        let record = match self.store.get(&id, scope) {
            Ok(Some(r)) => r,
            Ok(None) => return Ok(None),
            Err(e) => return Err(e),
        };
        let permitted = match &self.authorizer {
            None => return Ok(Some(record)),
            Some(a) => a.authorize_read(principal, &record),
        };
        if permitted {
            self.audit(principal.id.as_str(), AuditAction::Read, Some(id), true, "authorized", now);
            Ok(Some(record))
        } else {
            self.audit(principal.id.as_str(), AuditAction::Read, Some(id), false, "authorization denied", now);
            Ok(None)
        }
    }

    /// Governed exact lookup now.
    pub fn recall_exact_for(&mut self, principal: &Principal, id: MemoryId, scope: &MemoryScope) -> (r: MemoryResult<
        Option<MemoryRecord>,
    >)
        requires
            old(self).wf(),
        ensures
            final(self).wf(),
            final(self).records() == old(self).records(),
            final(self).config_spec() == old(self).config_spec(),
            final(self).governed() == old(self).governed(),
            r matches Ok(o) && match store::get_spec(old(self).records(), id, *scope) {
                None => o is None && final(self).audit_trail() == old(self).audit_trail(),
                Some(rec) => if !old(self).governed() {
                    (o matches Some(x) && x@ == rec) && final(self).audit_trail() == old(self).audit_trail()
                } else {
                    let allowed = authz::scope_allows(principal.scope@, rec);
                    &&& (allowed ==> (o matches Some(x) && x@ == rec))
                    &&& (!allowed ==> o is None)
                    &&& match old(self).audit_trail() {
                        None => final(self).audit_trail() is None,
                        Some(t) => final(self).audit_trail() matches Some(t2) && t2.len() == t.len() + 1
                            && t2.drop_last() == t && t2.last().record_id == Some(id) && t2.last().allowed
                            == allowed && t2.last().action == AuditAction::Read && t2.last().principal@
                            == principal.id@,
                    }
                },
            },
    {
        let now = temporal::now_millis();
        self.recall_exact_for_at(principal, id, scope, now)
    }
}

/// The candidates a principal may read, in order.
pub open spec fn readable(principal: ScopeView, rs: Seq<RecordView>) -> Seq<RecordView>
    decreases rs.len(),
{
    if rs.len() == 0 {
        Seq::empty()
    } else {
        let r = readable(principal, rs.drop_last());
        if authz::scope_allows(principal, rs.last()) {
            r.push(rs.last())
        } else {
            r
        }
    }
}

/// Governed reads let through exactly the candidates the principal may
/// read: every record that survives is authorized and was a candidate,
/// and every authorized candidate survives.
pub proof fn lemma_governed_reads_are_authorized(principal: ScopeView, rs: Seq<RecordView>)
    ensures
        forall|k: int| 0 <= k < readable(principal, rs).len() ==> authz::scope_allows(
            principal,
            #[trigger] readable(principal, rs)[k],
        ) && rs.contains(readable(principal, rs)[k]),
        forall|k: int| 0 <= k < rs.len() && authz::scope_allows(principal, #[trigger] rs[k]) ==> readable(
            principal,
            rs,
        ).contains(rs[k]),
    decreases rs.len(),
{
    if rs.len() > 0 {
        let p = rs.drop_last();
        lemma_governed_reads_are_authorized(principal, p);
        let rp = readable(principal, p);
        let r = readable(principal, rs);
        assert forall|k: int| 0 <= k < r.len() implies authz::scope_allows(principal, #[trigger] r[k]) && rs.contains(
            r[k],
        ) by {
            if k < rp.len() {
                assert(r[k] == rp[k]);
                let j = choose|j: int| 0 <= j < p.len() && p[j] == rp[k];
                assert(rs[j] == p[j]);
            } else {
                assert(r[k] == rs.last());
                assert(rs[rs.len() - 1] == rs.last());
            }
        }
        assert forall|k: int| 0 <= k < rs.len() && authz::scope_allows(principal, #[trigger] rs[k]) implies r.contains(
            rs[k],
        ) by {
            if k < p.len() {
                assert(rs[k] == p[k]);
                assert(rp.contains(p[k]));
                let j = choose|j: int| 0 <= j < rp.len() && rp[j] == p[k];
                assert(r[j] == rp[j]);
            } else {
                assert(r[r.len() - 1] == rs.last());
            }
        }
    }
}

/// `e` is the audit event of a read decision on `r` by `principal` at
/// `now`.
pub open spec fn read_audited(e: AuditEvent, principal: Seq<char>, scope: ScopeView, r: RecordView, now: int) -> bool {
    let allowed = authz::scope_allows(scope, r);
    &&& e.principal@ == principal
    &&& e.action == AuditAction::Read
    &&& e.record_id == Some(r.id)
    &&& e.allowed == allowed
    &&& e.detail@ == (if allowed {
        "authorized"@
    } else {
        "authorization denied"@
    })
    &&& e.at == now
}

/// `after` is the trail `before` extended by one read event per
/// candidate, in order, each recording the decision at `now`.
pub open spec fn reads_audited(
    before: Seq<AuditEvent>,
    after: Seq<AuditEvent>,
    principal: Seq<char>,
    scope: ScopeView,
    candidates: Seq<MemoryRecord>,
    now: int,
) -> bool {
    &&& after.len() == before.len() + candidates.len()
    &&& after.take(before.len() as int) == before
    &&& forall|k: int|
        0 <= k < candidates.len() ==> read_audited(
            #[trigger] after[before.len() + k],
            principal,
            scope,
            candidates[k]@,
            now,
        )
}

/// Intersects a principal's scope with a query scope; a contradiction
/// fails closed rather than widening visibility.
pub fn intersect_or_fail(principal: &MemoryScope, query: &MemoryScope) -> (r: MemoryResult<MemoryScope>)
    ensures
        match scope::scope_intersect(principal@, query@) {
            Some(m) => r matches Ok(s) && s@ == m,
            None => r matches Err(e) && error::is_validation(e, "scope"@, "query contradicts principal scope"@),
        },
{
    match principal.intersect(query) {
        Some(s) => Ok(s),
        None => Err(MemoryError::validation("scope", "query contradicts principal scope")),
    }
}

impl MemoryEngine {
    /// Filters read candidates through the attached authorizer at `now`:
    /// every decision is audited and denied records are dropped, so
    /// nothing unauthorized leaves the engine. Without an authorizer the
    /// candidates pass unchanged and nothing is audited.
    pub fn govern_read_at(&mut self, principal: &Principal, candidates: Vec<MemoryRecord>, now: i64) -> (r: MemoryResult<
        Vec<MemoryRecord>,
    >)
        requires
            old(self).wf(),
        ensures
            final(self).wf(),
            final(self).records() == old(self).records(),
            final(self).config_spec() == old(self).config_spec(),
            final(self).governed() == old(self).governed(),
            final(self).working_entries() == old(self).working_entries(),
            final(self).episode_store() == old(self).episode_store(),
            final(self).graph_store() == old(self).graph_store(),
            r matches Ok(v) && if !old(self).governed() {
                v@ == candidates@ && final(self).audit_trail() == old(self).audit_trail()
            } else {
                &&& store::record_views(v@) == readable(principal.scope@, store::record_views(candidates@))
                &&& match old(self).audit_trail() {
                    None => final(self).audit_trail() is None,
                    Some(t) => final(self).audit_trail() matches Some(t2) && t2.len() == t.len() + candidates@.len()
                        && t2.take(t.len() as int) == t && forall|k: int|
                        0 <= k < candidates@.len() ==> read_audited(
                            #[trigger] t2[t.len() + k],
                            principal.id@,
                            principal.scope@,
                            candidates@[k]@,
                            now as int,
                        ),
                }
            },
    {
        let permitting = match &self.authorizer {
            None => return Ok(candidates),
            Some(a) => *a,
        };
        let ghost cands = store::record_views(candidates@);
        let ghost t0 = self.audit_trail();
        let mut out: Vec<MemoryRecord> = Vec::new();
        let mut i: usize = 0;
        while i < candidates.len()
            invariant
                i <= candidates@.len(),
                cands == store::record_views(candidates@),
                self.wf(),
                self.governed(),
                self.records() == old(self).records(),
                self.config_spec() == old(self).config_spec(),
                self.working_entries() == old(self).working_entries(),
                self.episode_store() == old(self).episode_store(),
                self.graph_store() == old(self).graph_store(),
                t0 == old(self).audit_trail(),
                store::record_views(out@) == readable(principal.scope@, cands.take(i as int)),
                match t0 {
                    None => self.audit_trail() is None,
                    Some(t) => self.audit_trail() matches Some(t2) && t2.len() == t.len() + i && t2.take(t.len() as int)
                        == t && forall|k: int|
                        0 <= k < i ==> read_audited(
                            #[trigger] t2[t.len() + k],
                            principal.id@,
                            principal.scope@,
                            candidates@[k]@,
                            now as int,
                        ),
                },
            decreases candidates@.len() - i,
        {
            let c = &candidates[i];
            assert(cands.take(i + 1).drop_last() =~= cands.take(i as int));
            assert(cands.take(i + 1).last() == c@);
            let ghost tb = self.audit_trail();
            let permitted = permitting.authorize_read(principal, c);
            if permitted {
                self.audit(principal.id.as_str(), AuditAction::Read, Some(c.id), true, "authorized", now);
                let ghost o0 = store::record_views(out@);
                out.push(c.clone());
                assert(store::record_views(out@) =~= o0.push(c@));
            } else {
                self.audit(principal.id.as_str(), AuditAction::Read, Some(c.id), false, "authorization denied", now);
            }
            proof {
                match t0 {
                    None => {},
                    Some(t) => {
                        let t2 = self.audit_trail()->0;
                        let tp = tb->0;
                        assert(t2.drop_last() == tp);
                        assert forall|k: int| 0 <= k < i + 1 implies read_audited(
                            #[trigger] t2[t.len() + k],
                            principal.id@,
                            principal.scope@,
                            candidates@[k]@,
                            now as int,
                        ) by {
                            if k < i {
                                assert(t2[t.len() + k] == tp[t.len() + k]);
                            }
                        }
                        assert(t2.take(t.len() as int) =~= tp.take(t.len() as int));
                    },
                }
            }
            i = i + 1;
        }
        assert(cands.take(candidates@.len() as int) =~= cands);
        Ok(out)
    }

    /// Filters read candidates through the attached authorizer now.
    pub fn govern_read(&mut self, principal: &Principal, candidates: Vec<MemoryRecord>) -> (r: MemoryResult<
        Vec<MemoryRecord>,
    >)
        requires
            old(self).wf(),
        ensures
            final(self).wf(),
            final(self).records() == old(self).records(),
            final(self).config_spec() == old(self).config_spec(),
            final(self).governed() == old(self).governed(),
            final(self).working_entries() == old(self).working_entries(),
            final(self).episode_store() == old(self).episode_store(),
            final(self).graph_store() == old(self).graph_store(),
            r matches Ok(v) && if !old(self).governed() {
                v@ == candidates@ && final(self).audit_trail() == old(self).audit_trail()
            } else {
                &&& store::record_views(v@) == readable(principal.scope@, store::record_views(candidates@))
                &&& match old(self).audit_trail() {
                    None => final(self).audit_trail() is None,
                    Some(t) => final(self).audit_trail() matches Some(t2) && exists|now: int|
                        #[trigger] reads_audited(t, t2, principal.id@, principal.scope@, candidates@, now),
                }
            },
    {
        let now = temporal::now_millis();
        let ghost cands = candidates@;
        let r = self.govern_read_at(principal, candidates, now);
        proof {
            if old(self).governed() {
                if let Some(t) = old(self).audit_trail() {
                    let t2 = self.audit_trail()->0;
                    assert(reads_audited(t, t2, principal.id@, principal.scope@, cands, now as int));
                }
            }
        }
        r
    }
}

impl MemoryEngine {
    /// Deletes one memory from every representation at once: the graph
    /// edges it justifies first, the canonical row last, so an
    /// interrupted deletion can strand an edge but never leave a row
    /// pointing at nothing.
    pub fn forget_everywhere(&mut self, id: MemoryId, scope: &MemoryScope) -> (r: MemoryResult<()>)
        requires
            old(self).wf(),
        ensures
            r is Ok,
            final(self).wf(),
            final(self).config_spec() == old(self).config_spec(),
            final(self).records() == store::delete_spec(old(self).records(), id, *scope),
            match old(self).graph_store() {
                None => final(self).graph_store() is None,
                Some(g) => final(self).graph_store() matches Some(g2) && g2.edge_views() == graph::edges_without(
                    g.edge_views(),
                    id,
                ),
            },
    {
        let mut sweeper = lifecycle::RetentionSweeper::<lifecycle::LogArchiveHook>::new(self.lend_providers());
        let r = sweeper.coordinate_delete(&id, scope);
        self.restore_providers(sweeper.into_providers());
        r
    }

    /// Hands the store and the graph to a sweeper, leaving an empty
    /// store and no graph in their place until they are restored.
    fn lend_providers(&mut self) -> (p: lifecycle::LifecycleProviders)
        requires
            old(self).wf(),
        ensures
            p.wf(),
            p.store.records() == old(self).records(),
            p.graph == old(self).graph_store(),
            final(self).wf(),
            final(self).config_spec() == old(self).config_spec(),
            final(self).working_entries() == old(self).working_entries(),
            final(self).episode_store() == old(self).episode_store(),
            final(self).audit_trail() == old(self).audit_trail(),
            final(self).governed() == old(self).governed(),
    {
        let mut store = InMemoryStore::new(self.config.namespace.as_str());
        std::mem::swap(&mut store, &mut self.store);
        let mut graph: Option<InMemoryGraphStore> = None;
        std::mem::swap(&mut graph, &mut self.graph);
        lifecycle::LifecycleProviders { store, graph }
    }

    /// Takes back the store and the graph lent to a sweeper.
    fn restore_providers(&mut self, p: lifecycle::LifecycleProviders)
        requires
            old(self).wf(),
            p.wf(),
        ensures
            final(self).wf(),
            final(self).records() == p.store.records(),
            final(self).graph_store() == p.graph,
            final(self).config_spec() == old(self).config_spec(),
            final(self).working_entries() == old(self).working_entries(),
            final(self).episode_store() == old(self).episode_store(),
            final(self).audit_trail() == old(self).audit_trail(),
            final(self).governed() == old(self).governed(),
    {
        self.store = p.store;
        self.graph = p.graph;
    }

    /// Runs a retention sweep over `scope` at `now`, coordinating
    /// deletion across the store and the graph, and returns the report.
    pub fn run_retention_sweep(&mut self, scope: &MemoryScope, now: i64) -> (r: MemoryResult<lifecycle::SweepReport>)
        requires
            old(self).wf(),
        ensures
            final(self).wf(),
            final(self).config_spec() == old(self).config_spec(),
            r matches Ok(report) && ({
                    let cands = store::query_spec(old(self).records(), lifecycle::sweep_query(*scope), now as int);
                    &&& final(self).records() == lifecycle::sweep_fold(old(self).records(), cands, *scope, now as int)
                    &&& report.purged@ == lifecycle::ids_with(cands, now as int, lifecycle::SweepAction::Purge)
                    &&& report.archived@ == lifecycle::ids_with(cands, now as int, lifecycle::SweepAction::Archive)
                    &&& report.skipped == lifecycle::ids_with(cands, now as int, lifecycle::SweepAction::Skip).len()
                    &&& report.hook_failures@.len() == 0
                    &&& match old(self).graph_store() {
                        None => final(self).graph_store() is None,
                        Some(g) => final(self).graph_store() matches Some(g2) && g2.edge_views()
                            == lifecycle::edges_without_all(g.edge_views(), lifecycle::ids_with(cands, now as int, lifecycle::SweepAction::Purge)),
                    }
                }),
    {
        let ghost rs0 = self.records();
        let mut sweeper = lifecycle::RetentionSweeper::<lifecycle::LogArchiveHook>::new(self.lend_providers());
        let r = sweeper.sweep(scope, now);
        proof {
            if r is Ok {
                let report = r->Ok_0;
                let cands = store::query_spec(rs0, lifecycle::sweep_query(*scope), now as int);
                assert(sweeper.steps().skip(0) =~= sweeper.steps());
                lifecycle::lemma_no_hooks_no_failures(sweeper.steps(), lifecycle::acted(cands, now as int), now as int);
                assert(lifecycle::failure_views(report.hook_failures@).len() == report.hook_failures@.len());
            }
        }
        self.restore_providers(sweeper.into_providers());
        r
    }
}

/// The procedure metadata a record carries, if it is a procedure.
pub open spec fn procedure_meta_view(r: RecordView) -> Option<ProcedureMetadata> {
    if r.memory_type == MemoryType::Procedural {
        match r.content.structured {
            Some(PayloadView::Procedure(m)) => Some(m),
            _ => None,
        }
    } else {
        None
    }
}

/// The goal metadata a record carries, if it is a goal.
pub open spec fn goal_meta_view(r: RecordView) -> Option<GoalMetadataView> {
    if r.memory_type == MemoryType::Prospective {
        match r.content.structured {
            Some(PayloadView::Goal(m)) => Some(m),
            _ => None,
        }
    } else {
        None
    }
}

/// The next revision number, wrapping at the top of the range.
pub open spec fn next_version(v: u64) -> u64 {
    if v == u64::MAX {
        0
    } else {
        (v + 1) as u64
    }
}

/// `r` is a governed document of type `t` with subtype `subtype`, text
/// `text`, in `scope`, with identity `id`, stamped `now`, carrying
/// `payload`: active at version 1 with neutral scores, standard
/// retention and agent provenance.
pub open spec fn governed_document(
    r: RecordView,
    t: MemoryType,
    subtype: Seq<char>,
    text: Seq<char>,
    scope: MemoryScope,
    payload: PayloadView,
    id: MemoryId,
    now: int,
) -> bool {
    &&& r.id == id
    &&& r.memory_type == t
    &&& crate::subject::opt_seq(r.subtype) == Some(subtype)
    &&& r.content.text@ == text
    &&& r.content.structured == Some(payload)
    &&& r.content.tags.len() == 0
    &&& r.scope == scope
    &&& r.subject is None
    &&& r.confidence == record::NEUTRAL_SCORE
    &&& r.importance == record::NEUTRAL_SCORE
    &&& r.retention == crate::provenance::standard_policy()
    &&& r.provenance.source == crate::provenance::SourceKind::Agent
    &&& r.provenance.actor_id is None
    &&& r.provenance.recorded_at == now
    &&& r.valid_from is None
    &&& r.valid_to is None
    &&& r.status == MemoryStatus::Active
    &&& r.version == 1
    &&& r.supersedes is None
    &&& r.created_at == now
    &&& r.updated_at == now
}

/// `r` is `cur` carrying `payload` in place of its structure, one
/// revision later, touched at `now`.
pub open spec fn revised(r: RecordView, cur: RecordView, payload: PayloadView, now: int) -> bool {
    r == RecordView {
        content: content::ContentView { structured: Some(payload), ..cur.content },
        version: next_version(cur.version),
        updated_at: now as i64,
        ..cur
    }
}

/// The active procedures in force at `now`, in order.
pub open spec fn in_force(rs: Seq<RecordView>, now: int) -> Seq<RecordView>
    decreases rs.len(),
{
    if rs.len() == 0 {
        Seq::empty()
    } else {
        let r = in_force(rs.drop_last(), now);
        let x = rs.last();
        if procedure_meta_view(x) matches Some(m) && m.state == ProcedureState::Active
            && procedural::procedure_effective_at(m, now) {
            r.push(x)
        } else {
            r
        }
    }
}

/// The goals among `rs` with their effective states at `now`, in order.
pub open spec fn goals_with_state(rs: Seq<RecordView>, now: int) -> Seq<(RecordView, EffectiveGoalState)>
    decreases rs.len(),
{
    if rs.len() == 0 {
        Seq::empty()
    } else {
        let r = goals_with_state(rs.drop_last(), now);
        match goal_meta_view(rs.last()) {
            Some(m) => r.push((rs.last(), prospective::effective_state_at(m, now))),
            None => r,
        }
    }
}

/// An open goal is due before `horizon` when it has expired, or when
/// it is not final and its deadline falls at or before the horizon.
pub open spec fn due_by(g: (RecordView, EffectiveGoalState), horizon: int) -> bool {
    match g.1 {
        EffectiveGoalState::Expired => true,
        EffectiveGoalState::Stored(state) => !prospective::goal_terminal(state) && (goal_meta_view(g.0) matches Some(
            m,
        ) && m.deadline matches Some(d) && d <= horizon),
    }
}

/// The due goals among `gs`, in order.
pub open spec fn due_goals(gs: Seq<(RecordView, EffectiveGoalState)>, horizon: int) -> Seq<RecordView>
    decreases gs.len(),
{
    if gs.len() == 0 {
        Seq::empty()
    } else {
        let r = due_goals(gs.drop_last(), horizon);
        if due_by(gs.last(), horizon) {
            r.push(gs.last().0)
        } else {
            r
        }
    }
}

/// What the due-goal lookup returns for a clock reading `now`: the due
/// goals when the horizon `now + within` is an instant, and the horizon
/// error exactly when it is not.
pub open spec fn due_outcome(
    records: Seq<RecordView>,
    scope: MemoryScope,
    within: int,
    now: int,
    r: MemoryResult<Vec<MemoryRecord>>,
) -> bool {
    match r {
        Ok(v) => i64::MIN <= now + within <= i64::MAX && store::record_views(v@) == due_goals(
            goals_with_state(store::query_spec(records, live_of_type(scope, MemoryType::Prospective, 100), now), now),
            now + within,
        ),
        Err(e) => !(i64::MIN <= now + within <= i64::MAX) && error::is_validation(
            e,
            "within"@,
            "horizon out of range"@,
        ),
    }
}

/// The query for live documents of one type in `scope`.
pub open spec fn live_of_type(scope: MemoryScope, t: MemoryType, limit: u32) -> query::QueryView {
    query::QueryView {
        scope,
        memory_types: seq![t],
        statuses: seq![MemoryStatus::Active],
        subject: None,
        text: None,
        valid_at: None,
        limit,
    }
}

/// Views of records paired with goal states.
pub open spec fn goal_pair_views(v: Seq<(MemoryRecord, EffectiveGoalState)>) -> Seq<(RecordView, EffectiveGoalState)> {
    v.map_values(|p: (MemoryRecord, EffectiveGoalState)| (p.0@, p.1))
}

fn live_query(scope: &MemoryScope, t: MemoryType, limit: u32) -> (q: MemoryQuery)
    ensures
        q@ == live_of_type(*scope, t, limit),
{
    let mut types: Vec<MemoryType> = Vec::new();
    types.push(t);
    let mut statuses: Vec<MemoryStatus> = Vec::new();
    statuses.push(MemoryStatus::Active);
    let q = MemoryQuery { scope: scope.clone(), memory_types: types, statuses, subject: None, text: None, valid_at: None, limit };
    assert(q@ =~= live_of_type(*scope, t, limit));
    q
}

impl MemoryEngine {
    /// Publishes a new procedure document in DRAFT state with identity
    /// `id`, stamped `now`.
    pub fn publish_procedure_at(
        &mut self,
        text: &str,
        owner: &str,
        compatibility: Option<String>,
        scope: MemoryScope,
        id: MemoryId,
        now: i64,
    ) -> (r: MemoryResult<MemoryRecord>)
        requires
            old(self).wf(),
        ensures
            final(self).wf(),
            final(self).config_spec() == old(self).config_spec(),
            r matches Ok(saved) && procedure_meta_view(saved@) matches Some(m) && m.state == ProcedureState::Draft
                && m.owner@ == owner@ && m.compatibility == compatibility && m.effective_from is None
                && m.effective_to is None && governed_document(
                saved@,
                MemoryType::Procedural,
                "procedure"@,
                text@,
                scope,
                PayloadView::Procedure(m),
                id,
                now as int,
            ) && final(self).records() == store::upsert_spec(old(self).records(), saved@),
    {
        let meta = ProcedureMetadata {
            state: ProcedureState::Draft,
            owner: String::from_str(owner),
            compatibility,
            effective_from: None,
            effective_to: None,
        };
        let request = RememberRequest::new(MemoryType::Procedural, text).with_subtype("procedure").with_scope(scope);
        let record = request.into_record_at(self.config.default_scope.clone(), id, now);
        let structured = ProcedureView::into_content(&meta);
        let record = MemoryRecord {
            content: MemoryContent { structured: Some(structured), ..record.content },
            ..record
        };
        self.store.put(&record)
    }

    /// Publishes a new procedure document in DRAFT state, now.
    pub fn publish_procedure(&mut self, text: &str, owner: &str, compatibility: Option<String>, scope: MemoryScope) -> (r:
        MemoryResult<MemoryRecord>)
        requires
            old(self).wf(),
        ensures
            final(self).wf(),
            final(self).config_spec() == old(self).config_spec(),
            r matches Ok(saved) && procedure_meta_view(saved@) matches Some(m) && m.state == ProcedureState::Draft
                && m.owner@ == owner@ && m.compatibility == compatibility && m.effective_from is None
                && m.effective_to is None && governed_document(
                saved@,
                MemoryType::Procedural,
                "procedure"@,
                text@,
                scope,
                PayloadView::Procedure(m),
                saved.id,
                saved.created_at as int,
            ) && final(self).records() == store::upsert_spec(old(self).records(), saved@),
    {
        let id = MemoryId::generate();
        let now = temporal::now_millis();
        self.publish_procedure_at(text, owner, compatibility, scope, id, now)
    }

    /// Moves a procedure to the next lifecycle state at `now` after
    /// validating the transition; the revision bumps and the rest of the
    /// record is kept.
    pub fn transition_procedure_at(&mut self, id: MemoryId, next: ProcedureState, now: i64) -> (r: MemoryResult<
        MemoryRecord,
    >)
        requires
            old(self).wf(),
        ensures
            final(self).wf(),
            final(self).config_spec() == old(self).config_spec(),
            match store::stored_record(old(self).records(), id) {
                None => r == MemoryResult::<MemoryRecord>::Err(MemoryError::NotFound { memory_id: id })
                    && final(self).records() == old(self).records(),
                Some(cur) => match procedure_meta_view(cur) {
                    None => (r matches Err(e) && error::is_validation(
                        e,
                        "memory_type"@,
                        "not a procedural memory"@,
                    )) && final(self).records() == old(self).records(),
                    Some(m) => if !procedural::procedure_edge(m.state, next) {
                        (r matches Err(e) && error::is_validation(
                            e,
                            "procedure_state"@,
                            procedural::illegal_transition_message(
                                procedural::procedure_state_name(m.state),
                                procedural::procedure_state_name(next),
                            ),
                        )) && final(self).records() == old(self).records()
                    } else {
                        r matches Ok(u) && revised(
                            u@,
                            cur,
                            PayloadView::Procedure(ProcedureMetadata { state: next, ..m }),
                            now as int,
                        ) && final(self).records() == store::upsert_spec(old(self).records(), u@)
                    },
                },
            },
    {
        let everywhere = MemoryScope::empty();
        proof {
            let rs = self.records();
            if let Some(i) = store::position_of(rs, id) {
                scope::lemma_empty_scope_contains_all(everywhere@, rs[i].scope@);
            }
        }
        let current = match self.store.get(&id, &everywhere) {
            Ok(Some(c)) => c,
            Ok(None) => return Err(MemoryError::NotFound { memory_id: id }),
            Err(e) => return Err(e),
        };
        let meta = match ProcedureView::from_record(&current) {
            Some(view) => view.metadata().clone(),
            None => return Err(MemoryError::validation("memory_type", "not a procedural memory")),
        };
        match procedural::validate_transition(meta.state, next) {
            Ok(_) => {},
            Err(e) => return Err(e),
        }
        let updated_meta = ProcedureMetadata { state: next, ..meta };
        let version = if current.version == u64::MAX {
            0
        } else {
            current.version + 1
        };
        let structured = ProcedureView::into_content(&updated_meta);
        let ghost cur_view = current@;
        let updated = MemoryRecord {
            content: MemoryContent { structured: Some(structured), ..current.content },
            version,
            updated_at: now,
            ..current
        };
        assert(updated@.content =~= (content::ContentView { structured: Some(PayloadView::Procedure(updated_meta)), ..cur_view.content }));
        self.store.update(&updated)
    }

    /// Moves a procedure to the next lifecycle state now.
    pub fn transition_procedure(&mut self, id: MemoryId, next: ProcedureState) -> (r: MemoryResult<MemoryRecord>)
        requires
            old(self).wf(),
        ensures
            final(self).wf(),
            final(self).config_spec() == old(self).config_spec(),
            match store::stored_record(old(self).records(), id) {
                None => r == MemoryResult::<MemoryRecord>::Err(MemoryError::NotFound { memory_id: id })
                    && final(self).records() == old(self).records(),
                Some(cur) => match procedure_meta_view(cur) {
                    None => (r matches Err(e) && error::is_validation(
                        e,
                        "memory_type"@,
                        "not a procedural memory"@,
                    )) && final(self).records() == old(self).records(),
                    Some(m) => if !procedural::procedure_edge(m.state, next) {
                        (r matches Err(e) && error::is_validation(
                            e,
                            "procedure_state"@,
                            procedural::illegal_transition_message(
                                procedural::procedure_state_name(m.state),
                                procedural::procedure_state_name(next),
                            ),
                        )) && final(self).records() == old(self).records()
                    } else {
                        r matches Ok(u) && revised(
                            u@,
                            cur,
                            PayloadView::Procedure(ProcedureMetadata { state: next, ..m }),
                            u.updated_at as int,
                        ) && final(self).records() == store::upsert_spec(old(self).records(), u@)
                    },
                },
            },
    {
        let now = temporal::now_millis();
        self.transition_procedure_at(id, next, now)
    }

    /// Active procedures in `scope` in force at `now`: among the first
    /// fifty active procedural records, those whose document is ACTIVE
    /// and whose effectiveness window holds `now`.
    pub fn recall_active_procedures_at(&self, scope: &MemoryScope, now: i64) -> (r: MemoryResult<Vec<MemoryRecord>>)
        requires
            self.wf(),
        ensures
            r matches Ok(v) && store::record_views(v@) == in_force(
                store::query_spec(self.records(), live_of_type(*scope, MemoryType::Procedural, 50), now as int),
                now as int,
            ),
    {
        let q = live_query(scope, MemoryType::Procedural, 50);
        let hits = match self.store.query_at(&q, now) {
            Ok(h) => h,
            Err(e) => return Err(e),
        };
        let ghost hv = store::record_views(hits@);
        let mut out: Vec<MemoryRecord> = Vec::new();
        let mut i: usize = 0;
        while i < hits.len()
            invariant
                i <= hits@.len(),
                hv == store::record_views(hits@),
                store::record_views(out@) == in_force(hv.take(i as int), now as int),
            decreases hits@.len() - i,
        {
            let h = &hits[i];
            assert(hv.take(i + 1).drop_last() =~= hv.take(i as int));
            assert(hv.take(i + 1).last() == h@);
            let keep = match ProcedureView::from_record(h) {
                Some(view) => view.state().is_operative() && view.is_effective_at(now),
                None => false,
            };
            let ghost o0 = store::record_views(out@);
            if keep {
                out.push(h.clone());
                assert(store::record_views(out@) =~= o0.push(h@));
            }
            i = i + 1;
        }
        assert(hv.take(hits@.len() as int) =~= hv);
        Ok(out)
    }

    /// Active procedures in `scope` in force now.
    pub fn recall_active_procedures(&self, scope: &MemoryScope) -> (r: MemoryResult<Vec<MemoryRecord>>)
        requires
            self.wf(),
        ensures
            r matches Ok(v) && exists|now: int|
                store::record_views(v@) == #[trigger] in_force(
                    store::query_spec(self.records(), live_of_type(*scope, MemoryType::Procedural, 50), now),
                    now,
                ),
    {
        let now = temporal::now_millis();
        self.recall_active_procedures_at(scope, now)
    }

    /// Records a new commitment in PLANNED state with identity `id`,
    /// stamped `now`.
    pub fn record_goal_at(
        &mut self,
        text: &str,
        deadline: Option<i64>,
        dependencies: Vec<MemoryId>,
        trigger_description: Option<String>,
        completion_criteria: Option<String>,
        scope: MemoryScope,
        id: MemoryId,
        now: i64,
    ) -> (r: MemoryResult<MemoryRecord>)
        requires
            old(self).wf(),
        ensures
            final(self).wf(),
            final(self).config_spec() == old(self).config_spec(),
            r matches Ok(saved) && governed_document(
                saved@,
                MemoryType::Prospective,
                "goal"@,
                text@,
                scope,
                PayloadView::Goal(
                    GoalMetadataView {
                        state: GoalState::Planned,
                        deadline,
                        dependencies: dependencies@,
                        trigger_description,
                        completion_criteria,
                    },
                ),
                id,
                now as int,
            ) && final(self).records() == store::upsert_spec(old(self).records(), saved@),
    {
        let meta = GoalMetadata { state: GoalState::Planned, deadline, dependencies, trigger_description, completion_criteria };
        let request = RememberRequest::new(MemoryType::Prospective, text).with_subtype("goal").with_scope(scope);
        let record = request.into_record_at(self.config.default_scope.clone(), id, now);
        let structured = GoalView::into_content(meta);
        let record = MemoryRecord {
            content: MemoryContent { structured: Some(structured), ..record.content },
            ..record
        };
        self.store.put(&record)
    }

    /// Records a new commitment in PLANNED state, now.
    pub fn record_goal(
        &mut self,
        text: &str,
        deadline: Option<i64>,
        dependencies: Vec<MemoryId>,
        trigger_description: Option<String>,
        completion_criteria: Option<String>,
        scope: MemoryScope,
    ) -> (r: MemoryResult<MemoryRecord>)
        requires
            old(self).wf(),
        ensures
            final(self).wf(),
            final(self).config_spec() == old(self).config_spec(),
            r matches Ok(saved) && governed_document(
                saved@,
                MemoryType::Prospective,
                "goal"@,
                text@,
                scope,
                PayloadView::Goal(
                    GoalMetadataView {
                        state: GoalState::Planned,
                        deadline,
                        dependencies: dependencies@,
                        trigger_description,
                        completion_criteria,
                    },
                ),
                saved.id,
                saved.created_at as int,
            ) && final(self).records() == store::upsert_spec(old(self).records(), saved@),
    {
        let id = MemoryId::generate();
        let now = temporal::now_millis();
        self.record_goal_at(text, deadline, dependencies, trigger_description, completion_criteria, scope, id, now)
    }

    /// Moves a goal through its lifecycle at `now` after validating the
    /// transition; final states are final.
    pub fn transition_goal_at(&mut self, id: MemoryId, next: GoalState, now: i64) -> (r: MemoryResult<MemoryRecord>)
        requires
            old(self).wf(),
        ensures
            final(self).wf(),
            final(self).config_spec() == old(self).config_spec(),
            match store::stored_record(old(self).records(), id) {
                None => r == MemoryResult::<MemoryRecord>::Err(MemoryError::NotFound { memory_id: id })
                    && final(self).records() == old(self).records(),
                Some(cur) => match goal_meta_view(cur) {
                    None => (r matches Err(e) && error::is_validation(
                        e,
                        "memory_type"@,
                        "not a prospective memory"@,
                    )) && final(self).records() == old(self).records(),
                    Some(m) => if !prospective::goal_edge(m.state, next) {
                        (r matches Err(e) && error::is_validation(
                            e,
                            "goal_state"@,
                            "illegal transition "@ + prospective::goal_state_name(m.state) + " -> "@
                                + prospective::goal_state_name(next),
                        )) && final(self).records() == old(self).records()
                    } else {
                        r matches Ok(u) && revised(
                            u@,
                            cur,
                            PayloadView::Goal(GoalMetadataView { state: next, ..m }),
                            now as int,
                        ) && final(self).records() == store::upsert_spec(old(self).records(), u@)
                    },
                },
            },
    {
        let everywhere = MemoryScope::empty();
        proof {
            let rs = self.records();
            if let Some(i) = store::position_of(rs, id) {
                scope::lemma_empty_scope_contains_all(everywhere@, rs[i].scope@);
            }
        }
        let current = match self.store.get(&id, &everywhere) {
            Ok(Some(c)) => c,
            Ok(None) => return Err(MemoryError::NotFound { memory_id: id }),
            Err(e) => return Err(e),
        };
        let meta = match GoalView::from_record(&current) {
            Some(view) => view.metadata().clone(),
            None => return Err(MemoryError::validation("memory_type", "not a prospective memory")),
        };
        match prospective::validate_transition(meta.state, next) {
            Ok(_) => {},
            Err(e) => return Err(e),
        }
        let updated_meta = GoalMetadata { state: next, ..meta };
        let version = if current.version == u64::MAX {
            0
        } else {
            current.version + 1
        };
        let ghost cur_view = current@;
        let ghost mv = updated_meta@;
        let structured = GoalView::into_content(updated_meta);
        let updated = MemoryRecord {
            content: MemoryContent { structured: Some(structured), ..current.content },
            version,
            updated_at: now,
            ..current
        };
        assert(updated@.content =~= (content::ContentView { structured: Some(PayloadView::Goal(mv)), ..cur_view.content }));
        self.store.update(&updated)
    }

    /// Moves a goal through its lifecycle now.
    pub fn transition_goal(&mut self, id: MemoryId, next: GoalState) -> (r: MemoryResult<MemoryRecord>)
        requires
            old(self).wf(),
        ensures
            final(self).wf(),
            final(self).config_spec() == old(self).config_spec(),
            match store::stored_record(old(self).records(), id) {
                None => r == MemoryResult::<MemoryRecord>::Err(MemoryError::NotFound { memory_id: id })
                    && final(self).records() == old(self).records(),
                Some(cur) => match goal_meta_view(cur) {
                    None => (r matches Err(e) && error::is_validation(
                        e,
                        "memory_type"@,
                        "not a prospective memory"@,
                    )) && final(self).records() == old(self).records(),
                    Some(m) => if !prospective::goal_edge(m.state, next) {
                        (r matches Err(e) && error::is_validation(
                            e,
                            "goal_state"@,
                            "illegal transition "@ + prospective::goal_state_name(m.state) + " -> "@
                                + prospective::goal_state_name(next),
                        )) && final(self).records() == old(self).records()
                    } else {
                        r matches Ok(u) && revised(
                            u@,
                            cur,
                            PayloadView::Goal(GoalMetadataView { state: next, ..m }),
                            u.updated_at as int,
                        ) && final(self).records() == store::upsert_spec(old(self).records(), u@)
                    },
                },
            },
    {
        let now = temporal::now_millis();
        self.transition_goal_at(id, next, now)
    }

    /// Open commitments in `scope` (among the first hundred active
    /// prospective records) with their effective states at `now`; an
    /// expired state is derived, never stored.
    pub fn recall_open_goals_at(&self, scope: &MemoryScope, now: i64) -> (r: MemoryResult<
        Vec<(MemoryRecord, EffectiveGoalState)>,
    >)
        requires
            self.wf(),
        ensures
            r matches Ok(v) && goal_pair_views(v@) == goals_with_state(
                store::query_spec(self.records(), live_of_type(*scope, MemoryType::Prospective, 100), now as int),
                now as int,
            ),
    {
        let q = live_query(scope, MemoryType::Prospective, 100);
        let hits = match self.store.query_at(&q, now) {
            Ok(h) => h,
            Err(e) => return Err(e),
        };
        let ghost hv = store::record_views(hits@);
        let mut out: Vec<(MemoryRecord, EffectiveGoalState)> = Vec::new();
        let mut i: usize = 0;
        while i < hits.len()
            invariant
                i <= hits@.len(),
                hv == store::record_views(hits@),
                goal_pair_views(out@) == goals_with_state(hv.take(i as int), now as int),
            decreases hits@.len() - i,
        {
            let h = &hits[i];
            assert(hv.take(i + 1).drop_last() =~= hv.take(i as int));
            assert(hv.take(i + 1).last() == h@);
            let ghost o0 = goal_pair_views(out@);
            match GoalView::from_record(h) {
                Some(view) => {
                    let state = view.metadata().effective_state(now);
                    out.push((h.clone(), state));
                    assert(goal_pair_views(out@) =~= o0.push((h@, state)));
                },
                None => {},
            }
            i = i + 1;
        }
        assert(hv.take(hits@.len() as int) =~= hv);
        Ok(out)
    }

    /// Open goals due within `within_ms` of `now`, including already
    /// expired ones.
    pub fn recall_due_goals_at(&self, scope: &MemoryScope, within_ms: i64, now: i64) -> (r: MemoryResult<
        Vec<MemoryRecord>,
    >)
        requires
            self.wf(),
            i64::MIN <= now + within_ms <= i64::MAX,
        ensures
            r matches Ok(v) && store::record_views(v@) == due_goals(
                goals_with_state(
                    store::query_spec(
                        self.records(),
                        live_of_type(*scope, MemoryType::Prospective, 100),
                        now as int,
                    ),
                    now as int,
                ),
                now + within_ms,
            ),
    {
        let horizon = now + within_ms;
        let open = match self.recall_open_goals_at(scope, now) {
            Ok(v) => v,
            Err(e) => return Err(e),
        };
        let ghost gv = goal_pair_views(open@);
        let mut out: Vec<MemoryRecord> = Vec::new();
        let mut i: usize = 0;
        while i < open.len()
            invariant
                i <= open@.len(),
                gv == goal_pair_views(open@),
                horizon == now + within_ms,
                store::record_views(out@) == due_goals(gv.take(i as int), horizon as int),
            decreases open@.len() - i,
        {
            let (rec, effective) = (&open[i].0, open[i].1);
            assert(gv.take(i + 1).drop_last() =~= gv.take(i as int));
            assert(gv.take(i + 1).last() == (rec@, effective));
            let due = match effective {
                EffectiveGoalState::Expired => true,
                EffectiveGoalState::Stored(state) => {
                    !state.is_terminal() && match GoalView::from_record(rec) {
                        Some(view) => match view.metadata().deadline {
                            Some(d) => d <= horizon,
                            None => false,
                        },
                        None => false,
                    }
                },
            };
            let ghost o0 = store::record_views(out@);
            if due {
                out.push(rec.clone());
                assert(store::record_views(out@) =~= o0.push(rec@));
            }
            i = i + 1;
        }
        assert(gv.take(open@.len() as int) =~= gv);
        Ok(out)
    }

    /// Open commitments in `scope` with their effective states now.
    pub fn recall_open_goals(&self, scope: &MemoryScope) -> (r: MemoryResult<Vec<(MemoryRecord, EffectiveGoalState)>>)
        requires
            self.wf(),
        ensures
            r matches Ok(v) && exists|now: int|
                goal_pair_views(v@) == #[trigger] goals_with_state(
                    store::query_spec(self.records(), live_of_type(*scope, MemoryType::Prospective, 100), now),
                    now,
                ),
    {
        let now = temporal::now_millis();
        self.recall_open_goals_at(scope, now)
    }

    /// Open goals due within `within_ms` from now, including already
    /// expired ones. A horizon beyond the range of instants is refused.
    pub fn recall_due_goals(&self, scope: &MemoryScope, within_ms: i64) -> (r: MemoryResult<Vec<MemoryRecord>>)
        requires
            self.wf(),
        ensures
            exists|now: int| i64::MIN <= now <= i64::MAX && #[trigger] due_outcome(self.records(), *scope, within_ms as int, now, r),
    {
        let now = temporal::now_millis();
        let r = match now.checked_add(within_ms) {
            Some(_) => self.recall_due_goals_at(scope, within_ms, now),
            None => Err(MemoryError::validation("within", "horizon out of range")),
        };
        assert(due_outcome(self.records(), *scope, within_ms as int, now as int, r));
        r
    }
}

/// A remembered record is found again by id from exactly the scopes
/// that contain its own.
pub proof fn lemma_remember_then_recall(rs: Seq<RecordView>, saved: RecordView, scope: MemoryScope)
    requires
        store::ids_unique(rs),
    ensures
        store::get_spec(store::upsert_spec(rs, saved), saved.id, scope) == (if scope::scope_contains(
            scope@,
            saved.scope@,
        ) {
            Some(saved)
        } else {
            None
        }),
{
    store::lemma_upsert_stores(rs, saved);
}

/// Scope isolation: exact lookup never returns a record from outside
/// the caller's scope.
pub proof fn lemma_recall_respects_scope(rs: Seq<RecordView>, id: MemoryId, scope: MemoryScope)
    ensures
        store::get_spec(rs, id, scope) matches Some(x) ==> scope::scope_contains(scope@, x.scope@) && x.id == id,
{
    if let Some(i) = store::position_of(rs, id) {
        assert(rs[i].id == id);
    }
}

/// An update keeps history: the predecessor is retired (superseded) and
/// still addressable, the successor is active and points back at it,
/// and the history of the successor is exactly the predecessor followed
/// by the successor when the predecessor started its own chain.
pub proof fn lemma_update_keeps_history(
    rs: Seq<RecordView>,
    req: UpdateRequest,
    next: RecordView,
    successor_id: MemoryId,
    now: int,
)
    requires
        store::ids_unique(rs),
        store::get_spec(rs, req.id, req.scope) is Some,
        store::stored_record(rs, successor_id) is None,
        updated_successor(next, store::get_spec(rs, req.id, req.scope)->0, req, successor_id, now),
    ensures
        ({
            let prev = store::get_spec(rs, req.id, req.scope)->0;
            let after = store::upsert_spec(store::upsert_spec(rs, next), retired(prev, now));
            &&& store::ids_unique(after)
            &&& store::get_spec(after, req.id, req.scope) == Some(retired(prev, now))
            &&& store::get_spec(after, successor_id, req.scope) == Some(next)
            &&& next.supersedes == Some(prev.id)
            &&& next.status == MemoryStatus::Active
            &&& (prev.supersedes is None ==> history_spec(after, successor_id, req.scope) == seq![
                retired(prev, now),
                next,
            ])
        }),
{
    let prev = store::get_spec(rs, req.id, req.scope)->0;
    let i = store::position_of(rs, req.id)->0;
    assert(rs[i].id == req.id);
    assert(prev.id == req.id);
    let mid = store::upsert_spec(rs, next);
    store::lemma_upsert_stores(rs, next);
    assert(next.id != prev.id);
    assert(store::stored_record(mid, prev.id) == store::stored_record(rs, prev.id));
    let r2 = retired(prev, now);
    let after = store::upsert_spec(mid, r2);
    store::lemma_upsert_stores(mid, r2);
    assert(store::stored_record(after, next.id) == store::stored_record(mid, next.id));
    let p2 = store::position_of(after, req.id)->0;
    let n2 = store::position_of(after, successor_id)->0;
    assert(after[p2] == r2);
    assert(after[n2] == next);
    assert(store::get_spec(after, req.id, req.scope) == Some(r2));
    assert(next.scope == prev.scope);
    assert(store::get_spec(after, successor_id, req.scope) == Some(next));
    if prev.supersedes is None {
        assert(after.len() >= 1);
        let fuel = after.len();
        assert(fuel > 0);
        assert(back_chain(after, r2, req.scope, (fuel - 1) as nat) == seq![r2]);
        assert(back_chain(after, next, req.scope, fuel) == seq![next] + seq![r2]);
        assert((seq![next] + seq![r2]).reverse() =~= seq![r2, next]);
    }
}

/// Forgetting tombstones: the record stays addressable with status
/// `Deleted`, so forgetting it again changes nothing.
pub proof fn lemma_forget_tombstones(rs: Seq<RecordView>, id: MemoryId, scope: MemoryScope, now: int)
    requires
        store::ids_unique(rs),
        store::get_spec(rs, id, scope) is Some,
    ensures
        ({
            let rec = store::get_spec(rs, id, scope)->0;
            let after = store::upsert_spec(rs, tombstoned(rec, now));
            &&& store::ids_unique(after)
            &&& store::get_spec(after, id, scope) == Some(tombstoned(rec, now))
            &&& tombstoned(rec, now).status == MemoryStatus::Deleted
        }),
{
    let rec = store::get_spec(rs, id, scope)->0;
    let i = store::position_of(rs, id)->0;
    assert(rs[i].id == id);
    store::lemma_upsert_stores(rs, tombstoned(rec, now));
}

/// Purging physically removes: afterwards the record is gone for the
/// scope that purged it, and a purge from a scope that cannot see the
/// record changes nothing.
pub proof fn lemma_purge_removes(rs: Seq<RecordView>, id: MemoryId, scope: MemoryScope)
    requires
        store::ids_unique(rs),
    ensures
        store::get_spec(store::delete_spec(rs, id, scope), id, scope) is None,
        store::get_spec(rs, id, scope) is None ==> store::delete_spec(rs, id, scope) == rs,
{
    match store::position_of(rs, id) {
        Some(i) => {
            assert(rs[i].id == id);
            if scope::scope_contains(scope@, rs[i].scope@) {
                let r = rs.remove(i);
                assert forall|k: int| 0 <= k < r.len() implies (#[trigger] r[k]).id != id by {
                    let k2 = if k < i { k } else { k + 1 };
                    assert(r[k] == rs[k2]);
                }
            }
        },
        None => {},
    }
}

proof fn lemma_matching_members(rs: Seq<RecordView>, q: query::QueryView, at: int)
    ensures
        forall|k: int|
            0 <= k < store::matching(rs, q, at).len() ==> store::record_matches(
                q,
                #[trigger] store::matching(rs, q, at)[k],
                at,
            ) && rs.contains(store::matching(rs, q, at)[k]),
    decreases rs.len(),
{
    if rs.len() > 0 {
        let p = rs.drop_last();
        lemma_matching_members(p, q, at);
        let m = store::matching(p, q, at);
        assert forall|k: int| 0 <= k < store::matching(rs, q, at).len() implies store::record_matches(
            q,
            #[trigger] store::matching(rs, q, at)[k],
            at,
        ) && rs.contains(store::matching(rs, q, at)[k]) by {
            let x = store::matching(rs, q, at)[k];
            if k < m.len() {
                assert(x == m[k]);
                let j = choose|j: int| 0 <= j < p.len() && p[j] == x;
                assert(rs[j] == x);
            } else {
                assert(x == rs.last());
                assert(rs[rs.len() - 1] == x);
            }
        }
    }
}

/// Every search hit is a stored record that passes the query: in
/// particular, retired records never surface in a search for active
/// records only, and nothing outside the query's scope surfaces.
pub proof fn lemma_query_hits_match(rs: Seq<RecordView>, q: query::QueryView, at: int)
    ensures
        forall|k: int|
            0 <= k < store::query_spec(rs, q, at).len() ==> store::record_matches(
                q,
                #[trigger] store::query_spec(rs, q, at)[k],
                at,
            ) && rs.contains(store::query_spec(rs, q, at)[k]),
        store::query_spec(rs, q, at).len() <= q.limit,
{
    lemma_matching_members(rs, q, at);
    let m = store::matching(rs, q, at);
    assert forall|k: int| 0 <= k < store::query_spec(rs, q, at).len() implies store::record_matches(
        q,
        #[trigger] store::query_spec(rs, q, at)[k],
        at,
    ) && rs.contains(store::query_spec(rs, q, at)[k]) by {
        assert(store::query_spec(rs, q, at)[k] == m[k]);
    }
}


proof fn lemma_matching_complete(rs: Seq<RecordView>, q: query::QueryView, at: int, x: RecordView)
    ensures
        rs.contains(x) && store::record_matches(q, x, at) ==> store::matching(rs, q, at).contains(x),
    decreases rs.len(),
{
    if rs.len() > 0 && rs.contains(x) && store::record_matches(q, x, at) {
        let p = rs.drop_last();
        let m = store::matching(p, q, at);
        if x == rs.last() {
            assert(store::matching(rs, q, at) == m.push(x));
            assert(m.push(x)[m.len() as int] == x);
        } else {
            let k = choose|k: int| 0 <= k < rs.len() && rs[k] == x;
            assert(p[k] == x);
            lemma_matching_complete(p, q, at, x);
            let j = choose|j: int| 0 <= j < m.len() && m[j] == x;
            if store::record_matches(q, rs.last(), at) {
                assert(m.push(rs.last())[j] == x);
            }
        }
    }
}

/// What a search promises of each hit, filter by filter: it is a stored
/// record visible from the query's scope; of a listed type (or any type
/// when none is listed); of a listed status; when the query is anchored
/// on a subject, about a subject with that subject's canonical key; when
/// the query has a keyword, containing it case-insensitively; and valid
/// at the query instant. When fewer records pass than the limit allows,
/// every stored record that passes is a hit.
pub proof fn lemma_search_hits_honour_filters(rs: Seq<RecordView>, q: query::QueryView, at: int)
    ensures
        forall|k: int|
            #![trigger store::query_spec(rs, q, at)[k]]
            0 <= k < store::query_spec(rs, q, at).len() ==> {
                let h = store::query_spec(rs, q, at)[k];
                &&& rs.contains(h)
                &&& scope::scope_contains(q.scope@, h.scope@)
                &&& (q.memory_types.len() == 0 || q.memory_types.contains(h.memory_type))
                &&& q.statuses.contains(h.status)
                &&& (q.subject matches Some(s) ==> (h.subject matches Some(x) && x.key() == s.key()))
                &&& (q.text matches Some(t) ==> text::contains_spec(
                    text::str_lowercase(h.content.text@),
                    text::str_lowercase(t@),
                ))
                &&& temporal::window_contains(record::validity_of(h), at)
            },
        store::matching(rs, q, at).len() <= q.limit ==> forall|x: RecordView|
            rs.contains(x) && store::record_matches(q, x, at) ==> #[trigger] store::query_spec(
                rs,
                q,
                at,
            ).contains(x),
{
    lemma_query_hits_match(rs, q, at);
    assert forall|x: RecordView| store::matching(rs, q, at).len() <= q.limit && rs.contains(x)
        && store::record_matches(q, x, at) implies #[trigger] store::query_spec(rs, q, at).contains(
        x,
    ) by {
        lemma_matching_complete(rs, q, at, x);
    }
}

} // verus!
