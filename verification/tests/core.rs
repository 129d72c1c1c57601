use barq_memory::assembly::{describe_store, describe_vector, describe_working, ensure_satisfiable, AssemblyPlan};
use barq_memory::audit::InMemoryAuditor;
use barq_memory::authz::{Principal, ScopeAuthorizer};
use barq_memory::config::{EngineConfig, StoreConfig, VectorStoreConfig, WorkingStoreConfig};
use barq_memory::engine::{intersect_or_fail, MemoryEngine};
use barq_memory::episodic::{Episode, EpisodeQuery, InMemoryEpisodeStore};
use barq_memory::error::MemoryError;
use barq_memory::graph::{EntityKey, InMemoryGraphStore, Relation};
use barq_memory::id::MemoryId;
use barq_memory::lifecycle::ARCHIVE_GRACE_MS;
use barq_memory::procedural::{ProcedureState, ProcedureView};
use barq_memory::prospective::{EffectiveGoalState, GoalState, GoalView};
use barq_memory::provenance::{RetentionClass, RetentionPolicy, SourceKind};
use barq_memory::query::MemoryQuery;
use barq_memory::registry::{ProviderCapability, ProviderRegistry};
use barq_memory::requests::{RememberRequest, UpdateRequest};
use barq_memory::scope::{MemoryScope, MemoryScopeBuilder};
use barq_memory::taxonomy::{MemoryStatus, MemoryType};

/// The wall clock in milliseconds since the Unix epoch.
fn now_millis() -> i64 {
    chrono::Utc::now().timestamp_millis()
}

const DAY: i64 = 86_400_000;

#[derive(Debug, PartialEq)]
struct Handle(&'static str);

type Registry = ProviderRegistry<Handle, Handle, Handle>;

fn embedded() -> MemoryEngine {
    MemoryEngine::from_config(EngineConfig::default()).expect("engine")
}

fn any_scope() -> MemoryScope {
    MemoryScope::default()
}

// ---------------------------------------------------------------- assembly

#[test]
fn store_is_always_required() {
    let plan = AssemblyPlan::from_config(&EngineConfig::default());
    assert_eq!(plan.required, vec![ProviderCapability::Store]);
}

#[test]
fn configured_optional_backends_become_required() {
    let mut config = EngineConfig::default();
    config.vector = Some(VectorStoreConfig::InMemory);
    config.working = Some(WorkingStoreConfig::InProcess);

    let plan = AssemblyPlan::from_config(&config);
    assert!(plan.required.contains(&ProviderCapability::Vector));
    assert!(plan.required.contains(&ProviderCapability::Working));
}

#[test]
fn satisfiability_tracks_registry_state() {
    let mut reg: Registry = ProviderRegistry::new();
    let plan = AssemblyPlan::from_config(&EngineConfig::default());
    assert!(!plan.is_satisfiable(&reg));
    assert_eq!(plan.missing(&reg), vec![ProviderCapability::Store]);

    reg.register_store("mem", Handle("stub"));
    assert!(plan.is_satisfiable(&reg));
    assert!(plan.missing(&reg).is_empty());
}

#[test]
fn backend_descriptions_are_stable_labels() {
    assert_eq!(describe_store(&StoreConfig::Memory), "memory");
    assert_eq!(describe_store(&StoreConfig::Local { path: "/tmp/x".into() }), "local");
    assert_eq!(describe_vector(&VectorStoreConfig::InMemory), "in-memory");
    assert_eq!(describe_working(&WorkingStoreConfig::InProcess), "in-process");
}

#[test]
fn remaining_backend_labels() {
    assert_eq!(
        describe_store(&StoreConfig::Postgres { url: "postgres://h/db".into(), max_connections: 4 }),
        "postgres"
    );
    assert_eq!(describe_vector(&VectorStoreConfig::PgVector { url: "postgres://h/db".into() }), "pgvector");
    assert_eq!(describe_working(&WorkingStoreConfig::Redis { url: "redis://h".into() }), "redis");
}

#[test]
fn ensure_satisfiable_reports_first_missing_capability() {
    let mut config = EngineConfig::default();
    config.working = Some(WorkingStoreConfig::InProcess);
    let reg: Registry = ProviderRegistry::new();
    let err = ensure_satisfiable(&config, &reg).unwrap_err();
    match err {
        MemoryError::ProviderMissing { capability } => {
            assert!(capability == "store" || capability == "working");
        }
        other => panic!("unexpected error: {other:?}"),
    }

    let mut full: Registry = ProviderRegistry::new();
    full.register_store("s", Handle("s"));
    full.register_working("w", Handle("w"));
    assert!(ensure_satisfiable(&config, &full).is_ok());
}

// ---------------------------------------------------------------- registry

#[test]
fn first_registration_becomes_default() {
    let mut reg: Registry = ProviderRegistry::new();
    assert!(reg.is_empty());

    reg.register_store("primary", Handle("noop"));
    reg.register_store("replica", Handle("other"));
    assert_eq!(reg.len(), 2);

    let d = reg.default_store().expect("default");
    assert_eq!(d.0, "noop");
    assert_eq!(reg.named_store("replica").expect("named").0, "other");
    assert!(reg.named_store("absent").is_err());
}

#[test]
fn missing_capabilities_fail_with_provider_missing() {
    let reg: Registry = ProviderRegistry::new();
    let err = match reg.default_vector() {
        Err(e) => e,
        Ok(_) => panic!("expected missing vector capability"),
    };
    assert!(matches!(err, MemoryError::ProviderMissing { capability: "vector" }));
}

#[test]
fn set_default_requires_registered_name() {
    let mut reg: Registry = ProviderRegistry::new();
    reg.register_vector("v1", Handle("noop-vec"));

    assert!(reg.set_default(ProviderCapability::Vector, "nope").is_err());
    reg.set_default(ProviderCapability::Vector, "v1").expect("valid switch");

    reg.register_vector("v2", Handle("noop-vec"));
    reg.set_default(ProviderCapability::Vector, "v2").expect("switch again");
    assert_eq!(reg.default_vector().expect("resolve").0, "noop-vec");
}

#[test]
fn working_capability_resolves_after_registration() {
    let mut reg: Registry = ProviderRegistry::new();
    assert!(!reg.resolves_capability(ProviderCapability::Working));
    reg.register_working("w", Handle("w"));
    assert!(reg.default_working().is_ok());
    assert!(reg.resolves_capability(ProviderCapability::Working));
    assert!(!MemoryQuery::default().statuses.is_empty());
    assert_eq!(ProviderCapability::Working.as_str(), "working");
}

// ---------------------------------------------------------------- requests

#[test]
fn remember_request_rejects_empty_content() {
    let req = RememberRequest::new(MemoryType::Semantic, "   ");
    assert!(req.validated(&EngineConfig::default()).is_err());
}

#[test]
fn remember_request_enforces_content_budget() {
    let mut config = EngineConfig::default();
    config.limits.max_content_chars = 8;
    let req = RememberRequest::new(MemoryType::Semantic, "this is far too long");
    let err = req.validated(&config).unwrap_err();
    assert!(matches!(err, MemoryError::Validation { field: "content", .. }));
    assert_eq!(err.message(), "invalid content: exceeds max_content_chars (8)");
}

#[test]
fn into_record_applies_defaults_and_overrides() {
    let req = RememberRequest::new(MemoryType::Prospective, "renew cert")
        .with_subtype("commitment")
        .with_confidence(800_000)
        .from_source(SourceKind::User, "u-9");

    let record = req.into_record(MemoryScope::default());
    assert_eq!(record.memory_type, MemoryType::Prospective);
    assert_eq!(record.subtype.as_deref(), Some("commitment"));
    assert_eq!(record.confidence, 800_000);
    assert_eq!(record.provenance.source, SourceKind::User);
    assert_eq!(record.provenance.actor_id.as_deref(), Some("u-9"));
}

#[test]
fn into_record_falls_back_to_default_scope() {
    let default = MemoryScopeBuilder::new().tenant("acme").build();
    let req = RememberRequest::new(MemoryType::Semantic, "fact");
    let record = req.into_record(default.clone());
    assert_eq!(record.scope, default);
}

#[test]
fn into_record_at_stamps_identity_and_clamps_scores() {
    let req = RememberRequest::new(MemoryType::Semantic, "fact")
        .with_importance(5_000_000)
        .with_confidence(-3);
    let record = req.into_record_at(MemoryScope::default(), MemoryId::from_uuid(42), 1_000);
    assert_eq!(record.id, MemoryId::from_uuid(42));
    assert_eq!(record.created_at, 1_000);
    assert_eq!(record.importance, 1_000_000);
    assert_eq!(record.confidence, 0);
    assert_eq!(record.status, MemoryStatus::Active);
    assert_eq!(record.version, 1);
}

// ---------------------------------------------------------------- engine

#[test]
fn remember_then_search_roundtrip() {
    let mut engine = embedded();
    let saved = engine
        .remember(RememberRequest::new(MemoryType::Semantic, "Customer prefers email contact"))
        .expect("remember");

    let hits = engine.search(MemoryQuery::default().with_text("email")).expect("search");
    assert_eq!(hits.len(), 1);
    assert_eq!(hits[0].id, saved.id);
}

#[test]
fn search_limit_cannot_exceed_batch_ceiling() {
    let engine = embedded();
    let err = engine.search(MemoryQuery::default().with_limit(300)).unwrap_err();
    assert_eq!(err.message(), "invalid limit: exceeds engine max_batch_size (256)");
}

#[test]
fn update_creates_supersession_chain() {
    let mut engine = embedded();
    let v1 = engine
        .remember(RememberRequest::new(MemoryType::Semantic, "Atlas uses MySQL"))
        .expect("remember");

    let v2 = engine
        .update(UpdateRequest::content(v1.id, MemoryScope::default(), "Atlas uses PostgreSQL"))
        .expect("update");

    assert_eq!(v2.supersedes, Some(v1.id));

    let retired = engine.recall_exact(v1.id, &any_scope()).expect("get");
    assert_eq!(retired.unwrap().status, MemoryStatus::Superseded);

    let chain = engine.history(v2.id, &any_scope()).expect("history");
    assert_eq!(chain.len(), 2);
    assert_eq!(chain[0].content.text, "Atlas uses MySQL");
    assert_eq!(chain[1].content.text, "Atlas uses PostgreSQL");

    let hits = engine.search(MemoryQuery::default().with_text("MySQL")).expect("search");
    assert!(hits.is_empty());
}

#[test]
fn successor_ids_never_reuse_the_predecessors() {
    let mut engine = embedded();
    let id = MemoryId::from_uuid(0x10);
    engine.remember_at(RememberRequest::new(MemoryType::Semantic, "v1"), id, 1_000).unwrap();
    let next = engine
        .update_at(UpdateRequest::content(id, any_scope(), "v2"), id, 2_000)
        .unwrap();
    assert_eq!(next.id, MemoryId::from_uuid(0x11));
    assert_eq!(next.supersedes, Some(id));
    let chain = engine.history(next.id, &any_scope()).unwrap();
    assert_eq!(chain.len(), 2);
}

#[test]
fn update_of_unknown_record_is_not_found() {
    let mut engine = embedded();
    let missing = MemoryId::from_uuid(77);
    let err = engine
        .update(UpdateRequest::content(missing, any_scope(), "new text"))
        .unwrap_err();
    assert_eq!(err, MemoryError::NotFound { memory_id: missing });
    let err = engine.update(UpdateRequest::content(missing, any_scope(), " ")).unwrap_err();
    assert!(matches!(err, MemoryError::Validation { field: "content", .. }));
}

#[test]
fn forget_tombstones_but_keeps_record_addressable() {
    let mut engine = embedded();
    let r = engine
        .remember(RememberRequest::new(MemoryType::Episodic, "one-off event"))
        .expect("remember");

    assert!(engine.forget(r.id, &any_scope()).expect("forget"));
    let gone = engine.recall_exact(r.id, &any_scope()).expect("get").unwrap();
    assert_eq!(gone.status, MemoryStatus::Deleted);

    assert!(!engine.forget(r.id, &any_scope()).expect("forget again"));
}

#[test]
fn purge_physically_removes() {
    let mut engine = embedded();
    let r = engine
        .remember(RememberRequest::new(MemoryType::Working, "scratch"))
        .expect("remember");
    engine.purge(r.id, &any_scope()).expect("purge");
    assert!(engine.recall_exact(r.id, &any_scope()).expect("get").is_none());
}

#[test]
fn scope_isolation_hides_foreign_memories() {
    let mut engine = embedded();
    let acme = MemoryScopeBuilder::new().tenant("acme").build();
    let globex = MemoryScopeBuilder::new().tenant("globex").build();

    let r = engine
        .remember(RememberRequest::new(MemoryType::Semantic, "acme secret").with_scope(acme.clone()))
        .expect("remember");

    assert!(engine.recall_exact(r.id, &globex).expect("get").is_none());
    assert!(engine.recall_exact(r.id, &acme).expect("get").is_some());
}

#[test]
fn working_state_expires_by_default_ttl() {
    let config = EngineConfig { working_memory_ttl: 30, ..EngineConfig::default() };
    let mut engine = MemoryEngine::from_config(config).expect("engine");

    engine.set_working_state_at("s-1", r#"{"goal":"deploy"}"#, 1_000).expect("set");
    let got = engine.working_state_at("s-1", 1_010).expect("get");
    assert_eq!(got.map(|s| s.data), Some(r#"{"goal":"deploy"}"#.to_string()));

    assert!(engine.working_state_at("s-1", 1_050).expect("get").is_none());
}

#[test]
fn working_state_custom_ttl_and_clear() {
    let mut engine = embedded();
    engine.set_working_state_with_ttl_at("s-2", "{}", 100, 0).unwrap();
    assert!(engine.working_state_at("s-2", 99).unwrap().is_some());
    assert!(engine.working_state_at("s-2", 100).unwrap().is_none());

    engine.set_working_state("s-3", "[1]").unwrap();
    assert!(engine.working_state("s-3").unwrap().is_some());
    engine.clear_working_state("s-3").unwrap();
    assert!(engine.working_state("s-3").unwrap().is_none());
}

#[test]
fn unreachable_postgres_fails_fast_with_clear_error() {
    let config = EngineConfig {
        store: StoreConfig::Postgres { url: "postgres://localhost:59999/none".into(), max_connections: 1 },
        ..EngineConfig::default()
    };
    let err = match MemoryEngine::from_config(config) {
        Err(e) => e,
        Ok(_) => panic!("unreachable backend must not assemble"),
    };
    assert!(matches!(err, MemoryError::Unsupported(_) | MemoryError::ProviderUnavailable { .. }));
}

#[test]
fn invalid_configuration_is_refused_at_assembly() {
    let config = EngineConfig { namespace: "bad space".into(), ..EngineConfig::default() };
    let err = match MemoryEngine::from_config(config) {
        Err(e) => e,
        Ok(_) => panic!("invalid config must not assemble"),
    };
    assert!(matches!(err, MemoryError::Validation { field: "namespace", .. }));
}

#[test]
fn retention_policy_flows_through_remember() {
    let mut engine = embedded();
    let expiry = now_millis() + 3_600_000;
    let r = engine
        .remember(
            RememberRequest::new(MemoryType::Working, "short-lived").with_retention(RetentionPolicy::expiring_at(expiry)),
        )
        .expect("remember");
    assert_eq!(r.retention.class, RetentionClass::Ephemeral);
    assert_eq!(r.retention.expires_at, Some(expiry));
}

#[test]
fn content_validation_surfaces_before_storage() {
    let mut engine = embedded();
    let err = engine.remember(RememberRequest::new(MemoryType::Semantic, "")).unwrap_err();
    assert!(matches!(err, MemoryError::Validation { .. }));
    assert!(engine.store().is_empty());
}

// ---------------------------------------------------------------- episodes

#[test]
fn episodes_roundtrip_through_the_engine() {
    let mut engine = embedded().with_episodes(InMemoryEpisodeStore::new());

    let evidence = RememberRequest::new(MemoryType::Episodic, "ran migration")
        .into_record(MemoryScope::default())
        .id;

    let episode = Episode::builder("migrate", "completed cleanly").citing(vec![evidence]).build();
    engine.record_episode(&episode).expect("record");

    let cited = engine.episodes_citing(&evidence, &any_scope()).expect("citing");
    assert_eq!(cited.len(), 1);
    assert!(cited[0].cites(&evidence));

    let failures = engine
        .recall_episodes(&EpisodeQuery { success: Some(false), ..Default::default() })
        .unwrap();
    assert!(failures.is_empty());
}

#[test]
fn recall_episodes_without_store_is_empty_not_error() {
    let mut engine = embedded();
    let hits = engine.recall_episodes(&EpisodeQuery::default()).unwrap();
    assert!(hits.is_empty());
    let err = engine.record_episode(&Episode::builder("a", "b").build()).unwrap_err();
    assert!(matches!(err, MemoryError::Unsupported(_)));
}

// ---------------------------------------------------------------- governance

fn tenant_principal(tenant: &str, user: &str) -> Principal {
    Principal::new(&format!("user:{user}"))
        .with_scope(MemoryScopeBuilder::new().tenant(tenant).user(user).build())
}

#[test]
fn denied_exact_reads_look_like_absence_and_are_audited() {
    let mut engine = embedded()
        .with_authorizer(ScopeAuthorizer)
        .with_auditor(InMemoryAuditor::new());

    let saved = engine
        .remember(
            RememberRequest::new(MemoryType::Semantic, "private note for u-1")
                .with_scope(MemoryScopeBuilder::new().tenant("acme").user("u-1").build()),
        )
        .expect("remember");

    let stranger = tenant_principal("acme", "u-9");
    let seen = engine.recall_exact_for(&stranger, saved.id, &any_scope()).expect("governed get");
    assert!(seen.is_none(), "denial masquerades as absence");

    let owner = tenant_principal("acme", "u-1");
    let own = engine.recall_exact_for(&owner, saved.id, &any_scope()).expect("governed get owner");
    assert!(own.is_some());
    let trail = engine.auditor().expect("auditor");
    assert!(trail.len() >= 2);
    assert!(!trail.events[0].allowed);
    assert!(trail.events[1].allowed);
}

#[test]
fn ungoverned_engines_read_without_audit() {
    let mut engine = embedded();
    let saved = engine.remember(RememberRequest::new(MemoryType::Semantic, "open fact")).unwrap();
    let stranger = tenant_principal("globex", "u-2");
    assert!(engine.recall_exact_for(&stranger, saved.id, &any_scope()).unwrap().is_some());
    assert!(engine.auditor().is_none());
}

#[test]
fn contradictory_query_scopes_fail_closed() {
    let confused = Principal::new("user:x").with_scope(MemoryScopeBuilder::new().tenant("acme").build());
    let err = intersect_or_fail(&confused.scope, &MemoryScopeBuilder::new().tenant("globex").build()).unwrap_err();
    assert!(matches!(err, MemoryError::Validation { field: "scope", .. }));
    assert_eq!(err.message(), "invalid scope: query contradicts principal scope");

    let narrowed = intersect_or_fail(&confused.scope, &MemoryScopeBuilder::new().user("u-1").build()).unwrap();
    assert_eq!(narrowed, MemoryScopeBuilder::new().tenant("acme").user("u-1").build());
}

#[test]
fn governed_candidate_lists_drop_and_audit_denials() {
    let mut engine = embedded().with_authorizer(ScopeAuthorizer).with_auditor(InMemoryAuditor::new());
    let acme = RememberRequest::new(MemoryType::Semantic, "acme fact")
        .with_scope(MemoryScopeBuilder::new().tenant("acme").build())
        .into_record(MemoryScope::default());
    let globex = RememberRequest::new(MemoryType::Semantic, "globex fact")
        .with_scope(MemoryScopeBuilder::new().tenant("globex").build())
        .into_record(MemoryScope::default());
    let acme_id = acme.id;
    let reader = Principal::new("user:u-1").with_scope(MemoryScopeBuilder::new().tenant("acme").build());

    let kept = engine.govern_read_at(&reader, vec![globex, acme], 5).unwrap();
    assert_eq!(kept.len(), 1);
    assert_eq!(kept[0].id, acme_id);

    let trail = engine.auditor().unwrap();
    assert_eq!(trail.len(), 2);
    assert!(!trail.events[0].allowed);
    assert_eq!(trail.events[0].detail, "authorization denied");
    assert!(trail.events[1].allowed);
    assert_eq!(trail.events[1].record_id, Some(acme_id));
    assert_eq!(trail.events[1].at, 5);
}

#[test]
fn ungoverned_candidate_lists_pass_unchanged() {
    let mut engine = embedded();
    let r = RememberRequest::new(MemoryType::Semantic, "fact").into_record(MemoryScope::default());
    let id = r.id;
    let reader = Principal::new("user:any").with_scope(MemoryScopeBuilder::new().tenant("elsewhere").build());
    let kept = engine.govern_read(&reader, vec![r]).unwrap();
    assert_eq!(kept.len(), 1);
    assert_eq!(kept[0].id, id);
}

// ---------------------------------------------------------------- lifecycle

#[test]
fn sweep_purges_expired_ephemeral_records_end_to_end() {
    let mut engine = embedded();
    let now = now_millis();
    let saved = engine
        .remember_at(
            RememberRequest::new(MemoryType::Working, "short-lived scratch").with_retention(RetentionPolicy {
                class: RetentionClass::Ephemeral,
                expires_at: Some(now - 5_000),
            }),
            MemoryId::from_uuid(5),
            now - 10_000,
        )
        .expect("seed");

    let report = engine.run_retention_sweep(&any_scope(), now).expect("sweep");
    assert!(report.purged.contains(&saved.id));
    assert!(engine.recall_exact(saved.id, &any_scope()).unwrap().is_none());
}

#[test]
fn permanent_memories_survive_sweeps() {
    let mut engine = embedded();
    let mut request = RememberRequest::new(MemoryType::Semantic, "load-bearing fact")
        .with_retention(RetentionPolicy::permanent());
    request.retention = RetentionPolicy::permanent();
    let saved = engine.remember(request).expect("remember");

    let report = engine.run_retention_sweep(&any_scope(), now_millis()).unwrap();
    assert_eq!(report.skipped, 1);
    assert!(engine.recall_exact(saved.id, &any_scope()).unwrap().is_some());
}

#[test]
fn engine_sweeps_archive_standard_records_after_grace() {
    let mut engine = embedded();
    let now = 100 * DAY;
    let fresh = engine
        .remember_at(
            RememberRequest::new(MemoryType::Semantic, "recently expired").with_retention(RetentionPolicy {
                class: RetentionClass::Standard,
                expires_at: Some(now - 60_000),
            }),
            MemoryId::from_uuid(1),
            now - DAY,
        )
        .unwrap();
    let long = engine
        .remember_at(
            RememberRequest::new(MemoryType::Semantic, "long expired").with_retention(RetentionPolicy {
                class: RetentionClass::Standard,
                expires_at: Some(now - 2 * ARCHIVE_GRACE_MS),
            }),
            MemoryId::from_uuid(2),
            now - 30 * DAY,
        )
        .unwrap();

    let report = engine.run_retention_sweep(&any_scope(), now).unwrap();
    assert!(report.archived.contains(&long.id));
    assert!(!report.archived.contains(&fresh.id), "grace protects fresh expiries");

    let got = engine.recall_exact(long.id, &any_scope()).unwrap().unwrap();
    assert_eq!(got.status, MemoryStatus::Archived);
    assert!(got.status.is_retrievable(), "archived stays addressable");

    let again = engine.run_retention_sweep(&any_scope(), now).unwrap();
    assert!(again.archived.is_empty());
    assert_eq!(again.skipped, 1);
}

#[test]
fn engine_sweeps_leave_future_expiries_alone() {
    let mut engine = embedded();
    let now = now_millis();
    engine
        .remember_at(
            RememberRequest::new(MemoryType::Working, "later")
                .with_retention(RetentionPolicy::expiring_at(now + 3_600_000)),
            MemoryId::from_uuid(3),
            now,
        )
        .unwrap();
    let report = engine.run_retention_sweep(&any_scope(), now).unwrap();
    assert_eq!(report.acted_on(), 0);
    assert_eq!(engine.store().len(), 1);
}

#[test]
fn forget_everywhere_drops_graph_evidence() {
    let mut graph = InMemoryGraphStore::new();
    let evidence = MemoryId::from_uuid(11);
    graph
        .add_relation(&Relation::new(evidence, EntityKey::new(None, "atlas"), "uses", EntityKey::new(None, "pg")).unwrap())
        .unwrap();
    let mut engine = embedded().with_graph(graph);
    engine
        .remember_at(RememberRequest::new(MemoryType::Semantic, "Atlas uses pg"), evidence, 1_000)
        .unwrap();
    engine.forget_everywhere(evidence, &any_scope()).unwrap();
    assert!(engine.recall_exact(evidence, &any_scope()).unwrap().is_none());
}

// ---------------------------------------------------------------- procedures

#[test]
fn full_lifecycle_from_draft_to_active() {
    let mut engine = embedded();
    let doc = engine
        .publish_procedure(
            "1. drain nodes\n2. upgrade control plane",
            "platform",
            Some("k8s-1.29".into()),
            MemoryScope::default(),
        )
        .expect("publish");

    engine.transition_procedure(doc.id, ProcedureState::Review).expect("review");
    engine.transition_procedure(doc.id, ProcedureState::Approved).expect("approve");
    let active = engine.transition_procedure(doc.id, ProcedureState::Active).expect("activate");

    assert_eq!(active.version, 4, "each governance change bumps the revision (v1 + 3 transitions)");

    let live = engine.recall_active_procedures(&any_scope()).unwrap();
    assert_eq!(live.len(), 1);
    assert_eq!(ProcedureView::from_record(&live[0]).unwrap().state(), ProcedureState::Active);
    assert_eq!(ProcedureView::from_record(&live[0]).unwrap().owner(), "platform");
}

#[test]
fn illegal_transitions_are_rejected_with_named_edges() {
    let mut engine = embedded();
    let doc = engine.publish_procedure("steps here", "ops", None, MemoryScope::default()).unwrap();

    let err = engine.transition_procedure(doc.id, ProcedureState::Active).unwrap_err();
    assert!(matches!(err, MemoryError::Validation { .. }));

    let fact = engine.remember(RememberRequest::new(MemoryType::Semantic, "just a fact")).unwrap();
    assert!(engine.transition_procedure(fact.id, ProcedureState::Review).is_err());

    assert!(engine.transition_procedure(doc.id, ProcedureState::Review).is_ok());
    assert!(engine.transition_procedure(MemoryId::from_uuid(404), ProcedureState::Review).is_err());
}

// ---------------------------------------------------------------- goals

#[test]
fn goals_move_through_lifecycle_and_surface_when_due() {
    let mut e = embedded();
    let goal = e
        .record_goal(
            "Renew the TLS certificate before it lapses",
            Some(now_millis() + 3 * DAY),
            Vec::new(),
            Some("calendar reminder".into()),
            Some("cert valid 90 more days".into()),
            MemoryScope::default(),
        )
        .expect("record");

    assert!(e.recall_due_goals(&any_scope(), DAY).unwrap().is_empty());

    let due = e.recall_due_goals(&any_scope(), 7 * DAY).unwrap();
    assert_eq!(due.len(), 1);

    e.transition_goal(goal.id, GoalState::Active).expect("activate");
    e.transition_goal(goal.id, GoalState::Completed).expect("complete");

    assert!(e.recall_due_goals(&any_scope(), 30 * DAY).unwrap().is_empty());
    assert!(e.transition_goal(goal.id, GoalState::Active).is_err());
}

#[test]
fn due_goal_horizon_out_of_range_is_refused() {
    let e = embedded();
    assert!(e.recall_due_goals(&any_scope(), i64::MAX).is_err());
}

#[test]
fn expired_is_derived_not_stored() {
    let mut e = embedded();
    let overdue = e
        .record_goal("File expense report", Some(now_millis() - 2 * DAY), Vec::new(), None, None, MemoryScope::default())
        .expect("record");

    let open = e.recall_open_goals(&any_scope()).unwrap();
    let (_, effective) = open.iter().find(|(r, _)| r.id == overdue.id).unwrap();
    assert_eq!(*effective, EffectiveGoalState::Expired);

    let stored = e.recall_exact(overdue.id, &any_scope()).unwrap().unwrap();
    let view = GoalView::from_record(&stored).unwrap();
    assert_eq!(view.metadata().state, GoalState::Planned, "no scheduler ever touched the stored state");
}

#[test]
fn dependency_gating_blocks_premature_activation() {
    let mut e = embedded();
    let blocker = e
        .record_goal("Ship database migration first", None, Vec::new(), None, None, MemoryScope::default())
        .unwrap();
    let dependent = e
        .record_goal("Cut over read traffic", None, vec![blocker.id], None, None, MemoryScope::default())
        .unwrap();

    e.transition_goal(blocker.id, GoalState::Active).unwrap();
    let err = e.transition_goal(dependent.id, GoalState::Blocked);
    assert!(err.is_err());
}
