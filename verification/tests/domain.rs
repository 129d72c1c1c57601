use barq_memory::config::{EngineConfig, LimitsConfig, StoreConfig, DEFAULT_WORKING_MEMORY_TTL};
use barq_memory::content::{MemoryContent, StructuredPayload};
use barq_memory::error::MemoryError;
use barq_memory::id::MemoryId;
use barq_memory::procedural::{validate_transition, ProcedureMetadata, ProcedureState, ProcedureView};
use barq_memory::prospective::{self, EffectiveGoalState, GoalMetadata, GoalState, GoalView};
use barq_memory::provenance::{Provenance, RetentionPolicy, SourceKind};
use barq_memory::query::{MemoryQuery, DEFAULT_QUERY_LIMIT, MAX_QUERY_LIMIT};
use barq_memory::record::MemoryRecord;
use barq_memory::scope::{MemoryScope, MemoryScopeBuilder};
use barq_memory::subject::MemorySubject;
use barq_memory::taxonomy::{MemoryStatus, MemoryType};
use barq_memory::temporal::ValidityWindow;

/// The wall clock in milliseconds since the Unix epoch.
fn now_millis() -> i64 {
    chrono::Utc::now().timestamp_millis()
}

const HOUR: i64 = 3_600_000;
const DAY: i64 = 24 * HOUR;

fn record_scope() -> MemoryScope {
    MemoryScope::builder().tenant("acme").user("u-1").build()
}

#[test]
fn empty_scope_is_universal_wildcard() {
    let wildcard = MemoryScope::default();
    assert!(wildcard.is_empty());
    assert!(wildcard.contains(&record_scope()));
}

#[test]
fn pinned_dimensions_must_match() {
    let query = MemoryScope::builder().tenant("acme").build();
    assert!(query.contains(&record_scope()));

    let other_tenant = MemoryScope::builder().tenant("other").build();
    assert!(!query.contains(&MemoryScope { tenant_id: None, ..other_tenant.clone() }));
    assert!(query.contains(&record_scope()), "same tenant passes");
    assert!(!query.contains(&other_tenant));
}

#[test]
fn records_without_pinned_dimension_are_excluded() {
    let query = MemoryScope::builder().user("u-1").build();
    let anonymous = MemoryScope::builder().tenant("acme").build();
    assert!(!query.contains(&anonymous));
}

#[test]
fn intersect_merges_disjoint_and_accepts_equal_pins() {
    let a = MemoryScope::builder().tenant("acme").build();
    let b = MemoryScope::builder().tenant("acme").user("u-1").build();

    let merged = a.intersect(&b).expect("compatible");
    assert_eq!(merged.specificity(), 2);
}

#[test]
fn intersect_rejects_contradictions() {
    let a = MemoryScope::builder().tenant("acme").build();
    let b = MemoryScope::builder().tenant("globex").build();
    assert!(a.intersect(&b).is_none());
}

#[test]
fn display_lists_only_pinned_dimensions() {
    let s = record_scope();
    let rendered = s.to_display();
    assert!(rendered.contains("tenant=acme"));
    assert!(rendered.contains("user=u-1"));
    assert!(!rendered.contains("workspace"));
}

#[test]
fn intersection_is_symmetric_and_contained_in_both() {
    let a = MemoryScope::builder().tenant("acme").build();
    let b = MemoryScope::builder().user("u-1").build();
    let ab = a.intersect(&b).expect("compatible");
    let ba = b.intersect(&a).expect("compatible");
    assert_eq!(ab, ba);
    assert!(a.contains(&ab));
    assert!(b.contains(&ab));
    assert_eq!(ab.tenant_id.as_deref(), Some("acme"));
    assert_eq!(ab.user_id.as_deref(), Some("u-1"));
}

#[test]
fn canonical_key_normalizes_case_and_whitespace() {
    let s = MemorySubject::new(" Atlas ").with_type(" Project ").with_display_name("Project Atlas");
    assert_eq!(s.canonical_key(), "project:Atlas");
    assert_eq!(s.canonical_key(), s.clone().canonical_key());
}

#[test]
fn untyped_subjects_use_bare_ids() {
    let s = MemorySubject::new("user-42");
    assert_eq!(s.canonical_key(), "user-42");
}

#[test]
fn display_prefers_human_name() {
    let s = MemorySubject::new("atlas").with_display_name("Project Atlas");
    assert_eq!(s.to_display(), "Project Atlas (atlas)");
}

#[test]
fn subject_display_falls_back_to_the_key() {
    let s = MemorySubject::new("atlas").with_type("Project");
    assert_eq!(s.to_display(), "project:atlas");
}

#[test]
fn working_memory_is_the_only_transient_type() {
    assert!(MemoryType::Working.is_transient());
    assert!(!MemoryType::Semantic.is_transient());
    assert_eq!(MemoryType::ALL.iter().filter(|t| t.is_transient()).count(), 1);
}

#[test]
fn retrievable_statuses_are_exactly_active_and_archived() {
    assert!(MemoryStatus::Active.is_retrievable());
    assert!(MemoryStatus::Archived.is_retrievable());
    assert!(!MemoryStatus::Superseded.is_retrievable());
    assert!(!MemoryStatus::Quarantined.is_retrievable());
    assert!(!MemoryStatus::Deleted.is_retrievable());
}

#[test]
fn retired_is_superset_of_non_retrievable() {
    assert!(MemoryStatus::Deleted.is_retired());
    assert!(MemoryStatus::Superseded.is_retired());
    assert!(MemoryStatus::Archived.is_retired());
    assert!(!MemoryStatus::Active.is_retired());
}

#[test]
fn type_and_status_names_are_snake_case() {
    let names: Vec<&str> = MemoryType::ALL.iter().map(|t| t.as_str()).collect();
    assert_eq!(names, vec!["working", "episodic", "semantic", "procedural", "prospective"]);
    assert_eq!(MemoryStatus::Quarantined.as_str(), "quarantined");
    assert_eq!(MemoryStatus::initial(), MemoryStatus::Active);
}

#[test]
fn always_contains_everything() {
    let now = now_millis();
    assert!(ValidityWindow::always().contains(now - 100 * HOUR));
    assert!(ValidityWindow::always().contains(now + 100 * HOUR));
}

#[test]
fn bounded_window_is_half_open() {
    let start = now_millis();
    let end = start + 10 * HOUR;
    let w = ValidityWindow { from: Some(start), to: Some(end) };
    assert!(!w.contains(start - 1_000));
    assert!(w.contains(start));
    assert!(w.contains(end - 1_000));
    assert!(!w.contains(end), "to is exclusive");
}

#[test]
fn overlap_detects_partial_and_adjacent_cases() {
    let t = now_millis();
    let a = ValidityWindow { from: Some(t), to: Some(t + 10 * HOUR) };
    let overlapping = ValidityWindow { from: Some(t + 5 * HOUR), to: Some(t + 20 * HOUR) };
    let adjacent = ValidityWindow { from: Some(t + 10 * HOUR), to: Some(t + 20 * HOUR) };
    let disjoint = ValidityWindow { from: Some(t + 50 * HOUR), to: Some(t + 60 * HOUR) };

    assert!(a.overlaps(&overlapping));
    assert!(!a.overlaps(&adjacent), "adjacent half-open windows do not overlap");
    assert!(!a.overlaps(&disjoint));
}

#[test]
fn ended_windows_report_completion() {
    let t = now_millis();
    let w = ValidityWindow { from: Some(t - 10 * HOUR), to: Some(t - HOUR) };
    assert!(w.has_ended(t));

    let open = ValidityWindow::from_instant(t - HOUR);
    assert!(!open.has_ended(t));
}

#[test]
fn char_len_counts_characters_not_bytes() {
    let c = MemoryContent::from_text("héllo");
    assert_eq!(c.char_len(), 5);
}

#[test]
fn emptiness_requires_trimmed_text_or_structure() {
    assert!(MemoryContent::from_text("   \n").is_empty());
    assert!(!MemoryContent::from_text("hello").is_empty());
    assert!(!MemoryContent::default()
        .with_structured(StructuredPayload::Json("null".to_string()))
        .is_empty());
}

#[test]
fn messages_name_the_offending_entity() {
    let id = MemoryId::generate();
    let e = MemoryError::NotFound { memory_id: id };
    assert_eq!(e.message(), format!("memory {} not found", id.hyphenated()));

    let v = MemoryError::validation("content", "text must not be empty");
    assert_eq!(v.message(), "invalid content: text must not be empty");
}

#[test]
fn every_error_variant_has_a_message() {
    let id = MemoryId::from_uuid(0);
    let conflict = MemoryError::VersionConflict { memory_id: id, expected: 3, actual: 4 };
    assert_eq!(
        conflict.message(),
        "concurrent modification of memory 00000000-0000-0000-0000-000000000000: expected version 3, found 4"
    );
    assert_eq!(MemoryError::unavailable("redis", "conn refused").message(), "provider 'redis' unavailable: conn refused");
    assert_eq!(
        MemoryError::ProviderMissing { capability: "vector" }.message(),
        "no provider registered for capability 'vector'"
    );
    assert_eq!(MemoryError::storage("pg", "disk full").message(), "storage failure in 'pg': disk full");
    assert_eq!(MemoryError::Unsupported("x".into()).message(), "unsupported operation: x");
}

#[test]
fn retryability_covers_transient_and_conflict_cases() {
    let id = MemoryId::generate();
    assert!(MemoryError::unavailable("redis", "conn refused").is_retryable());
    assert!(MemoryError::VersionConflict { memory_id: id, expected: 3, actual: 4 }.is_retryable());
    assert!(!MemoryError::NotFound { memory_id: id }.is_retryable());
    assert!(!MemoryError::Unsupported("x".into()).is_retryable());
}

#[test]
fn non_exhaustive_matches_with_wildcards() {
    let e = MemoryError::ProviderMissing { capability: "vector" };
    let described = match &e {
        MemoryError::ProviderMissing { capability } => format!("missing:{capability}"),
        _ => String::new(),
    };
    assert_eq!(described, "missing:vector");
}

#[test]
fn hyphenated_form_is_grouped_lowercase_hex() {
    let id = MemoryId::from_uuid(0x0123456789ABCDEF0123456789ABCDEF);
    let text = id.hyphenated();
    assert_eq!(text, "01234567-89ab-cdef-0123-456789abcdef");
    assert_eq!(MemoryId::parse(&text).unwrap(), id);
}

#[test]
fn generated_ids_are_version_7_rfc_variant() {
    let id = MemoryId::generate();
    assert_eq!((id.as_uuid() >> 76) & 0xf, 7);
    assert_eq!((id.as_uuid() >> 62) & 0x3, 2);
    let text = id.hyphenated();
    assert_eq!(text.as_bytes()[14], b'7');
    assert!(matches!(text.as_bytes()[19], b'8' | b'9' | b'a' | b'b'));
}

#[test]
fn generated_ids_are_unique_and_parse_back() {
    let a = MemoryId::generate();
    let b = MemoryId::generate();
    assert_ne!(a, b);

    let reparsed = MemoryId::parse(&a.hyphenated()).expect("roundtrip");
    assert_eq!(a, reparsed);
}

#[test]
fn ordering_matches_uuid_ordering() {
    let earlier = MemoryId::from_uuid(0);
    let later = MemoryId::generate();
    assert!(earlier < later);
}

#[test]
fn rejects_malformed_input() {
    assert!(MemoryId::parse("not-a-uuid").is_err());
}

#[test]
fn hyphenated_form_is_canonical() {
    let id = MemoryId::from_uuid(0x0123_4567_89ab_cdef_0123_4567_89ab_cdef);
    assert_eq!(id.hyphenated(), "01234567-89ab-cdef-0123-456789abcdef");
    assert_eq!(id.as_uuid(), 0x0123_4567_89ab_cdef_0123_4567_89ab_cdef);
}

#[test]
fn authority_orders_sources_sensibly() {
    assert!(SourceKind::User.default_authority() > SourceKind::Agent.default_authority());
    assert!(SourceKind::Tool.default_authority() > SourceKind::Agent.default_authority());
    assert_eq!(SourceKind::User.default_authority(), 900_000);
    assert_eq!(SourceKind::External.default_authority(), 800_000);
}

#[test]
fn expiry_respects_instant_comparison() {
    let now = now_millis();
    let past = RetentionPolicy::expiring_at(now - HOUR);
    let future = RetentionPolicy::expiring_at(now + HOUR);
    let forever = RetentionPolicy::permanent();

    assert!(past.is_expired(now));
    assert!(!future.is_expired(now));
    assert!(!forever.is_expired(now));
}

#[test]
fn provenance_builders_set_only_their_field() {
    let p = Provenance::at(SourceKind::User, 42).with_actor("u-1").with_trace("t-9");
    assert_eq!(p.actor_id.as_deref(), Some("u-1"));
    assert_eq!(p.trace_id.as_deref(), Some("t-9"));
    assert_eq!(p.source_uri, None);
    assert_eq!(p.recorded_at, 42);
}

#[test]
fn defaults_are_conservative() {
    let q = MemoryQuery::new();
    assert_eq!(q.statuses, vec![MemoryStatus::Active]);
    assert_eq!(q.limit, DEFAULT_QUERY_LIMIT);
    assert!(q.memory_types.is_empty());
    assert!(q.accepts_type(MemoryType::Episodic));
    assert!(!q.accepts_status(MemoryStatus::Deleted));
}

#[test]
fn validation_rejects_zero_and_oversized_limits() {
    assert!(MemoryQuery::new().with_limit(0).validated().is_err());
    assert!(MemoryQuery::new().with_limit(MAX_QUERY_LIMIT + 1).validated().is_err());
    assert!(MemoryQuery::new().with_limit(1).validated().is_ok());
}

#[test]
fn validation_rejects_blank_text() {
    let q = MemoryQuery::new().with_text("   ");
    assert_eq!(q.validated().unwrap_err(), MemoryError::validation("text", "must not be blank"));
}

#[test]
fn history_mode_expands_statuses() {
    let q = MemoryQuery::new().include_history();
    for s in MemoryStatus::ALL_STATUSES {
        assert!(q.accepts_status(s));
    }
}

#[test]
fn effective_snapshot_defaults_to_now() {
    let before = now_millis();
    let q = MemoryQuery::new();
    assert!(q.effective_valid_at() >= before);
    assert_eq!(MemoryQuery::new().valid_at(7).effective_valid_at(), 7);
}

fn sample() -> MemoryRecord {
    MemoryRecord::new(MemoryType::Semantic, MemoryContent::from_text("Project Atlas uses PostgreSQL"))
}

#[test]
fn new_records_start_active_at_version_one() {
    let r = sample();
    assert_eq!(r.status, MemoryStatus::Active);
    assert_eq!(r.version, 1);
    assert_eq!(r.supersedes, None);
    assert_eq!(r.created_at, r.updated_at);
    assert_eq!(r.confidence, 500_000);
}

#[test]
fn builder_clamps_scores() {
    let r = sample().with_confidence(1_700_000).with_importance(-3_000_000);
    assert_eq!(r.confidence, 1_000_000);
    assert_eq!(r.importance, 0);
}

#[test]
fn validity_respects_status_and_window() {
    let now = now_millis();
    let mut r = sample();
    assert!(r.is_valid_at(now));

    r.valid_to = Some(now - HOUR);
    assert!(!r.is_valid_at(now));

    r.valid_to = None;
    r.status = MemoryStatus::Deleted;
    assert!(!r.is_valid_at(now));
}

#[test]
fn successors_link_back_without_mutating_origin() {
    let origin = sample().with_subject(MemorySubject::new("atlas"));
    let next = origin.derive_successor(MemoryContent::from_text("Atlas uses MySQL"));

    assert_eq!(next.supersedes, Some(origin.id));
    assert_eq!(next.version, 1, "successor starts its own revision line");
    assert_ne!(next.id, origin.id);
    assert_eq!(next.subject, origin.subject);
    assert_eq!(origin.supersedes, None, "history untouched");
}

#[test]
fn successors_inherit_provenance_lineage() {
    let origin = sample().with_provenance(Provenance::at(SourceKind::User, 1_000).with_actor("u-1"));
    let next = origin.derive_successor(MemoryContent::from_text("revised"));
    assert_eq!(next.provenance, origin.provenance);
    assert_eq!(next.provenance.source, SourceKind::User);
    assert_ne!(next.id, origin.id);
}

#[test]
fn defaults_are_fully_embedded() {
    let c = EngineConfig::default();
    assert!(c.is_embedded());
    assert!(c.validated().is_ok());
    assert_eq!(c.working_memory_ttl, DEFAULT_WORKING_MEMORY_TTL);
    assert_eq!(DEFAULT_WORKING_MEMORY_TTL, 30 * 60 * 1000);
}

#[test]
fn postgres_urls_are_shape_checked() {
    let ok = EngineConfig {
        store: StoreConfig::Postgres { url: "postgres://localhost/mem".into(), max_connections: 4 },
        ..EngineConfig::default()
    };
    assert!(ok.validated().is_ok());

    let bad = EngineConfig {
        store: StoreConfig::Postgres { url: "mysql://localhost/mem".into(), max_connections: 4 },
        ..EngineConfig::default()
    };
    assert_eq!(
        bad.validated().unwrap_err(),
        MemoryError::validation("store.url", "must start with postgres:// or postgresql://")
    );
}

#[test]
fn namespaces_reject_shell_unfriendly_characters() {
    let c = EngineConfig { namespace: "bad namespace!".into(), ..EngineConfig::default() };
    assert!(c.validated().is_err());

    let blank = EngineConfig { namespace: "   ".into(), ..EngineConfig::default() };
    assert!(blank.validated().is_err());
}

#[test]
fn limits_must_be_positive() {
    let c = EngineConfig {
        limits: LimitsConfig { max_batch_size: 0, ..LimitsConfig::default() },
        ..EngineConfig::default()
    };
    assert!(c.validated().is_err());
}

fn procedure_record(state: ProcedureState) -> MemoryRecord {
    let meta = ProcedureMetadata {
        state,
        owner: "platform".into(),
        compatibility: Some("k8s-1.29".into()),
        effective_from: None,
        effective_to: None,
    };
    MemoryRecord::new(
        MemoryType::Procedural,
        MemoryContent::from_text("Rolling restart procedure").with_structured(ProcedureView::into_content(&meta)),
    )
}

#[test]
fn views_parse_only_procedural_records() {
    let r = procedure_record(ProcedureState::Draft);
    let v = ProcedureView::from_record(&r).expect("view");
    assert_eq!(v.state(), ProcedureState::Draft);
    assert_eq!(v.owner(), "platform");

    let mut semantic = r.clone();
    semantic.memory_type = MemoryType::Semantic;
    assert!(ProcedureView::from_record(&semantic).is_none());

    let mut no_meta = r;
    no_meta.content.structured = None;
    assert!(ProcedureView::from_record(&no_meta).is_none());
}

#[test]
fn happy_path_is_draft_to_active() {
    validate_transition(ProcedureState::Draft, ProcedureState::Review).expect("legal");
    validate_transition(ProcedureState::Review, ProcedureState::Approved).expect("legal");
    validate_transition(ProcedureState::Approved, ProcedureState::Active).expect("legal");
    validate_transition(ProcedureState::Active, ProcedureState::Deprecated).expect("legal");
    validate_transition(ProcedureState::Deprecated, ProcedureState::Revoked).expect("legal");
}

#[test]
fn skips_are_illegal_and_revocation_recovers_via_draft() {
    assert!(validate_transition(ProcedureState::Draft, ProcedureState::Active).is_err());
    assert!(validate_transition(ProcedureState::Active, ProcedureState::Draft).is_err());
    validate_transition(ProcedureState::Approved, ProcedureState::Revoked).expect("revoke pre-activation");
    validate_transition(ProcedureState::Revoked, ProcedureState::Draft).expect("rework");
}

#[test]
fn illegal_procedure_edges_are_named() {
    let err = validate_transition(ProcedureState::Draft, ProcedureState::Active).unwrap_err();
    assert_eq!(err, MemoryError::validation("procedure_state", "illegal transition Draft -> Active"));
}

#[test]
fn only_active_procedures_are_operative() {
    assert!(ProcedureState::Active.is_operative());
    for s in [
        ProcedureState::Draft,
        ProcedureState::Review,
        ProcedureState::Approved,
        ProcedureState::Deprecated,
        ProcedureState::Revoked,
    ] {
        assert!(!s.is_operative());
    }
}

#[test]
fn effectiveness_window_respected() {
    let now = now_millis();
    let meta = ProcedureMetadata {
        state: ProcedureState::Active,
        owner: "platform".into(),
        compatibility: None,
        effective_from: Some(now - DAY),
        effective_to: Some(now + DAY),
    };
    let r = MemoryRecord::new(
        MemoryType::Procedural,
        MemoryContent::from_text("x").with_structured(ProcedureView::into_content(&meta)),
    );
    let v = ProcedureView::from_record(&r).expect("view");
    assert!(v.is_currently_effective());

    let lapsed = ProcedureMetadata { effective_to: Some(now - DAY), ..meta };
    let r2 = MemoryRecord::new(
        MemoryType::Procedural,
        MemoryContent::from_text("x").with_structured(ProcedureView::into_content(&lapsed)),
    );
    let expired = ProcedureView::from_record(&r2).expect("view");
    assert!(!expired.is_currently_effective());
}

fn goal_record(state: GoalState, deadline: Option<i64>) -> MemoryRecord {
    let meta = GoalMetadata {
        state,
        deadline,
        dependencies: Vec::new(),
        trigger_description: Some("next standup".into()),
        completion_criteria: Some("ticket closed".into()),
    };
    MemoryRecord::new(
        MemoryType::Prospective,
        MemoryContent::from_text("Renew TLS certificate").with_structured(GoalView::into_content(meta)),
    )
}

#[test]
fn planned_to_completed_requires_activation_path() {
    assert!(prospective::validate_transition(GoalState::Planned, GoalState::Active).is_ok());
    assert!(prospective::validate_transition(GoalState::Active, GoalState::Completed).is_ok());
    assert!(prospective::validate_transition(GoalState::Planned, GoalState::Completed).is_err());
    assert!(prospective::validate_transition(GoalState::Completed, GoalState::Active).is_err());
    assert!(prospective::validate_transition(GoalState::Waiting, GoalState::Blocked).is_ok());
    assert!(prospective::validate_transition(GoalState::Blocked, GoalState::Cancelled).is_ok());
}

#[test]
fn expiry_is_derived_never_stored() {
    let now = now_millis();
    let overdue = GoalMetadata {
        state: GoalState::Active,
        deadline: Some(now - DAY),
        dependencies: Vec::new(),
        trigger_description: None,
        completion_criteria: None,
    };
    assert_eq!(overdue.effective_state(now), EffectiveGoalState::Expired);

    let mut done = overdue.clone();
    done.state = GoalState::Completed;
    assert_eq!(done.effective_state(now), EffectiveGoalState::Stored(GoalState::Completed));

    let mut future = overdue.clone();
    future.deadline = Some(now + 7 * DAY);
    assert_eq!(future.effective_state(now), EffectiveGoalState::Stored(GoalState::Active));
}

#[test]
fn dependency_satisfaction_checks_exact_ids() {
    let view_meta = GoalMetadata {
        state: GoalState::Blocked,
        deadline: None,
        dependencies: vec![MemoryId::generate(), MemoryId::generate()],
        trigger_description: None,
        completion_criteria: None,
    };
    let deps = view_meta.dependencies.clone();
    let r = MemoryRecord::new(
        MemoryType::Prospective,
        MemoryContent::from_text("blocked goal").with_structured(GoalView::into_content(view_meta)),
    );
    let v = GoalView::from_record(&r).expect("view");

    let half_done: Vec<(MemoryId, GoalState)> = vec![(deps[0], GoalState::Completed)];
    assert!(!v.dependencies_satisfied(&half_done));

    let all_done: Vec<(MemoryId, GoalState)> = deps.iter().map(|id| (*id, GoalState::Completed)).collect();
    assert!(v.dependencies_satisfied(&all_done));
}

#[test]
fn views_reject_non_prospective_records() {
    let r = goal_record(GoalState::Planned, None);
    let v = GoalView::from_record(&r);
    assert!(v.is_some());

    let mut semantic = r.clone();
    semantic.memory_type = MemoryType::Semantic;
    assert!(GoalView::from_record(&semantic).is_none());
}

#[test]
fn scope_builder_pins_each_dimension() {
    let s = MemoryScopeBuilder::new()
        .tenant("t")
        .organization("o")
        .workspace("w")
        .user("u")
        .agent("a")
        .session("s")
        .task("k")
        .build();
    assert_eq!(s.specificity(), 7);
    assert_eq!(s.to_display(), "scope[tenant=t,org=o,workspace=w,user=u,agent=a,session=s,task=k]");
}
