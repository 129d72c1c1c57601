use barq_memory::content::MemoryContent;
use barq_memory::graph::{EntityKey, InMemoryGraphStore, Relation};
use barq_memory::id::MemoryId;
use barq_memory::error::{MemoryError, MemoryResult};
use barq_memory::lifecycle::{
    sweep_action, ArchivalHook, LifecycleProviders, LogArchiveHook, RetentionSweeper, SweepAction, SweepReport,
    ARCHIVE_GRACE_MS,
};
use std::cell::Cell;
use std::rc::Rc;
use barq_memory::provenance::{RetentionClass, RetentionPolicy};
use barq_memory::record::MemoryRecord;
use barq_memory::scope::{MemoryScope, MemoryScopeBuilder};
use barq_memory::store::InMemoryStore;
use barq_memory::taxonomy::{MemoryStatus, MemoryType};

/// The wall clock in milliseconds since the Unix epoch.
fn now_millis() -> i64 {
    chrono::Utc::now().timestamp_millis()
}

fn expiring(class: RetentionClass, offset_ms: i64, now: i64) -> RetentionPolicy {
    RetentionPolicy { class, expires_at: Some(now + offset_ms) }
}

fn sweeper_over(store: InMemoryStore, graph: Option<InMemoryGraphStore>) -> RetentionSweeper<LogArchiveHook> {
    RetentionSweeper::new(LifecycleProviders { store, graph })
}

#[test]
fn ephemeral_records_are_purged_from_store_and_graph() {
    let now = now_millis();
    let mut store = InMemoryStore::new("sweep");
    let mut graph = InMemoryGraphStore::new();

    let mut r = MemoryRecord::new(MemoryType::Working, MemoryContent::from_text("scratch"))
        .with_retention(expiring(RetentionClass::Ephemeral, -10_000, now));
    r.scope = MemoryScopeBuilder::new().tenant("acme").build();
    store.put(&r).unwrap();
    graph
        .add_relation(&Relation::new(r.id, EntityKey::new(None, "a"), "uses", EntityKey::new(None, "b")).unwrap())
        .unwrap();

    let mut sweeper = sweeper_over(store, Some(graph)).with_hook(LogArchiveHook);
    let report = sweeper.sweep(&MemoryScope::default(), now).unwrap();
    assert!(report.hook_failures.is_empty());

    assert_eq!(report.purged, vec![r.id]);
    let providers = sweeper.into_providers();
    assert!(providers.store.get(&r.id, &MemoryScope::default()).unwrap().is_none());
    assert_eq!(providers.graph.expect("graph").edge_count(), 0, "coordinated deletion cleared the graph too");
}

#[test]
fn permanent_records_are_untouched() {
    let mut store = InMemoryStore::new("perm");
    let permanent = MemoryRecord::new(MemoryType::Semantic, MemoryContent::from_text("keep forever"))
        .with_retention(RetentionPolicy::permanent());
    store.put(&permanent).unwrap();

    let mut sweeper = sweeper_over(store, None);
    let report = sweeper.sweep(&MemoryScope::default(), now_millis()).unwrap();
    assert_eq!(report.skipped, 1);
    assert_eq!(report.acted_on(), 0);
    let providers = sweeper.into_providers();
    assert!(providers.store.get(&permanent.id, &MemoryScope::default()).unwrap().is_some());
}

#[test]
fn standard_records_archive_only_after_grace() {
    let now = now_millis();
    let mut store = InMemoryStore::new("std");

    let fresh_expired = MemoryRecord::new(MemoryType::Semantic, MemoryContent::from_text("recently expired"))
        .with_retention(expiring(RetentionClass::Standard, -60_000, now));
    let long_expired = MemoryRecord::new(MemoryType::Semantic, MemoryContent::from_text("long expired"))
        .with_retention(expiring(RetentionClass::Standard, -(ARCHIVE_GRACE_MS * 2), now));
    store.put(&fresh_expired).unwrap();
    store.put(&long_expired).unwrap();

    let mut sweeper = sweeper_over(store, None);
    let report = sweeper.sweep(&MemoryScope::default(), now).unwrap();

    assert!(report.archived.contains(&long_expired.id));
    assert!(!report.archived.contains(&fresh_expired.id), "grace protects fresh expiries");

    let providers = sweeper.into_providers();
    let got = providers.store.get(&long_expired.id, &MemoryScope::default()).unwrap().unwrap();
    assert_eq!(got.status, MemoryStatus::Archived);
    assert!(got.status.is_retrievable(), "archived stays addressable");
    assert_eq!(got.updated_at, now);
}

#[test]
fn future_expiries_are_left_alone() {
    let now = now_millis();
    let mut store = InMemoryStore::new("future");
    let later = MemoryRecord::new(MemoryType::Working, MemoryContent::from_text("later"))
        .with_retention(expiring(RetentionClass::Ephemeral, 3_600_000, now));
    store.put(&later).unwrap();

    let mut sweeper = sweeper_over(store, None);
    let report = sweeper.sweep(&MemoryScope::default(), now).unwrap();
    assert_eq!(report.acted_on(), 0);
}

#[test]
fn sweeps_only_touch_records_in_scope() {
    let now = now_millis();
    let mut store = InMemoryStore::new("scoped");
    let mut acme = MemoryRecord::new(MemoryType::Working, MemoryContent::from_text("acme scratch"))
        .with_retention(expiring(RetentionClass::Session, -1, now));
    acme.scope = MemoryScopeBuilder::new().tenant("acme").build();
    let mut globex = MemoryRecord::new(MemoryType::Working, MemoryContent::from_text("globex scratch"))
        .with_retention(expiring(RetentionClass::Session, -1, now));
    globex.scope = MemoryScopeBuilder::new().tenant("globex").build();
    store.put(&acme).unwrap();
    store.put(&globex).unwrap();

    let mut sweeper = sweeper_over(store, None);
    let report = sweeper.sweep(&MemoryScopeBuilder::new().tenant("acme").build(), now).unwrap();
    assert_eq!(report.purged, vec![acme.id]);
    assert_eq!(sweeper.into_providers().store.len(), 1);
}

#[test]
fn coordinate_delete_removes_row_and_edges() {
    let mut store = InMemoryStore::new("erase");
    let r = MemoryRecord::new(MemoryType::Semantic, MemoryContent::from_text("Atlas uses pg"));
    store.put(&r).unwrap();
    let mut graph = InMemoryGraphStore::new();
    graph
        .add_relation(&Relation::new(r.id, EntityKey::new(None, "atlas"), "uses", EntityKey::new(None, "pg")).unwrap())
        .unwrap();
    graph
        .add_relation(
            &Relation::new(MemoryId::from_uuid(99), EntityKey::new(None, "atlas"), "owns", EntityKey::new(None, "x"))
                .unwrap(),
        )
        .unwrap();

    let mut sweeper = sweeper_over(store, Some(graph));
    sweeper.coordinate_delete(&r.id, &MemoryScope::default()).unwrap();
    let providers = sweeper.into_providers();
    assert!(providers.store.is_empty());
    assert_eq!(providers.graph.unwrap().edge_count(), 1);
}

#[test]
fn sweep_actions_follow_retention_classes() {
    let now = 10 * ARCHIVE_GRACE_MS;
    let base = MemoryRecord::new_at(MemoryId::from_uuid(1), MemoryType::Semantic, MemoryContent::from_text("x"), 0);
    let with = |p: RetentionPolicy| MemoryRecord::new_at(MemoryId::from_uuid(1), MemoryType::Semantic, MemoryContent::from_text("x"), 0).with_retention(p);

    assert_eq!(sweep_action(&base, now), SweepAction::Ignore);
    assert_eq!(sweep_action(&with(RetentionPolicy::permanent()), now), SweepAction::Skip);
    assert_eq!(sweep_action(&with(expiring(RetentionClass::Ephemeral, 0, now)), now), SweepAction::Purge);
    assert_eq!(sweep_action(&with(expiring(RetentionClass::Ephemeral, 1, now)), now), SweepAction::Ignore);
    assert_eq!(
        sweep_action(&with(expiring(RetentionClass::Standard, -ARCHIVE_GRACE_MS, now)), now),
        SweepAction::Archive
    );
    assert_eq!(
        sweep_action(&with(expiring(RetentionClass::Standard, -ARCHIVE_GRACE_MS + 1, now)), now),
        SweepAction::Ignore
    );
    assert_eq!(sweep_action(&with(expiring(RetentionClass::Permanent, -1, now)), now), SweepAction::Skip);
}

#[test]
fn sweep_report_counts_actions() {
    let report = SweepReport {
        purged: vec![MemoryId::from_uuid(1)],
        archived: vec![MemoryId::from_uuid(2), MemoryId::from_uuid(3)],
        skipped: 4,
        hook_failures: Vec::new(),
    };
    assert_eq!(report.acted_on(), 3);
    assert_eq!(SweepReport::default().acted_on(), 0);
}

#[test]
fn log_hook_succeeds_for_any_record() {
    let r = MemoryRecord::new(MemoryType::Working, MemoryContent::from_text("x"));
    LogArchiveHook.on_archive(&r).expect("hook");
    assert_eq!(LogArchiveHook.name(), "log");
}

/// A hook that counts its calls and always fails.
struct FailingHook {
    calls: Rc<Cell<usize>>,
}

impl ArchivalHook for FailingHook {
    fn name(&self) -> &str {
        "failing"
    }

    fn on_archive(&self, _record: &MemoryRecord) -> MemoryResult<()> {
        self.calls.set(self.calls.get() + 1);
        Err(MemoryError::storage("hook", "archive target down"))
    }
}

#[test]
fn failing_hooks_never_abort_a_sweep() {
    let now = now_millis();
    let mut store = InMemoryStore::new("hooks");
    let scratch = MemoryRecord::new(MemoryType::Working, MemoryContent::from_text("scratch"))
        .with_retention(expiring(RetentionClass::Ephemeral, -1, now));
    let old = MemoryRecord::new(MemoryType::Semantic, MemoryContent::from_text("old fact"))
        .with_retention(expiring(RetentionClass::Standard, -2 * ARCHIVE_GRACE_MS, now));
    let keep = MemoryRecord::new(MemoryType::Semantic, MemoryContent::from_text("keep"));
    store.put(&scratch).unwrap();
    store.put(&old).unwrap();
    store.put(&keep).unwrap();

    let calls = Rc::new(Cell::new(0));
    let mut sweeper = RetentionSweeper::new(LifecycleProviders { store, graph: None })
        .with_hook(FailingHook { calls: calls.clone() });
    let report = sweeper.sweep(&MemoryScope::default(), now).unwrap();
    assert_eq!(report.purged, vec![scratch.id]);
    assert_eq!(report.archived, vec![old.id]);
    let providers = sweeper.into_providers();
    assert_eq!(providers.store.len(), 2);
    assert_eq!(calls.get(), 2, "one call per record acted on");
    assert_eq!(report.hook_failures.len(), 2, "each failure is reported for its record");
    assert_eq!(report.hook_failures[0].record_id, scratch.id);
    assert_eq!(report.hook_failures[1].record_id, old.id);
    assert_eq!(report.hook_failures[1].hook, 0);
    assert!(matches!(report.hook_failures[0].error, MemoryError::Storage { .. }));
}
