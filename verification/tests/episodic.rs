use barq_memory::episodic::{Episode, EpisodeQuery, InMemoryEpisodeStore};
use barq_memory::id::MemoryId;
use barq_memory::scope::MemoryScopeBuilder;

/// The wall clock in milliseconds since the Unix epoch.
fn now_millis() -> i64 {
    chrono::Utc::now().timestamp_millis()
}

const DAY: i64 = 86_400_000;

fn ep(tag: &str, days_ago: i64, success: bool) -> Episode {
    let builder = Episode::builder(&format!("action {tag}"), &format!("outcome {tag}"))
        .at(now_millis() - days_ago * DAY)
        .with_scope(MemoryScopeBuilder::new().tenant("acme").build());
    if success {
        builder.build()
    } else {
        builder.failed().build()
    }
}

#[test]
fn builder_defaults_to_success_now() {
    let e = Episode::builder("deploy", "rolled out cleanly").build();
    assert!(e.success);
    assert!(e.feedback.is_none());
    assert!((e.recorded_at - e.event_time).abs() < 5_000);
}

#[test]
fn failures_and_evidence_flow_through() {
    let evidence = MemoryId::generate();
    let e = Episode::builder("migrate db", "constraint violation")
        .failed()
        .with_feedback("check the rollback runbook")
        .citing(vec![evidence])
        .lasting_ms(42_000)
        .build();

    assert!(!e.success);
    assert_eq!(e.duration_ms, Some(42_000));
    assert!(e.cites(&evidence));
    assert!(!e.cites(&MemoryId::generate()));
    assert_eq!(e.feedback.as_deref(), Some("check the rollback runbook"));
}

#[test]
fn event_time_can_differ_from_recorded_time() {
    let yesterday = now_millis() - DAY;
    let e = Episode::builder("backup", "completed").at(yesterday).build();
    assert!(e.event_time < e.recorded_at);
    assert_eq!(e.event_time, yesterday);
}

#[test]
fn trajectory_summary_is_kept() {
    let e = Episode::builder("a", "b").with_trajectory("three steps").build();
    assert_eq!(e.trajectory_summary.as_deref(), Some("three steps"));
}

#[test]
fn append_get_roundtrip_with_scope_isolation() {
    let mut store = InMemoryEpisodeStore::new();
    let e = ep("deploy", 1, true);
    store.append(&e).expect("append");
    assert_eq!(store.len(), 1);

    let acme = MemoryScopeBuilder::new().tenant("acme").build();
    let got = store.get(&e.id, &acme).expect("get");
    assert_eq!(got, Some(e.clone()));

    let globex = MemoryScopeBuilder::new().tenant("globex").build();
    assert!(store.get(&e.id, &globex).expect("get").is_none());
}

#[test]
fn queries_filter_by_time_success_and_evidence() {
    let mut store = InMemoryEpisodeStore::new();
    let evidence = MemoryId::generate();
    let mut recent_fail = ep("recent", 0, false);
    recent_fail.evidence_refs.push(evidence);
    store.append(&ep("old", 30, true)).expect("append");
    store.append(&recent_fail).expect("append");

    let recent_only = store
        .query(&EpisodeQuery {
            from: Some(now_millis() - 7 * DAY),
            ..Default::default()
        })
        .expect("query");
    assert_eq!(recent_only.len(), 1);

    let failures = store
        .query(&EpisodeQuery {
            success: Some(false),
            ..Default::default()
        })
        .expect("query");
    assert_eq!(failures.len(), 1);

    let cited = store
        .query(&EpisodeQuery {
            citing_evidence: Some(evidence),
            ..Default::default()
        })
        .expect("query");
    assert_eq!(cited.len(), 1);

    let all = store.query(&EpisodeQuery::default()).expect("all");
    assert_eq!(all.len(), 2);
    assert!(all[0].event_time >= all[1].event_time);
}

#[test]
fn query_upper_bound_is_exclusive_and_limit_truncates() {
    let mut store = InMemoryEpisodeStore::new();
    let a = Episode::builder("a", "x").at(1_000).build();
    let b = Episode::builder("b", "x").at(2_000).build();
    let c = Episode::builder("c", "x").at(3_000).build();
    store.append(&a).unwrap();
    store.append(&b).unwrap();
    store.append(&c).unwrap();

    let before = store
        .query(&EpisodeQuery { to: Some(2_000), ..Default::default() })
        .unwrap();
    assert_eq!(before.len(), 1);
    assert_eq!(before[0].action, "a");

    let top_two = store
        .query(&EpisodeQuery { limit: 2, ..Default::default() })
        .unwrap();
    let actions: Vec<&str> = top_two.iter().map(|e| e.action.as_str()).collect();
    assert_eq!(actions, vec!["c", "b"]);
}

#[test]
fn empty_action_or_outcome_rejected() {
    let mut store = InMemoryEpisodeStore::new();
    let bad = Episode::builder("  ", "outcome").build();
    assert!(store.append(&bad).is_err());
    let bad_outcome = Episode::builder("action", "").build();
    assert!(store.append(&bad_outcome).is_err());
    assert!(store.is_empty());
}

#[test]
fn purge_respects_scope_and_is_idempotent() {
    let mut store = InMemoryEpisodeStore::new();
    let e = ep("x", 0, true);
    store.append(&e).expect("append");

    let globex = MemoryScopeBuilder::new().tenant("globex").build();
    store.purge(&e.id, &globex).expect("invisible purge");
    assert_eq!(store.len(), 1);

    let acme = MemoryScopeBuilder::new().tenant("acme").build();
    store.purge(&e.id, &acme).expect("owner purge");
    store.purge(&e.id, &acme).expect("purge again");
    assert!(store.is_empty());
    assert_eq!(store.name(), "in-memory");
}
