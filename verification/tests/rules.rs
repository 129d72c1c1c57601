use barq_memory::classifier::{keywords, split_sentences, Classification, ClassifierInput, RuleBasedClassifier, RuleBasedExtractor};
use barq_memory::conflict::{detects_negation, ConflictKind, ResolutionPolicy, SupersessionOutcome};
use barq_memory::content::MemoryContent;
use barq_memory::dedup::{
    exact_hash, normalized_hash, normalized_text, text_fingerprint, DedupAction, DedupDecision, DedupEngine,
    MERGE_SIMILARITY_THRESHOLD,
};
use barq_memory::provenance::{Provenance, SourceKind};
use barq_memory::record::MemoryRecord;
use barq_memory::subject::MemorySubject;
use barq_memory::taxonomy::{MemoryStatus, MemoryType};

/// The wall clock in milliseconds since the Unix epoch.
fn now_millis() -> i64 {
    chrono::Utc::now().timestamp_millis()
}

// ----------------------------------------------------------- classifier

#[test]
fn preferences_are_detected_with_subtype() {
    let c = RuleBasedClassifier::default();
    let d = c.classify(&ClassifierInput::text("Customer prefers email contact")).expect("classify");
    assert_eq!(d.memory_type, MemoryType::Semantic);
    assert_eq!(d.subtype.as_deref(), Some("preference"));
    assert!(d.confidence >= 700_000);
}

#[test]
fn commitments_route_to_prospective() {
    let c = RuleBasedClassifier::default();
    let d = c.classify(&ClassifierInput::text("I will send the report by friday")).expect("classify");
    assert_eq!(d.memory_type, MemoryType::Prospective);
    assert_eq!(d.subtype.as_deref(), Some("commitment"));
    assert_eq!(d.confidence, 650_000);
}

#[test]
fn procedures_route_to_procedural() {
    let c = RuleBasedClassifier::default();
    let d = c.classify(&ClassifierInput::text("How to deploy the staging cluster")).expect("classify");
    assert_eq!(d.memory_type, MemoryType::Procedural);
    assert_eq!(d.subtype.as_deref(), Some("how-to"));
    assert_eq!(d.confidence, 700_000);
}

#[test]
fn caller_hints_are_never_overridden() {
    let c = RuleBasedClassifier::default();
    let input = ClassifierInput { hinted_type: Some(MemoryType::Episodic), ..ClassifierInput::text("Customer prefers email") };
    let d = c.classify(&input).expect("classify");
    assert_eq!(d.memory_type, MemoryType::Episodic);
    assert_eq!(d.confidence, 1_000_000);
    assert_eq!(d.subtype, None);
}

#[test]
fn custom_preference_terms_extend_vocabulary() {
    let c = RuleBasedClassifier::default().with_preference_terms(vec!["loves".into(), "allergic to".into()]);
    let d = c.classify(&ClassifierInput::text("User is allergic to peanuts")).expect("classify");
    assert_eq!(d.subtype.as_deref(), Some("preference"));
}

#[test]
fn plain_statements_are_low_confidence_semantic() {
    let c = RuleBasedClassifier::new();
    let d = c.classify(&ClassifierInput::text("The sky was grey")).expect("classify");
    assert_eq!(d.memory_type, MemoryType::Semantic);
    assert_eq!(d.subtype, None);
    assert_eq!(d.confidence, 400_000);
    assert_eq!(c.name(), "rule-based");
}

#[test]
fn passthrough_defers_entirely_to_the_caller() {
    let p = Classification::passthrough(MemoryType::Working);
    assert_eq!(p.memory_type, MemoryType::Working);
    assert_eq!(p.confidence, 1_000_000);
    assert!(p.keywords.is_empty());
}

#[test]
fn extractor_pulls_facts_and_skips_small_talk() {
    let x = RuleBasedExtractor;
    let found = x
        .extract("Hi there! The customer prefers email over phone. Nice weather today. She must receive invoices by friday.")
        .expect("extract");

    let texts: Vec<&str> = found.iter().map(|f| f.text.as_str()).collect();
    assert!(texts.iter().any(|t| t.contains("prefers email")), "preference must be extracted, got {texts:?}");
    assert!(texts.iter().any(|t| t.contains("invoices")), "commitment must be extracted");
    assert!(
        !texts.iter().any(|t: &&str| t.eq_ignore_ascii_case("nice weather today")),
        "small talk must not become memory"
    );
    assert_eq!(texts, vec!["The customer prefers email over phone", "She must receive invoices by friday"]);
}

#[test]
fn keywords_cap_at_eight() {
    let kws = keywords("alpha beta gamma delta epsilon zeta eta theta iota kappa");
    assert_eq!(kws.len(), 8);
    assert_eq!(kws.first().unwrap(), "alpha");
}

#[test]
fn keywords_skip_short_words_and_lowercase() {
    let kws = keywords("The API key, for ACME Corp!");
    assert_eq!(kws, vec!["acme", "corp"]);
}

#[test]
fn sentences_are_trimmed_and_non_empty() {
    let s = split_sentences("  One. Two!\n\nThree?  ");
    assert_eq!(s, vec!["One", "Two", "Three"]);
}

// ------------------------------------------------------------- conflict

fn fact(text: &str, subject: &str, source: SourceKind, confidence: i64) -> MemoryRecord {
    let mut r = MemoryRecord::new(MemoryType::Semantic, MemoryContent::from_text(text))
        .with_subject(MemorySubject::new(subject).with_type("project"))
        .with_confidence(confidence);
    r.provenance = Provenance::now(source);
    r
}

#[test]
fn negation_cues_are_detected_with_boundaries() {
    assert!(detects_negation("Atlas no longer uses MySQL"));
    assert!(detects_negation("Atlas is NOT on postgres"));
    assert!(detects_negation("we stopped using redis"));
    assert!(!detects_negation("Atlas uses PostgreSQL and notes are stored elsewhere"));
}

#[test]
fn different_subjects_are_always_consistent() {
    let policy = ResolutionPolicy;
    let existing = fact("Atlas uses MySQL", "atlas", SourceKind::User, 900_000);
    let incoming = fact("Globex uses PostgreSQL", "globex", SourceKind::Agent, 500_000);
    let a = policy.analyze(&incoming, &existing, true, false);
    assert_eq!(a.kind, ConflictKind::Consistent, "subject mismatch short-circuits");
    assert_eq!(a.existing_id, None);
    assert_eq!(a.rationale, "different subjects");
}

#[test]
fn contradiction_supersedes_regardless_of_strength() {
    let policy = ResolutionPolicy;
    let existing = fact("Atlas uses MySQL", "atlas", SourceKind::User, 950_000);
    let incoming = fact("Atlas does not use MySQL anymore", "atlas", SourceKind::Agent, 400_000);

    let analysis = policy.analyze(&incoming, &existing, true, false);
    assert_eq!(analysis.kind, ConflictKind::Contradicts);

    match policy.resolve(&analysis, &incoming, &existing) {
        SupersessionOutcome::ReplaceExisting { closing_id } => {
            assert_eq!(closing_id, existing.id);
            let mut copy = existing.clone();
            ResolutionPolicy::close_window(&mut copy).expect("close");
            assert_eq!(copy.status, MemoryStatus::Superseded);
            assert!(copy.validity().has_ended(now_millis()));
            assert!(!copy.is_valid_at(now_millis()), "retired facts leave active retrieval");
        }
        other => panic!("expected replacement, got {other:?}"),
    }
}

#[test]
fn value_conflicts_quarantine_when_incoming_is_weaker() {
    let policy = ResolutionPolicy;
    let existing = fact("Atlas uses PostgreSQL 16", "atlas", SourceKind::User, 900_000);
    let incoming = fact("Atlas uses PostgreSQL 17", "atlas", SourceKind::Agent, 400_000);

    let analysis = policy.analyze(&incoming, &existing, false, true);
    assert_eq!(analysis.kind, ConflictKind::ReviewRequired);
    assert_eq!(policy.resolve(&analysis, &incoming, &existing), SupersessionOutcome::QuarantineIncoming);
}

#[test]
fn ambiguous_ambiguity_defers_to_authority_then_confidence() {
    let policy = ResolutionPolicy;

    let strong_user_old = fact("Atlas deploys to us-east", "atlas", SourceKind::User, 500_000);
    let weak_agent_new = fact("Atlas deploys to eu-west these days", "atlas", SourceKind::Agent, 900_000);
    let a = policy.analyze(&weak_agent_new, &strong_user_old, false, false);
    assert_eq!(a.kind, ConflictKind::Ambiguous);
    assert_eq!(
        policy.resolve(&a, &weak_agent_new, &strong_user_old),
        SupersessionOutcome::QuarantineIncoming,
        "agent confidence cannot outrank user authority"
    );

    let user_a = fact("Atlas deploys to us-east", "atlas", SourceKind::User, 400_000);
    let user_b = fact("Atlas deploys to eu-west now", "atlas", SourceKind::User, 800_000);
    let b = policy.analyze(&user_b, &user_a, false, false);
    assert_eq!(
        policy.resolve(&b, &user_b, &user_a),
        SupersessionOutcome::ReplaceExisting { closing_id: user_a.id },
        "equal authority: higher confidence wins"
    );
}

#[test]
fn closed_windows_keep_history_addressable() {
    let mut r = fact("old fact", "x", SourceKind::System, 500_000);
    r.created_at -= 90 * 24 * 3_600_000;
    ResolutionPolicy::close_window(&mut r).expect("close");
    assert!(r.status.is_retired() && !r.status.is_retrievable() || matches!(r.status, MemoryStatus::Superseded));
}

#[test]
fn closing_keeps_an_earlier_bound_and_stamps_the_update() {
    let mut r = fact("bounded fact", "x", SourceKind::System, 500_000);
    r.valid_to = Some(1_000);
    ResolutionPolicy::close_window_at(&mut r, 5_000).expect("close");
    assert_eq!(r.valid_to, Some(1_000));
    assert_eq!(r.updated_at, 5_000);
    assert_eq!(r.status, MemoryStatus::Superseded);

    let mut open = fact("open fact", "x", SourceKind::System, 500_000);
    ResolutionPolicy::close_window_at(&mut open, 5_000).expect("close");
    assert_eq!(open.valid_to, Some(5_000));
}

#[test]
fn conflict_kinds_have_stable_labels() {
    assert_eq!(ConflictKind::ReviewRequired.as_str(), "review_required");
    assert_eq!(ConflictKind::Contradicts.as_str(), "contradicts");
    assert_eq!(ConflictKind::Consistent.as_str(), "consistent");
}

// ---------------------------------------------------------------- dedup

fn record(text: &str, subject_id: &str) -> MemoryRecord {
    MemoryRecord::new(MemoryType::Semantic, MemoryContent::from_text(text))
        .with_subject(MemorySubject::new(subject_id).with_type("project"))
}

#[test]
fn exact_hash_is_stable_and_sensitive() {
    assert_eq!(exact_hash("hello"), exact_hash("hello"));
    assert_ne!(exact_hash("hello"), exact_hash("hello "));
    assert_eq!(exact_hash("").len(), 64);
}

#[test]
fn exact_hash_is_sha256_hex() {
    assert_eq!(exact_hash(""), "e3b0c44298fc1c149afbf4c8996fb92427ae41e4649b934ca495991b7852b855");
    assert_eq!(exact_hash("hello"), "2cf24dba5fb0a30e26e83b2ac5b9e29e1b161e5c1fa7425e73043362938b9824");
}

#[test]
fn normalized_hash_collapses_case_and_whitespace() {
    assert_eq!(normalized_hash("Customer prefers email."), normalized_hash("customer  PREFERS   email"));
    assert_ne!(normalized_hash("prefers email"), normalized_hash("prefers phone"), "different content must not collide");
}

#[test]
fn normalization_keeps_words_and_single_spaces() {
    assert_eq!(normalized_text("  Customer   prefers EMAIL!! "), "customer prefers email");
    assert_eq!(normalized_text("a-b"), "ab");
    assert_eq!(normalized_hash("Hello"), exact_hash("hello"));
}

#[test]
fn fingerprints_pair_consistently() {
    let (e, n) = text_fingerprint("Atlas uses PostgreSQL");
    assert_eq!(e, exact_hash("Atlas uses PostgreSQL"));
    assert_eq!(n, normalized_hash("atlas uses postgresql"));
}

#[test]
fn add_decision_has_no_target() {
    let d = DedupDecision::add();
    assert_eq!(d.action, DedupAction::Add);
    assert!(d.target.is_none());
    assert_eq!(d.reason, "no matching signals");
}

#[test]
fn actions_have_snake_case_labels() {
    let labels: Vec<&str> = [DedupAction::Add, DedupAction::Ignore, DedupAction::Merge, DedupAction::Link, DedupAction::Review]
        .iter()
        .map(|a| a.as_str())
        .collect();
    assert_eq!(labels, vec!["add", "ignore", "merge", "link", "review"]);
}

#[test]
fn no_candidates_means_add() {
    let engine = DedupEngine::default();
    let d = engine.evaluate(&record("brand new", "x"), &Vec::new(), &Vec::new());
    assert_eq!(d.action, DedupAction::Add);
}

#[test]
fn byte_identical_content_ignores() {
    let engine = DedupEngine::default();
    let existing = vec![record("Atlas uses PostgreSQL", "atlas")];
    let d = engine.evaluate(&record("Atlas uses PostgreSQL", "atlas"), &existing, &vec![1_000_000]);
    assert_eq!(d.action, DedupAction::Ignore);
    assert!(d.reason.contains("exact"));
    assert_eq!(d.target, Some(existing[0].id));
}

#[test]
fn reworded_identical_statement_ignores() {
    let engine = DedupEngine::default();
    let existing = vec![record("Atlas uses PostgreSQL", "atlas")];
    let incoming = record("atlas uses POSTGRESQL", "atlas");
    let d = engine.evaluate(&incoming, &existing, &vec![1_000_000]);
    assert_eq!(d.action, DedupAction::Ignore);
    assert!(d.reason.contains("normalized"));
}

#[test]
fn same_subject_high_similarity_overlapping_validity_merges() {
    let engine = DedupEngine::default();
    let existing = vec![record("Atlas runs its workloads on PostgreSQL", "atlas")];
    let incoming = record("Project Atlas does its database work in PostgreSQL", "atlas");

    let d = engine.evaluate(&incoming, &existing, &vec![930_000]);
    assert_eq!(d.action, DedupAction::Merge);
    assert_eq!(d.target, Some(existing[0].id));
    assert_eq!(d.reason, "same subject with similarity 0.93 >= 0.90 and overlapping validity");
}

#[test]
fn similarity_alone_without_same_subject_never_merges() {
    let engine = DedupEngine::default();
    let existing = vec![record("Atlas runs its workloads on PostgreSQL", "other-project")];
    let incoming = record("Project Atlas does its database work in PostgreSQL", "atlas");
    let d = engine.evaluate(&incoming, &existing, &vec![990_000]);
    assert_ne!(d.action, DedupAction::Merge, "similarity alone must not merge");
}

#[test]
fn near_threshold_similarity_requires_review() {
    let engine = DedupEngine::default();
    let existing = vec![record("Atlas uses PostgreSQL 16", "atlas")];
    let incoming = record("Atlas uses PostgreSQL 17 maybe", "atlas");
    let d = engine.evaluate(&incoming, &existing, &vec![MERGE_SIMILARITY_THRESHOLD - 50_000]);
    assert_eq!(d.action, DedupAction::Review);
    assert_eq!(d.reason, "similarity 0.85 within review band");
}

#[test]
fn clearly_different_content_links_or_adds() {
    let engine = DedupEngine::default();
    let existing = vec![record("Atlas uses PostgreSQL", "atlas")];
    let incoming = record("Atlas is owned by the platform team", "atlas");
    let d = engine.evaluate(&incoming, &existing, &vec![300_000]);
    assert!(matches!(d.action, DedupAction::Link | DedupAction::Add), "distinct statements stay distinct, got {d:?}");
    assert_eq!(d.action, DedupAction::Link);
}

#[test]
fn non_overlapping_temporal_windows_do_not_merge() {
    let engine = DedupEngine::default();
    let mut historical = record("Atlas used MySQL back then", "atlas");
    historical.valid_to = Some(now_millis() - 30 * 24 * 3_600_000);
    let incoming = record("Atlas now standardizes on MySQL everywhere", "atlas");
    let d = engine.evaluate(&incoming, &vec![historical], &vec![950_000]);
    assert_ne!(d.action, DedupAction::Merge, "past-era facts must not absorb current ones");
}

#[test]
fn most_similar_candidate_wins_and_ties_keep_the_first() {
    let engine = DedupEngine { merge_threshold: Some(800_000) };
    let a = record("first statement about atlas", "atlas");
    let b = record("second statement about atlas", "atlas");
    let c = record("third statement about atlas", "atlas");
    let incoming = record("a fresh statement about atlas", "atlas");
    let cands = vec![a, b, c];
    let d = engine.evaluate_at(&incoming, &cands, &vec![810_000, 870_000, 870_000], now_millis());
    assert_eq!(d.action, DedupAction::Merge);
    assert_eq!(d.target, Some(cands[1].id));
}

#[test]
fn unrelated_subjectless_records_are_added() {
    let engine = DedupEngine::default();
    let existing = vec![MemoryRecord::new(MemoryType::Semantic, MemoryContent::from_text("one thing"))];
    let incoming = MemoryRecord::new(MemoryType::Semantic, MemoryContent::from_text("another thing"));
    let d = engine.evaluate(&incoming, &existing, &vec![100_000]);
    assert_eq!(d.action, DedupAction::Add);
    assert_eq!(d.target, None);
}
