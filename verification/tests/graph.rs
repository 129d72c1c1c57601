use barq_memory::graph::{neighbors, Direction, Entity, EntityKey, InMemoryGraphStore, Relation};
use barq_memory::id::MemoryId;
use barq_memory::relation_extractor::RuleBasedRelationExtractor;
use barq_memory::subject::MemorySubject;

#[test]
fn entity_keys_normalize_like_subjects() {
    let subject = MemorySubject::new("Atlas").with_type("Project");
    assert_eq!(
        EntityKey::from_subject(&subject).0,
        "project:Atlas",
        "must equal MemorySubject::canonical_key exactly"
    );
    assert_eq!(EntityKey::from_subject(&subject).0, subject.canonical_key());
    assert_eq!(EntityKey::new(None, " postgres ").0, "postgres");
}

#[test]
fn relations_uppercase_types_and_reject_degenerate_cases() {
    let e = MemoryId::generate();
    let r = Relation::new(e, EntityKey::new(None, "a"), "uses", EntityKey::new(None, "b"))
        .expect("valid");
    assert_eq!(r.relation_type, "USES");

    assert!(Relation::new(e, EntityKey::new(None, "x"), "", EntityKey::new(None, "b")).is_err());
    assert!(Relation::new(e, EntityKey::new(None, "x"), "uses", EntityKey::new(None, "x")).is_err());
}

#[test]
fn blank_relation_types_are_rejected() {
    let e = MemoryId::from_uuid(7);
    assert!(Relation::new(e, EntityKey::new(None, "a"), "   ", EntityKey::new(None, "b")).is_err());
}

#[test]
fn typed_entity_keys_lowercase_the_type_only() {
    assert_eq!(EntityKey::new(Some(" Team "), " Platform ").0, "team:Platform");
    assert_eq!(EntityKey::new(Some("team"), "core").to_display(), "team:core");
}

#[test]
fn relations_roundtrip_and_index_both_directions() {
    let mut g = InMemoryGraphStore::new();
    let atlas = EntityKey::from_subject(&MemorySubject::new("atlas").with_type("project"));
    let postgres = EntityKey::from_subject(&MemorySubject::new("postgres").with_type("database"));
    let evidence = MemoryId::generate();

    g.upsert_entity(&Entity {
        key: atlas.clone(),
        display_name: "Project Atlas".into(),
    })
    .expect("upsert");

    g.add_relation(&Relation::new(evidence, atlas.clone(), "uses", postgres.clone()).expect("rel"))
        .expect("add");
    g.add_relation(&Relation::new(evidence, atlas.clone(), "uses", postgres.clone()).expect("rel"))
        .expect("duplicate is idempotent");
    assert_eq!(g.edge_count(), 1);

    let from = g.relations_from(&atlas).expect("from");
    assert_eq!(from.len(), 1);
    assert_eq!(from[0].to, postgres);

    let to = g.relations_to(&postgres).expect("to");
    assert_eq!(to.len(), 1);

    g.remove_evidence(&evidence).expect("remove");
    assert_eq!(g.edge_count(), 0);
}

#[test]
fn remove_evidence_keeps_other_edges() {
    let mut g = InMemoryGraphStore::new();
    let a = EntityKey::new(None, "a");
    let b = EntityKey::new(None, "b");
    let c = EntityKey::new(None, "c");
    let e1 = MemoryId::from_uuid(1);
    let e2 = MemoryId::from_uuid(2);
    g.add_relation(&Relation::new(e1, a.clone(), "uses", b.clone()).unwrap()).unwrap();
    g.add_relation(&Relation::new(e2, a.clone(), "owns", c.clone()).unwrap()).unwrap();
    assert_eq!(g.edge_count(), 2);
    g.remove_evidence(&e1).unwrap();
    assert_eq!(g.edge_count(), 1);
    let from = g.relations_from(&a).unwrap();
    assert_eq!(from.len(), 1);
    assert_eq!(from[0].relation_type, "OWNS");
    assert_eq!(from[0].evidence, e2);
    g.remove_evidence(&e1).unwrap();
    assert_eq!(g.edge_count(), 1);
}

#[test]
fn graph_store_reports_its_name() {
    let g = InMemoryGraphStore::new();
    assert_eq!(g.name(), "in-memory");
    assert_eq!(g.edge_count(), 0);
}

#[test]
fn neighbor_composition_reports_direction() {
    let mut g = InMemoryGraphStore::new();
    let a = EntityKey::new(None, "a");
    let b = EntityKey::new(None, "b");
    let c = EntityKey::new(None, "c");
    let e = MemoryId::generate();

    g.add_relation(&Relation::new(e, b.clone(), "uses", a.clone()).expect("rel"))
        .expect("add");
    g.add_relation(&Relation::new(MemoryId::generate(), a.clone(), "owns", c.clone()).expect("rel"))
        .expect("add");

    let hood = neighbors(&g, &a).expect("hood");
    assert_eq!(hood.len(), 2);
    assert!(hood.contains(&(Relation::new(e, b.clone(), "uses", a.clone()).unwrap(), Direction::Incoming)));
    assert!(hood.iter().any(|(r, d)| r.from == a && *d == Direction::Outgoing));
}

#[test]
fn uses_pattern_yields_uses_edge() {
    let x = RuleBasedRelationExtractor;
    let subject = MemorySubject::new("atlas").with_type("project");
    let rels = x
        .extract(MemoryId::generate(), &subject, "Project Atlas uses PostgreSQL")
        .expect("extract");

    assert_eq!(rels.len(), 1);
    assert_eq!(rels[0].relation_type, "USES");
    assert_eq!(rels[0].from.0, "project:atlas");
    assert_eq!(rels[0].to.0, "postgresql");
}

#[test]
fn no_cue_means_no_edge() {
    let x = RuleBasedRelationExtractor;
    let subject = MemorySubject::new("atlas");
    let rels = x
        .extract(MemoryId::generate(), &subject, "Atlas had a busy week")
        .expect("extract");
    assert!(rels.is_empty());
}

#[test]
fn owned_by_points_at_the_owner() {
    let x = RuleBasedRelationExtractor;
    let subject = MemorySubject::new("atlas").with_type("project");
    let rels = x
        .extract(MemoryId::generate(), &subject, "Atlas is owned by platform")
        .expect("extract");
    assert_eq!(rels.len(), 1);
    assert_eq!(rels[0].relation_type, "OWNED_BY");
    assert_eq!(rels[0].to.0, "platform");
}

#[test]
fn every_cue_is_recognised_and_self_edges_are_dropped() {
    let x = RuleBasedRelationExtractor;
    let subject = MemorySubject::new("atlas").with_type("project");
    let rels = x
        .extract(MemoryId::from_uuid(9), &subject, "It runs on Kubernetes, deployed to eu-west and hosted in Frankfurt")
        .unwrap();
    let types: Vec<&str> = rels.iter().map(|r| r.relation_type.as_str()).collect();
    assert_eq!(types, vec!["RUNS_ON", "DEPLOYED_TO", "HOSTED_IN"]);
    assert_eq!(rels[0].to.0, "kubernetes");
    assert_eq!(rels[1].to.0, "eu-west");
    assert_eq!(rels[2].to.0, "frankfurt");

    let own = x
        .extract(MemoryId::from_uuid(9), &MemorySubject::new("atlas"), "atlas uses atlas")
        .unwrap();
    assert!(own.is_empty());
    assert_eq!(x.name(), "rule-based");
}
