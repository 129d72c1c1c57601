use barq_memory::audit::{AuditAction, AuditEvent, InMemoryAuditor};
use barq_memory::authz::{Principal, ScopeAuthorizer};
use barq_memory::content::MemoryContent;
use barq_memory::crypto::{AesGcmEncryptor, NoopEncryptor};
use barq_memory::record::MemoryRecord;
use barq_memory::scope::{MemoryScope, MemoryScopeBuilder};
use barq_memory::sensitivity::{Sensitivity, SensitivityClassifier};
use barq_memory::taxonomy::MemoryType;

#[test]
fn tenants_cannot_read_across_partitions() {
    let az = ScopeAuthorizer;
    let mut acme_principal = Principal::new("u-1").with_role("member");
    acme_principal.scope = MemoryScopeBuilder::new().tenant("acme").build();

    let mut foreign = MemoryRecord::new(MemoryType::Semantic, MemoryContent::from_text("globex secret"));
    foreign.scope = MemoryScopeBuilder::new().tenant("globex").build();

    assert!(!az.authorize_read(&acme_principal, &foreign));
}

#[test]
fn writes_may_narrow_but_not_escape_scope() {
    let az = ScopeAuthorizer;
    let mut principal = Principal::new("svc-etl");
    principal.scope = MemoryScopeBuilder::new().tenant("acme").build();

    let mut inside = MemoryRecord::new(MemoryType::Semantic, MemoryContent::from_text("x"));
    inside.scope = MemoryScopeBuilder::new().tenant("acme").user("u-9").build();
    let mut outside = MemoryRecord::new(MemoryType::Semantic, MemoryContent::from_text("y"));
    outside.scope = MemoryScopeBuilder::new().tenant("other").build();

    assert!(az.authorize_write(&principal, &inside));
    assert!(!az.authorize_write(&principal, &outside));
}

#[test]
fn wildcard_principals_see_everything() {
    let az = ScopeAuthorizer;
    let admin = Principal::new("root");
    let any = MemoryRecord::new(MemoryType::Semantic, MemoryContent::from_text("z"));
    assert!(az.authorize_read(&admin, &any));
    assert_eq!(az.name(), "scope");
}

#[test]
fn principal_builders_keep_roles_and_scope() {
    let p = Principal::new("u-2")
        .with_role("member")
        .with_role("admin")
        .with_scope(MemoryScopeBuilder::new().tenant("acme").build());
    assert_eq!(p.id, "u-2");
    assert_eq!(p.roles, vec!["member".to_string(), "admin".to_string()]);
    assert_eq!(p.scope, MemoryScopeBuilder::new().tenant("acme").build());
    assert!(Principal::new("x").scope == MemoryScope::empty());
}

#[test]
fn roundtrip_recovers_plaintext() {
    let key = AesGcmEncryptor::generate_key();
    let enc = AesGcmEncryptor::new(&key).expect("key");
    let ct = enc.encrypt("Customer prefers email").expect("encrypt");
    assert_ne!(ct, b"Customer prefers email");
    assert!(
        enc.encrypt("same input twice") != enc.encrypt("same input twice"),
        "random nonces must vary ciphertexts"
    );
    assert_eq!(enc.decrypt(&ct).expect("decrypt"), "Customer prefers email");
    assert_eq!(ct.len(), 12 + "Customer prefers email".len() + 16);
}

#[test]
fn tampered_ciphertext_fails_authentication() {
    let key = AesGcmEncryptor::generate_key();
    let enc = AesGcmEncryptor::new(&key).unwrap();
    let mut ct = enc.encrypt("do not tamper").expect("encrypt");
    let last = ct.len() - 1;
    ct[last] ^= 0xFF;
    assert!(enc.decrypt(&ct).is_err());
}

#[test]
fn wrong_key_fails_authentication() {
    let enc1 = AesGcmEncryptor::new(&AesGcmEncryptor::generate_key()).unwrap();
    let enc2 = AesGcmEncryptor::new(&AesGcmEncryptor::generate_key()).unwrap();
    let ct = enc1.encrypt("secret").unwrap();
    assert!(enc2.decrypt(&ct).is_err());
}

#[test]
fn short_ciphertexts_are_rejected() {
    let enc = AesGcmEncryptor::new(&[7u8; 32]).unwrap();
    assert!(enc.decrypt(&[0u8; 11]).is_err());
    assert!(enc.decrypt(&[]).is_err());
    assert_eq!(enc.name(), "aes-256-gcm");
}

#[test]
fn keys_must_be_32_bytes() {
    assert!(AesGcmEncryptor::new(&[0u8; 16]).is_err());
    assert!(AesGcmEncryptor::new(&[0u8; 32]).is_ok());
}

#[test]
fn noop_roundtrips_identity() {
    let e = NoopEncryptor;
    let ct = e.encrypt("plain").unwrap();
    assert_eq!(ct, b"plain".to_vec());
    assert_eq!(e.decrypt(&ct).unwrap(), "plain");
    assert!(e.decrypt(&[0xff, 0xfe]).is_err());
    assert_eq!(e.name(), "noop");
}

#[test]
fn sensitivity_orders_tiers() {
    assert!(Sensitivity::Public.permits(&Sensitivity::Restricted));
    assert!(!Sensitivity::Restricted.permits(&Sensitivity::Public));
    assert!(Sensitivity::Internal.permits(&Sensitivity::Internal));
}

#[test]
fn classifier_escalates_secret_material() {
    let c = SensitivityClassifier::default();
    let mut r = MemoryRecord::new(
        MemoryType::Semantic,
        MemoryContent::from_text("the api key is stored in vault"),
    );
    assert_eq!(c.classify(&r), Sensitivity::Confidential);

    r.content = MemoryContent::from_text("shared password with the intern");
    assert_eq!(c.classify(&r), Sensitivity::Restricted);

    r.content = MemoryContent::from_text("Lunch is at noon");
    assert_eq!(c.classify(&r), Sensitivity::Internal);

    r.content = MemoryContent::from_text("The SECRET token rotates weekly");
    assert_eq!(c.classify(&r), Sensitivity::Restricted);
    assert_eq!(c.name(), "rule-based");
}

#[test]
fn auditor_collects_events() {
    let mut a = InMemoryAuditor::new();
    assert!(a.is_empty());
    a.record(AuditEvent {
        at: 1_700_000_000_000,
        principal: "user:u-1".into(),
        action: AuditAction::Read,
        record_id: None,
        allowed: false,
        detail: "scope mismatch".into(),
    })
    .expect("record");
    assert_eq!(a.len(), 1);
    assert_eq!(a.events[0].detail, "scope mismatch");
    assert_eq!(a.name(), "in-memory");
}
