use openbrowser::auth::{AgentId, AgentIdentity, AuthHandle, CredentialBroker, HumanId, InMemoryBroker};

#[test]
fn auth_handle_unique() {
    let mut broker = InMemoryBroker::default();
    let agent = AgentId::new();
    let h1 = broker.issue(&agent, "scope1");
    let h2 = broker.issue(&agent, "scope2");
    assert_ne!(h1.opaque, h2.opaque, "handles for different scopes must have unique opaque bytes");
}

#[test]
fn auth_revoke_works() {
    let mut broker = InMemoryBroker::default();
    let agent = AgentId::new();
    let h = broker.issue(&agent, "scope");
    assert!(broker.validate(&h), "new handle should be valid");
    assert!(broker.revoke(&h), "revoke should return true");
    assert!(!broker.validate(&h), "revoked handle must fail validation");
}

#[test]
fn unknown_handle_is_invalid_and_not_revocable() {
    let mut broker = InMemoryBroker::new();
    let stranger = AuthHandle { opaque: [7u8; 32], broker_id: "elsewhere".into() };
    assert!(!broker.validate(&stranger));
    assert!(!broker.revoke(&stranger));
}

#[test]
fn issued_handle_names_broker_and_records_scope() {
    let mut broker = InMemoryBroker::new();
    let agent = AgentId(5);
    let h = broker.issue(&agent, "read");
    assert_eq!(h.broker_id, "in-memory-broker");
    assert_eq!(broker.handles.len(), 1);
    assert_eq!(broker.handles[0].meta.scope, "read");
    assert_eq!(broker.handles[0].meta.agent_id, agent);
    assert!(broker.validate_at(&h, i64::MAX));
}

#[test]
fn identity_defaults() {
    assert_eq!(HumanId::default(), HumanId(0));
    let a = AgentIdentity::new(HumanId(3));
    assert_eq!(a.human, HumanId(3));
    assert!(a.delegation_chain.links.is_empty());
}
