use openbrowser::kernel::policy_check_log;
use openbrowser::observability::LogLevel;
use openbrowser::auth::{AgentId, AgentIdentity, DelegationLink, HumanId};
use openbrowser::policy::{Capability, CapabilitySet, Decision, PolicyEngine, Scope};

fn make_agent() -> AgentIdentity {
    AgentIdentity::new(HumanId::default())
}

#[test]
fn test_check_with_caps_allows_when_present() {
    let mut policy = PolicyEngine::new();
    policy.add_capability("http.get");
    let agent = make_agent();
    let mut caps = CapabilitySet::new();
    caps.grant(Capability::new("http.get", Scope::All, None));
    match policy.check_with_caps(&agent, &caps, "http.get") {
        Decision::Allow => {}
        Decision::Deny { reason } => panic!("should allow, got Denied: {reason}"),
    }
}

#[test]
fn test_check_with_caps_denies_when_missing() {
    let mut policy = PolicyEngine::new();
    policy.add_capability("http.get");
    let agent = make_agent();
    let caps = CapabilitySet::new();
    match policy.check_with_caps(&agent, &caps, "http.get") {
        Decision::Deny { reason } => {
            assert!(reason.contains("http.get") || reason.contains("capability"), "got: {reason}");
        }
        Decision::Allow => panic!("must be denied"),
    }
}

#[test]
fn auth_expiration_works() {
    let mut cap = Capability::new("test_scope", Scope::All, Some(-3600));
    cap.expiration = Some(chrono::Utc::now().timestamp_millis() - 1000);
    assert!(cap.is_expired(), "capability with past expiration must be expired");
    assert!(!is_cap_effective(&cap), "expired capability must not be effective");
}

fn is_cap_effective(cap: &Capability) -> bool {
    !cap.is_expired()
}

#[test]
fn denial_reasons_name_agent_and_action() {
    let policy = PolicyEngine::new();
    let agent = AgentIdentity { agent_id: AgentId(0x67e5504410b1426f9247bb680e5fe0c8), human: HumanId(0), delegation_chain: Default::default() };
    match policy.check(&agent, "secret_op") {
        Decision::Deny { reason } => assert_eq!(
            reason,
            "agent AgentId(67e55044-10b1-426f-9247-bb680e5fe0c8) lacks capability: secret_op"
        ),
        Decision::Allow => panic!("empty policy must deny"),
    }
}

#[test]
fn expired_delegation_denies_first() {
    let mut policy = PolicyEngine::new();
    policy.add_capability("read");
    let mut agent = make_agent();
    agent.delegation_chain.links.push(DelegationLink { from: AgentId(1), to: AgentId(2), granted_at: 0, expires_at: None });
    agent.delegation_chain.links.push(DelegationLink { from: AgentId(255), to: AgentId(3), granted_at: 0, expires_at: Some(5) });
    match policy.check_at(&agent, "read", 10) {
        Decision::Deny { reason } => assert_eq!(reason, "delegation AgentId(00000000-0000-0000-0000-0000000000ff) expired"),
        Decision::Allow => panic!("expired delegation must deny"),
    }
    assert!(matches!(policy.check_at(&agent, "read", 5), Decision::Allow));
}

#[test]
fn capability_set_respects_expiry_and_name() {
    let mut caps = CapabilitySet::new();
    caps.grant(Capability::new_at("a", Scope::Read, Some(10), 1_000));
    caps.grant(Capability::new_at("b", Scope::Write, None, 1_000));
    assert_eq!(caps.caps[0].expiration, Some(11_000));
    assert!(caps.has_at("a", 11_000));
    assert!(!caps.has_at("a", 11_001));
    assert!(caps.has_at("b", i64::MAX));
    assert!(!caps.has_at("c", 0));
    assert!(caps.has("b"));
}

#[test]
fn check_with_caps_missing_in_set_reason() {
    let mut policy = PolicyEngine::new();
    policy.add_capability("x");
    policy.add_capability("x");
    assert!(policy.allows("x"));
    assert!(!policy.allows("y"));
    match policy.check_with_caps_at(&make_agent(), &CapabilitySet::default(), "x", 0) {
        Decision::Deny { reason } => assert_eq!(reason, "capability missing in agent CapabilitySet"),
        Decision::Allow => panic!(),
    }
}

#[test]
fn fresh_capability_has_future_expiry() {
    let c = Capability::new("n", Scope::NoAccess, Some(60));
    let e = c.expiration.unwrap();
    assert!(e > chrono::Utc::now().timestamp_millis());
    assert!(!c.is_expired());
    assert_eq!(Scope::default(), Scope::NoAccess);
}

#[test]
fn policy_check_log_line() {
    let l = policy_check_log("http.get", &Decision::Allow);
    assert_eq!(l.level, LogLevel::Info);
    assert_eq!(l.event, "policy_check: http.get");
    assert_eq!(l.action, "http.get");
    assert_eq!(l.verdict, "allow");
    let d = policy_check_log("x", &Decision::Deny { reason: "no".into() });
    assert_eq!(d.verdict, "deny");
}
