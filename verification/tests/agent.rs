use openbrowser::agent::{
    finish_plan, hex_encode, make_denied_result, make_error_result, make_success_result, urlencoding_simple,
    AuthenticateCapability, CapabilityError, CapabilityInput, CapabilityResult, CapabilityStatus,
    ExtractPageCapability, InputValue, PlanOutcome, PurchaseCapability, ScheduleCapability, SearchWebCapability,
    SubmitFormCapability,
};
use openbrowser::auth::{AgentId, AgentIdentity, CredentialBroker, HumanId, InMemoryBroker};
use openbrowser::data::DataValue;
use openbrowser::interaction::{AdapterKind, AdapterParams, TaskInfo};
use openbrowser::observability::{LogLevel, Observability, ReplayEvent, TraceContext};
use openbrowser::policy::{Capability, CapabilitySet, Decision, PolicyEngine, Scope};
use std::sync::Mutex;

fn make_identity() -> AgentIdentity {
    AgentIdentity::new(HumanId(99))
}

fn input(pairs: &[(&str, InputValue)]) -> CapabilityInput {
    let mut i = CapabilityInput::new();
    for (k, v) in pairs {
        i.insert(k, v.clone());
    }
    i
}

fn s(x: &str) -> InputValue {
    InputValue::Str(x.to_string())
}

fn field<'a>(d: &'a DataValue, key: &str) -> &'a DataValue {
    match d {
        DataValue::Object(fs) => &fs.iter().find(|(k, _)| k == key).expect("field").1,
        _ => panic!("not an object"),
    }
}

fn allowing(name: &str) -> (PolicyEngine, CapabilitySet) {
    let mut p = PolicyEngine::new();
    p.add_capability(name);
    let mut caps = CapabilitySet::new();
    caps.grant(Capability::new(name, Scope::Read, None));
    (p, caps)
}

#[test]
fn test_search_web_authorize_denied() {
    let agent = make_identity();
    let caps = CapabilitySet::new();
    let mut p = PolicyEngine::new();
    p.add_capability("search_web");
    let cap = SearchWebCapability;
    assert!(matches!(cap.authorize(&agent, &caps, &p), Decision::Deny { .. }));
}

#[test]
fn test_search_web_authorize_allowed() {
    let agent = make_identity();
    let (p, caps) = allowing("search_web");
    let cap = SearchWebCapability;
    assert!(matches!(cap.authorize(&agent, &caps, &p), Decision::Allow));
}

#[test]
fn test_build_params_search_web() {
    let cap = SearchWebCapability;
    let input = input(&[("query", s("rust programming")), ("engine", s("duckduckgo"))]);
    match cap.build_params(&input).unwrap() {
        AdapterParams::Http { url, method } => {
            assert!(url.contains("duckduckgo"));
            assert!(url.contains("rust%20programming") || url.contains("rust programming"));
            assert_eq!(method.as_deref(), Some("GET"));
        }
        _ => panic!("expected Http params"),
    }
}

#[test]
fn test_result_helpers() {
    let r = CapabilityResult {
        task_id: 1,
        capability: "test".into(),
        status: CapabilityStatus::Success,
        data: Some(DataValue::Object(vec![])),
        replay_sequence: 1,
        timestamp: 0,
    };
    assert!(r.is_success());
    assert!(!r.is_denied());
    assert!(!r.is_error());
}

#[test]
fn search_urls_per_engine() {
    let cap = SearchWebCapability;
    let url = |engine: Option<&str>| {
        let mut pairs = vec![("query", s("a&b=c?d%"))];
        if let Some(e) = engine {
            pairs.push(("engine", s(e)));
        }
        match cap.build_params(&input(&pairs)).unwrap() {
            AdapterParams::Http { url, .. } => url,
            _ => panic!(),
        }
    };
    assert_eq!(url(Some("google")), "https://www.google.com/search?q=a%26b%3Dc%3Fd%25");
    assert_eq!(url(Some("bing")), "https://www.bing.com/search?q=a%26b%3Dc%3Fd%25");
    assert_eq!(url(None), "https://duckduckgo.com/?q=a%26b%3Dc%3Fd%25");
    assert!(matches!(cap.build_params(&CapabilityInput::new()), Err(CapabilityError::MissingField(f)) if f == "query"));
    assert!(matches!(cap.build_params(&input(&[("query", InputValue::U64(3))])), Err(CapabilityError::MissingField(_))));
}

#[test]
fn urlencoding_and_hex() {
    assert_eq!(urlencoding_simple("100% sure? a=b&c"), "100%25%20sure%3F%20a%3Db%26c");
    assert_eq!(urlencoding_simple("plain"), "plain");
    assert_eq!(hex_encode(&[0x00, 0x0f, 0xa5, 0xff]), "000fa5ff");
    assert_eq!(hex_encode(&[]), "");
}

#[test]
fn error_messages() {
    assert_eq!(CapabilityError::MissingField("url".into()).message(), "missing field: url");
    assert_eq!(CapabilityError::InvalidParams("x".into()).message(), "invalid params: x");
    assert_eq!(CapabilityError::Serialization("y".into()).message(), "serialization error: y");
}

#[test]
fn input_insert_replaces() {
    let mut i = CapabilityInput::new();
    i.insert("k", s("a"));
    i.insert("k", InputValue::U64(4));
    assert_eq!(i.get_str("k"), None);
    assert_eq!(i.get_u64("k"), Some(4));
    assert_eq!(i.get_u64("missing"), None);
}

#[test]
fn plans_follow_policy_then_input() {
    let agent = make_identity();
    let (p, caps) = allowing("extract_page");
    let cap = ExtractPageCapability;
    assert_eq!(cap.adapter_kind(), AdapterKind::Dom);
    let plan = cap.plan_at(&agent, &caps, &CapabilityInput::new(), &p, 0);
    assert_eq!(plan.event_type, "capability_error");
    assert_eq!(plan.summary, "extract_page: missing field: url");
    let plan = cap.plan_at(&agent, &caps, &input(&[("url", s("http://x"))]), &p, 0);
    assert_eq!(plan.event_type, "extract_page_executed");
    assert_eq!(plan.summary, "attempt");
    match &plan.outcome {
        PlanOutcome::Success { data } => {
            assert!(matches!(field(data, "url"), DataValue::Str(u) if u == "http://x"));
            assert!(matches!(field(field(data, "params_built"), "selector"), DataValue::Str(u) if u == "body"));
        }
        _ => panic!(),
    }
    let denied = cap.plan_at(&agent, &CapabilitySet::new(), &CapabilityInput::new(), &p, 0);
    assert_eq!(denied.event_type, "capability_denied");
    assert_eq!(denied.summary, "extract_page: capability missing in agent CapabilitySet");
    let info = TaskInfo::new(5, 6);
    let r = finish_plan(&info, cap.name(), denied, 17, 3);
    assert!(r.is_denied());
    assert_eq!(r.replay_sequence, 17);
    assert!(matches!(field(r.data.as_ref().unwrap(), "reason"), DataValue::Str(x) if x == "capability missing in agent CapabilitySet"));
}

#[test]
fn schedule_and_other_capabilities() {
    let agent = make_identity();
    let cap = ScheduleCapability;
    match cap.build_params(&input(&[("delay_ms", InputValue::U64(1500))])).unwrap() {
        AdapterParams::Js { source } => assert_eq!(source, "setTimeout(()=>{}, 1500)"),
        _ => panic!(),
    }
    match cap.build_params(&CapabilityInput::new()).unwrap() {
        AdapterParams::Js { source } => assert_eq!(source, "setTimeout(()=>{}, 0)"),
        _ => panic!(),
    }
    let (p, caps) = allowing("schedule");
    let plan = cap.plan_at(&agent, &caps, &input(&[("delay_ms", InputValue::U64(7))]), &p, 0);
    match &plan.outcome {
        PlanOutcome::Success { data } => assert!(matches!(field(data, "delay_ms"), DataValue::U64(7))),
        _ => panic!(),
    }
    let (p, caps) = allowing("authenticate");
    match AuthenticateCapability.build_params(&input(&[("service", s("example.com"))])).unwrap() {
        AdapterParams::Http { url, method } => {
            assert_eq!(url, "https://example.com/auth");
            assert_eq!(method.as_deref(), Some("POST"));
        }
        _ => panic!(),
    }
    let plan = AuthenticateCapability.plan_at(&agent, &caps, &CapabilityInput::new(), &p, 0);
    assert_eq!(plan.event_type, "authenticate_executed");
    let (p, caps) = allowing("submit_form");
    assert!(matches!(SubmitFormCapability.build_params(&CapabilityInput::new()), Err(CapabilityError::MissingField(f)) if f == "url"));
    assert_eq!(SubmitFormCapability.plan_at(&agent, &caps, &CapabilityInput::new(), &p, 0).summary, "attempt");
    let denied = PurchaseCapability.plan_at(&agent, &caps, &CapabilityInput::new(), &p, 0);
    assert_eq!(denied.event_type, "capability_denied");
    assert!(denied.summary.starts_with("purchase: agent AgentId("));
}

#[test]
fn authenticate_with_broker_issues_token() {
    let agent = make_identity();
    let (p, caps) = allowing("authenticate");
    let mut broker = InMemoryBroker::new();
    let plan = AuthenticateCapability::plan_with_broker_at(
        &agent,
        &caps,
        &input(&[("service", s("svc.test")), ("scope", s("payments"))]),
        &p,
        0,
        Some(&mut broker),
    );
    assert_eq!(broker.handles.len(), 1);
    assert_eq!(broker.handles[0].meta.scope, "payments");
    match &plan.outcome {
        PlanOutcome::Success { data } => {
            match field(data, "token_id") {
                DataValue::Str(t) => assert_eq!(t, &hex_encode(&broker.handles[0].opaque)),
                _ => panic!("token expected"),
            }
            assert!(matches!(field(data, "params_url"), DataValue::Str(u) if u == "https://svc.test/auth"));
        }
        _ => panic!(),
    }
    let no_broker = AuthenticateCapability::plan_with_broker_at::<InMemoryBroker>(
        &agent,
        &caps,
        &input(&[("service", s("svc.test"))]),
        &p,
        0,
        None,
    );
    match &no_broker.outcome {
        PlanOutcome::Success { data } => assert!(matches!(field(data, "token_id"), DataValue::Null)),
        _ => panic!(),
    }
    let denied = AuthenticateCapability::plan_with_broker_at::<InMemoryBroker>(
        &agent,
        &CapabilitySet::new(),
        &CapabilityInput::new(),
        &p,
        0,
        None,
    );
    assert_eq!(denied.summary, "capability missing in agent CapabilitySet");
}

#[test]
fn result_constructors() {
    let info = TaskInfo::new(1, 2);
    let ok = make_success_result(&info, "c", DataValue::Bool(true), 4, 9);
    assert!(ok.is_success() && ok.replay_sequence == 4 && ok.timestamp == 9 && ok.task_id == 1);
    let e = make_error_result(&info, "c", "boom", 0, 0);
    assert!(e.is_error());
    assert!(matches!(field(e.data.as_ref().unwrap(), "error"), DataValue::Str(m) if m == "boom"));
    let d = make_denied_result(&info, "c", "no", 0, 0);
    assert!(d.is_denied());
}

#[derive(Default)]
struct Journal {
    events: Mutex<Vec<ReplayEvent>>,
    metrics: Mutex<Vec<String>>,
}

impl Observability for Journal {
    fn log_structured(&self, _l: LogLevel, _e: &str, _c: &TraceContext, _kv: &[(&str, &str)]) {}
    fn trace_span(&self, _s: &str, _c: &TraceContext) {}
    fn metric(&self, name: &str, _kv: &[(&str, &str)]) {
        self.metrics.lock().unwrap().push(name.to_string());
    }
    fn record_replay(&self, e: ReplayEvent) -> u64 {
        let mut v = self.events.lock().unwrap();
        v.push(e);
        40 + v.len() as u64
    }
}

#[test]
fn execute_records_and_reports() {
    let agent = make_identity();
    let (p, caps) = allowing("search_web");
    let obs = Journal::default();
    let info = TaskInfo::new(5, 6);
    let r = SearchWebCapability.execute(&agent, &caps, &info, &input(&[("query", s("rust"))]), &p, &obs);
    assert!(r.is_success());
    assert_eq!(r.task_id, 5);
    assert_eq!(r.capability, "search_web");
    assert_eq!(r.replay_sequence, 41);
    assert!(matches!(field(r.data.as_ref().unwrap(), "query"), DataValue::Str(q) if q == "rust"));
    {
        let events = obs.events.lock().unwrap();
        assert_eq!(events.len(), 1);
        assert_eq!(events[0].event_type, "search_web_executed");
        assert_eq!(events[0].task_id, 5);
        assert_eq!(events[0].timestamp, r.timestamp);
    }
    assert!(r.timestamp > 1_600_000_000_000);
    assert_eq!(obs.metrics.lock().unwrap()[0], "search_web_executed");

    let denied = SearchWebCapability.execute(&agent, &CapabilitySet::new(), &info, &CapabilityInput::new(), &p, &obs);
    assert!(denied.is_denied());
    assert_eq!(denied.replay_sequence, 42);
    assert_eq!(obs.events.lock().unwrap()[1].event_type, "capability_denied");
}

#[test]
fn execute_with_broker_records_issue() {
    let agent = make_identity();
    let (p, caps) = allowing("authenticate");
    let obs = Journal::default();
    let mut broker = InMemoryBroker::new();
    let r = AuthenticateCapability::execute_with_broker(
        &agent,
        &caps,
        &TaskInfo::new(1, 2),
        &input(&[("service", s("svc.test"))]),
        &p,
        &obs,
        Some(&mut broker),
    );
    assert!(r.is_success());
    assert_eq!(broker.handles.len(), 1);
    assert_eq!(broker.handles[0].meta.scope, "default");
    match field(r.data.as_ref().unwrap(), "token_id") {
        DataValue::Str(t) => assert_eq!(t, &hex_encode(&broker.handles[0].opaque)),
        _ => panic!("token expected"),
    }
    let events = obs.events.lock().unwrap();
    assert_eq!(events[0].event_type, "authenticate_executed");
    assert_eq!(events[0].result_summary, "attempt");
}

#[test]
fn broker_handle_becomes_token() {
    let agent = make_identity();
    let (p, caps) = allowing("authenticate");
    assert_eq!(AuthenticateCapability::broker_scope(&CapabilityInput::new()), "default");
    assert_eq!(AuthenticateCapability::broker_scope(&input(&[("scope", s("pay"))])), "pay");
    let mut broker = InMemoryBroker::new();
    let handle = broker.issue(&AgentId(7), "default");
    let plan = AuthenticateCapability::plan_with_handle_at(&agent, &caps, &input(&[("service", s("a.b"))]), &p, 0, Some(&handle));
    match &plan.outcome {
        PlanOutcome::Success { data } => match field(data, "token_id") {
            DataValue::Str(t) => {
                assert_eq!(t, &hex_encode(&handle.opaque));
                assert_eq!(t.len(), 64);
            }
            _ => panic!("token expected"),
        },
        _ => panic!(),
    }
    assert!(AuthenticateCapability::reaches_broker_at(&agent, &caps, &input(&[("service", s("a.b"))]), &p, 0));
    assert!(!AuthenticateCapability::reaches_broker_at(&agent, &caps, &CapabilityInput::new(), &p, 0));
}
