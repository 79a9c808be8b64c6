use openbrowser::adapters::{DefaultMcpClient, DefaultMcpServer};
use openbrowser::interaction::{
    duplicate_registration, list_capabilities, select_adapter, AdapterDescriptor, AdapterKind, AdapterParams, AdapterResult, TaskInfo,
};

#[test]
fn test_adapter_kind_preference_order() {
    let order = AdapterKind::preference_order();
    assert_eq!(order[0], AdapterKind::Http);
    assert_eq!(order[1], AdapterKind::Dom);
    assert_eq!(order[2], AdapterKind::Js);
    assert_eq!(order[3], AdapterKind::Mcp);
    assert_eq!(order[4], AdapterKind::Visual);
}

#[test]
fn test_adapter_result_helpers() {
    let success = AdapterResult::Success { response: "ok".into(), replay_sequence: 1 };
    assert!(success.is_success());
    assert!(!success.is_denied());
    assert_eq!(success.replay_sequence(), 1);

    let denied = AdapterResult::Denied { reason: "no cap".into(), replay_sequence: 2 };
    assert!(!denied.is_success());
    assert!(denied.is_denied());
    assert_eq!(denied.replay_sequence(), 2);

    let error = AdapterResult::Error { message: "oops".into(), replay_sequence: 3 };
    assert!(!error.is_success());
    assert!(!error.is_denied());
    assert_eq!(error.replay_sequence(), 3);
}

#[test]
fn test_adapter_params_default() {
    let params = AdapterParams::default();
    match params {
        AdapterParams::Http { ref url, ref method } => {
            assert!(url.is_empty());
            assert!(method.is_none());
        }
        _ => panic!("expected Http variant"),
    }
}

#[test]
fn test_task_info_new() {
    let info = TaskInfo::new(11, 22);
    assert_eq!(info.task_id, 11);
    assert_eq!(info.agent_id, 22);
}

#[test]
fn test_adapter_registry_register_and_resolve() {
    let registry: Vec<AdapterDescriptor> = Vec::new();
    assert!(registry.is_empty());
    assert!(select_adapter(&registry, "http.get").is_none());
}

#[test]
fn selection_prefers_kind_then_position() {
    let ds = vec![
        AdapterDescriptor::new(AdapterKind::Mcp, vec!["search_web", "mcp.invoke"]),
        AdapterDescriptor::new(AdapterKind::Js, vec!["schedule"]),
        AdapterDescriptor::new(AdapterKind::Dom, vec!["extract_page"]),
        AdapterDescriptor::new(AdapterKind::Http, vec!["http.get", "search_web"]),
        AdapterDescriptor::new(AdapterKind::Http, vec!["search_web"]),
    ];
    assert_eq!(select_adapter(&ds, "search_web"), Some(3));
    assert_eq!(select_adapter(&ds, "extract_page"), Some(2));
    assert_eq!(select_adapter(&ds, "mcp.invoke"), Some(0));
    assert_eq!(select_adapter(&ds, "schedule"), Some(1));
    assert_eq!(select_adapter(&ds, "purchase"), None);
}

#[test]
fn handles_action_is_exact() {
    let d = AdapterDescriptor::new(AdapterKind::Dom, vec!["dom.parse"]);
    assert!(d.handles_action("dom.parse"));
    assert!(!d.handles_action("dom"));
    assert!(!d.handles_action("DOM.PARSE"));
}

#[test]
fn capabilities_are_sorted_and_unique() {
    let ds = vec![
        AdapterDescriptor::new(AdapterKind::Mcp, vec!["search_web", "mcp.invoke", "extract_page"]),
        AdapterDescriptor::new(AdapterKind::Http, vec!["http.get", "search_web"]),
        AdapterDescriptor::new(AdapterKind::Dom, vec!["extract_page", "dom.parse", "Zeta", "dom.parse"]),
    ];
    let caps = list_capabilities(&ds);
    assert_eq!(caps, vec!["Zeta", "dom.parse", "extract_page", "http.get", "mcp.invoke", "search_web"]);
    assert!(list_capabilities(&[]).is_empty());
}

#[test]
fn default_mcp_server_and_client() {
    assert_eq!(DefaultMcpServer.capabilities(), vec!["search_web", "extract_page", "authenticate"]);
    let c = DefaultMcpClient::new();
    assert!(c.endpoint.is_none());
    let c = c.with_endpoint("ws://localhost:3000");
    assert_eq!(c.endpoint.as_deref(), Some("ws://localhost:3000"));
}

#[test]
fn duplicate_registration_needs_same_kind() {
    let existing = vec![
        AdapterDescriptor::new(AdapterKind::Dom, vec!["extract_page", "dom.parse"]),
        AdapterDescriptor::new(AdapterKind::Http, vec!["http.get"]),
    ];
    let mcp = AdapterDescriptor::new(AdapterKind::Mcp, vec!["extract_page", "mcp.invoke"]);
    assert_eq!(duplicate_registration(&existing, &mcp), None);
    let dom = AdapterDescriptor::new(AdapterKind::Dom, vec!["dom.select", "dom.parse"]);
    assert_eq!(duplicate_registration(&existing, &dom), Some((0, "dom.parse".to_string())));
    let http = AdapterDescriptor::new(AdapterKind::Http, vec!["http.get"]);
    assert_eq!(duplicate_registration(&existing, &http), Some((1, "http.get".to_string())));
}
