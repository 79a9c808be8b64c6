use html5ever::tendril::{StrTendril, TendrilSink};
use html5ever::tree_builder::{ElementFlags, NodeOrText, QuirksMode, TreeSink};
use html5ever::{parse_document, Attribute, ExpandedName, ParseOpts, QualName};
use openbrowser::adapters::{DomAdapter, DomStep, HttpAdapter, HttpStep, JsAdapter, McpAdapter, McpStep};
use openbrowser::auth::{AgentIdentity, HumanId};
use openbrowser::dom::{DomError, DomNode, DomTree};
use openbrowser::dom_builder::{Appendee, DomBuilder};
use openbrowser::events::ListenerTable;
use openbrowser::interaction::{AdapterKind, AdapterParams, AdapterResult, TaskInfo};
use openbrowser::observability::{LogLevel, Observability, ReplayEvent, TraceContext};
use openbrowser::policy::{Capability, CapabilitySet, PolicyEngine, Scope};
use openbrowser::selector::select_from_node;
use std::borrow::Cow;
use std::collections::HashMap;
use std::sync::{Arc, Mutex};

struct Sink {
    b: DomBuilder,
    names: HashMap<usize, QualName>,
    blank: QualName,
}

fn appendee(c: NodeOrText<usize>) -> Appendee {
    match c {
        NodeOrText::AppendNode(n) => Appendee::Node(n),
        NodeOrText::AppendText(t) => Appendee::Text(t.to_string()),
    }
}

fn attr_pairs(a: Vec<Attribute>) -> Vec<(String, String)> {
    a.into_iter().map(|x| (x.name.local.to_string(), x.value.to_string())).collect()
}

impl TreeSink for Sink {
    type Handle = usize;
    type Output = Self;
    fn finish(self) -> Self {
        self
    }
    fn parse_error(&mut self, msg: Cow<'static, str>) {
        self.b.parse_error(msg.to_string());
    }
    fn get_document(&mut self) -> usize {
        self.b.document()
    }
    fn elem_name<'a>(&'a self, target: &'a usize) -> ExpandedName<'a> {
        self.names.get(target).unwrap_or(&self.blank).expanded()
    }
    fn create_element(&mut self, name: QualName, attrs: Vec<Attribute>, _flags: ElementFlags) -> usize {
        let id = self.b.create_element(name.local.to_string(), attr_pairs(attrs));
        self.names.insert(id, name);
        id
    }
    fn create_comment(&mut self, text: StrTendril) -> usize {
        self.b.create_comment(text.to_string())
    }
    fn create_pi(&mut self, target: StrTendril, data: StrTendril) -> usize {
        self.b.create_pi(target.to_string(), data.to_string())
    }
    fn append(&mut self, parent: &usize, child: NodeOrText<usize>) {
        self.b.append(*parent, appendee(child));
    }
    fn append_based_on_parent_node(&mut self, element: &usize, prev: &usize, child: NodeOrText<usize>) {
        self.b.append_based_on_parent_node(*element, *prev, appendee(child));
    }
    fn append_doctype_to_document(&mut self, name: StrTendril, public_id: StrTendril, system_id: StrTendril) {
        self.b.append_doctype_to_document(name.to_string(), public_id.to_string(), system_id.to_string());
    }
    fn get_template_contents(&mut self, target: &usize) -> usize {
        self.b.get_template_contents(*target)
    }
    fn same_node(&self, x: &usize, y: &usize) -> bool {
        self.b.same_node(*x, *y)
    }
    fn set_quirks_mode(&mut self, _mode: QuirksMode) {}
    fn append_before_sibling(&mut self, sibling: &usize, new_node: NodeOrText<usize>) {
        self.b.append_before_sibling(*sibling, appendee(new_node));
    }
    fn add_attrs_if_missing(&mut self, target: &usize, attrs: Vec<Attribute>) {
        self.b.add_attrs_if_missing(*target, attr_pairs(attrs));
    }
    fn remove_from_parent(&mut self, target: &usize) {
        self.b.remove_from_parent(*target);
    }
    fn reparent_children(&mut self, node: &usize, new_parent: &usize) {
        self.b.reparent_children(*node, *new_parent);
    }
}

fn parse(html: &str) -> DomTree {
    let sink = Sink {
        b: DomBuilder::new(),
        names: HashMap::new(),
        blank: QualName::new(None, "http://www.w3.org/1999/xhtml".into(), "".into()),
    };
    parse_document(sink, ParseOpts::default()).one(html).b.finish()
}

fn children(tree: &DomTree, id: usize) -> Vec<usize> {
    match &tree.nodes[id] {
        DomNode::Element { children, .. } | DomNode::Document { children } => children.clone(),
        _ => vec![],
    }
}

#[test]
fn test_parse_simple_tag() {
    let tree = parse("<div id=\"main\" class=\"box\"></div>");
    assert!(tree.query("div").is_some());
}

#[test]
fn test_parse_text_and_comment() {
    let tree = parse("Hello <!-- note -->");
    assert!(tree.query_all("div").is_empty());
}

#[test]
fn test_selector_by_id() {
    let tree = parse("<span id=\"x\"></span>");
    assert!(tree.query("#x").is_some());
}

#[test]
fn test_selector_by_class() {
    let tree = parse("<p class=\"foo bar\"></p>");
    assert!(tree.query(".foo").is_some());
    assert!(tree.query(".bar").is_some());
    assert!(tree.query(".baz").is_none());
}

#[test]
fn test_parse_nested_html_produces_tree() {
    let tree = parse("<div><p>hi</p></div>");
    let div = tree.query("div").expect("div should be present");
    let div_children = children(&tree, div);
    assert_eq!(div_children.len(), 1, "div should have exactly one child");
    match &tree.nodes[div_children[0]] {
        DomNode::Element { tag, .. } => assert_eq!(tag, "p", "child should be a p tag"),
        _ => panic!("div child is not an element"),
    }
    let p_children = children(&tree, div_children[0]);
    assert_eq!(p_children.len(), 1, "p should have exactly one child");
    match &tree.nodes[p_children[0]] {
        DomNode::Text { content } => assert_eq!(content, "hi"),
        _ => panic!("expected text node 'hi'"),
    }
}

#[test]
fn test_parse_script_preserves_content() {
    let tree = parse("<script>if (a < b) {}</script>");
    let script = tree.query("script").expect("script tag should exist");
    let sc = children(&tree, script);
    assert!(!sc.is_empty(), "script should have preserved content");
    match &tree.nodes[sc[0]] {
        DomNode::Text { content } => assert!(content.contains("if (a < b) {}")),
        _ => panic!("script content is not text"),
    }
}

#[test]
fn test_selector_compound() {
    let tree = parse("<html><body><div id='main' class='x'><p class='x'>Hello</p></div></body></html>");
    assert!(!select_from_node(&tree, "div#main").is_empty());
    assert!(!select_from_node(&tree, "div.x").is_empty());
    assert!(!select_from_node(&tree, "p.x").is_empty());
}

#[test]
fn test_selector_attribute() {
    let tree = parse(r#"<html><body><div data-id="42"><span>x</span></div></body></html>"#);
    assert!(!select_from_node(&tree, "[data-id]").is_empty());
    assert!(!select_from_node(&tree, r#"[data-id="42"]"#).is_empty());
}

#[test]
fn test_selector_descendant() {
    let tree = parse("<html><body><div><span>Hello</span></div></body></html>");
    assert!(!select_from_node(&tree, "div span").is_empty());
}

#[test]
fn test_selector_child() {
    let tree = parse("<html><body><div><span>Direct</span></div></body></html>");
    assert!(!select_from_node(&tree, "div > span").is_empty());
}

#[test]
fn test_selector_attr_value_edge_cases() {
    let tree = parse(r#"<html><body><div data-x="a.b">dot</div><div data-y="a b">space</div></body></html>"#);
    assert_eq!(select_from_node(&tree, r#"[data-x="a.b"]"#), vec!["dot".to_string()]);
    assert_eq!(select_from_node(&tree, r#"[ data-x = "a.b" ]"#), vec!["dot".to_string()]);
}

#[test]
fn test_append_child_rejects_cycles() {
    let mut tree = parse("<html><body><div id='a'><span id='b'>x</span></div></body></html>");
    let div = tree.query("div").unwrap();
    let span = tree.query("span").unwrap();
    assert!(!tree.append_child(span, div), "cycle append must be rejected");
    assert!(!tree.append_child(div, div), "self append must be rejected");
    assert_eq!(tree.query_all("body span").len(), 1);
}

#[test]
fn mutations_edit_the_tree() {
    let mut tree = parse("<div><p>one</p></div><section></section>");
    let div = tree.query("div").unwrap();
    let p = tree.query("p").unwrap();
    let section = tree.query("section").unwrap();
    tree.remove_child(div, p);
    assert!(children(&tree, div).is_empty());
    assert!(tree.append_child(section, p));
    assert_eq!(select_from_node(&tree, "section p"), vec!["one".to_string()]);
    tree.set_text(p, "two");
    assert!(matches!(&tree.nodes[p], DomNode::Text { content } if content == "two"));
    assert!(tree.query("section > p").is_none());
}

#[test]
fn selection_text_is_trimmed_and_in_order() {
    let tree = parse("<ul><li> a </li><li>\n</li><li>b<i> c</i></li></ul>");
    assert_eq!(select_from_node(&tree, "li"), vec!["a".to_string(), "b".to_string(), "c".to_string()]);
    assert!(select_from_node(&tree, "li[").is_empty());
}

#[test]
fn dom_error_messages() {
    assert_eq!(DomError::ParseError("x".into()).message(), "parse error: x");
    assert_eq!(DomError::SelectorError("y".into()).message(), "selector error: y");
    assert_eq!(DomError::MutationError("z".into()).message(), "mutation error: z");
}

// ─── adapters ───────────────────────────────────────────────────────────────

#[derive(Default)]
struct Recorder {
    events: Mutex<Vec<(String, String)>>,
    metrics: Mutex<Vec<String>>,
}

impl Observability for Recorder {
    fn log_structured(&self, _l: LogLevel, _e: &str, _c: &TraceContext, _kv: &[(&str, &str)]) {}
    fn trace_span(&self, _s: &str, _c: &TraceContext) {}
    fn metric(&self, name: &str, _kv: &[(&str, &str)]) {
        self.metrics.lock().unwrap().push(name.to_string());
    }
    fn record_replay(&self, e: ReplayEvent) -> u64 {
        let mut v = self.events.lock().unwrap();
        v.push((e.event_type, e.result_summary));
        v.len() as u64
    }
}

fn identity() -> AgentIdentity {
    AgentIdentity::new(HumanId(1))
}

fn policy_with(name: &str) -> Arc<PolicyEngine> {
    let mut p = PolicyEngine::new();
    p.add_capability(name);
    Arc::new(p)
}

fn caps_with(name: &str) -> CapabilitySet {
    let mut c = CapabilitySet::new();
    c.grant(Capability::new(name, Scope::Read, None));
    c
}

/// The DOM adapter's two steps: the policy check, then (when allowed) the document.
fn dom_run(
    adapter: &DomAdapter<Recorder>,
    caps: &CapabilitySet,
    params: &AdapterParams,
    document: Result<DomTree, DomError>,
) -> AdapterResult {
    match adapter.begin_at(&identity(), caps, &TaskInfo::new(1, 2), params, 0) {
        DomStep::Done(r) => r,
        DomStep::Parse { selector, .. } => adapter.finish_at(&identity(), &TaskInfo::new(1, 2), &selector, document, 0),
    }
}

#[test]
fn test_dom_adapter_descriptor() {
    let adapter = DomAdapter::new(Arc::new(Recorder::default()), Arc::new(PolicyEngine::new()));
    let desc = adapter.descriptor();
    assert_eq!(desc.kind, AdapterKind::Dom);
    assert!(desc.handles_action("extract_page"));
    assert!(desc.handles_action("dom.parse"));
    assert!(!desc.handles_action("http.get"));
}

#[test]
fn test_dom_adapter_policy_denied() {
    let obs = Arc::new(Recorder::default());
    let adapter = DomAdapter::new(obs.clone(), policy_with("extract_page"));
    let params = AdapterParams::Dom { html: "<html><body><p>Hello</p></body></html>".into(), selector: "p".into() };
    let doc = Ok(parse("<html><body><p>Hello</p></body></html>"));
    let r = dom_run(&adapter, &CapabilitySet::new(), &params, doc);
    assert!(matches!(r, AdapterResult::Denied { replay_sequence: 1, .. }));
    assert_eq!(obs.events.lock().unwrap()[0].0, "capability_denied");
    assert_eq!(obs.metrics.lock().unwrap()[0], "dom_policy_denied");
}

#[test]
fn test_dom_adapter_policy_allowed() {
    let obs = Arc::new(Recorder::default());
    let adapter = DomAdapter::new(obs.clone(), policy_with("extract_page"));
    let html = "<html><body><p id='main'>Hello \"World\"</p></body></html>";
    let params = AdapterParams::Dom { html: html.into(), selector: "#main".into() };
    let r = dom_run(&adapter, &caps_with("extract_page"), &params, Ok(parse(html)));
    assert!(r.is_success());
    match r {
        AdapterResult::Success { response, .. } => {
            assert_eq!(response, r##"{"elements_found":1,"parsed":true,"sample":["Hello \"World\""],"selector":"#main"}"##)
        }
        _ => unreachable!(),
    }
    assert_eq!(obs.events.lock().unwrap()[0], ("dom_parsed".to_string(), "1 elements selected".to_string()));
}

#[test]
fn dom_adapter_samples_at_most_five() {
    let obs = Arc::new(Recorder::default());
    let adapter = DomAdapter::new(obs, policy_with("extract_page"));
    let html = "<b>1</b><b>2</b><b>3</b><b>4</b><b>5</b><b>6</b>";
    let params = AdapterParams::Dom { html: html.into(), selector: "b".into() };
    match dom_run(&adapter, &caps_with("extract_page"), &params, Ok(parse(html))) {
        AdapterResult::Success { response, .. } => {
            assert_eq!(response, r#"{"elements_found":6,"parsed":true,"sample":["1","2","3","4","5"],"selector":"b"}"#)
        }
        other => panic!("{:?}", other),
    }
}

#[test]
fn test_dom_adapter_unexpected_params() {
    let obs = Arc::new(Recorder::default());
    let adapter = DomAdapter::new(obs.clone(), Arc::new(PolicyEngine::new()));
    let params = AdapterParams::Http { url: "https://example.com".into(), method: None };
    let r = dom_run(&adapter, &CapabilitySet::new(), &params, Err(DomError::ParseError("n/a".into())));
    match r {
        AdapterResult::Error { message, replay_sequence } => {
            assert!(message.starts_with("DomAdapter expects AdapterParams::Dom, got Http"));
            assert_eq!(replay_sequence, 0);
        }
        _ => panic!(),
    }
    assert!(obs.events.lock().unwrap().is_empty());
    assert!(obs.metrics.lock().unwrap().is_empty());
}

#[test]
fn dom_adapter_reports_parse_errors() {
    let obs = Arc::new(Recorder::default());
    let adapter = DomAdapter::new(obs.clone(), policy_with("extract_page"));
    let params = AdapterParams::Dom { html: String::new(), selector: "p".into() };
    let r = dom_run(&adapter, &caps_with("extract_page"), &params, Err(DomError::ParseError("bad".into())));
    assert!(matches!(r, AdapterResult::Error { ref message, replay_sequence: 1 } if message == "parse error: parse error: bad"));
    assert_eq!(obs.events.lock().unwrap()[0].0, "dom_error");
}

#[test]
fn test_js_adapter_descriptor() {
    let adapter = JsAdapter::new(Arc::new(Recorder::default()), Arc::new(PolicyEngine::new()));
    let desc = adapter.descriptor();
    assert_eq!(desc.kind, AdapterKind::Js);
    assert!(desc.handles_action("schedule"));
    assert!(!desc.handles_action("http.get"));
}

#[test]
fn test_js_adapter_policy_denied_and_allowed() {
    let obs = Arc::new(Recorder::default());
    let adapter = JsAdapter::new(obs.clone(), policy_with("schedule"));
    let params = AdapterParams::Js { source: "setTimeout(()=>{}, 100)".into() };
    let r = adapter.execute_at(&identity(), &CapabilitySet::new(), &TaskInfo::new(1, 2), &params, 0);
    assert!(matches!(r, AdapterResult::Denied { .. }));
    let r = adapter.execute_at(&identity(), &caps_with("schedule"), &TaskInfo::new(1, 2), &params, 0);
    match r {
        AdapterResult::Success { response, replay_sequence } => {
            assert_eq!(response, r#"{"status":"ok","source_length":23,"note":"JS adapter executed; real engine requires V8/Boa integration"}"#);
            assert_eq!(replay_sequence, 2);
        }
        _ => panic!(),
    }
    assert_eq!(obs.events.lock().unwrap()[1].1, "executed 23 chars of JS source");
}

#[test]
fn http_adapter_gates_fetch() {
    let obs = Arc::new(Recorder::default());
    let adapter = HttpAdapter::new(obs.clone(), policy_with("http.get"));
    assert_eq!(adapter.descriptor().kind, AdapterKind::Http);
    let params = AdapterParams::Http { url: "http://a/b".into(), method: None };
    match adapter.begin_at(&identity(), &CapabilitySet::new(), &TaskInfo::new(1, 2), &params, 0) {
        HttpStep::Done(AdapterResult::Denied { .. }) => {}
        other => panic!("{:?}", other),
    }
    match adapter.begin_at(&identity(), &caps_with("http.get"), &TaskInfo::new(1, 2), &params, 0) {
        HttpStep::Fetch { url } => assert_eq!(url, "http://a/b"),
        other => panic!("{:?}", other),
    }
    assert_eq!(obs.events.lock().unwrap()[0].0, "policy_denied");
    assert_eq!(obs.metrics.lock().unwrap()[0], "policy_denied");
    let r = adapter.finish_at(&identity(), &TaskInfo::new(1, 2), Ok("page".into()), 0);
    assert!(matches!(r, AdapterResult::Success { ref response, replay_sequence: 2 } if response == "page"));
    assert_eq!(obs.events.lock().unwrap()[1], ("http_executed".to_string(), "success".to_string()));
    let r = adapter.finish_at(&identity(), &TaskInfo::new(1, 2), Err("connection refused".into()), 0);
    assert!(matches!(r, AdapterResult::Error { ref message, replay_sequence: 3 } if message == "connection refused"));
    assert_eq!(obs.events.lock().unwrap()[2], ("http_error".to_string(), "connection refused".to_string()));
    assert_eq!(obs.metrics.lock().unwrap()[2], "http_error");
}

#[test]
fn mcp_adapter_steps() {
    let obs = Arc::new(Recorder::default());
    let params = AdapterParams::Mcp { tool: "search_web".into(), args: vec![("q".into(), "x".into())] };
    let bare = McpAdapter::new(policy_with("mcp.invoke"), obs.clone());
    assert!(bare.descriptor().handles_action("purchase"));
    match bare.begin_at(&identity(), &CapabilitySet::new(), &TaskInfo::new(1, 2), &params, 0) {
        McpStep::Done(AdapterResult::Denied { .. }) => {}
        other => panic!("{:?}", other),
    }
    match bare.begin_at(&identity(), &caps_with("mcp.invoke"), &TaskInfo::new(1, 2), &params, 0) {
        McpStep::Done(AdapterResult::Error { message, .. }) => assert_eq!(message, "MCP server not configured"),
        other => panic!("{:?}", other),
    }
    assert_eq!(obs.events.lock().unwrap()[1], ("mcp_error".to_string(), "MCP server not configured".to_string()));
    let served = McpAdapter::new(policy_with("mcp.invoke"), obs.clone()).with_server();
    match served.begin_at(&identity(), &caps_with("mcp.invoke"), &TaskInfo::new(1, 2), &params, 0) {
        McpStep::Invoke { tool, args } => {
            assert_eq!(tool, "search_web");
            assert_eq!(args, vec![("q".to_string(), "x".to_string())]);
        }
        other => panic!("{:?}", other),
    }
    let answer = AdapterResult::Success { response: "{}".into(), replay_sequence: 77 };
    let r = served.finish_at(&identity(), &TaskInfo::new(1, 2), answer, 0);
    assert!(matches!(r, AdapterResult::Success { ref response, replay_sequence: 3 } if response == "{}"));
    assert_eq!(obs.events.lock().unwrap()[2], ("mcp_executed".to_string(), "success".to_string()));
    assert_eq!(obs.metrics.lock().unwrap()[2], "mcp_executed");
}

#[test]
fn dom_adapter_escapes_json() {
    let adapter = DomAdapter::new(Arc::new(Recorder::default()), policy_with("extract_page"));
    let html = "<p>a\nb\\c\u{1}d</p>";
    let params = AdapterParams::Dom { html: html.into(), selector: "p".into() };
    match dom_run(&adapter, &caps_with("extract_page"), &params, Ok(parse(html))) {
        AdapterResult::Success { response, .. } => {
            assert_eq!(response, r#"{"elements_found":1,"parsed":true,"sample":["a\nb\\c\u0001d"],"selector":"p"}"#)
        }
        other => panic!("{:?}", other),
    }
}

#[test]
fn adapters_at_the_current_time() {
    let obs = Arc::new(Recorder::default());
    let http = HttpAdapter::new(obs.clone(), policy_with("http.get"));
    let params = AdapterParams::Http { url: "http://a/b".into(), method: None };
    match http.begin(&identity(), &caps_with("http.get"), &TaskInfo::new(1, 2), &params) {
        HttpStep::Fetch { url } => assert_eq!(url, "http://a/b"),
        other => panic!("{:?}", other),
    }
    let r = http.finish(&identity(), &TaskInfo::new(1, 2), Ok("body".into()));
    assert!(matches!(r, AdapterResult::Success { ref response, .. } if response == "body"));

    let js = JsAdapter::new(obs.clone(), policy_with("schedule"));
    let r = js.execute(&identity(), &caps_with("schedule"), &TaskInfo::new(1, 2), &AdapterParams::Js { source: "1+1".into() });
    assert!(r.is_success());

    let dom = DomAdapter::new(obs.clone(), policy_with("extract_page"));
    let html = "<html><body><p>Hi</p></body></html>";
    let params = AdapterParams::Dom { html: html.into(), selector: "p".into() };
    let r = match dom.begin(&identity(), &caps_with("extract_page"), &TaskInfo::new(1, 2), &params) {
        DomStep::Parse { html, selector } => dom.finish(&identity(), &TaskInfo::new(1, 2), &selector, Ok(parse(&html))),
        DomStep::Done(r) => r,
    };
    match r {
        AdapterResult::Success { response, .. } => assert!(response.starts_with("{\"elements_found\":1,")),
        other => panic!("{:?}", other),
    }

    let mcp = McpAdapter::new(policy_with("mcp.invoke"), obs).with_server();
    let params = AdapterParams::Mcp { tool: "t".into(), args: vec![] };
    assert!(matches!(mcp.begin(&identity(), &caps_with("mcp.invoke"), &TaskInfo::new(1, 2), &params), McpStep::Invoke { .. }));
}

#[test]
fn test_event_emitter() {
    let mut table = ListenerTable::new();
    let click = table.on("click");
    let key = table.on("keydown");
    let click2 = table.on("click");
    assert_eq!((click, key, click2), (0, 1, 2));
    assert_eq!(table.listeners_for("click"), vec![0, 2]);
    assert_eq!(table.listeners_for("keydown"), vec![1]);
    assert!(table.listeners_for("scroll").is_empty());
}
