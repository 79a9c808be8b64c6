//! The interaction adapters (HTTP, DOM, JS, MCP): each checks the policy before
//! its mechanism runs, records a replay event and counts a metric.

use vstd::prelude::*;
use std::sync::Arc;
use crate::auth::AgentIdentity;
use crate::clock::now_millis;
use crate::data::decimal;
use crate::dom::{DomError, DomTree, dom_error_text};
use crate::interaction::{AdapterDescriptor, AdapterKind, AdapterParams, AdapterResult, TaskInfo, result_sequence};
use crate::observability::{Observability, ReplayEvent};
use crate::policy::{Capability, CapabilitySet, Decision, PolicyEngine, check_with_caps_spec, decision_view};
use crate::selector::{query_all_spec, select_from_node, string_views, texts_of_nodes};
use crate::text::push_str;

verus! {

/// A lower-case hexadecimal digit (`n` in `0..16`).
pub open spec fn hex_lower(n: int) -> char {
    if n < 10 {
        ((48 + n) as u8) as char
    } else {
        ((87 + n) as u8) as char
    }
}

/// How serde_json writes one character inside a JSON string: `"` and `\` and
/// the control characters escaped (`\b`, `\t`, `\n`, `\f`, `\r`, otherwise
/// `\u00` and two lower-case hexadecimal digits), every other character as is.
pub open spec fn json_escape(c: char) -> Seq<char> {
    if c == '"' {
        seq!['\\', '"']
    } else if c == '\\' {
        seq!['\\', '\\']
    } else if c == '\u{8}' {
        seq!['\\', 'b']
    } else if c == '\t' {
        seq!['\\', 't']
    } else if c == '\n' {
        seq!['\\', 'n']
    } else if c == '\u{c}' {
        seq!['\\', 'f']
    } else if c == '\r' {
        seq!['\\', 'r']
    } else if (c as u32) < 0x20 {
        seq!['\\', 'u', '0', '0', hex_lower((c as u32) as int / 16), hex_lower((c as u32) as int % 16)]
    } else {
        seq![c]
    }
}

/// The escaped characters of `s`, in order.
pub open spec fn json_escaped(s: Seq<char>) -> Seq<char>
    decreases s.len(),
{
    if s.len() == 0 {
        Seq::empty()
    } else {
        json_escaped(s.drop_last()) + json_escape(s.last())
    }
}

/// The JSON text of the string `s`: its escaped characters between double quotes.
pub open spec fn json_quoted(s: Seq<char>) -> Seq<char> {
    seq!['"'] + json_escaped(s) + seq!['"']
}

/// `serde_json::to_string` of a string: the string between double quotes, with
/// the escapes of serde_json's escape table (`format_escaped_str_contents`).
/// Serialising a `str` cannot fail, so the error arm is never taken.
#[verifier::external_body]
fn json_string(s: &str) -> (r: String)
    ensures
        r@ == json_quoted(s@),
{
    match serde_json::to_string(s) {
        Ok(t) => t,
        Err(_) => String::new(),
    }
}

/// The `Debug` text of adapter parameters (std's derived `Debug`); nothing is
/// stated of it.
#[verifier::external_body]
fn params_debug(p: &AdapterParams) -> (r: String) {
    format!("{:?}", p)
}

/// A replay event of `event_type` with `summary` for `agent`'s task `info`, at `now`.
fn event(info: &TaskInfo, agent: &AgentIdentity, event_type: &str, summary: String, now: i64) -> (e: ReplayEvent)
    ensures
        e.sequence == 0,
        e.event_type@ == event_type@,
        e.task_id == info.task_id,
        e.agent_id == agent.agent_id.0,
        e.result_summary@ == summary@,
        e.timestamp == now,
{
    ReplayEvent {
        sequence: 0,
        event_type: event_type.to_owned(),
        task_id: info.task_id,
        agent_id: agent.agent_id.0,
        result_summary: summary,
        timestamp: now,
    }
}

/// A descriptor of `kind` handling exactly `names`, in order.
pub open spec fn describes(d: AdapterDescriptor, kind: AdapterKind, names: Seq<Seq<char>>) -> bool {
    d.kind == kind && d.handles@.len() == names.len() && forall|i: int|
        0 <= i < names.len() ==> #[trigger] d.handles@[i]@ == names[i]
}

/// The result denying with `reason`, whatever sequence number was recorded.
pub open spec fn is_denial(r: AdapterResult, reason: Seq<char>) -> bool {
    r matches AdapterResult::Denied { reason: x, .. } && x@ == reason
}

// ─── Records and plans ───────────────────────────────────────────────────────

/// A replay event (its type and summary) and a metric (its name and at most
/// one label) that an adapter call records.
#[derive(Debug)]
pub struct AdapterRecord {
    pub event_type: String,
    pub summary: String,
    pub metric: String,
    pub label: Option<(String, String)>,
}

pub struct RecordView {
    pub event_type: Seq<char>,
    pub summary: Seq<char>,
    pub metric: Seq<char>,
    pub label: Option<(Seq<char>, Seq<char>)>,
}

impl View for AdapterRecord {
    type V = RecordView;

    open spec fn view(&self) -> RecordView {
        RecordView {
            event_type: self.event_type@,
            summary: self.summary@,
            metric: self.metric@,
            label: match self.label {
                Some((k, v)) => Some((k@, v@)),
                None => None,
            },
        }
    }
}

/// The record of an event of `event_type` with `summary`, counted in the
/// metric `metric` under `label`.
pub open spec fn record_of(
    event_type: Seq<char>,
    summary: Seq<char>,
    metric: Seq<char>,
    label: Option<(Seq<char>, Seq<char>)>,
) -> RecordView {
    RecordView { event_type, summary, metric, label }
}

/// How an adapter call ends: the record it makes (none for a call refused
/// before the policy is consulted) and its result, whose replay sequence
/// number becomes that of the recorded event.
#[derive(Debug)]
pub struct AdapterPlan {
    pub record: Option<AdapterRecord>,
    pub result: AdapterResult,
}

/// The plan's record, as a value.
pub open spec fn plan_record(p: AdapterPlan) -> Option<RecordView> {
    match p.record {
        Some(r) => Some(r@),
        None => None,
    }
}

/// Whether a call's first step goes on with `T`, or ends with a plan.
#[derive(Debug)]
pub enum Gate<T> {
    Proceed(T),
    Stop(AdapterPlan),
}

/// `r` with its replay sequence number set to `s`.
pub open spec fn with_sequence(r: AdapterResult, s: u64) -> AdapterResult {
    match r {
        AdapterResult::Denied { reason, .. } => AdapterResult::Denied { reason, replay_sequence: s },
        AdapterResult::Success { response, .. } => AdapterResult::Success { response, replay_sequence: s },
        AdapterResult::Error { message, .. } => AdapterResult::Error { message, replay_sequence: s },
    }
}

fn set_sequence(r: AdapterResult, s: u64) -> (out: AdapterResult)
    ensures
        out == with_sequence(r, s),
{
    match r {
        AdapterResult::Denied { reason, .. } => AdapterResult::Denied { reason, replay_sequence: s },
        AdapterResult::Success { response, .. } => AdapterResult::Success { response, replay_sequence: s },
        AdapterResult::Error { message, .. } => AdapterResult::Error { message, replay_sequence: s },
    }
}

/// A label as a value.
pub open spec fn label_view(label: Option<(&str, &str)>) -> Option<(Seq<char>, Seq<char>)> {
    match label {
        Some((k, v)) => Some((k@, v@)),
        None => None,
    }
}

fn make_record(event_type: &str, summary: String, metric: &str, label: Option<(&str, &str)>) -> (r: AdapterRecord)
    ensures
        r@ == record_of(event_type@, summary@, metric@, label_view(label)),
{
    let label = match label {
        Some((k, v)) => Some((k.to_owned(), v.to_owned())),
        None => None,
    };
    AdapterRecord { event_type: event_type.to_owned(), summary, metric: metric.to_owned(), label }
}

/// Carries out `plan` at the time `now` for `agent`'s task `info`: when it
/// has a record, its event is recorded through `observability`, its metric is
/// counted, and its result is answered with the sequence number that the
/// event was given; without a record the result is answered as it is.
pub fn perform_plan<O: Observability>(
    observability: &O,
    info: &TaskInfo,
    agent: &AgentIdentity,
    plan: AdapterPlan,
    now: i64,
) -> (r: AdapterResult)
    ensures
        plan.record is None ==> r == plan.result,
        plan.record is Some ==> exists|s: u64| #[trigger] with_sequence(plan.result, s) == r,
{
    match plan.record {
        None => plan.result,
        Some(rec) => {
            let seq = observability.record_replay(event(info, agent, rec.event_type.as_str(), rec.summary, now));
            match rec.label {
                Some((k, v)) => observability.metric(rec.metric.as_str(), &[(k.as_str(), v.as_str())]),
                None => observability.metric(rec.metric.as_str(), &[]),
            }
            set_sequence(plan.result, seq)
        },
    }
}

/// The error for parameters of another mechanism, whose message starts with
/// `prefix` (the parameters' debug text follows).
pub open spec fn wrong_params(r: AdapterResult, prefix: Seq<char>) -> bool {
    r matches AdapterResult::Error { message, replay_sequence } && replay_sequence == 0 && message@.len()
        >= prefix.len() && message@.take(prefix.len() as int) == prefix
}

/// The error with `msg`, not yet given a sequence number.
pub open spec fn plain_error(r: AdapterResult, msg: Seq<char>) -> bool {
    r matches AdapterResult::Error { message, replay_sequence } && message@ == msg && replay_sequence == 0
}

/// The success with `resp`, not yet given a sequence number.
pub open spec fn plain_success(r: AdapterResult, resp: Seq<char>) -> bool {
    r matches AdapterResult::Success { response, replay_sequence } && response@ == resp && replay_sequence == 0
}

/// The denial with `reason`, not yet given a sequence number.
pub open spec fn plain_denial(r: AdapterResult, reason: Seq<char>) -> bool {
    r matches AdapterResult::Denied { reason: x, replay_sequence } && x@ == reason && replay_sequence == 0
}

/// A plan for parameters of another mechanism: nothing is recorded.
fn wrong_params_plan(prefix: &str, params: &AdapterParams) -> (p: AdapterPlan)
    ensures
        p.record is None,
        wrong_params(p.result, prefix@),
{
    let mut v: Vec<char> = Vec::new();
    push_str(&mut v, prefix);
    let d = params_debug(params);
    push_str(&mut v, d.as_str());
    proof {
        assert(v@.take(prefix@.len() as int) =~= prefix@);
    }
    AdapterPlan {
        record: None,
        result: AdapterResult::Error { message: crate::text::string_from_chars(v.as_slice()), replay_sequence: 0 },
    }
}

/// A plan that denies with `reason`, recording `event_type` (the reason as
/// summary) and counting `metric` under `label`.
fn denial_plan(reason: String, event_type: &str, metric: &str, label: (&str, &str)) -> (p: AdapterPlan)
    ensures
        plan_record(p) == Some(record_of(event_type@, reason@, metric@, Some((label.0@, label.1@)))),
        plain_denial(p.result, reason@),
{
    let record = make_record(event_type, reason.clone(), metric, Some(label));
    AdapterPlan { record: Some(record), result: AdapterResult::Denied { reason, replay_sequence: 0 } }
}

// ─── HTTP ────────────────────────────────────────────────────────────────────

/// The HTTP adapter's next step after its policy check.
#[derive(Debug)]
pub enum HttpStep {
    /// The call ended (denied, or parameters of another mechanism).
    Done(AdapterResult),
    /// The policy allowed; GET `url`.
    Fetch { url: String },
}

/// The HTTP adapter: GET requests for the capability `http.get`.
#[derive(Debug)]
pub struct HttpAdapter<O> {
    pub observability: Arc<O>,
    pub policy: Arc<PolicyEngine>,
}

/// The error message for parameters of another mechanism.
pub open spec fn http_wrong_params() -> Seq<char> {
    "HttpAdapter expects AdapterParams::Http"@
}

/// The HTTP adapter's policy gate at the time `now`. Parameters of another
/// mechanism end the call with an error, before the policy is consulted and
/// unrecorded. A denial ends it, recorded as `policy_denied` with the reason as
/// summary and counted in the metric `policy_denied` labelled `action:
/// http.get`. Otherwise the URL is fetched.
pub open spec fn http_gate_plan(
    policy: Set<Seq<char>>,
    agent: AgentIdentity,
    caps: Seq<Capability>,
    params: AdapterParams,
    now: i64,
    g: Gate<String>,
) -> bool {
    match params {
        AdapterParams::Http { url, .. } => match check_with_caps_spec(policy, agent, caps, "http.get"@, now) {
            Some(reason) => g matches Gate::Stop(p) && plan_record(p) == Some(
                record_of("policy_denied"@, reason, "policy_denied"@, Some(("action"@, "http.get"@))),
            ) && plain_denial(p.result, reason),
            None => g matches Gate::Proceed(u) && u@ == url@,
        },
        _ => g matches Gate::Stop(p) && p.record is None && plain_error(p.result, http_wrong_params()),
    }
}

/// What `begin_at` answers: the result of the policy check (a denial carries
/// the sequence number of its recorded event), or the URL to fetch.
pub open spec fn http_gate(policy: Set<Seq<char>>, agent: AgentIdentity, caps: Seq<Capability>, params: AdapterParams, now: i64, s: HttpStep) -> bool {
    match params {
        AdapterParams::Http { url, .. } => match check_with_caps_spec(policy, agent, caps, "http.get"@, now) {
            Some(reason) => s matches HttpStep::Done(r) && is_denial(r, reason),
            None => s matches HttpStep::Fetch { url: u } && u@ == url@,
        },
        _ => s matches HttpStep::Done(AdapterResult::Error { message, replay_sequence }) && replay_sequence == 0
            && message@ == http_wrong_params(),
    }
}

/// What the HTTP adapter records and answers once the fetch ended. A fetched
/// body is recorded as `http_executed` (summary `success`) and answered as the
/// response; a failed fetch is recorded as `http_error` with the failure as
/// summary and answered as an error with that message. Either is counted in
/// the metric of the event's name, labelled `action: http.get`.
pub open spec fn http_fetch_plan(body: Result<String, String>, p: AdapterPlan) -> bool {
    match body {
        Ok(b) => plan_record(p) == Some(
            record_of("http_executed"@, "success"@, "http_executed"@, Some(("action"@, "http.get"@))),
        ) && plain_success(p.result, b@),
        Err(m) => plan_record(p) == Some(record_of("http_error"@, m@, "http_error"@, Some(("action"@, "http.get"@))))
            && plain_error(p.result, m@),
    }
}

/// What `finish_at` answers: the body as the response, or the failure as an error.
pub open spec fn http_fetched(body: Result<String, String>, r: AdapterResult) -> bool {
    match body {
        Ok(b) => r matches AdapterResult::Success { response, .. } && response@ == b@,
        Err(m) => r matches AdapterResult::Error { message, .. } && message@ == m@,
    }
}

impl<O: Observability> HttpAdapter<O> {
    pub fn new(observability: Arc<O>, policy: Arc<PolicyEngine>) -> (a: HttpAdapter<O>)
        ensures
            a.observability == observability,
            a.policy == policy,
    {
        HttpAdapter { observability, policy }
    }

    /// Handles `http.get`.
    pub fn descriptor(&self) -> (d: AdapterDescriptor)
        ensures
            describes(d, AdapterKind::Http, seq!["http.get"@]),
    {
        AdapterDescriptor::new(AdapterKind::Http, vec!["http.get"])
    }

    /// The policy gate for `http.get` at the time `now`, as a plan.
    pub fn gate_at(&self, agent: &AgentIdentity, caps: &CapabilitySet, params: &AdapterParams, now: i64) -> (g: Gate<String>)
        ensures
            http_gate_plan(self.policy@, *agent, caps.caps@, *params, now, g),
    {
        let url = match params {
            AdapterParams::Http { url, .. } => url.clone(),
            _ => {
                return Gate::Stop(
                    AdapterPlan {
                        record: None,
                        result: AdapterResult::Error {
                            message: "HttpAdapter expects AdapterParams::Http".to_owned(),
                            replay_sequence: 0,
                        },
                    },
                );
            },
        };
        match self.policy.check_with_caps_at(agent, caps, "http.get", now) {
            Decision::Deny { reason } => Gate::Stop(denial_plan(reason, "policy_denied", "policy_denied", ("action", "http.get"))),
            Decision::Allow => Gate::Proceed(url),
        }
    }

    /// Checks the policy for `http.get` at the time `now` and carries out the
    /// plan of `gate_at`; when allowed, the caller fetches the URL.
    pub fn begin_at(&self, agent: &AgentIdentity, caps: &CapabilitySet, info: &TaskInfo, params: &AdapterParams, now: i64) -> (s:
        HttpStep)
        ensures
            http_gate(self.policy@, *agent, caps.caps@, *params, now, s),
    {
        match self.gate_at(agent, caps, params, now) {
            Gate::Stop(plan) => HttpStep::Done(perform_plan(&*self.observability, info, agent, plan, now)),
            Gate::Proceed(url) => HttpStep::Fetch { url },
        }
    }

    /// `begin_at` at the current time.
    pub fn begin(&self, agent: &AgentIdentity, caps: &CapabilitySet, info: &TaskInfo, params: &AdapterParams) -> (s: HttpStep)
        ensures
            exists|now: i64| 0 <= now < crate::clock::TIMESTAMP_BOUND && #[trigger] http_gate(self.policy@, *agent, caps.caps@, *params, now, s),
    {
        self.begin_at(agent, caps, info, params, now_millis())
    }

    /// The plan once the fetch ended with `body` (the failure's message on error).
    pub fn fetch_plan(body: Result<String, String>) -> (p: AdapterPlan)
        ensures
            http_fetch_plan(body, p),
    {
        match body {
            Ok(b) => {
                let record = make_record("http_executed", "success".to_owned(), "http_executed", Some(("action", "http.get")));
                AdapterPlan { record: Some(record), result: AdapterResult::Success { response: b, replay_sequence: 0 } }
            },
            Err(m) => {
                let record = make_record("http_error", m.clone(), "http_error", Some(("action", "http.get")));
                AdapterPlan { record: Some(record), result: AdapterResult::Error { message: m, replay_sequence: 0 } }
            },
        }
    }

    /// Carries out `fetch_plan(body)` at the time `now`.
    pub fn finish_at(&self, agent: &AgentIdentity, info: &TaskInfo, body: Result<String, String>, now: i64) -> (r: AdapterResult)
        ensures
            http_fetched(body, r),
    {
        perform_plan(&*self.observability, info, agent, Self::fetch_plan(body), now)
    }

    /// `finish_at` at the current time.
    pub fn finish(&self, agent: &AgentIdentity, info: &TaskInfo, body: Result<String, String>) -> (r: AdapterResult)
        ensures
            http_fetched(body, r),
    {
        self.finish_at(agent, info, body, now_millis())
    }
}

// ─── DOM ─────────────────────────────────────────────────────────────────────

/// The DOM adapter's next step after its policy check.
#[derive(Debug)]
pub enum DomStep {
    /// The call ended (denied, or parameters of another mechanism).
    Done(AdapterResult),
    /// The policy allowed; parse `html`, then select with `selector`.
    Parse { html: String, selector: String },
}

/// The DOM adapter: parses HTML and selects elements, for `extract_page`.
#[derive(Debug)]
pub struct DomAdapter<O> {
    pub observability: Arc<O>,
    pub policy: Arc<PolicyEngine>,
}

/// `parts` quoted as JSON strings and separated by commas.
pub open spec fn json_list(parts: Seq<Seq<char>>) -> Seq<char>
    decreases parts.len(),
{
    if parts.len() == 0 {
        Seq::empty()
    } else if parts.len() == 1 {
        json_quoted(parts[0])
    } else {
        json_list(parts.drop_last()) + ","@ + json_quoted(parts.last())
    }
}

/// The DOM adapter's response for `selector` when the selection's texts are `texts`.
pub open spec fn dom_response(selector: Seq<char>, texts: Seq<Seq<char>>) -> Seq<char> {
    "{\"elements_found\":"@ + decimal(texts.len()) + ",\"parsed\":true,\"sample\":["@ + json_list(
        texts.take(if texts.len() < 5 { texts.len() as int } else { 5 }),
    ) + "],\"selector\":"@ + json_quoted(selector) + "}"@
}

/// The texts the DOM adapter selects from `tree` with `selector`.
pub open spec fn dom_texts(tree: DomTree, selector: Seq<char>) -> Seq<Seq<char>> {
    texts_of_nodes(tree.view_nodes(), query_all_spec(tree.view_nodes(), tree.root, selector), tree.nodes@.len() as nat)
}

/// `parts` as a JSON array body.
fn json_join(parts: &Vec<String>, n: usize) -> (r: String)
    requires
        n <= parts@.len(),
    ensures
        r@ == json_list(string_views(parts@).take(n as int)),
{
    let mut v: Vec<char> = Vec::new();
    let mut i: usize = 0;
    while i < n
        invariant
            i <= n <= parts@.len(),
            v@ == json_list(string_views(parts@).take(i as int)),
        decreases n - i,
    {
        if i > 0 {
            push_str(&mut v, ",");
        }
        let q = json_string(parts[i].as_str());
        push_str(&mut v, q.as_str());
        proof {
            let t = string_views(parts@).take(i + 1);
            assert(t.drop_last() =~= string_views(parts@).take(i as int));
            assert(t.last() == parts@[i as int]@);
            if i > 0 {
                assert(v@ =~= json_list(t.drop_last()) + ","@ + json_quoted(t.last()));
            } else {
                assert(v@ =~= json_quoted(t[0]));
            }
        }
        i += 1;
    }
    crate::text::string_from_chars(v.as_slice())
}

/// The start of the error message for parameters of another mechanism.
pub open spec fn dom_wrong_params() -> Seq<char> {
    "DomAdapter expects AdapterParams::Dom, got "@
}

/// The DOM adapter's policy gate at the time `now`. Parameters of another
/// mechanism end the call with an error, before the policy is consulted and
/// unrecorded. A denial ends it, recorded as `capability_denied` with the
/// reason as summary and counted in the metric `dom_policy_denied` labelled
/// `capability: extract_page`. Otherwise the HTML is parsed; nothing is parsed
/// before the policy allows.
pub open spec fn dom_gate_plan(
    policy: Set<Seq<char>>,
    agent: AgentIdentity,
    caps: Seq<Capability>,
    params: AdapterParams,
    now: i64,
    g: Gate<(String, String)>,
) -> bool {
    match params {
        AdapterParams::Dom { html, selector } => match check_with_caps_spec(policy, agent, caps, "extract_page"@, now) {
            Some(reason) => g matches Gate::Stop(p) && plan_record(p) == Some(
                record_of("capability_denied"@, reason, "dom_policy_denied"@, Some(("capability"@, "extract_page"@))),
            ) && plain_denial(p.result, reason),
            None => g matches Gate::Proceed(hs) && hs.0@ == html@ && hs.1@ == selector@,
        },
        _ => g matches Gate::Stop(p) && p.record is None && wrong_params(p.result, dom_wrong_params()),
    }
}

/// What `begin_at` answers: the result of the policy check (a denial carries
/// the sequence number of its recorded event), or the HTML and selector to go on with.
pub open spec fn dom_gate(policy: Set<Seq<char>>, agent: AgentIdentity, caps: Seq<Capability>, params: AdapterParams, now: i64, s: DomStep) -> bool {
    match params {
        AdapterParams::Dom { html, selector } => match check_with_caps_spec(policy, agent, caps, "extract_page"@, now) {
            Some(reason) => s matches DomStep::Done(r) && is_denial(r, reason),
            None => s matches DomStep::Parse { html: h, selector: sel } && h@ == html@ && sel@ == selector@,
        },
        _ => s matches DomStep::Done(r) && wrong_params(r, dom_wrong_params()),
    }
}

/// What the DOM adapter records and answers for `document`, the parse of the
/// allowed HTML. A parsed document is recorded as `dom_parsed` with the summary
/// `<count> elements selected` (metric `dom_parsed` labelled with the
/// selector) and answered with the count, the first five texts and the
/// selector, as JSON. A parse error is recorded as `dom_error` with the error's
/// message as summary (metric `dom_error`, unlabelled) and answered as that error.
pub open spec fn dom_parse_plan(selector: Seq<char>, document: Result<DomTree, DomError>, p: AdapterPlan) -> bool {
    match document {
        Ok(t) => plan_record(p) == Some(
            record_of(
                "dom_parsed"@,
                decimal(dom_texts(t, selector).len()) + " elements selected"@,
                "dom_parsed"@,
                Some(("selector"@, selector)),
            ),
        ) && plain_success(p.result, dom_response(selector, dom_texts(t, selector))),
        Err(e) => plan_record(p) == Some(
            record_of("dom_error"@, "parse error: "@ + dom_error_text(e), "dom_error"@, None),
        ) && plain_error(p.result, "parse error: "@ + dom_error_text(e)),
    }
}

/// What `finish_at` answers for `document`.
pub open spec fn dom_parsed(selector: Seq<char>, document: Result<DomTree, DomError>, r: AdapterResult) -> bool {
    match document {
        Ok(t) => r matches AdapterResult::Success { response, .. } && response@ == dom_response(
            selector,
            dom_texts(t, selector),
        ),
        Err(e) => r matches AdapterResult::Error { message, .. } && message@ == "parse error: "@ + dom_error_text(e),
    }
}

impl<O: Observability> DomAdapter<O> {
    pub fn new(observability: Arc<O>, policy: Arc<PolicyEngine>) -> (a: DomAdapter<O>)
        ensures
            a.observability == observability,
            a.policy == policy,
    {
        DomAdapter { observability, policy }
    }

    /// Handles `extract_page`, `dom.parse` and `dom.select`.
    pub fn descriptor(&self) -> (d: AdapterDescriptor)
        ensures
            describes(d, AdapterKind::Dom, seq!["extract_page"@, "dom.parse"@, "dom.select"@]),
    {
        AdapterDescriptor::new(AdapterKind::Dom, vec!["extract_page", "dom.parse", "dom.select"])
    }

    /// The policy gate for `extract_page` at the time `now`, as a plan.
    pub fn gate_at(&self, agent: &AgentIdentity, caps: &CapabilitySet, params: &AdapterParams, now: i64) -> (g: Gate<
        (String, String),
    >)
        ensures
            dom_gate_plan(self.policy@, *agent, caps.caps@, *params, now, g),
    {
        let (html, selector) = match params {
            AdapterParams::Dom { html, selector } => (html.clone(), selector.clone()),
            _ => {
                return Gate::Stop(wrong_params_plan("DomAdapter expects AdapterParams::Dom, got ", params));
            },
        };
        match self.policy.check_with_caps_at(agent, caps, "extract_page", now) {
            Decision::Deny { reason } => Gate::Stop(
                denial_plan(reason, "capability_denied", "dom_policy_denied", ("capability", "extract_page")),
            ),
            Decision::Allow => Gate::Proceed((html, selector)),
        }
    }

    /// Checks the policy for `extract_page` at the time `now` and carries out
    /// the plan of `gate_at`; when allowed, the caller parses the HTML.
    pub fn begin_at(&self, agent: &AgentIdentity, caps: &CapabilitySet, info: &TaskInfo, params: &AdapterParams, now: i64) -> (s:
        DomStep)
        ensures
            dom_gate(self.policy@, *agent, caps.caps@, *params, now, s),
    {
        match self.gate_at(agent, caps, params, now) {
            Gate::Stop(plan) => DomStep::Done(perform_plan(&*self.observability, info, agent, plan, now)),
            Gate::Proceed((html, selector)) => DomStep::Parse { html, selector },
        }
    }

    /// `begin_at` at the current time.
    pub fn begin(&self, agent: &AgentIdentity, caps: &CapabilitySet, info: &TaskInfo, params: &AdapterParams) -> (s: DomStep)
        ensures
            exists|now: i64| 0 <= now < crate::clock::TIMESTAMP_BOUND && #[trigger] dom_gate(self.policy@, *agent, caps.caps@, *params, now, s),
    {
        self.begin_at(agent, caps, info, params, now_millis())
    }

    /// The plan for `document`, the parse of the allowed HTML, selected with `selector`.
    pub fn parse_plan(selector: &str, document: Result<DomTree, DomError>) -> (p: AdapterPlan)
        requires
            document matches Ok(t) ==> t.wf(),
        ensures
            dom_parse_plan(selector@, document, p),
    {
        match document {
            Ok(tree) => {
                let selected = select_from_node(&tree, selector);
                let count = crate::data::decimal_string(selected.len() as u64);
                let n = if selected.len() < 5 {
                    selected.len()
                } else {
                    5
                };
                let sample = json_join(&selected, n);
                let quoted = json_string(selector);
                let mut v: Vec<char> = Vec::new();
                push_str(&mut v, "{\"elements_found\":");
                push_str(&mut v, count.as_str());
                push_str(&mut v, ",\"parsed\":true,\"sample\":[");
                push_str(&mut v, sample.as_str());
                push_str(&mut v, "],\"selector\":");
                push_str(&mut v, quoted.as_str());
                push_str(&mut v, "}");
                proof {
                    assert(string_views(selected@).len() == selected@.len());
                    assert(v@ =~= dom_response(selector@, dom_texts(tree, selector@)));
                }
                let mut summary: Vec<char> = Vec::new();
                push_str(&mut summary, count.as_str());
                push_str(&mut summary, " elements selected");
                proof {
                    assert(summary@ =~= decimal(dom_texts(tree, selector@).len()) + " elements selected"@);
                }
                let record = make_record(
                    "dom_parsed",
                    crate::text::string_from_chars(summary.as_slice()),
                    "dom_parsed",
                    Some(("selector", selector)),
                );
                AdapterPlan {
                    record: Some(record),
                    result: AdapterResult::Success {
                        response: crate::text::string_from_chars(v.as_slice()),
                        replay_sequence: 0,
                    },
                }
            },
            Err(e) => {
                let mut v: Vec<char> = Vec::new();
                push_str(&mut v, "parse error: ");
                let m = e.message();
                push_str(&mut v, m.as_str());
                let msg = crate::text::string_from_chars(v.as_slice());
                let record = make_record("dom_error", msg.clone(), "dom_error", None);
                AdapterPlan { record: Some(record), result: AdapterResult::Error { message: msg, replay_sequence: 0 } }
            },
        }
    }

    /// Carries out `parse_plan(selector, document)` at the time `now`.
    pub fn finish_at(
        &self,
        agent: &AgentIdentity,
        info: &TaskInfo,
        selector: &str,
        document: Result<DomTree, DomError>,
        now: i64,
    ) -> (r: AdapterResult)
        requires
            document matches Ok(t) ==> t.wf(),
        ensures
            dom_parsed(selector@, document, r),
    {
        perform_plan(&*self.observability, info, agent, Self::parse_plan(selector, document), now)
    }

    /// `finish_at` at the current time.
    pub fn finish(&self, agent: &AgentIdentity, info: &TaskInfo, selector: &str, document: Result<DomTree, DomError>) -> (r:
        AdapterResult)
        requires
            document matches Ok(t) ==> t.wf(),
        ensures
            dom_parsed(selector@, document, r),
    {
        self.finish_at(agent, info, selector, document, now_millis())
    }
}

// ─── JS ──────────────────────────────────────────────────────────────────────

/// The JS adapter: executes scripts, for `schedule`.
#[derive(Debug)]
pub struct JsAdapter<O> {
    pub observability: Arc<O>,
    pub policy: Arc<PolicyEngine>,
}

/// The JS adapter's response for a script of `len` bytes.
pub open spec fn js_response(len: usize) -> Seq<char> {
    "{\"status\":\"ok\",\"source_length\":"@ + decimal(len as nat)
        + ",\"note\":\"JS adapter executed; real engine requires V8/Boa integration\"}"@
}

/// The start of the error message for parameters of another mechanism.
pub open spec fn js_wrong_params() -> Seq<char> {
    "JsAdapter expects AdapterParams::Js, got "@
}

/// The length in bytes of the script `source`.
pub open spec fn source_len(source: Seq<char>) -> usize {
    vstd::utf8::encode_utf8(source).len() as usize
}

/// What the JS adapter records and answers at the time `now`. Parameters of
/// another mechanism end the call with an error, before the policy is
/// consulted and unrecorded. A denial is recorded as `capability_denied` with
/// the reason as summary (metric `js_policy_denied` labelled `capability:
/// schedule`). Otherwise the execution is recorded as `js_executed` with the
/// summary `executed <length> chars of JS source` (metric `js_executed`,
/// unlabelled) and answered with the script's length in bytes.
pub open spec fn js_plan(policy: Set<Seq<char>>, agent: AgentIdentity, caps: Seq<Capability>, params: AdapterParams, now: i64, p: AdapterPlan) -> bool {
    match params {
        AdapterParams::Js { source } => match check_with_caps_spec(policy, agent, caps, "schedule"@, now) {
            Some(reason) => plan_record(p) == Some(
                record_of("capability_denied"@, reason, "js_policy_denied"@, Some(("capability"@, "schedule"@))),
            ) && plain_denial(p.result, reason),
            None => plan_record(p) == Some(
                record_of(
                    "js_executed"@,
                    "executed "@ + decimal(source_len(source@) as nat) + " chars of JS source"@,
                    "js_executed"@,
                    None,
                ),
            ) && plain_success(p.result, js_response(source_len(source@))),
        },
        _ => p.record is None && wrong_params(p.result, js_wrong_params()),
    }
}

/// What the JS adapter answers at the time `now`.
pub open spec fn js_outcome(policy: Set<Seq<char>>, agent: AgentIdentity, caps: Seq<Capability>, params: AdapterParams, now: i64, r: AdapterResult) -> bool {
    match params {
        AdapterParams::Js { source } => match check_with_caps_spec(policy, agent, caps, "schedule"@, now) {
            Some(reason) => is_denial(r, reason),
            None => r matches AdapterResult::Success { response, .. } && response@ == js_response(source_len(source@)),
        },
        _ => wrong_params(r, js_wrong_params()),
    }
}

impl<O: Observability> JsAdapter<O> {
    pub fn new(observability: Arc<O>, policy: Arc<PolicyEngine>) -> (a: JsAdapter<O>)
        ensures
            a.observability == observability,
            a.policy == policy,
    {
        JsAdapter { observability, policy }
    }

    /// Handles `schedule`, `js.execute` and `js.compile`.
    pub fn descriptor(&self) -> (d: AdapterDescriptor)
        ensures
            describes(d, AdapterKind::Js, seq!["schedule"@, "js.execute"@, "js.compile"@]),
    {
        AdapterDescriptor::new(AdapterKind::Js, vec!["schedule", "js.execute", "js.compile"])
    }

    /// What executing `params` does at the time `now`, as a plan.
    pub fn plan_at(&self, agent: &AgentIdentity, caps: &CapabilitySet, params: &AdapterParams, now: i64) -> (p: AdapterPlan)
        ensures
            js_plan(self.policy@, *agent, caps.caps@, *params, now, p),
    {
        let source = match params {
            AdapterParams::Js { source } => source.clone(),
            _ => {
                return wrong_params_plan("JsAdapter expects AdapterParams::Js, got ", params);
            },
        };
        match self.policy.check_with_caps_at(agent, caps, "schedule", now) {
            Decision::Deny { reason } => denial_plan(reason, "capability_denied", "js_policy_denied", ("capability", "schedule")),
            Decision::Allow => {
                let len = crate::data::decimal_string(source.as_str().len() as u64);
                let mut summary: Vec<char> = Vec::new();
                push_str(&mut summary, "executed ");
                push_str(&mut summary, len.as_str());
                push_str(&mut summary, " chars of JS source");
                let mut v: Vec<char> = Vec::new();
                push_str(&mut v, "{\"status\":\"ok\",\"source_length\":");
                push_str(&mut v, len.as_str());
                push_str(&mut v, ",\"note\":\"JS adapter executed; real engine requires V8/Boa integration\"}");
                proof {
                    assert(v@ =~= js_response(source_len(source@)));
                    assert(summary@ =~= "executed "@ + decimal(source_len(source@) as nat) + " chars of JS source"@);
                }
                let record = make_record("js_executed", crate::text::string_from_chars(summary.as_slice()), "js_executed", None);
                AdapterPlan {
                    record: Some(record),
                    result: AdapterResult::Success {
                        response: crate::text::string_from_chars(v.as_slice()),
                        replay_sequence: 0,
                    },
                }
            },
        }
    }

    /// Carries out `plan_at` at the time `now`.
    pub fn execute_at(&self, agent: &AgentIdentity, caps: &CapabilitySet, info: &TaskInfo, params: &AdapterParams, now: i64) -> (r:
        AdapterResult)
        ensures
            js_outcome(self.policy@, *agent, caps.caps@, *params, now, r),
    {
        perform_plan(&*self.observability, info, agent, self.plan_at(agent, caps, params, now), now)
    }

    /// `execute_at` at the current time.
    pub fn execute(&self, agent: &AgentIdentity, caps: &CapabilitySet, info: &TaskInfo, params: &AdapterParams) -> (r: AdapterResult)
        ensures
            exists|now: i64| 0 <= now < crate::clock::TIMESTAMP_BOUND && #[trigger] js_outcome(self.policy@, *agent, caps.caps@, *params, now, r),
    {
        self.execute_at(agent, caps, info, params, now_millis())
    }
}

// ─── MCP ─────────────────────────────────────────────────────────────────────

/// The MCP adapter's next step after its policy check.
#[derive(Debug)]
pub enum McpStep {
    /// The call ended (denied, no server, or parameters of another mechanism).
    Done(AdapterResult),
    /// The policy allowed; invoke `tool` with `args` on the configured server.
    Invoke { tool: String, args: Vec<(String, String)> },
}

/// The MCP adapter: the semantic capabilities and `mcp.invoke`, through an MCP server.
#[derive(Debug)]
pub struct McpAdapter<O> {
    pub observability: Arc<O>,
    pub policy: Arc<PolicyEngine>,
    /// Whether a server is configured to invoke tools on.
    pub has_server: bool,
}

/// The label of the MCP adapter's metrics.
pub open spec fn mcp_label() -> Option<(Seq<char>, Seq<char>)> {
    Some(("capability"@, "mcp.invoke"@))
}

/// `args` copied, pair by pair.
pub open spec fn same_args(a: Vec<(String, String)>, args: Vec<(String, String)>) -> bool {
    a@.len() == args@.len() && forall|i: int|
        0 <= i < args@.len() ==> #[trigger] a@[i].0@ == args@[i].0@ && a@[i].1@ == args@[i].1@
}

/// The MCP adapter's policy gate at the time `now`, before any protocol call.
/// A denial ends the call, recorded as `policy_denied` with the reason as
/// summary (metric `mcp_policy_denied` labelled `capability: mcp.invoke`).
/// Once allowed, parameters of another mechanism end it with an error,
/// unrecorded; without a server it ends with the error `MCP server not
/// configured`, recorded as `mcp_error` (metric `mcp_error`, same label);
/// otherwise the tool is invoked with the arguments.
pub open spec fn mcp_gate_plan(
    policy: Set<Seq<char>>,
    agent: AgentIdentity,
    caps: Seq<Capability>,
    has_server: bool,
    params: AdapterParams,
    now: i64,
    g: Gate<(String, Vec<(String, String)>)>,
) -> bool {
    match check_with_caps_spec(policy, agent, caps, "mcp.invoke"@, now) {
        Some(reason) => g matches Gate::Stop(p) && plan_record(p) == Some(
            record_of("policy_denied"@, reason, "mcp_policy_denied"@, mcp_label()),
        ) && plain_denial(p.result, reason),
        None => match params {
            AdapterParams::Mcp { tool, args } => if has_server {
                g matches Gate::Proceed(ta) && ta.0@ == tool@ && same_args(ta.1, args)
            } else {
                g matches Gate::Stop(p) && plan_record(p) == Some(
                    record_of("mcp_error"@, "MCP server not configured"@, "mcp_error"@, mcp_label()),
                ) && plain_error(p.result, "MCP server not configured"@)
            },
            _ => g matches Gate::Stop(p) && p.record is None && plain_error(
                p.result,
                "MCP adapter expects AdapterParams::Mcp"@,
            ),
        },
    }
}

/// What `begin_at` answers: the result of the policy check (a recorded one
/// carries the sequence number of its event), or the tool and arguments to invoke.
pub open spec fn mcp_gate(policy: Set<Seq<char>>, agent: AgentIdentity, caps: Seq<Capability>, has_server: bool, params: AdapterParams, now: i64, s: McpStep) -> bool {
    match check_with_caps_spec(policy, agent, caps, "mcp.invoke"@, now) {
        Some(reason) => s matches McpStep::Done(r) && is_denial(r, reason),
        None => match params {
            AdapterParams::Mcp { tool, args } => if has_server {
                s matches McpStep::Invoke { tool: t, args: a } && t@ == tool@ && same_args(a, args)
            } else {
                s matches McpStep::Done(AdapterResult::Error { message, .. }) && message@ == "MCP server not configured"@
            },
            _ => s matches McpStep::Done(AdapterResult::Error { message, replay_sequence }) && replay_sequence
                == 0 && message@ == "MCP adapter expects AdapterParams::Mcp"@,
        },
    }
}

/// The text a result carries: its response, reason or message.
pub open spec fn result_text(r: AdapterResult) -> Seq<char> {
    match r {
        AdapterResult::Success { response, .. } => response@,
        AdapterResult::Denied { reason, .. } => reason@,
        AdapterResult::Error { message, .. } => message@,
    }
}

/// What the MCP adapter records once the server answered `outcome`: a success
/// is recorded as `mcp_executed` with the summary `success` (metric
/// `mcp_executed`), anything else as `mcp_error` with its reason or message as
/// summary (metric `mcp_error`), both labelled `capability: mcp.invoke`. The
/// server's answer is returned, with the recorded event's sequence number.
pub open spec fn mcp_invoke_plan(outcome: AdapterResult, p: AdapterPlan) -> bool {
    &&& p.result == with_sequence(outcome, 0)
    &&& plan_record(p) == Some(
        if outcome is Success {
            record_of("mcp_executed"@, "success"@, "mcp_executed"@, mcp_label())
        } else {
            record_of("mcp_error"@, result_text(outcome), "mcp_error"@, mcp_label())
        },
    )
}

impl<O: Observability> McpAdapter<O> {
    /// An adapter without server.
    pub fn new(policy: Arc<PolicyEngine>, observability: Arc<O>) -> (a: McpAdapter<O>)
        ensures
            a.observability == observability,
            a.policy == policy,
            !a.has_server,
    {
        McpAdapter { observability, policy, has_server: false }
    }

    /// The adapter with a server configured.
    pub fn with_server(self) -> (a: McpAdapter<O>)
        ensures
            a.observability == self.observability,
            a.policy == self.policy,
            a.has_server,
    {
        McpAdapter { has_server: true, ..self }
    }

    /// Handles the six semantic capabilities and `mcp.invoke`.
    pub fn descriptor(&self) -> (d: AdapterDescriptor)
        ensures
            describes(
                d,
                AdapterKind::Mcp,
                seq![
                    "search_web"@,
                    "extract_page"@,
                    "authenticate"@,
                    "submit_form"@,
                    "purchase"@,
                    "schedule"@,
                    "mcp.invoke"@,
                ],
            ),
    {
        AdapterDescriptor::new(
            AdapterKind::Mcp,
            vec!["search_web", "extract_page", "authenticate", "submit_form", "purchase", "schedule", "mcp.invoke"],
        )
    }

    /// The policy gate for `mcp.invoke` at the time `now`, as a plan.
    pub fn gate_at(&self, agent: &AgentIdentity, caps: &CapabilitySet, params: &AdapterParams, now: i64) -> (g: Gate<
        (String, Vec<(String, String)>),
    >)
        ensures
            mcp_gate_plan(self.policy@, *agent, caps.caps@, self.has_server, *params, now, g),
    {
        match self.policy.check_with_caps_at(agent, caps, "mcp.invoke", now) {
            Decision::Allow => match params {
                AdapterParams::Mcp { tool, args } => {
                    if self.has_server {
                        let mut copied: Vec<(String, String)> = Vec::new();
                        let mut i: usize = 0;
                        while i < args.len()
                            invariant
                                i <= args@.len(),
                                copied@.len() == i,
                                forall|k: int|
                                    0 <= k < i ==> #[trigger] copied@[k].0@ == args@[k].0@ && copied@[k].1@
                                        == args@[k].1@,
                            decreases args.len() - i,
                        {
                            copied.push((args[i].0.clone(), args[i].1.clone()));
                            i += 1;
                        }
                        Gate::Proceed((tool.clone(), copied))
                    } else {
                        let record = make_record(
                            "mcp_error",
                            "MCP server not configured".to_owned(),
                            "mcp_error",
                            Some(("capability", "mcp.invoke")),
                        );
                        Gate::Stop(
                            AdapterPlan {
                                record: Some(record),
                                result: AdapterResult::Error {
                                    message: "MCP server not configured".to_owned(),
                                    replay_sequence: 0,
                                },
                            },
                        )
                    }
                },
                _ => Gate::Stop(
                    AdapterPlan {
                        record: None,
                        result: AdapterResult::Error {
                            message: "MCP adapter expects AdapterParams::Mcp".to_owned(),
                            replay_sequence: 0,
                        },
                    },
                ),
            },
            Decision::Deny { reason } => Gate::Stop(
                denial_plan(reason, "policy_denied", "mcp_policy_denied", ("capability", "mcp.invoke")),
            ),
        }
    }

    /// Checks the policy for `mcp.invoke` at the time `now` and carries out the
    /// plan of `gate_at`; when allowed, the caller invokes the tool on
    /// the server and hands its answer to `finish_at`.
    pub fn begin_at(&self, agent: &AgentIdentity, caps: &CapabilitySet, info: &TaskInfo, params: &AdapterParams, now: i64) -> (s:
        McpStep)
        ensures
            mcp_gate(self.policy@, *agent, caps.caps@, self.has_server, *params, now, s),
    {
        match self.gate_at(agent, caps, params, now) {
            Gate::Stop(plan) => McpStep::Done(perform_plan(&*self.observability, info, agent, plan, now)),
            Gate::Proceed((tool, args)) => McpStep::Invoke { tool, args },
        }
    }

    /// `begin_at` at the current time.
    pub fn begin(&self, agent: &AgentIdentity, caps: &CapabilitySet, info: &TaskInfo, params: &AdapterParams) -> (s: McpStep)
        ensures
            exists|now: i64| 0 <= now < crate::clock::TIMESTAMP_BOUND && #[trigger] mcp_gate(self.policy@, *agent, caps.caps@, self.has_server, *params, now, s),
    {
        self.begin_at(agent, caps, info, params, now_millis())
    }

    /// The plan once the server answered `outcome`.
    pub fn invoke_plan(outcome: AdapterResult) -> (p: AdapterPlan)
        ensures
            mcp_invoke_plan(outcome, p),
    {
        let record = match &outcome {
            AdapterResult::Success { .. } => make_record(
                "mcp_executed",
                "success".to_owned(),
                "mcp_executed",
                Some(("capability", "mcp.invoke")),
            ),
            AdapterResult::Denied { reason, .. } => make_record(
                "mcp_error",
                reason.clone(),
                "mcp_error",
                Some(("capability", "mcp.invoke")),
            ),
            AdapterResult::Error { message, .. } => make_record(
                "mcp_error",
                message.clone(),
                "mcp_error",
                Some(("capability", "mcp.invoke")),
            ),
        };
        AdapterPlan { record: Some(record), result: set_sequence(outcome, 0) }
    }

    /// Carries out `invoke_plan(outcome)` at the time `now`: the server's
    /// answer, recorded, with the recorded event's sequence number.
    pub fn finish_at(&self, agent: &AgentIdentity, info: &TaskInfo, outcome: AdapterResult, now: i64) -> (r: AdapterResult)
        ensures
            r == with_sequence(outcome, result_sequence(r)),
    {
        perform_plan(&*self.observability, info, agent, Self::invoke_plan(outcome), now)
    }

    /// `finish_at` at the current time.
    pub fn finish(&self, agent: &AgentIdentity, info: &TaskInfo, outcome: AdapterResult) -> (r: AdapterResult)
        ensures
            r == with_sequence(outcome, result_sequence(r)),
    {
        self.finish_at(agent, info, outcome, now_millis())
    }
}

/// The default MCP server's capabilities.
#[derive(Clone, Copy, Debug, Default)]
pub struct DefaultMcpServer;

impl DefaultMcpServer {
    /// `search_web`, `extract_page` and `authenticate`.
    pub fn capabilities(&self) -> (v: Vec<String>)
        ensures
            v@.len() == 3,
            v@[0]@ == "search_web"@,
            v@[1]@ == "extract_page"@,
            v@[2]@ == "authenticate"@,
    {
        let mut v: Vec<String> = Vec::new();
        v.push("search_web".to_owned());
        v.push("extract_page".to_owned());
        v.push("authenticate".to_owned());
        v
    }
}

/// The default MCP client: the endpoint it talks to, if set.
#[derive(Clone, Debug, Default)]
pub struct DefaultMcpClient {
    pub endpoint: Option<String>,
}

impl DefaultMcpClient {
    /// A client without endpoint.
    pub fn new() -> (c: DefaultMcpClient)
        ensures
            c.endpoint is None,
    {
        DefaultMcpClient { endpoint: None }
    }

    /// The client with endpoint `ep`.
    pub fn with_endpoint(self, ep: &str) -> (c: DefaultMcpClient)
        ensures
            c.endpoint matches Some(e) && e@ == ep@,
    {
        DefaultMcpClient { endpoint: Some(ep.to_owned()) }
    }
}

} // verus!
