//! Semantic capabilities: the agent-facing operations (search the web, extract
//! a page, authenticate, submit a form, purchase, schedule), each authorised by
//! the policy engine before it does anything.

use vstd::prelude::*;
use crate::auth::{AgentId, AgentIdentity, AuthHandle, CredentialBroker};
use crate::clock::now_millis;
use crate::data::{DataValue, DataView, decimal, decimal_string, object, object_view, text};
use crate::interaction::{AdapterKind, AdapterParams, TaskInfo};
use crate::observability::Observability;
use crate::policy::{CapabilitySet, Decision, PolicyEngine, check_with_caps_spec, decision_view};
use crate::text::push_str;

verus! {

// ─── Inputs ──────────────────────────────────────────────────────────────────

/// A value of a capability's input object, as the capabilities read it.
#[derive(Clone, Debug)]
pub enum InputValue {
    Str(String),
    U64(u64),
    /// Any other JSON value (negative or fractional number, boolean, null,
    /// array, object).
    Other,
}

pub enum InputView {
    Str(Seq<char>),
    U64(u64),
    Other,
}

impl View for InputValue {
    type V = InputView;

    open spec fn view(&self) -> InputView {
        match self {
            InputValue::Str(s) => InputView::Str(s@),
            InputValue::U64(n) => InputView::U64(*n),
            InputValue::Other => InputView::Other,
        }
    }
}

/// A capability's input: a JSON object's fields, each name at most once.
#[derive(Debug)]
pub struct CapabilityInput {
    fields: Vec<(String, InputValue)>,
}

impl View for CapabilityInput {
    type V = Map<Seq<char>, InputView>;

    closed spec fn view(&self) -> Map<Seq<char>, InputView> {
        Map::new(
            |k: Seq<char>| exists|i: int| 0 <= i < self.fields@.len() && #[trigger] self.fields@[i].0@ == k,
            |k: Seq<char>|
                self.fields@[choose|i: int| 0 <= i < self.fields@.len() && #[trigger] self.fields@[i].0@ == k].1@,
        )
    }
}

/// The string field `key` of `input`, if it is present and a string.
pub open spec fn input_str(input: Map<Seq<char>, InputView>, key: Seq<char>) -> Option<Seq<char>> {
    if input.contains_key(key) {
        match input[key] {
            InputView::Str(s) => Some(s),
            _ => None,
        }
    } else {
        None
    }
}

/// The unsigned integer field `key` of `input`, if it is present and one.
pub open spec fn input_u64(input: Map<Seq<char>, InputView>, key: Seq<char>) -> Option<u64> {
    if input.contains_key(key) {
        match input[key] {
            InputView::U64(n) => Some(n),
            _ => None,
        }
    } else {
        None
    }
}

pub open spec fn or_default(o: Option<Seq<char>>, d: Seq<char>) -> Seq<char> {
    match o {
        Some(s) => s,
        None => d,
    }
}

impl CapabilityInput {
    #[verifier::type_invariant]
    spec fn distinct_names(self) -> bool {
        forall|i: int, j: int|
            0 <= i < j < self.fields@.len() ==> #[trigger] self.fields@[i].0@ != #[trigger] self.fields@[j].0@
    }

    /// The empty object.
    pub fn new() -> (c: CapabilityInput)
        ensures
            c@ == Map::<Seq<char>, InputView>::empty(),
    {
        let c = CapabilityInput { fields: Vec::new() };
        assert(c@ =~= Map::<Seq<char>, InputView>::empty());
        c
    }

    fn index_of(&self, key: &str) -> (r: Option<usize>)
        ensures
            match r {
                Some(i) => i < self.fields@.len() && self.fields@[i as int].0@ == key@,
                None => forall|j: int| 0 <= j < self.fields@.len() ==> #[trigger] self.fields@[j].0@ != key@,
            },
    {
        let wanted = key.to_owned();
        let mut i: usize = 0;
        while i < self.fields.len()
            invariant
                i <= self.fields@.len(),
                wanted@ == key@,
                forall|j: int| 0 <= j < i ==> #[trigger] self.fields@[j].0@ != key@,
            decreases self.fields.len() - i,
        {
            if self.fields[i].0 == wanted {
                return Some(i);
            }
            i += 1;
        }
        None
    }

    /// Sets the field `key` to `value`, replacing an earlier value.
    pub fn insert(&mut self, key: &str, value: InputValue)
        ensures
            final(self)@ == old(self)@.insert(key@, value@),
    {
        proof {
            use_type_invariant(&*self);
        }
        let ghost before = self.fields@;
        let mut fields = Vec::new();
        std::mem::swap(&mut fields, &mut self.fields);
        let ghost mut pos: int = 0;
        match self.index_of_in(&fields, key) {
            Some(i) => {
                fields.set(i, (key.to_owned(), value));
                proof {
                    pos = i as int;
                }
                proof {
                    assert forall|a: int, b: int|
                        0 <= a < b < fields@.len() implies #[trigger] fields@[a].0@ != #[trigger] fields@[b].0@ by {
                        if a != i && b != i {
                            assert(fields@[a] == before[a] && fields@[b] == before[b]);
                        } else if a == i {
                            assert(fields@[b] == before[b]);
                        } else {
                            assert(fields@[a] == before[a]);
                        }
                    }
                }
            },
            None => {
                fields.push((key.to_owned(), value));
                proof {
                    pos = before.len() as int;
                    assert forall|a: int, b: int|
                        0 <= a < b < fields@.len() implies #[trigger] fields@[a].0@ != #[trigger] fields@[b].0@ by {
                        if b < before.len() {
                            assert(fields@[a] == before[a] && fields@[b] == before[b]);
                        } else {
                            assert(fields@[a] == before[a]);
                        }
                    }
                }
            },
        }
        self.fields = fields;
        proof {
            let nf = self.fields@;
            assert(0 <= pos < nf.len() && nf[pos].0@ == key@ && nf[pos].1@ == value@);
            assert(forall|j: int| 0 <= j < nf.len() && j != pos ==> #[trigger] nf[j] == before[j]);
            assert(forall|j: int| 0 <= j < before.len() && j != pos ==> #[trigger] before[j] == nf[j]);
            assert(pos < before.len() ==> before[pos].0@ == key@);
            assert forall|k: Seq<char>| #[trigger] self@.contains_key(k) == old(self)@.insert(key@, value@).contains_key(k) by {
                if old(self)@.contains_key(k) && k != key@ {
                    let j = choose|j: int| 0 <= j < before.len() && #[trigger] before[j].0@ == k;
                    assert(j != pos);
                    assert(nf[j].0@ == k);
                }
                if k == key@ {
                    assert(nf[pos].0@ == k);
                }
                if self@.contains_key(k) && k != key@ {
                    let j = choose|j: int| 0 <= j < nf.len() && #[trigger] nf[j].0@ == k;
                    assert(j != pos);
                    assert(before[j].0@ == k);
                }
            }
            assert forall|k: Seq<char>| #[trigger] self@.contains_key(k) implies self@[k] == old(self)@.insert(key@, value@)[k] by {
                let j = choose|j: int| 0 <= j < nf.len() && #[trigger] nf[j].0@ == k;
                if k == key@ {
                    assert(j == pos);
                } else {
                    assert(j != pos);
                    assert(before[j] == nf[j]);
                    let j0 = choose|j0: int| 0 <= j0 < before.len() && #[trigger] before[j0].0@ == k;
                    assert(j0 != pos);
                    assert(nf[j0].0@ == k);
                    assert(j0 == j);
                }
            }
            assert(self@ =~= old(self)@.insert(key@, value@));
        }
    }

    fn index_of_in(&self, fields: &Vec<(String, InputValue)>, key: &str) -> (r: Option<usize>)
        ensures
            match r {
                Some(i) => i < fields@.len() && fields@[i as int].0@ == key@,
                None => forall|j: int| 0 <= j < fields@.len() ==> #[trigger] fields@[j].0@ != key@,
            },
    {
        let wanted = key.to_owned();
        let mut i: usize = 0;
        while i < fields.len()
            invariant
                i <= fields@.len(),
                wanted@ == key@,
                forall|j: int| 0 <= j < i ==> #[trigger] fields@[j].0@ != key@,
            decreases fields.len() - i,
        {
            if fields[i].0 == wanted {
                return Some(i);
            }
            i += 1;
        }
        None
    }

    /// The string field `key`, when present and a string.
    pub fn get_str(&self, key: &str) -> (r: Option<String>)
        ensures
            match r {
                Some(s) => input_str(self@, key@) == Some(s@),
                None => input_str(self@, key@) is None,
            },
    {
        proof {
            use_type_invariant(self);
        }
        match self.index_of(key) {
            Some(i) => {
                proof {
                    let j = choose|j: int| 0 <= j < self.fields@.len() && #[trigger] self.fields@[j].0@ == key@;
                    assert(j == i);
                }
                match &self.fields[i].1 {
                    InputValue::Str(s) => Some(s.clone()),
                    _ => None,
                }
            },
            None => None,
        }
    }

    /// The unsigned integer field `key`, when present and one.
    pub fn get_u64(&self, key: &str) -> (r: Option<u64>)
        ensures
            r == input_u64(self@, key@),
    {
        proof {
            use_type_invariant(self);
        }
        match self.index_of(key) {
            Some(i) => {
                proof {
                    let j = choose|j: int| 0 <= j < self.fields@.len() && #[trigger] self.fields@[j].0@ == key@;
                    assert(j == i);
                }
                match &self.fields[i].1 {
                    InputValue::U64(n) => Some(*n),
                    _ => None,
                }
            },
            None => None,
        }
    }
}

// ─── Results ─────────────────────────────────────────────────────────────────

/// How a capability ended.
#[derive(Clone, Copy, Debug, PartialEq, Eq, Structural)]
pub enum CapabilityStatus {
    Success,
    Denied,
    Error,
}

/// Why a capability's input was refused.
#[derive(Clone, Debug)]
pub enum CapabilityError {
    InvalidParams(String),
    MissingField(String),
    Serialization(String),
}

/// The message of a capability error.
pub open spec fn error_text(e: CapabilityError) -> Seq<char> {
    match e {
        CapabilityError::InvalidParams(s) => "invalid params: "@ + s@,
        CapabilityError::MissingField(s) => "missing field: "@ + s@,
        CapabilityError::Serialization(s) => "serialization error: "@ + s@,
    }
}

impl CapabilityError {
    /// The error's message.
    pub fn message(&self) -> (m: String)
        ensures
            m@ == error_text(*self),
    {
        let mut v: Vec<char> = Vec::new();
        match self {
            CapabilityError::InvalidParams(s) => {
                push_str(&mut v, "invalid params: ");
                push_str(&mut v, s.as_str());
            },
            CapabilityError::MissingField(s) => {
                push_str(&mut v, "missing field: ");
                push_str(&mut v, s.as_str());
            },
            CapabilityError::Serialization(s) => {
                push_str(&mut v, "serialization error: ");
                push_str(&mut v, s.as_str());
            },
        }
        crate::text::string_from_chars(v.as_slice())
    }
}

/// The structured result of a capability; `timestamp` is in milliseconds since
/// the Unix epoch.
#[derive(Debug)]
pub struct CapabilityResult {
    pub task_id: u128,
    pub capability: String,
    pub status: CapabilityStatus,
    pub data: Option<DataValue>,
    pub replay_sequence: u64,
    pub timestamp: i64,
}

impl CapabilityResult {
    pub fn is_success(&self) -> (r: bool)
        ensures
            r == (self.status == CapabilityStatus::Success),
    {
        self.status == CapabilityStatus::Success
    }

    pub fn is_denied(&self) -> (r: bool)
        ensures
            r == (self.status == CapabilityStatus::Denied),
    {
        self.status == CapabilityStatus::Denied
    }

    pub fn is_error(&self) -> (r: bool)
        ensures
            r == (self.status == CapabilityStatus::Error),
    {
        self.status == CapabilityStatus::Error
    }
}

/// A successful result carrying `data`.
pub fn make_success_result(info: &TaskInfo, capability: &str, data: DataValue, seq: u64, now: i64) -> (r:
    CapabilityResult)
    ensures
        r.task_id == info.task_id,
        r.capability@ == capability@,
        r.status == CapabilityStatus::Success,
        r.data matches Some(d) && d@ == data@,
        r.replay_sequence == seq,
        r.timestamp == now,
{
    CapabilityResult {
        task_id: info.task_id,
        capability: capability.to_owned(),
        status: CapabilityStatus::Success,
        data: Some(data),
        replay_sequence: seq,
        timestamp: now,
    }
}

/// A denied result whose data is `{"reason": reason}`.
pub fn make_denied_result(info: &TaskInfo, capability: &str, reason: &str, seq: u64, now: i64) -> (r:
    CapabilityResult)
    ensures
        r.task_id == info.task_id,
        r.capability@ == capability@,
        r.status == CapabilityStatus::Denied,
        r.data matches Some(d) && d@ == DataView::Object(seq![("reason"@, DataView::Str(reason@))]),
        r.replay_sequence == seq,
        r.timestamp == now,
{
    CapabilityResult {
        task_id: info.task_id,
        capability: capability.to_owned(),
        status: CapabilityStatus::Denied,
        data: Some(crate::data::object1("reason", text(reason))),
        replay_sequence: seq,
        timestamp: now,
    }
}

/// An error result whose data is `{"error": message}`.
pub fn make_error_result(info: &TaskInfo, capability: &str, message: &str, seq: u64, now: i64) -> (r:
    CapabilityResult)
    ensures
        r.task_id == info.task_id,
        r.capability@ == capability@,
        r.status == CapabilityStatus::Error,
        r.data matches Some(d) && d@ == DataView::Object(seq![("error"@, DataView::Str(message@))]),
        r.replay_sequence == seq,
        r.timestamp == now,
{
    CapabilityResult {
        task_id: info.task_id,
        capability: capability.to_owned(),
        status: CapabilityStatus::Error,
        data: Some(crate::data::object1("error", text(message))),
        replay_sequence: seq,
        timestamp: now,
    }
}

// ─── Plans ───────────────────────────────────────────────────────────────────

/// How a capability's execution ends, before its replay sequence is known.
#[derive(Debug)]
pub enum PlanOutcome {
    Denied { reason: String },
    Error { message: String },
    Success { data: DataValue },
}

/// What executing a capability does: the replay event to record (type and
/// summary, the summary doubling as the metric's label) and how it ends.
#[derive(Debug)]
pub struct CapabilityPlan {
    pub event_type: String,
    pub summary: String,
    pub outcome: PlanOutcome,
}

pub enum OutcomeView {
    Denied(Seq<char>),
    Error(Seq<char>),
    Success(DataView),
}

pub struct PlanView {
    pub event_type: Seq<char>,
    pub summary: Seq<char>,
    pub outcome: OutcomeView,
}

impl View for CapabilityPlan {
    type V = PlanView;

    open spec fn view(&self) -> PlanView {
        PlanView {
            event_type: self.event_type@,
            summary: self.summary@,
            outcome: match self.outcome {
                PlanOutcome::Denied { reason } => OutcomeView::Denied(reason@),
                PlanOutcome::Error { message } => OutcomeView::Error(message@),
                PlanOutcome::Success { data } => OutcomeView::Success(data@),
            },
        }
    }
}

/// The plan of capability `name` denied with `reason` (the summary is the
/// reason, prefixed with the name when `prefixed`).
pub open spec fn denied_plan(name: Seq<char>, reason: Seq<char>, prefixed: bool) -> PlanView {
    PlanView {
        event_type: "capability_denied"@,
        summary: if prefixed { name + ": "@ + reason } else { reason },
        outcome: OutcomeView::Denied(reason),
    }
}

/// The plan of capability `name` whose input was refused with the message `message`.
pub open spec fn error_plan(name: Seq<char>, message: Seq<char>) -> PlanView {
    PlanView {
        event_type: "capability_error"@,
        summary: name + ": "@ + message,
        outcome: OutcomeView::Error(message),
    }
}

/// The plan of capability `name` that executed with result `data`.
pub open spec fn executed_plan(name: Seq<char>, data: DataView) -> PlanView {
    PlanView { event_type: name + "_executed"@, summary: "attempt"@, outcome: OutcomeView::Success(data) }
}

fn make_denied_plan(name: &str, reason: String, prefixed: bool) -> (p: CapabilityPlan)
    ensures
        p@ == denied_plan(name@, reason@, prefixed),
{
    let mut v: Vec<char> = Vec::new();
    if prefixed {
        push_str(&mut v, name);
        push_str(&mut v, ": ");
    }
    push_str(&mut v, reason.as_str());
    proof {
        assert(prefixed ==> v@ =~= name@ + ": "@ + reason@);
        assert(!prefixed ==> v@ =~= reason@);
    }
    CapabilityPlan {
        event_type: "capability_denied".to_owned(),
        summary: crate::text::string_from_chars(v.as_slice()),
        outcome: PlanOutcome::Denied { reason },
    }
}

fn make_error_plan(name: &str, e: &CapabilityError) -> (p: CapabilityPlan)
    ensures
        p@ == error_plan(name@, error_text(*e)),
{
    let m = e.message();
    let mut v: Vec<char> = Vec::new();
    push_str(&mut v, name);
    push_str(&mut v, ": ");
    push_str(&mut v, m.as_str());
    proof {
        assert(v@ =~= name@ + ": "@ + error_text(*e));
    }
    CapabilityPlan {
        event_type: "capability_error".to_owned(),
        summary: crate::text::string_from_chars(v.as_slice()),
        outcome: PlanOutcome::Error { message: m },
    }
}

fn make_executed_plan(name: &str, data: DataValue) -> (p: CapabilityPlan)
    ensures
        p@ == executed_plan(name@, data@),
{
    let mut v: Vec<char> = Vec::new();
    push_str(&mut v, name);
    push_str(&mut v, "_executed");
    CapabilityPlan {
        event_type: crate::text::string_from_chars(v.as_slice()),
        summary: "attempt".to_owned(),
        outcome: PlanOutcome::Success { data },
    }
}

/// The replay event recorded for `plan` (its sequence is assigned when recorded).
pub fn plan_event(info: &TaskInfo, agent: &AgentIdentity, plan: &CapabilityPlan, now: i64) -> (e:
    crate::observability::ReplayEvent)
    ensures
        e.sequence == 0,
        e.event_type@ == plan.event_type@,
        e.task_id == info.task_id,
        e.agent_id == agent.agent_id.0,
        e.result_summary@ == plan.summary@,
        e.timestamp == now,
{
    crate::observability::ReplayEvent {
        sequence: 0,
        event_type: plan.event_type.clone(),
        task_id: info.task_id,
        agent_id: agent.agent_id.0,
        result_summary: plan.summary.clone(),
        timestamp: now,
    }
}

/// What a result built from `plan` says: the task, the capability, the time
/// `now`, and the status and data of the plan's outcome.
pub open spec fn reports(r: CapabilityResult, task_id: u128, capability: Seq<char>, plan: PlanView, now: i64) -> bool {
    &&& r.task_id == task_id
    &&& r.capability@ == capability
    &&& r.timestamp == now
    &&& match plan.outcome {
        OutcomeView::Denied(reason) => r.status == CapabilityStatus::Denied && (r.data matches Some(d) && d@
            == DataView::Object(seq![("reason"@, DataView::Str(reason))])),
        OutcomeView::Error(message) => r.status == CapabilityStatus::Error && (r.data matches Some(d) && d@
            == DataView::Object(seq![("error"@, DataView::Str(message))])),
        OutcomeView::Success(data) => r.status == CapabilityStatus::Success && (r.data matches Some(d) && d@ == data),
    }
}

/// The result of capability `capability` once its plan's event was recorded
/// with sequence `seq`.
pub fn finish_plan(info: &TaskInfo, capability: &str, plan: CapabilityPlan, seq: u64, now: i64) -> (r:
    CapabilityResult)
    ensures
        reports(r, info.task_id, capability@, plan@, now),
        r.replay_sequence == seq,
{
    match plan.outcome {
        PlanOutcome::Denied { reason } => make_denied_result(info, capability, reason.as_str(), seq, now),
        PlanOutcome::Error { message } => make_error_result(info, capability, message.as_str(), seq, now),
        PlanOutcome::Success { data } => make_success_result(info, capability, data, seq, now),
    }
}

/// Records the plan's replay event at the time `now` and counts one occurrence
/// of the metric named by its event type, labelled with its summary; the result
/// carries the sequence number that the record was given.
pub fn record_plan<O: Observability>(
    observability: &O,
    info: &TaskInfo,
    agent: &AgentIdentity,
    capability: &str,
    plan: CapabilityPlan,
    now: i64,
) -> (r: CapabilityResult)
    ensures
        reports(r, info.task_id, capability@, plan@, now),
{
    let seq = observability.record_replay(plan_event(info, agent, &plan, now));
    observability.metric(plan.event_type.as_str(), &[("capability", plan.summary.as_str())]);
    finish_plan(info, capability, plan, seq, now)
}

// ─── Helpers ─────────────────────────────────────────────────────────────────

/// How one character is written in a URL query by `urlencoding_simple`.
pub open spec fn url_char(c: char) -> Seq<char> {
    if c == '%' {
        "%25"@
    } else if c == ' ' {
        "%20"@
    } else if c == '?' {
        "%3F"@
    } else if c == '=' {
        "%3D"@
    } else if c == '&' {
        "%26"@
    } else {
        seq![c]
    }
}

/// `s` with `%`, space, `?`, `=` and `&` percent-encoded.
pub open spec fn url_encoded(s: Seq<char>) -> Seq<char>
    decreases s.len(),
{
    if s.len() == 0 {
        Seq::empty()
    } else {
        url_encoded(s.drop_last()) + url_char(s.last())
    }
}

/// Percent-encodes `%`, space, `?`, `=` and `&` in `s`; other characters stay.
pub fn urlencoding_simple(s: &str) -> (r: String)
    ensures
        r@ == url_encoded(s@),
{
    let cs = crate::text::chars_of(s);
    let mut v: Vec<char> = Vec::new();
    let mut i: usize = 0;
    while i < cs.len()
        invariant
            i <= cs@.len(),
            cs@ == s@,
            v@ == url_encoded(cs@.take(i as int)),
        decreases cs.len() - i,
    {
        let c = cs[i];
        if c == '%' {
            push_str(&mut v, "%25");
        } else if c == ' ' {
            push_str(&mut v, "%20");
        } else if c == '?' {
            push_str(&mut v, "%3F");
        } else if c == '=' {
            push_str(&mut v, "%3D");
        } else if c == '&' {
            push_str(&mut v, "%26");
        } else {
            v.push(c);
        }
        proof {
            assert(cs@.take(i + 1).drop_last() =~= cs@.take(i as int));
            assert(cs@.take(i + 1).last() == c);
            assert(v@ =~= url_encoded(cs@.take(i as int)) + url_char(c));
        }
        i += 1;
    }
    proof {
        assert(cs@.take(cs@.len() as int) =~= cs@);
    }
    crate::text::string_from_chars(v.as_slice())
}

/// The lower-case hexadecimal digit for `n` in `0..16`.
pub open spec fn hex_char(n: u8) -> char {
    if n < 10 {
        ((48 + n) as u8) as char
    } else {
        ((87 + n) as u8) as char
    }
}

/// The lower-case hexadecimal text of `bytes`, two digits per byte.
pub open spec fn hex_of(bytes: Seq<u8>) -> Seq<char>
    decreases bytes.len(),
{
    if bytes.len() == 0 {
        Seq::empty()
    } else {
        hex_of(bytes.drop_last()) + seq![hex_char(bytes.last() / 16), hex_char(bytes.last() % 16)]
    }
}

fn hex_digit_of(n: u8) -> (c: char)
    requires
        n < 16,
    ensures
        c == hex_char(n),
{
    if n < 10 {
        (48u8 + n) as char
    } else {
        (87u8 + n) as char
    }
}

/// The lower-case hexadecimal text of `bytes`.
pub fn hex_encode(bytes: &[u8]) -> (r: String)
    ensures
        r@ == hex_of(bytes@),
{
    let mut v: Vec<char> = Vec::new();
    let mut i: usize = 0;
    while i < bytes.len()
        invariant
            i <= bytes@.len(),
            v@ == hex_of(bytes@.take(i as int)),
        decreases bytes.len() - i,
    {
        let b = bytes[i];
        v.push(hex_digit_of(b / 16));
        v.push(hex_digit_of(b % 16));
        proof {
            assert(bytes@.take(i + 1).drop_last() =~= bytes@.take(i as int));
            assert(bytes@.take(i + 1).last() == b);
            assert(v@ =~= hex_of(bytes@.take(i as int)) + seq![hex_char(b / 16), hex_char(b % 16)]);
        }
        i += 1;
    }
    proof {
        assert(bytes@.take(bytes@.len() as int) =~= bytes@);
    }
    crate::text::string_from_chars(v.as_slice())
}

// ─── Capabilities ────────────────────────────────────────────────────────────

/// An HTTP request to `url` with `method`.
pub open spec fn http_params(p: AdapterParams, url: Seq<char>, method: Seq<char>) -> bool {
    p matches AdapterParams::Http { url: u, method: Some(m) } && u@ == url && m@ == method
}

/// The message of a missing input field `name`.
pub open spec fn missing_text(name: Seq<char>) -> Seq<char> {
    "missing field: "@ + name
}

/// The decision of the policy for capability `name` at the time `now`.
pub open spec fn decide(policy: Set<Seq<char>>, agent: AgentIdentity, caps: CapabilitySet, name: Seq<char>, now: i64) -> Option<Seq<char>> {
    check_with_caps_spec(policy, agent, caps.caps@, name, now)
}

fn missing(name: &str) -> (e: CapabilityError)
    ensures
        error_text(e) == missing_text(name@),
{
    CapabilityError::MissingField(name.to_owned())
}

fn str_or(o: Option<String>, d: &str) -> (s: String)
    ensures
        s@ == match o {
            Some(x) => x@,
            None => d@,
        },
{
    match o {
        Some(x) => x,
        None => d.to_owned(),
    }
}

/// Search the web through a search engine (HTTP adapter).
/// Input: `{"query": string, "engine"?: "google" | "bing" | "duckduckgo"}`.
#[derive(Clone, Copy, Debug)]
pub struct SearchWebCapability;

/// The search URL for `query` on `engine` (DuckDuckGo for any unknown engine).
pub open spec fn search_url(engine: Seq<char>, query: Seq<char>) -> Seq<char> {
    (if engine == "google"@ {
        "https://www.google.com/search?q="@
    } else if engine == "bing"@ {
        "https://www.bing.com/search?q="@
    } else {
        "https://duckduckgo.com/?q="@
    }) + url_encoded(query)
}

/// The data of an executed search.
pub open spec fn search_data(query: Seq<char>, engine: Seq<char>) -> DataView {
    DataView::Object(
        seq![
            ("query"@, DataView::Str(query)),
            ("results"@, DataView::Array(Seq::empty())),
            ("engine"@, DataView::Str(engine)),
            ("note"@, DataView::Str("search_web capability executed; real impl dispatches via adapter"@)),
        ],
    )
}

/// What `search_web` does for `input` when the policy decides `decision`.
pub open spec fn search_plan(decision: Option<Seq<char>>, input: Map<Seq<char>, InputView>) -> PlanView {
    match decision {
        Some(reason) => denied_plan("search_web"@, reason, true),
        None => match input_str(input, "query"@) {
            None => error_plan("search_web"@, missing_text("query"@)),
            Some(q) => executed_plan("search_web"@, search_data(q, or_default(input_str(input, "engine"@), "duckduckgo"@))),
        },
    }
}

impl SearchWebCapability {
    pub fn name(&self) -> (n: &'static str)
        ensures
            n@ == "search_web"@,
    {
        "search_web"
    }

    pub fn adapter_kind(&self) -> (k: AdapterKind)
        ensures
            k == AdapterKind::Http,
    {
        AdapterKind::Http
    }

    /// The policy's decision on `search_web` at the time `now`.
    pub fn authorize_at(&self, agent: &AgentIdentity, caps: &CapabilitySet, policy: &PolicyEngine, now: i64) -> (d:
        Decision)
        ensures
            decision_view(d) == decide(policy@, *agent, *caps, "search_web"@, now),
    {
        policy.check_with_caps_at(agent, caps, "search_web", now)
    }

    /// The policy's decision on `search_web` now.
    pub fn authorize(&self, agent: &AgentIdentity, caps: &CapabilitySet, policy: &PolicyEngine) -> (d: Decision)
        ensures
            exists|now: i64| 0 <= now < crate::clock::TIMESTAMP_BOUND && #[trigger] decide(policy@, *agent, *caps, "search_web"@, now) == decision_view(d),
    {
        self.authorize_at(agent, caps, policy, now_millis())
    }

    /// Executes `search_web` now: the plan is recorded through `observability` and
    /// answered as a result of the task `info`.
    pub fn execute<O: Observability>(
        &self,
        agent: &AgentIdentity,
        caps: &CapabilitySet,
        info: &TaskInfo,
        input: &CapabilityInput,
        policy: &PolicyEngine,
        observability: &O,
    ) -> (r: CapabilityResult)
        ensures
            exists|now: i64|
                0 <= now < crate::clock::TIMESTAMP_BOUND && #[trigger] reports(
                    r,
                    info.task_id,
                    "search_web"@,
                    search_plan(decide(policy@, *agent, *caps, "search_web"@, now), input@),
                    now,
                ),
    {
        let now = now_millis();
        let plan = self.plan_at(agent, caps, input, policy, now);
        record_plan(observability, info, agent, "search_web", plan, now)
    }

    /// A GET of the search URL for the input's `query` on its `engine`.
    pub fn build_params(&self, input: &CapabilityInput) -> (r: Result<AdapterParams, CapabilityError>)
        ensures
            match input_str(input@, "query"@) {
                None => r matches Err(e) && error_text(e) == missing_text("query"@),
                Some(q) => r matches Ok(p) && http_params(
                    p,
                    search_url(or_default(input_str(input@, "engine"@), "duckduckgo"@), q),
                    "GET"@,
                ),
            },
    {
        let query = match input.get_str("query") {
            Some(q) => q,
            None => return Err(missing("query")),
        };
        let engine = str_or(input.get_str("engine"), "duckduckgo");
        let mut v: Vec<char> = Vec::new();
        let google = "google".to_owned();
        let bing = "bing".to_owned();
        if engine == google {
            push_str(&mut v, "https://www.google.com/search?q=");
        } else if engine == bing {
            push_str(&mut v, "https://www.bing.com/search?q=");
        } else {
            push_str(&mut v, "https://duckduckgo.com/?q=");
        }
        let enc = urlencoding_simple(query.as_str());
        push_str(&mut v, enc.as_str());
        let url = crate::text::string_from_chars(v.as_slice());
        Ok(AdapterParams::Http { url, method: Some("GET".to_owned()) })
    }

    /// What executing `search_web` does at the time `now`.
    pub fn plan_at(&self, agent: &AgentIdentity, caps: &CapabilitySet, input: &CapabilityInput, policy: &PolicyEngine, now: i64) -> (p:
        CapabilityPlan)
        ensures
            p@ == search_plan(decide(policy@, *agent, *caps, "search_web"@, now), input@),
    {
        match self.authorize_at(agent, caps, policy, now) {
            Decision::Deny { reason } => return make_denied_plan("search_web", reason, true),
            Decision::Allow => {},
        }
        match self.build_params(input) {
            Err(e) => return make_error_plan("search_web", &e),
            Ok(_) => {},
        }
        let query = str_or(input.get_str("query"), "");
        let engine = str_or(input.get_str("engine"), "duckduckgo");
        let data = crate::data::object4(
            "query",
            DataValue::Str(query),
            "results",
            crate::data::empty_array(),
            "engine",
            DataValue::Str(engine),
            "note",
            text("search_web capability executed; real impl dispatches via adapter"),
        );
        make_executed_plan("search_web", data)
    }
}

/// Extract structured content from a page (DOM adapter).
/// Input: `{"url": string, "html"?: string, "selector"?: string}`.
#[derive(Clone, Copy, Debug)]
pub struct ExtractPageCapability;

/// The data of an executed page extraction.
pub open spec fn extract_data(url: Seq<char>, selector: Seq<char>) -> DataView {
    DataView::Object(
        seq![
            ("url"@, DataView::Str(url)),
            ("title"@, DataView::Str(""@)),
            ("content"@, DataView::Str(""@)),
            ("note"@, DataView::Str("extract_page capability executed; real impl dispatches to DOM adapter"@)),
            ("params_built"@, DataView::Object(seq![("selector"@, DataView::Str(selector))])),
        ],
    )
}

/// What `extract_page` does for `input` when the policy decides `decision`.
pub open spec fn extract_plan(decision: Option<Seq<char>>, input: Map<Seq<char>, InputView>) -> PlanView {
    match decision {
        Some(reason) => denied_plan("extract_page"@, reason, true),
        None => match input_str(input, "url"@) {
            None => error_plan("extract_page"@, missing_text("url"@)),
            Some(u) => executed_plan(
                "extract_page"@,
                extract_data(u, or_default(input_str(input, "selector"@), "body"@)),
            ),
        },
    }
}

impl ExtractPageCapability {
    pub fn name(&self) -> (n: &'static str)
        ensures
            n@ == "extract_page"@,
    {
        "extract_page"
    }

    pub fn adapter_kind(&self) -> (k: AdapterKind)
        ensures
            k == AdapterKind::Dom,
    {
        AdapterKind::Dom
    }

    /// The policy's decision on `extract_page` at the time `now`.
    pub fn authorize_at(&self, agent: &AgentIdentity, caps: &CapabilitySet, policy: &PolicyEngine, now: i64) -> (d:
        Decision)
        ensures
            decision_view(d) == decide(policy@, *agent, *caps, "extract_page"@, now),
    {
        policy.check_with_caps_at(agent, caps, "extract_page", now)
    }

    /// The policy's decision on `extract_page` now.
    pub fn authorize(&self, agent: &AgentIdentity, caps: &CapabilitySet, policy: &PolicyEngine) -> (d: Decision)
        ensures
            exists|now: i64| 0 <= now < crate::clock::TIMESTAMP_BOUND && #[trigger] decide(policy@, *agent, *caps, "extract_page"@, now) == decision_view(d),
    {
        self.authorize_at(agent, caps, policy, now_millis())
    }

    /// Executes `extract_page` now: the plan is recorded through `observability` and
    /// answered as a result of the task `info`.
    pub fn execute<O: Observability>(
        &self,
        agent: &AgentIdentity,
        caps: &CapabilitySet,
        info: &TaskInfo,
        input: &CapabilityInput,
        policy: &PolicyEngine,
        observability: &O,
    ) -> (r: CapabilityResult)
        ensures
            exists|now: i64|
                0 <= now < crate::clock::TIMESTAMP_BOUND && #[trigger] reports(
                    r,
                    info.task_id,
                    "extract_page"@,
                    extract_plan(decide(policy@, *agent, *caps, "extract_page"@, now), input@),
                    now,
                ),
    {
        let now = now_millis();
        let plan = self.plan_at(agent, caps, input, policy, now);
        record_plan(observability, info, agent, "extract_page", plan, now)
    }

    /// DOM parameters: the input's `html` (empty by default) and `selector`
    /// (`body` by default); the input must name a `url`.
    pub fn build_params(&self, input: &CapabilityInput) -> (r: Result<AdapterParams, CapabilityError>)
        ensures
            match input_str(input@, "url"@) {
                None => r matches Err(e) && error_text(e) == missing_text("url"@),
                Some(_) => r matches Ok(AdapterParams::Dom { html, selector }) && html@ == or_default(
                    input_str(input@, "html"@),
                    ""@,
                ) && selector@ == or_default(input_str(input@, "selector"@), "body"@),
            },
    {
        match input.get_str("url") {
            Some(_) => {},
            None => return Err(missing("url")),
        }
        let html = str_or(input.get_str("html"), "");
        let selector = str_or(input.get_str("selector"), "body");
        Ok(AdapterParams::Dom { html, selector })
    }

    /// What executing `extract_page` does at the time `now`.
    pub fn plan_at(&self, agent: &AgentIdentity, caps: &CapabilitySet, input: &CapabilityInput, policy: &PolicyEngine, now: i64) -> (p:
        CapabilityPlan)
        ensures
            p@ == extract_plan(decide(policy@, *agent, *caps, "extract_page"@, now), input@),
    {
        match self.authorize_at(agent, caps, policy, now) {
            Decision::Deny { reason } => return make_denied_plan("extract_page", reason, true),
            Decision::Allow => {},
        }
        let params = match self.build_params(input) {
            Err(e) => return make_error_plan("extract_page", &e),
            Ok(p) => p,
        };
        let url = str_or(input.get_str("url"), "");
        let built = match params {
            AdapterParams::Dom { selector, .. } => crate::data::object1("selector", DataValue::Str(selector)),
            _ => crate::data::object(Vec::new()),
        };
        let data = crate::data::object5(
            "url",
            DataValue::Str(url),
            "title",
            text(""),
            "content",
            text(""),
            "note",
            text("extract_page capability executed; real impl dispatches to DOM adapter"),
            "params_built",
            built,
        );
        make_executed_plan("extract_page", data)
    }
}

/// Authenticate with a remote service (HTTP adapter and credential broker).
/// Input: `{"service": string, "username"?: string, "scope"?: string}`.
#[derive(Clone, Copy, Debug)]
pub struct AuthenticateCapability;

/// The data of an authentication without broker.
pub open spec fn authenticate_data(service: Seq<char>) -> DataView {
    DataView::Object(
        seq![
            ("service"@, DataView::Str(service)),
            ("authenticated"@, DataView::Bool(true)),
            ("note"@, DataView::Str("authenticate executed; use execute_with_broker for token issuance"@)),
        ],
    )
}

/// What `authenticate` (without broker) does for `input` when the policy decides `decision`.
pub open spec fn authenticate_plan(decision: Option<Seq<char>>, input: Map<Seq<char>, InputView>) -> PlanView {
    match decision {
        Some(reason) => denied_plan("authenticate"@, reason, true),
        None => executed_plan("authenticate"@, authenticate_data(or_default(input_str(input, "service"@), ""@))),
    }
}

/// The data of an authentication through a broker; `token` is the issued
/// handle's hexadecimal text, when a broker issued one.
pub open spec fn broker_data(service: Seq<char>, token: Option<Seq<char>>, url: Seq<char>) -> DataView {
    DataView::Object(
        seq![
            ("service"@, DataView::Str(service)),
            ("authenticated"@, DataView::Bool(true)),
            ("token_id"@, token_view(token)),
            ("note"@, DataView::Str("authenticate executed with broker"@)),
            ("params_url"@, DataView::Str(url)),
        ],
    )
}

/// What authenticating through a broker does, given the policy's decision, the
/// input, and the token text of the handle that the broker issued (none
/// without a broker).
pub open spec fn broker_plan(decision: Option<Seq<char>>, input: Map<Seq<char>, InputView>, token: Option<Seq<char>>) -> PlanView {
    match decision {
        Some(reason) => denied_plan("authenticate"@, reason, false),
        None => match input_str(input, "service"@) {
            None => error_plan("authenticate"@, missing_text("service"@)),
            Some(svc) => executed_plan("authenticate"@, broker_data(svc, token, auth_url(svc))),
        },
    }
}

/// The token text of an issued handle: the hexadecimal text of its bytes.
pub open spec fn token_of(handle: Option<&AuthHandle>) -> Option<Seq<char>> {
    match handle {
        Some(h) => Some(hex_of(h.opaque@)),
        None => None,
    }
}

/// Whether authenticating gets as far as the broker: the policy allowed and
/// the input names a service.
pub open spec fn reaches_broker(decision: Option<Seq<char>>, input: Map<Seq<char>, InputView>) -> bool {
    decision is None && input_str(input, "service"@) is Some
}

/// `after` is `before` with one more handle, issued for `agent` and `scope`.
pub open spec fn issued_one(
    before: Seq<(AgentId, Seq<char>, Seq<u8>)>,
    after: Seq<(AgentId, Seq<char>, Seq<u8>)>,
    agent: AgentId,
    scope: Seq<char>,
) -> bool {
    &&& after.len() == before.len() + 1
    &&& after.drop_last() == before
    &&& after.last().0 == agent
    &&& after.last().1 == scope
}

/// What authenticating through a broker whose issued handles go from `before`
/// to `after` does, given the policy's decision: when the call reaches the
/// broker, exactly one handle is issued, for `agent` and the input's scope,
/// and its hexadecimal text is the token; otherwise nothing is issued.
pub open spec fn brokered(
    decision: Option<Seq<char>>,
    input: Map<Seq<char>, InputView>,
    agent: AgentId,
    before: Seq<(AgentId, Seq<char>, Seq<u8>)>,
    after: Seq<(AgentId, Seq<char>, Seq<u8>)>,
    p: PlanView,
) -> bool {
    if reaches_broker(decision, input) {
        &&& issued_one(before, after, agent, issue_scope(input))
        &&& p == broker_plan(decision, input, Some(hex_of(after.last().2)))
    } else {
        &&& after == before
        &&& p == broker_plan(decision, input, None)
    }
}

/// `brokered` for the result of the task `task_id` recorded at `now`.
pub open spec fn brokered_result(
    r: CapabilityResult,
    task_id: u128,
    decision: Option<Seq<char>>,
    input: Map<Seq<char>, InputView>,
    agent: AgentId,
    before: Seq<(AgentId, Seq<char>, Seq<u8>)>,
    after: Seq<(AgentId, Seq<char>, Seq<u8>)>,
    now: i64,
) -> bool {
    if reaches_broker(decision, input) {
        &&& issued_one(before, after, agent, issue_scope(input))
        &&& reports(r, task_id, "authenticate"@, broker_plan(decision, input, Some(hex_of(after.last().2))), now)
    } else {
        &&& after == before
        &&& reports(r, task_id, "authenticate"@, broker_plan(decision, input, None), now)
    }
}

/// The scope a broker issues a handle for: the input's `scope`, `default` by default.
pub open spec fn issue_scope(input: Map<Seq<char>, InputView>) -> Seq<char> {
    or_default(input_str(input, "scope"@), "default"@)
}

/// A token identifier as data: its text, or null.
pub open spec fn token_view(token: Option<Seq<char>>) -> DataView {
    match token {
        Some(t) => DataView::Str(t),
        None => DataView::Null,
    }
}

/// The URL that authentication with `service` posts to.
pub open spec fn auth_url(service: Seq<char>) -> Seq<char> {
    "https://"@ + service + "/auth"@
}

impl AuthenticateCapability {
    pub fn name(&self) -> (n: &'static str)
        ensures
            n@ == "authenticate"@,
    {
        "authenticate"
    }

    pub fn adapter_kind(&self) -> (k: AdapterKind)
        ensures
            k == AdapterKind::Http,
    {
        AdapterKind::Http
    }

    /// The policy's decision on `authenticate` at the time `now`.
    pub fn authorize_at(&self, agent: &AgentIdentity, caps: &CapabilitySet, policy: &PolicyEngine, now: i64) -> (d:
        Decision)
        ensures
            decision_view(d) == decide(policy@, *agent, *caps, "authenticate"@, now),
    {
        policy.check_with_caps_at(agent, caps, "authenticate", now)
    }

    /// The policy's decision on `authenticate` now.
    pub fn authorize(&self, agent: &AgentIdentity, caps: &CapabilitySet, policy: &PolicyEngine) -> (d: Decision)
        ensures
            exists|now: i64| 0 <= now < crate::clock::TIMESTAMP_BOUND && #[trigger] decide(policy@, *agent, *caps, "authenticate"@, now) == decision_view(d),
    {
        self.authorize_at(agent, caps, policy, now_millis())
    }

    /// Executes `authenticate` now: the plan is recorded through `observability` and
    /// answered as a result of the task `info`.
    pub fn execute<O: Observability>(
        &self,
        agent: &AgentIdentity,
        caps: &CapabilitySet,
        info: &TaskInfo,
        input: &CapabilityInput,
        policy: &PolicyEngine,
        observability: &O,
    ) -> (r: CapabilityResult)
        ensures
            exists|now: i64|
                0 <= now < crate::clock::TIMESTAMP_BOUND && #[trigger] reports(
                    r,
                    info.task_id,
                    "authenticate"@,
                    authenticate_plan(decide(policy@, *agent, *caps, "authenticate"@, now), input@),
                    now,
                ),
    {
        let now = now_millis();
        let plan = self.plan_at(agent, caps, input, policy, now);
        record_plan(observability, info, agent, "authenticate", plan, now)
    }

    /// A POST to `https://<service>/auth`; the input must name a `service`.
    pub fn build_params(&self, input: &CapabilityInput) -> (r: Result<AdapterParams, CapabilityError>)
        ensures
            match input_str(input@, "service"@) {
                None => r matches Err(e) && error_text(e) == missing_text("service"@),
                Some(svc) => r matches Ok(p) && http_params(p, auth_url(svc), "POST"@),
            },
    {
        let service = match input.get_str("service") {
            Some(s) => s,
            None => return Err(missing("service")),
        };
        let mut v: Vec<char> = Vec::new();
        push_str(&mut v, "https://");
        push_str(&mut v, service.as_str());
        push_str(&mut v, "/auth");
        proof {
            assert(v@ =~= auth_url(service@));
        }
        Ok(AdapterParams::Http { url: crate::text::string_from_chars(v.as_slice()), method: Some("POST".to_owned()) })
    }

    /// What executing `authenticate` (without broker) does at the time `now`.
    pub fn plan_at(&self, agent: &AgentIdentity, caps: &CapabilitySet, input: &CapabilityInput, policy: &PolicyEngine, now: i64) -> (p:
        CapabilityPlan)
        ensures
            p@ == authenticate_plan(decide(policy@, *agent, *caps, "authenticate"@, now), input@),
    {
        match self.authorize_at(agent, caps, policy, now) {
            Decision::Deny { reason } => return make_denied_plan("authenticate", reason, true),
            Decision::Allow => {},
        }
        let service = str_or(input.get_str("service"), "");
        let data = crate::data::object3(
            "service",
            DataValue::Str(service),
            "authenticated",
            DataValue::Bool(true),
            "note",
            text("authenticate executed; use execute_with_broker for token issuance"),
        );
        make_executed_plan("authenticate", data)
    }

    /// What authenticating at the time `now` does once the broker issued
    /// `handle` (none without a broker): after the policy allows and the input
    /// names a service, the token identifier is the hexadecimal text of the
    /// handle's bytes.
    pub fn plan_with_handle_at(
        agent: &AgentIdentity,
        caps: &CapabilitySet,
        input: &CapabilityInput,
        policy: &PolicyEngine,
        now: i64,
        handle: Option<&AuthHandle>,
    ) -> (p: CapabilityPlan)
        ensures
            p@ == broker_plan(decide(policy@, *agent, *caps, "authenticate"@, now), input@, token_of(handle)),
    {
        let cap = AuthenticateCapability;
        match cap.authorize_at(agent, caps, policy, now) {
            Decision::Deny { reason } => {
                let p = make_denied_plan("authenticate", reason, false);
                assert(broker_plan(decide(policy@, *agent, *caps, "authenticate"@, now), input@, token_of(handle)) == p@);
                return p;
            },
            Decision::Allow => {},
        }
        let params = match cap.build_params(input) {
            Err(e) => {
                let p = make_error_plan("authenticate", &e);
                assert(broker_plan(decide(policy@, *agent, *caps, "authenticate"@, now), input@, token_of(handle)) == p@);
                return p;
            },
            Ok(p) => p,
        };
        let token = match handle {
            Some(h) => {
                let hex = hex_encode(&h.opaque);
                DataValue::Str(hex)
            },
            None => DataValue::Null,
        };
        let ghost tok = match token@ {
            DataView::Str(h) => Some(h),
            _ => None,
        };
        let service = str_or(input.get_str("service"), "");
        let url = match params {
            AdapterParams::Http { url, .. } => url,
            _ => String::new(),
        };
        let data = crate::data::object5(
            "service",
            DataValue::Str(service),
            "authenticated",
            DataValue::Bool(true),
            "token_id",
            token,
            "note",
            text("authenticate executed with broker"),
            "params_url",
            DataValue::Str(url),
        );
        proof {
            let svc0 = input_str(input@, "service"@)->0;
            assert(token@ == token_view(tok));
            assert(data@ == broker_data(svc0, tok, auth_url(svc0)));
            assert(tok == token_of(handle));
        }
        let p = make_executed_plan("authenticate", data);
        assert(broker_plan(decide(policy@, *agent, *caps, "authenticate"@, now), input@, token_of(handle)) == p@);
        p
    }


    /// Whether authenticating at the time `now` gets as far as the broker: the
    /// policy allows and the input names a service.
    pub fn reaches_broker_at(
        agent: &AgentIdentity,
        caps: &CapabilitySet,
        input: &CapabilityInput,
        policy: &PolicyEngine,
        now: i64,
    ) -> (b: bool)
        ensures
            b == reaches_broker(decide(policy@, *agent, *caps, "authenticate"@, now), input@),
    {
        match AuthenticateCapability.authorize_at(agent, caps, policy, now) {
            Decision::Deny { .. } => false,
            Decision::Allow => input.get_str("service").is_some(),
        }
    }

    /// The scope a broker issues the handle for: the input's `scope`, or `default`.
    pub fn broker_scope(input: &CapabilityInput) -> (s: String)
        ensures
            s@ == issue_scope(input@),
    {
        str_or(input.get_str("scope"), "default")
    }

    /// What authenticating through `broker` does at the time `now`: when the
    /// policy allows and the input names a service, the broker (when there is
    /// one) issues exactly one handle, for the agent and `broker_scope(input)`,
    /// and the plan is `plan_with_handle_at` of that handle; otherwise nothing
    /// is issued (`brokered`).
    pub fn plan_with_broker_at<B: CredentialBroker>(
        agent: &AgentIdentity,
        caps: &CapabilitySet,
        input: &CapabilityInput,
        policy: &PolicyEngine,
        now: i64,
        broker: Option<&mut B>,
    ) -> (p: CapabilityPlan)
        ensures
            broker matches Some(b) ==> brokered(
                decide(policy@, *agent, *caps, "authenticate"@, now),
                input@,
                agent.agent_id,
                b.issued(),
                final(b).issued(),
                p@,
            ),
            broker is None ==> p@ == broker_plan(decide(policy@, *agent, *caps, "authenticate"@, now), input@, None),
    {
        let reach = Self::reaches_broker_at(agent, caps, input, policy, now);
        match broker {
            Some(b) => {
                if reach {
                    let scope = Self::broker_scope(input);
                    let ghost before = b.issued();
                    let handle = b.issue(&agent.agent_id, scope.as_str());
                    let p = Self::plan_with_handle_at(agent, caps, input, policy, now, Some(&handle));
                    assert(b.issued().last().2 == handle.opaque@);
                    assert(b.issued().drop_last() =~= before);
                    p
                } else {
                    Self::plan_with_handle_at(agent, caps, input, policy, now, None)
                }
            },
            None => Self::plan_with_handle_at(agent, caps, input, policy, now, None),
        }
    }

    /// Authenticates through `broker` now: the plan is recorded through
    /// `observability` and answered as a result of the task `info`.
    pub fn execute_with_broker<O: Observability, B: CredentialBroker>(
        agent: &AgentIdentity,
        caps: &CapabilitySet,
        info: &TaskInfo,
        input: &CapabilityInput,
        policy: &PolicyEngine,
        observability: &O,
        broker: Option<&mut B>,
    ) -> (r: CapabilityResult)
        ensures
            exists|now: i64|
                0 <= now < crate::clock::TIMESTAMP_BOUND && (broker matches Some(b) ==> brokered_result(
                    r,
                    info.task_id,
                    #[trigger] decide(policy@, *agent, *caps, "authenticate"@, now),
                    input@,
                    agent.agent_id,
                    b.issued(),
                    final(b).issued(),
                    now,
                )) && (broker is None ==> reports(
                    r,
                    info.task_id,
                    "authenticate"@,
                    broker_plan(decide(policy@, *agent, *caps, "authenticate"@, now), input@, None),
                    now,
                )),
    {
        let now = now_millis();
        let p = Self::plan_with_broker_at(agent, caps, input, policy, now, broker);
        record_plan(observability, info, agent, "authenticate", p, now)
    }
}

/// Two hexadecimal digits per byte.
pub proof fn lemma_hex_len(bytes: Seq<u8>)
    ensures
        hex_of(bytes).len() == 2 * bytes.len(),
    decreases bytes.len(),
{
    if bytes.len() > 0 {
        lemma_hex_len(bytes.drop_last());
    }
}

/// Submit a form (HTTP adapter). Input: `{"url": string}`.
#[derive(Clone, Copy, Debug)]
pub struct SubmitFormCapability;

/// The data of a submitted form.
pub open spec fn submit_data(url: Seq<char>) -> DataView {
    DataView::Object(
        seq![
            ("url"@, DataView::Str(url)),
            ("submitted"@, DataView::Bool(true)),
            ("note"@, DataView::Str("submit_form executed"@)),
        ],
    )
}

/// What `submit_form` does for `input` when the policy decides `decision`.
pub open spec fn submit_plan(decision: Option<Seq<char>>, input: Map<Seq<char>, InputView>) -> PlanView {
    match decision {
        Some(reason) => denied_plan("submit_form"@, reason, true),
        None => executed_plan("submit_form"@, submit_data(or_default(input_str(input, "url"@), ""@))),
    }
}

impl SubmitFormCapability {
    pub fn name(&self) -> (n: &'static str)
        ensures
            n@ == "submit_form"@,
    {
        "submit_form"
    }

    pub fn adapter_kind(&self) -> (k: AdapterKind)
        ensures
            k == AdapterKind::Http,
    {
        AdapterKind::Http
    }

    /// The policy's decision on `submit_form` at the time `now`.
    pub fn authorize_at(&self, agent: &AgentIdentity, caps: &CapabilitySet, policy: &PolicyEngine, now: i64) -> (d:
        Decision)
        ensures
            decision_view(d) == decide(policy@, *agent, *caps, "submit_form"@, now),
    {
        policy.check_with_caps_at(agent, caps, "submit_form", now)
    }

    /// The policy's decision on `submit_form` now.
    pub fn authorize(&self, agent: &AgentIdentity, caps: &CapabilitySet, policy: &PolicyEngine) -> (d: Decision)
        ensures
            exists|now: i64| 0 <= now < crate::clock::TIMESTAMP_BOUND && #[trigger] decide(policy@, *agent, *caps, "submit_form"@, now) == decision_view(d),
    {
        self.authorize_at(agent, caps, policy, now_millis())
    }

    /// Executes `submit_form` now: the plan is recorded through `observability` and
    /// answered as a result of the task `info`.
    pub fn execute<O: Observability>(
        &self,
        agent: &AgentIdentity,
        caps: &CapabilitySet,
        info: &TaskInfo,
        input: &CapabilityInput,
        policy: &PolicyEngine,
        observability: &O,
    ) -> (r: CapabilityResult)
        ensures
            exists|now: i64|
                0 <= now < crate::clock::TIMESTAMP_BOUND && #[trigger] reports(
                    r,
                    info.task_id,
                    "submit_form"@,
                    submit_plan(decide(policy@, *agent, *caps, "submit_form"@, now), input@),
                    now,
                ),
    {
        let now = now_millis();
        let plan = self.plan_at(agent, caps, input, policy, now);
        record_plan(observability, info, agent, "submit_form", plan, now)
    }

    /// A POST to the input's `url`, which must be present.
    pub fn build_params(&self, input: &CapabilityInput) -> (r: Result<AdapterParams, CapabilityError>)
        ensures
            match input_str(input@, "url"@) {
                None => r matches Err(e) && error_text(e) == missing_text("url"@),
                Some(u) => r matches Ok(p) && http_params(p, u, "POST"@),
            },
    {
        match input.get_str("url") {
            Some(url) => Ok(AdapterParams::Http { url, method: Some("POST".to_owned()) }),
            None => Err(missing("url")),
        }
    }

    /// What executing `submit_form` does at the time `now`.
    pub fn plan_at(&self, agent: &AgentIdentity, caps: &CapabilitySet, input: &CapabilityInput, policy: &PolicyEngine, now: i64) -> (p:
        CapabilityPlan)
        ensures
            p@ == submit_plan(decide(policy@, *agent, *caps, "submit_form"@, now), input@),
    {
        match self.authorize_at(agent, caps, policy, now) {
            Decision::Deny { reason } => return make_denied_plan("submit_form", reason, true),
            Decision::Allow => {},
        }
        let url = str_or(input.get_str("url"), "");
        let data = crate::data::object3(
            "url",
            DataValue::Str(url),
            "submitted",
            DataValue::Bool(true),
            "note",
            text("submit_form executed"),
        );
        make_executed_plan("submit_form", data)
    }
}

/// Make a purchase (HTTP adapter; a high-tier capability). Input: `{"url": string, "item"?: string}`.
#[derive(Clone, Copy, Debug)]
pub struct PurchaseCapability;

/// The data of a confirmed purchase.
pub open spec fn purchase_data(item: Seq<char>) -> DataView {
    DataView::Object(
        seq![
            ("item"@, DataView::Str(item)),
            ("purchase_confirmed"@, DataView::Bool(true)),
            ("note"@, DataView::Str("purchase executed — requires high-tier capability"@)),
        ],
    )
}

/// What `purchase` does for `input` when the policy decides `decision`.
pub open spec fn purchase_plan(decision: Option<Seq<char>>, input: Map<Seq<char>, InputView>) -> PlanView {
    match decision {
        Some(reason) => denied_plan("purchase"@, reason, true),
        None => executed_plan("purchase"@, purchase_data(or_default(input_str(input, "item"@), ""@))),
    }
}

impl PurchaseCapability {
    pub fn name(&self) -> (n: &'static str)
        ensures
            n@ == "purchase"@,
    {
        "purchase"
    }

    pub fn adapter_kind(&self) -> (k: AdapterKind)
        ensures
            k == AdapterKind::Http,
    {
        AdapterKind::Http
    }

    /// The policy's decision on `purchase` at the time `now`.
    pub fn authorize_at(&self, agent: &AgentIdentity, caps: &CapabilitySet, policy: &PolicyEngine, now: i64) -> (d:
        Decision)
        ensures
            decision_view(d) == decide(policy@, *agent, *caps, "purchase"@, now),
    {
        policy.check_with_caps_at(agent, caps, "purchase", now)
    }

    /// The policy's decision on `purchase` now.
    pub fn authorize(&self, agent: &AgentIdentity, caps: &CapabilitySet, policy: &PolicyEngine) -> (d: Decision)
        ensures
            exists|now: i64| 0 <= now < crate::clock::TIMESTAMP_BOUND && #[trigger] decide(policy@, *agent, *caps, "purchase"@, now) == decision_view(d),
    {
        self.authorize_at(agent, caps, policy, now_millis())
    }

    /// Executes `purchase` now: the plan is recorded through `observability` and
    /// answered as a result of the task `info`.
    pub fn execute<O: Observability>(
        &self,
        agent: &AgentIdentity,
        caps: &CapabilitySet,
        info: &TaskInfo,
        input: &CapabilityInput,
        policy: &PolicyEngine,
        observability: &O,
    ) -> (r: CapabilityResult)
        ensures
            exists|now: i64|
                0 <= now < crate::clock::TIMESTAMP_BOUND && #[trigger] reports(
                    r,
                    info.task_id,
                    "purchase"@,
                    purchase_plan(decide(policy@, *agent, *caps, "purchase"@, now), input@),
                    now,
                ),
    {
        let now = now_millis();
        let plan = self.plan_at(agent, caps, input, policy, now);
        record_plan(observability, info, agent, "purchase", plan, now)
    }

    /// A POST to the input's `url`, which must be present.
    pub fn build_params(&self, input: &CapabilityInput) -> (r: Result<AdapterParams, CapabilityError>)
        ensures
            match input_str(input@, "url"@) {
                None => r matches Err(e) && error_text(e) == missing_text("url"@),
                Some(u) => r matches Ok(p) && http_params(p, u, "POST"@),
            },
    {
        match input.get_str("url") {
            Some(url) => Ok(AdapterParams::Http { url, method: Some("POST".to_owned()) }),
            None => Err(missing("url")),
        }
    }

    /// What executing `purchase` does at the time `now`.
    pub fn plan_at(&self, agent: &AgentIdentity, caps: &CapabilitySet, input: &CapabilityInput, policy: &PolicyEngine, now: i64) -> (p:
        CapabilityPlan)
        ensures
            p@ == purchase_plan(decide(policy@, *agent, *caps, "purchase"@, now), input@),
    {
        match self.authorize_at(agent, caps, policy, now) {
            Decision::Deny { reason } => return make_denied_plan("purchase", reason, true),
            Decision::Allow => {},
        }
        let item = str_or(input.get_str("item"), "");
        let data = crate::data::object3(
            "item",
            DataValue::Str(item),
            "purchase_confirmed",
            DataValue::Bool(true),
            "note",
            text("purchase executed — requires high-tier capability"),
        );
        make_executed_plan("purchase", data)
    }
}

/// Schedule work after a delay (JS adapter). Input: `{"delay_ms"?: unsigned integer}`.
#[derive(Clone, Copy, Debug)]
pub struct ScheduleCapability;

pub open spec fn delay_of(input: Map<Seq<char>, InputView>) -> u64 {
    match input_u64(input, "delay_ms"@) {
        Some(d) => d,
        None => 0,
    }
}

/// The script that schedules an empty callback after `delay` milliseconds.
pub open spec fn schedule_source(delay: u64) -> Seq<char> {
    "setTimeout(()=>{}, "@ + decimal(delay as nat) + ")"@
}

/// The data of a scheduled timer.
pub open spec fn schedule_data(delay: u64) -> DataView {
    DataView::Object(
        seq![
            ("scheduled"@, DataView::Bool(true)),
            ("delay_ms"@, DataView::U64(delay)),
            ("note"@, DataView::Str("schedule executed — timer set via JS adapter"@)),
        ],
    )
}

/// What `schedule` does for `input` when the policy decides `decision`.
pub open spec fn schedule_plan(decision: Option<Seq<char>>, input: Map<Seq<char>, InputView>) -> PlanView {
    match decision {
        Some(reason) => denied_plan("schedule"@, reason, true),
        None => executed_plan("schedule"@, schedule_data(delay_of(input))),
    }
}

impl ScheduleCapability {
    pub fn name(&self) -> (n: &'static str)
        ensures
            n@ == "schedule"@,
    {
        "schedule"
    }

    pub fn adapter_kind(&self) -> (k: AdapterKind)
        ensures
            k == AdapterKind::Js,
    {
        AdapterKind::Js
    }

    /// The policy's decision on `schedule` at the time `now`.
    pub fn authorize_at(&self, agent: &AgentIdentity, caps: &CapabilitySet, policy: &PolicyEngine, now: i64) -> (d:
        Decision)
        ensures
            decision_view(d) == decide(policy@, *agent, *caps, "schedule"@, now),
    {
        policy.check_with_caps_at(agent, caps, "schedule", now)
    }

    /// The policy's decision on `schedule` now.
    pub fn authorize(&self, agent: &AgentIdentity, caps: &CapabilitySet, policy: &PolicyEngine) -> (d: Decision)
        ensures
            exists|now: i64| 0 <= now < crate::clock::TIMESTAMP_BOUND && #[trigger] decide(policy@, *agent, *caps, "schedule"@, now) == decision_view(d),
    {
        self.authorize_at(agent, caps, policy, now_millis())
    }

    /// Executes `schedule` now: the plan is recorded through `observability` and
    /// answered as a result of the task `info`.
    pub fn execute<O: Observability>(
        &self,
        agent: &AgentIdentity,
        caps: &CapabilitySet,
        info: &TaskInfo,
        input: &CapabilityInput,
        policy: &PolicyEngine,
        observability: &O,
    ) -> (r: CapabilityResult)
        ensures
            exists|now: i64|
                0 <= now < crate::clock::TIMESTAMP_BOUND && #[trigger] reports(
                    r,
                    info.task_id,
                    "schedule"@,
                    schedule_plan(decide(policy@, *agent, *caps, "schedule"@, now), input@),
                    now,
                ),
    {
        let now = now_millis();
        let plan = self.plan_at(agent, caps, input, policy, now);
        record_plan(observability, info, agent, "schedule", plan, now)
    }

    /// A script setting a timer for the input's `delay_ms` (zero by default).
    pub fn build_params(&self, input: &CapabilityInput) -> (r: Result<AdapterParams, CapabilityError>)
        ensures
            r matches Ok(AdapterParams::Js { source }) && source@ == schedule_source(delay_of(input@)),
    {
        let delay = match input.get_u64("delay_ms") {
            Some(d) => d,
            None => 0,
        };
        let digits = decimal_string(delay);
        let mut v: Vec<char> = Vec::new();
        push_str(&mut v, "setTimeout(()=>{}, ");
        push_str(&mut v, digits.as_str());
        push_str(&mut v, ")");
        proof {
            assert(v@ =~= schedule_source(delay_of(input@)));
        }
        Ok(AdapterParams::Js { source: crate::text::string_from_chars(v.as_slice()) })
    }

    /// What executing `schedule` does at the time `now`.
    pub fn plan_at(&self, agent: &AgentIdentity, caps: &CapabilitySet, input: &CapabilityInput, policy: &PolicyEngine, now: i64) -> (p:
        CapabilityPlan)
        ensures
            p@ == schedule_plan(decide(policy@, *agent, *caps, "schedule"@, now), input@),
    {
        match self.authorize_at(agent, caps, policy, now) {
            Decision::Deny { reason } => return make_denied_plan("schedule", reason, true),
            Decision::Allow => {},
        }
        let delay = match input.get_u64("delay_ms") {
            Some(d) => d,
            None => 0,
        };
        let data = crate::data::object3(
            "scheduled",
            DataValue::Bool(true),
            "delay_ms",
            DataValue::U64(delay),
            "note",
            text("schedule executed — timer set via JS adapter"),
        );
        make_executed_plan("schedule", data)
    }
}

/// Reading a field returns what was last written to it: after `insert(key, Str(v))`
/// the string field `key` is `v`, and other fields are unchanged.
pub proof fn lemma_input_read_after_write(input: Map<Seq<char>, InputView>, key: Seq<char>, v: Seq<char>, other: Seq<char>)
    requires
        other != key,
    ensures
        input_str(input.insert(key, InputView::Str(v)), key) == Some(v),
        input_str(input.insert(key, InputView::Str(v)), other) == input_str(input, other),
        input_u64(input.insert(key, InputView::Str(v)), key) is None,
{
}

} // verus!
