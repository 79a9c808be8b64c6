//! Trace identifiers and replay events with their monotonic sequence numbers.

use vstd::prelude::*;
use crate::clock::{new_uuid, now_millis};

verus! {

/// The identifiers every important operation carries; `timestamp` is in
/// milliseconds since the Unix epoch.
#[derive(Clone, Copy, Debug, PartialEq, Eq, Hash)]
pub struct TraceContext {
    pub task_id: u128,
    pub agent_id: u128,
    pub delegation_id: Option<u128>,
    pub request_id: u128,
    pub timestamp: i64,
}

impl TraceContext {
    /// A context for `agent_id` with fresh task and request identifiers, stamped now.
    pub fn new(agent_id: u128, delegation_id: Option<u128>) -> (t: TraceContext)
        ensures
            t.agent_id == agent_id,
            t.delegation_id == delegation_id,
            0 <= t.timestamp < crate::clock::TIMESTAMP_BOUND,
    {
        let task_id = new_uuid();
        let request_id = new_uuid();
        TraceContext { task_id, agent_id, delegation_id, request_id, timestamp: now_millis() }
    }
}

/// A replay event; `timestamp` is in milliseconds since the Unix epoch.
#[derive(Clone, Debug)]
pub struct ReplayEvent {
    pub sequence: u64,
    pub event_type: String,
    pub task_id: u128,
    pub agent_id: u128,
    pub result_summary: String,
    pub timestamp: i64,
}

/// Severity of a structured log line.
#[derive(Clone, Copy, Debug, PartialEq, Eq, Structural)]
pub enum LogLevel {
    Trace,
    Debug,
    Info,
    Warn,
    Error,
}

/// The structured observability every layer reports to: logs, spans, counted
/// metrics and replay events.
pub trait Observability {
    /// A structured log line for the operation `ctx`.
    fn log_structured(&self, level: LogLevel, event: &str, ctx: &TraceContext, kv: &[(&str, &str)]);

    /// Opens a span named `span` for the operation `ctx`.
    fn trace_span(&self, span: &str, ctx: &TraceContext);

    /// Counts one occurrence of the metric `name`.
    fn metric(&self, name: &str, kv: &[(&str, &str)]);

    /// Records a replay event; returns the sequence number it was given.
    fn record_replay(&self, event: ReplayEvent) -> u64;
}

/// Where replay events go (a JSON-lines file) and the next sequence number to assign.
#[derive(Debug)]
pub struct ReplayWriter {
    path: String,
    sequence: u64,
}

impl ReplayWriter {
    /// The next sequence number this writer assigns.
    pub closed spec fn next_sequence(&self) -> u64 {
        self.sequence
    }

    /// The file the events are appended to.
    pub closed spec fn path_view(&self) -> Seq<char> {
        self.path@
    }

    /// A writer for `path` that assigns sequence numbers from zero.
    pub fn new(path: String) -> (w: ReplayWriter)
        ensures
            w.next_sequence() == 0,
            w.path_view() == path@,
    {
        ReplayWriter { path, sequence: 0 }
    }

    /// The file the events are appended to.
    pub fn path(&self) -> (p: &str)
        ensures
            p@ == self.path_view(),
    {
        self.path.as_str()
    }

    /// Takes the next sequence number.
    pub fn next_seq(&mut self) -> (s: u64)
        requires
            old(self).next_sequence() < u64::MAX,
        ensures
            s == old(self).next_sequence(),
            final(self).next_sequence() == s + 1,
            final(self).path_view() == old(self).path_view(),
    {
        let s = self.sequence;
        self.sequence = s + 1;
        s
    }
}

/// Observability that optionally writes replay events to a file.
#[derive(Debug)]
pub struct TraceObservability {
    replay_writer: Option<ReplayWriter>,
}

/// The state of the replay sequence of `o`: `None` without a writer.
pub open spec fn replay_counter(o: &TraceObservability) -> Option<u64> {
    match o.writer_view() {
        Some(w) => Some(w.next_sequence()),
        None => None,
    }
}

/// One `record_replay` step from `before` to `after` that returned `seq`.
pub open spec fn replay_step(before: Option<u64>, after: Option<u64>, event_seq: u64, seq: u64) -> bool {
    match before {
        Some(n) => seq == n && after == Some((n + 1) as u64),
        None => seq == event_seq && after is None,
    }
}

impl TraceObservability {
    pub closed spec fn writer_view(&self) -> Option<&ReplayWriter> {
        match &self.replay_writer {
            Some(w) => Some(w),
            None => None,
        }
    }

    /// Observability that appends replay events to the file at `path`.
    pub fn with_replay(path: String) -> (o: TraceObservability)
        ensures
            replay_counter(&o) == Some(0u64),
            o.writer_view() matches Some(w) && w.path_view() == path@,
    {
        TraceObservability { replay_writer: Some(ReplayWriter::new(path)) }
    }

    /// Observability that records no replay file.
    pub fn without_replay() -> (o: TraceObservability)
        ensures
            replay_counter(&o) is None,
    {
        TraceObservability { replay_writer: None }
    }

    /// The file replay events are written to, if any.
    pub fn replay_path(&self) -> (p: Option<&str>)
        ensures
            match (p, self.writer_view()) {
                (Some(s), Some(w)) => s@ == w.path_view(),
                (None, None) => true,
                _ => false,
            },
    {
        match &self.replay_writer {
            Some(w) => Some(w.path()),
            None => None,
        }
    }

    /// Assigns `event` its replay sequence number: the writer's next one when a
    /// writer is configured, its own otherwise. Returns the number and, with a
    /// writer, the stamped event to append to the replay file.
    pub fn record_replay(&mut self, event: ReplayEvent) -> (r: (u64, Option<ReplayEvent>))
        requires
            replay_counter(old(self)) matches Some(n) ==> n < u64::MAX,
        ensures
            replay_step(replay_counter(old(self)), replay_counter(final(self)), event.sequence, r.0),
            replay_counter(old(self)) is Some <==> r.1 is Some,
            r.1 matches Some(e) ==> e.sequence == r.0 && e.event_type@ == event.event_type@
                && e.task_id == event.task_id && e.agent_id == event.agent_id
                && e.result_summary@ == event.result_summary@ && e.timestamp == event.timestamp,
            final(self).writer_view() matches Some(w) ==> (old(self).writer_view() matches Some(w0) && w.path_view() == w0.path_view()),
    {
        match &mut self.replay_writer {
            Some(w) => {
                let seq = w.next_seq();
                let mut e = event;
                e.sequence = seq;
                (seq, Some(e))
            },
            None => (event.sequence, None),
        }
    }
}

impl Default for TraceObservability {
    fn default() -> (o: TraceObservability)
        ensures
            replay_counter(&o) is None,
    {
        TraceObservability::without_replay()
    }
}

/// Replay sequence numbers strictly increase: of two successive `record_replay`
/// calls on observability with a writer, the second returns a larger number.
pub proof fn lemma_replay_sequence_increases(
    c0: Option<u64>,
    c1: Option<u64>,
    c2: Option<u64>,
    e1: u64,
    e2: u64,
    s1: u64,
    s2: u64,
)
    requires
        c0 matches Some(n) && n < u64::MAX,
        replay_step(c0, c1, e1, s1),
        replay_step(c1, c2, e2, s2),
    ensures
        s1 < s2,
        s2 == s1 + 1,
{
}

} // verus!
