use openbrowser::observability::{LogLevel, Observability, ReplayEvent, ReplayWriter, TraceContext, TraceObservability};
use std::sync::atomic::{AtomicU64, Ordering};
use std::sync::Arc;

fn event(kind: &str) -> ReplayEvent {
    ReplayEvent {
        sequence: 0,
        event_type: kind.into(),
        task_id: 1,
        agent_id: 2,
        result_summary: "s".into(),
        timestamp: 3,
    }
}

#[test]
fn trace_context_has_all_ids() {
    let ctx = TraceContext::new(17, None);
    assert_eq!(ctx.agent_id, 17);
    assert_ne!(ctx.task_id, ctx.request_id);
    assert!(ctx.delegation_id.is_none());
}

#[test]
fn trace_context_with_delegation() {
    let ctx = TraceContext::new(1, Some(99));
    assert_eq!(ctx.delegation_id, Some(99));
}

struct Counting(AtomicU64);

impl Observability for Counting {
    fn log_structured(&self, _level: LogLevel, _event: &str, _ctx: &TraceContext, _kv: &[(&str, &str)]) {}
    fn trace_span(&self, _span: &str, _ctx: &TraceContext) {}
    fn metric(&self, _name: &str, _kv: &[(&str, &str)]) {}
    fn record_replay(&self, _event: ReplayEvent) -> u64 {
        self.0.fetch_add(1, Ordering::SeqCst)
    }
}

#[test]
fn observability_is_object_safe() {
    let obs: Arc<dyn Observability> = Arc::new(Counting(AtomicU64::new(0)));
    let ctx = TraceContext::new(5, None);
    obs.log_structured(LogLevel::Info, "test", &ctx, &[]);
    obs.trace_span("test_span", &ctx);
    obs.metric("test_metric", &[]);
    assert_eq!(obs.record_replay(event("test")), 0);
}

#[test]
fn test_replay_jsonl_monotonic_and_metric() {
    let mut obs = TraceObservability::with_replay("replay.jsonl".to_string());
    assert_eq!(obs.replay_path(), Some("replay.jsonl"));
    let (seq1, e1) = obs.record_replay(event("event_a"));
    let (seq2, e2) = obs.record_replay(event("event_b"));
    assert!(seq2 > seq1, "record_replay must return increasing sequence");
    let (e1, e2) = (e1.unwrap(), e2.unwrap());
    assert_eq!(e1.sequence, seq1);
    assert_eq!(e2.sequence, seq2);
    assert_eq!(e1.event_type, "event_a");
    assert_eq!(e2.event_type, "event_b");
}

#[test]
fn without_replay_keeps_event_sequence() {
    let mut obs = TraceObservability::default();
    assert_eq!(obs.replay_path(), None);
    let mut e = event("x");
    e.sequence = 41;
    let (seq, written) = obs.record_replay(e);
    assert_eq!(seq, 41);
    assert!(written.is_none());
}

#[test]
fn writer_counts_from_zero() {
    let mut w = ReplayWriter::new("p".into());
    assert_eq!(w.path(), "p");
    assert_eq!(w.next_seq(), 0);
    assert_eq!(w.next_seq(), 1);
    assert_eq!(w.next_seq(), 2);
}
