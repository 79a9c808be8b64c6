use openbrowser::execution::{ExecutionRecord, ExecutionState};
use openbrowser::interaction::AdapterResult;
use openbrowser::policy::PolicyEngine;
use openbrowser::sandbox::ResourceQuota;
use openbrowser::scheduler::{
    classify, lifecycle_event_type, BackpressureError, SchedulerMetrics, SchedulerState, TaskContext, TaskOutcome,
};
use tokio_util::sync::CancellationToken;
use std::sync::Arc;

#[test]
fn state_transitions_valid() {
    let mut record = ExecutionRecord::new(1);
    assert_eq!(record.state(), ExecutionState::Created, "new record should start in Created state");
    assert!(record.transition(ExecutionState::Queued).is_ok(), "Created -> Queued should be a valid transition");
    assert!(record.transition(ExecutionState::Created).is_err(), "Queued -> Created must be rejected");
}

#[test]
fn state_rejects_skipping() {
    let mut record = ExecutionRecord::new(2);
    assert!(record.transition(ExecutionState::Completed).is_err(), "Created -> Completed must be rejected");
    assert_eq!(record.transition(ExecutionState::Running { worker_id: 1 }), Err("invalid state transition"));
    assert_eq!(record.state(), ExecutionState::Created);
}

#[test]
fn full_lifecycle_and_terminal_states() {
    let mut r = ExecutionRecord::new_at(3, 100);
    assert!(r.transition_at(ExecutionState::Queued, 101).is_ok());
    assert!(r.transition_at(ExecutionState::Running { worker_id: 9 }, 102).is_ok());
    assert!(r.transition_at(ExecutionState::Failed { error: "e".into() }, 103).is_ok());
    assert_eq!(r.updated_at, 103);
    for next in [ExecutionState::Queued, ExecutionState::Completed, ExecutionState::Cancelled, ExecutionState::TimedOut] {
        assert!(r.transition_at(next, 104).is_err());
    }
    assert_eq!(r.updated_at, 103);
    assert!(!ExecutionState::Queued.can_transition_to(&ExecutionState::TimedOut));
    assert!(!ExecutionState::Queued.can_transition_to(&ExecutionState::Cancelled));
    assert!(!ExecutionState::Queued.can_transition_to(&ExecutionState::ResourceExceeded));
    assert!(ExecutionState::Running { worker_id: 0 }.can_transition_to(&ExecutionState::ResourceExceeded));
}

#[test]
fn scheduler_cancel_increments_metric() {
    let mut sched = SchedulerState::new(10, 2);
    assert_eq!(sched.metrics().cancelled, 0);
    assert!(!sched.cancel(12345));
    assert_eq!(sched.metrics().cancelled, 0);
    sched.register_submission(7, CancellationToken::new());
    assert!(sched.cancel(7));
    assert_eq!(sched.metrics().cancelled, 1);
}

#[test]
fn scheduler_metrics_default() {
    let m = SchedulerMetrics::default();
    assert_eq!(m.queued, 0);
    assert_eq!(m.running, 0);
    assert_eq!(m.cancelled, 0);
}

#[test]
fn task_lifecycle_counts_once() {
    let mut sched = SchedulerState::new(10, 2);
    sched.register_submission(1, CancellationToken::new());
    sched.note_queued();
    sched.register_dispatch(1, CancellationToken::new());
    sched.start_task(1, 77);
    assert_eq!(sched.metrics(), SchedulerMetrics { queued: 0, running: 1, completed: 0, failed: 0, cancelled: 0 });
    let o = sched.finish_task(1, &AdapterResult::Success { response: "ok".into(), replay_sequence: 1 });
    assert_eq!(o, TaskOutcome::Completed);
    assert_eq!(sched.metrics(), SchedulerMetrics { queued: 0, running: 0, completed: 1, failed: 0, cancelled: 0 });
    assert!(!sched.cancel(1), "finished task is no longer cancellable");
    // the record never left Created: the submission does not queue it
    assert_eq!(sched.execution_records.get(&1).unwrap().state, ExecutionState::Created);
}

#[test]
fn timeouts_and_cancellations() {
    let mut sched = SchedulerState::new(4, 1);
    let tok = CancellationToken::new();
    sched.register_submission(5, tok.clone());
    sched.start_task(5, 1);
    let r = sched.deadline_exceeded(5, &tok);
    assert!(tok.is_cancelled());
    assert_eq!(classify(&r), TaskOutcome::TimedOut);
    assert_eq!(sched.finish_task(5, &r), TaskOutcome::TimedOut);
    assert_eq!(sched.metrics(), SchedulerMetrics { queued: 0, running: 0, completed: 0, failed: 0, cancelled: 0 });
    let c = sched.cancelled_while_running(6);
    assert_eq!(classify(&c), TaskOutcome::Cancelled);
    assert_eq!(sched.finish_task(6, &c), TaskOutcome::Cancelled);
    assert_eq!(sched.metrics().cancelled, 1);
    let denied = AdapterResult::Denied { reason: "no".into(), replay_sequence: 0 };
    assert_eq!(sched.finish_task(6, &denied), TaskOutcome::Failed);
    assert_eq!(sched.metrics().failed, 1);
}

#[test]
fn lifecycle_names() {
    assert_eq!(lifecycle_event_type(TaskOutcome::Completed), "completed");
    assert_eq!(lifecycle_event_type(TaskOutcome::Cancelled), "cancelled");
    assert_eq!(lifecycle_event_type(TaskOutcome::TimedOut), "timed_out");
    assert_eq!(lifecycle_event_type(TaskOutcome::Failed), "failed");
    assert_eq!(classify(&AdapterResult::Error { message: "other".into(), replay_sequence: 0 }), TaskOutcome::Failed);
    assert_eq!(BackpressureError.message(), "scheduler queue at capacity");
}

#[test]
fn task_context_defaults() {
    let policy = Arc::new(PolicyEngine::new());
    let ctx = TaskContext::new(42, None, ResourceQuota::default(), policy.clone());
    assert_eq!(ctx.action, "http.get");
    assert_eq!(ctx.task_id, ctx.trace.task_id);
    assert_eq!(ctx.trace.agent_id, 42);
    assert!(ctx.deadline.is_none());
    let ctx2 = TaskContext::with_deadline(1, Some(2), ResourceQuota::default(), policy, "secret_op", Some(50));
    assert_eq!(ctx2.action, "secret_op");
    assert_eq!(ctx2.deadline, Some(50));
    assert_eq!(ctx2.trace.delegation_id, Some(2));
    assert_ne!(ctx.task_id, ctx2.task_id);
}

#[test]
fn running_stays_within_limit() {
    let mut sched = SchedulerState::new(4, 1);
    sched.register_submission(3, CancellationToken::new());
    sched.note_queued();
    sched.start_task(3, 11);
    assert_eq!(sched.metrics().running, 1);
    assert!(sched.metrics().running <= sched.max_concurrent);
    let o = sched.finish_task(3, &AdapterResult::Success { response: "ok".into(), replay_sequence: 1 });
    assert_eq!(o, TaskOutcome::Completed);
    assert_eq!(sched.metrics().running, 0);
    assert_eq!(sched.metrics().queued, 0);
    assert_eq!(sched.metrics().completed, 1);
}
