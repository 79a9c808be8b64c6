//! The scheduler's bookkeeping: task contexts, metrics, cancellation
//! registration, execution records, and the classification of finished tasks.
//! The queue, the permits and the spawned tasks are run by the caller, which
//! reports each step here.

use vstd::prelude::*;
use std::collections::HashMap;
use std::sync::Arc;
use tokio_util::sync::CancellationToken;
use crate::execution::{ExecutionRecord, ExecutionState, transition_allowed};
use crate::interaction::AdapterResult;
use crate::observability::TraceContext;
use crate::policy::PolicyEngine;
use crate::sandbox::ResourceQuota;
use crate::worker::{cancel_token, new_token};

verus! {

broadcast use vstd::std_specs::hash::group_hash_axioms;

/// Everything a task carries through the runtime.
#[derive(Clone, Debug)]
pub struct TaskContext {
    pub task_id: u128,
    pub agent_id: u128,
    pub delegation_id: Option<u128>,
    pub trace: TraceContext,
    pub quota: ResourceQuota,
    pub cancel: CancellationToken,
    pub policy: Arc<PolicyEngine>,
    /// The action the executor resolves to an adapter.
    pub action: String,
    /// Optional deadline, in milliseconds from dispatch.
    pub deadline: Option<u64>,
}

impl TaskContext {
    /// A context for the action `http.get`, without deadline.
    pub fn new(agent_id: u128, delegation_id: Option<u128>, quota: ResourceQuota, policy: Arc<PolicyEngine>) -> (t:
        TaskContext)
        ensures
            t.agent_id == agent_id,
            t.delegation_id == delegation_id,
            t.quota == quota,
            t.policy == policy,
            t.action@ == "http.get"@,
            t.deadline is None,
            t.task_id == t.trace.task_id,
            t.trace.agent_id == agent_id,
    {
        TaskContext::with_action(agent_id, delegation_id, quota, policy, "http.get")
    }

    /// A context for `action`, without deadline.
    pub fn with_action(
        agent_id: u128,
        delegation_id: Option<u128>,
        quota: ResourceQuota,
        policy: Arc<PolicyEngine>,
        action: &str,
    ) -> (t: TaskContext)
        ensures
            t.agent_id == agent_id,
            t.delegation_id == delegation_id,
            t.quota == quota,
            t.policy == policy,
            t.action@ == action@,
            t.deadline is None,
            t.task_id == t.trace.task_id,
            t.trace.agent_id == agent_id,
    {
        TaskContext::with_deadline(agent_id, delegation_id, quota, policy, action, None)
    }

    /// A context for `action` with a fresh trace (whose task identifier the
    /// task takes) and a fresh cancellation token.
    pub fn with_deadline(
        agent_id: u128,
        delegation_id: Option<u128>,
        quota: ResourceQuota,
        policy: Arc<PolicyEngine>,
        action: &str,
        deadline: Option<u64>,
    ) -> (t: TaskContext)
        ensures
            t.agent_id == agent_id,
            t.delegation_id == delegation_id,
            t.quota == quota,
            t.policy == policy,
            t.action@ == action@,
            t.deadline == deadline,
            t.task_id == t.trace.task_id,
            t.trace.agent_id == agent_id,
            t.trace.delegation_id == delegation_id,
    {
        let trace = TraceContext::new(agent_id, delegation_id);
        TaskContext {
            task_id: trace.task_id,
            agent_id,
            delegation_id,
            trace,
            quota,
            cancel: new_token(),
            policy,
            action: action.to_owned(),
            deadline,
        }
    }
}

/// Scheduler counters.
#[derive(Clone, Copy, Debug, PartialEq, Eq, Structural)]
pub struct SchedulerMetrics {
    pub queued: usize,
    pub running: usize,
    pub completed: usize,
    pub failed: usize,
    pub cancelled: usize,
}

impl Default for SchedulerMetrics {
    fn default() -> (m: SchedulerMetrics)
        ensures
            m == zero_metrics(),
    {
        SchedulerMetrics { queued: 0, running: 0, completed: 0, failed: 0, cancelled: 0 }
    }
}

pub open spec fn zero_metrics() -> SchedulerMetrics {
    SchedulerMetrics { queued: 0, running: 0, completed: 0, failed: 0, cancelled: 0 }
}

/// Returned when the scheduler's queue cannot take a task.
#[derive(Debug, Clone, Copy)]
pub struct BackpressureError;

impl BackpressureError {
    /// The error's message.
    pub fn message(&self) -> (s: String)
        ensures
            s@ == "scheduler queue at capacity"@,
    {
        "scheduler queue at capacity".to_owned()
    }
}

/// How a finished task ended.
#[derive(Clone, Copy, Debug, PartialEq, Eq, Structural)]
pub enum TaskOutcome {
    Completed,
    Cancelled,
    TimedOut,
    Failed,
}

/// The message of the result of a task cancelled while it ran.
pub open spec fn cancelled_text() -> Seq<char> {
    "cancelled"@
}

/// The message of the result of a task that ran past its deadline.
pub open spec fn deadline_text() -> Seq<char> {
    "deadline exceeded"@
}

/// How a task that produced `r` ended: success completes it; the errors the
/// scheduler itself produces for cancellation and deadlines mark those; any
/// other result is a failure.
pub open spec fn outcome_of(r: AdapterResult) -> TaskOutcome {
    match r {
        AdapterResult::Success { .. } => TaskOutcome::Completed,
        AdapterResult::Error { message, .. } => if message@ == cancelled_text() {
            TaskOutcome::Cancelled
        } else if message@ == deadline_text() {
            TaskOutcome::TimedOut
        } else {
            TaskOutcome::Failed
        },
        AdapterResult::Denied { .. } => TaskOutcome::Failed,
    }
}

/// Classifies a finished task's result.
pub fn classify(result: &AdapterResult) -> (o: TaskOutcome)
    ensures
        o == outcome_of(*result),
{
    match result {
        AdapterResult::Success { .. } => TaskOutcome::Completed,
        AdapterResult::Error { message, .. } => {
            proof {
                reveal_strlit("cancelled");
                reveal_strlit("deadline exceeded");
            }
            let c = "cancelled".to_owned();
            let d = "deadline exceeded".to_owned();
            if *message == c {
                TaskOutcome::Cancelled
            } else if *message == d {
                TaskOutcome::TimedOut
            } else {
                TaskOutcome::Failed
            }
        },
        AdapterResult::Denied { .. } => TaskOutcome::Failed,
    }
}

/// The lifecycle event emitted when a task ends with `o`.
pub open spec fn lifecycle_text(o: TaskOutcome) -> Seq<char> {
    match o {
        TaskOutcome::Completed => "completed"@,
        TaskOutcome::Cancelled => "cancelled"@,
        TaskOutcome::TimedOut => "timed_out"@,
        TaskOutcome::Failed => "failed"@,
    }
}

/// The lifecycle event type for a task that ended with `o`.
pub fn lifecycle_event_type(o: TaskOutcome) -> (s: &'static str)
    ensures
        s@ == lifecycle_text(o),
{
    match o {
        TaskOutcome::Completed => "completed",
        TaskOutcome::Cancelled => "cancelled",
        TaskOutcome::TimedOut => "timed_out",
        TaskOutcome::Failed => "failed",
    }
}

/// Counters after a task ended with `o`: it no longer runs, and the counter
/// for its outcome grows (timed-out tasks have none).
pub open spec fn metrics_after(m: SchedulerMetrics, o: TaskOutcome) -> SchedulerMetrics {
    SchedulerMetrics {
        running: if m.running > 0 { (m.running - 1) as usize } else { 0 },
        completed: if o == TaskOutcome::Completed { (m.completed + 1) as usize } else { m.completed },
        cancelled: if o == TaskOutcome::Cancelled { (m.cancelled + 1) as usize } else { m.cancelled },
        failed: if o == TaskOutcome::Failed { (m.failed + 1) as usize } else { m.failed },
        ..m
    }
}

/// Counters after a queued task started: it leaves the queue and runs.
pub open spec fn metrics_started(m: SchedulerMetrics) -> SchedulerMetrics {
    SchedulerMetrics {
        queued: if m.queued > 0 { (m.queued - 1) as usize } else { 0 },
        running: (m.running + 1) as usize,
        ..m
    }
}

/// The state of the execution record `r` after trying to move it to `next` (no
/// change when the state machine does not allow it).
pub open spec fn after_attempt(r: ExecutionState, next: ExecutionState) -> ExecutionState {
    if transition_allowed(r, next) {
        next
    } else {
        r
    }
}

/// The bookkeeping of a scheduler.
#[derive(Debug)]
pub struct SchedulerState {
    pub max_queue: usize,
    pub max_concurrent: usize,
    pub metrics: SchedulerMetrics,
    pub cancellation_registry: HashMap<u128, CancellationToken>,
    pub execution_records: HashMap<u128, ExecutionRecord>,
}

impl SchedulerState {
    /// No more tasks run than the concurrency limit allows.
    pub open spec fn wf(&self) -> bool {
        self.metrics.running <= self.max_concurrent
    }

    /// Bookkeeping for a queue of `max_queue` tasks with `max_concurrent` running at once.
    pub fn new(max_queue: usize, max_concurrent: usize) -> (s: SchedulerState)
        ensures
            s.max_queue == max_queue,
            s.max_concurrent == max_concurrent,
            s.metrics == zero_metrics(),
            s.wf(),
            s.cancellation_registry@ == Map::<u128, CancellationToken>::empty(),
            s.execution_records@ == Map::<u128, ExecutionRecord>::empty(),
    {
        SchedulerState {
            max_queue,
            max_concurrent,
            metrics: SchedulerMetrics::default(),
            cancellation_registry: HashMap::new(),
            execution_records: HashMap::new(),
        }
    }

    /// Tries to move the record of `task_id`, if any, to `next`; a transition
    /// the state machine refuses changes nothing.
    fn attempt(&mut self, task_id: u128, next: ExecutionState)
        ensures
            final(self).execution_records@.dom() == old(self).execution_records@.dom(),
            old(self).execution_records@.contains_key(task_id) ==> final(self).execution_records@[task_id].state
                == after_attempt(old(self).execution_records@[task_id].state, next),
            forall|k: u128| k != task_id && #[trigger] old(self).execution_records@.contains_key(k)
                ==> final(self).execution_records@[k] == old(self).execution_records@[k],
            final(self).metrics == old(self).metrics,
            final(self).cancellation_registry@ == old(self).cancellation_registry@,
            final(self).max_queue == old(self).max_queue,
            final(self).max_concurrent == old(self).max_concurrent,
    {
        match self.execution_records.remove(&task_id) {
            Some(mut rec) => {
                let _ = rec.transition(next);
                self.execution_records.insert(task_id, rec);
                proof {
                    assert(self.execution_records@.dom() =~= old(self).execution_records@.dom());
                }
            },
            None => {},
        }
    }

    /// A task was accepted: its record starts in `Created` and its token is
    /// registered for cancellation.
    pub fn register_submission(&mut self, task_id: u128, cancel: CancellationToken)
        requires
            old(self).wf(),
        ensures
            final(self).max_queue == old(self).max_queue,
            final(self).max_concurrent == old(self).max_concurrent,
            final(self).wf(),
            final(self).execution_records@.dom() == old(self).execution_records@.dom().insert(task_id),
            final(self).execution_records@[task_id].state == ExecutionState::Created,
            final(self).execution_records@[task_id].task_id == task_id,
            forall|k: u128| k != task_id && #[trigger] old(self).execution_records@.contains_key(k)
                ==> final(self).execution_records@[k] == old(self).execution_records@[k],
            final(self).cancellation_registry@ == old(self).cancellation_registry@.insert(task_id, cancel),
            final(self).metrics == old(self).metrics,
    {
        let rec = ExecutionRecord::new(task_id);
        self.execution_records.insert(task_id, rec);
        self.cancellation_registry.insert(task_id, cancel);
    }

    /// A submitted task entered the queue.
    pub fn note_queued(&mut self)
        requires
            old(self).wf(),
            old(self).metrics.queued < usize::MAX,
        ensures
            final(self).max_queue == old(self).max_queue,
            final(self).max_concurrent == old(self).max_concurrent,
            final(self).wf(),
            final(self).metrics == (SchedulerMetrics { queued: (old(self).metrics.queued + 1) as usize, ..old(self).metrics }),
            final(self).cancellation_registry@ == old(self).cancellation_registry@,
            final(self).execution_records@ == old(self).execution_records@,
    {
        self.metrics.queued = self.metrics.queued + 1;
    }

    /// The dispatcher took a task off the queue; its token is registered (again).
    pub fn register_dispatch(&mut self, task_id: u128, cancel: CancellationToken)
        requires
            old(self).wf(),
        ensures
            final(self).max_queue == old(self).max_queue,
            final(self).max_concurrent == old(self).max_concurrent,
            final(self).wf(),
            final(self).cancellation_registry@ == old(self).cancellation_registry@.insert(task_id, cancel),
            final(self).execution_records@ == old(self).execution_records@,
            final(self).metrics == old(self).metrics,
    {
        self.cancellation_registry.insert(task_id, cancel);
    }

    /// A task got a concurrency slot and starts on worker `worker_id`: it
    /// leaves the queue and counts as running. A slot is free exactly when
    /// fewer than `max_concurrent` tasks run, so the running count never
    /// exceeds the limit.
    pub fn start_task(&mut self, task_id: u128, worker_id: u128)
        requires
            old(self).metrics.running < old(self).max_concurrent,
        ensures
            final(self).metrics == metrics_started(old(self).metrics),
            final(self).wf(),
            final(self).max_concurrent == old(self).max_concurrent,
            final(self).max_queue == old(self).max_queue,
            final(self).execution_records@.dom() == old(self).execution_records@.dom(),
            old(self).execution_records@.contains_key(task_id) ==> final(self).execution_records@[task_id].state
                == after_attempt(old(self).execution_records@[task_id].state, ExecutionState::Running { worker_id }),
            final(self).cancellation_registry@ == old(self).cancellation_registry@,
    {
        self.attempt(task_id, ExecutionState::Running { worker_id });
        self.metrics.queued = self.metrics.queued.saturating_sub(1);
        self.metrics.running = self.metrics.running + 1;
    }

    /// The task ran past its deadline: its token is cancelled, its record moves
    /// to `TimedOut` where allowed, and the result is the deadline error.
    pub fn deadline_exceeded(&mut self, task_id: u128, cancel: &CancellationToken) -> (r: AdapterResult)
        requires
            old(self).wf(),
        ensures
            final(self).max_queue == old(self).max_queue,
            final(self).max_concurrent == old(self).max_concurrent,
            final(self).wf(),
            r matches AdapterResult::Error { message, replay_sequence } && message@ == deadline_text()
                && replay_sequence == 0,
            final(self).execution_records@.dom() == old(self).execution_records@.dom(),
            old(self).execution_records@.contains_key(task_id) ==> final(self).execution_records@[task_id].state
                == after_attempt(old(self).execution_records@[task_id].state, ExecutionState::TimedOut),
            final(self).metrics == old(self).metrics,
            final(self).cancellation_registry@ == old(self).cancellation_registry@,
    {
        cancel_token(cancel);
        self.attempt(task_id, ExecutionState::TimedOut);
        proof {
            reveal_strlit("deadline exceeded");
        }
        AdapterResult::Error { message: "deadline exceeded".to_owned(), replay_sequence: 0 }
    }

    /// The task was cancelled while it ran: its record moves to `Cancelled`
    /// where allowed, and the result is the cancellation error.
    pub fn cancelled_while_running(&mut self, task_id: u128) -> (r: AdapterResult)
        requires
            old(self).wf(),
        ensures
            final(self).max_queue == old(self).max_queue,
            final(self).max_concurrent == old(self).max_concurrent,
            final(self).wf(),
            r matches AdapterResult::Error { message, replay_sequence } && message@ == cancelled_text()
                && replay_sequence == 0,
            final(self).execution_records@.dom() == old(self).execution_records@.dom(),
            old(self).execution_records@.contains_key(task_id) ==> final(self).execution_records@[task_id].state
                == after_attempt(old(self).execution_records@[task_id].state, ExecutionState::Cancelled),
            final(self).metrics == old(self).metrics,
            final(self).cancellation_registry@ == old(self).cancellation_registry@,
    {
        self.attempt(task_id, ExecutionState::Cancelled);
        proof {
            reveal_strlit("cancelled");
        }
        AdapterResult::Error { message: "cancelled".to_owned(), replay_sequence: 0 }
    }

    /// The task produced `result`: the counters record its outcome, its record
    /// moves to `Completed` (success) or `Failed` where allowed, and it leaves
    /// the cancellation registry. Returns the outcome.
    pub fn finish_task(&mut self, task_id: u128, result: &AdapterResult) -> (o: TaskOutcome)
        requires
            old(self).wf(),
            old(self).metrics.completed < usize::MAX,
            old(self).metrics.cancelled < usize::MAX,
            old(self).metrics.failed < usize::MAX,
        ensures
            final(self).max_queue == old(self).max_queue,
            final(self).max_concurrent == old(self).max_concurrent,
            final(self).wf(),
            o == outcome_of(*result),
            final(self).metrics == metrics_after(old(self).metrics, o),
            final(self).cancellation_registry@ == old(self).cancellation_registry@.remove(task_id),
            final(self).execution_records@.dom() == old(self).execution_records@.dom(),
            old(self).execution_records@.contains_key(task_id) ==> ({
                let (s0, s1) = (old(self).execution_records@[task_id].state, final(self).execution_records@[task_id].state);
                if o == TaskOutcome::Completed {
                    s1 == after_attempt(s0, ExecutionState::Completed)
                } else if s0 is Running {
                    s1 matches ExecutionState::Failed { error } && error@ == "adapter error"@
                } else {
                    s1 == s0
                }
            }),
    {
        let o = classify(result);
        self.metrics.running = self.metrics.running.saturating_sub(1);
        match o {
            TaskOutcome::Completed => {
                self.metrics.completed = self.metrics.completed + 1;
            },
            TaskOutcome::Cancelled => {
                self.metrics.cancelled = self.metrics.cancelled + 1;
            },
            TaskOutcome::TimedOut => {},
            TaskOutcome::Failed => {
                self.metrics.failed = self.metrics.failed + 1;
            },
        }
        let next = if o == TaskOutcome::Completed {
            ExecutionState::Completed
        } else {
            proof {
                reveal_strlit("adapter error");
            }
            ExecutionState::Failed { error: "adapter error".to_owned() }
        };
        self.attempt(task_id, next);
        self.cancellation_registry.remove(&task_id);
        o
    }

    /// Cancels the task `task_id` through its registered token and counts the
    /// cancellation; `false`, changing nothing, when no token is registered.
    pub fn cancel(&mut self, task_id: u128) -> (r: bool)
        requires
            old(self).wf(),
            old(self).metrics.cancelled < usize::MAX,
        ensures
            final(self).max_queue == old(self).max_queue,
            final(self).max_concurrent == old(self).max_concurrent,
            final(self).wf(),
            r == old(self).cancellation_registry@.contains_key(task_id),
            final(self).metrics == (if r {
                SchedulerMetrics { cancelled: (old(self).metrics.cancelled + 1) as usize, ..old(self).metrics }
            } else {
                old(self).metrics
            }),
            final(self).cancellation_registry@ == old(self).cancellation_registry@,
            final(self).execution_records@ == old(self).execution_records@,
    {
        match self.cancellation_registry.get(&task_id) {
            Some(token) => {
                cancel_token(token);
                self.metrics.cancelled = self.metrics.cancelled + 1;
                true
            },
            None => false,
        }
    }

    /// A snapshot of the counters.
    pub fn metrics(&self) -> (m: SchedulerMetrics)
        ensures
            m == self.metrics,
    {
        self.metrics
    }
}

/// Every finished task is counted once: `completed + failed + cancelled` grows
/// by one, except for a timed-out task, which leaves it unchanged.
pub proof fn lemma_finish_counts_once(m: SchedulerMetrics, o: TaskOutcome)
    requires
        m.completed < usize::MAX,
        m.cancelled < usize::MAX,
        m.failed < usize::MAX,
    ensures
        metrics_after(m, o).completed + metrics_after(m, o).failed + metrics_after(m, o).cancelled == m.completed
            + m.failed + m.cancelled + (if o == TaskOutcome::TimedOut { 0int } else { 1int }),
        metrics_after(m, o).queued == m.queued,
{
}

/// Only a successful result completes a task.
pub proof fn lemma_completed_iff_success(r: AdapterResult)
    ensures
        (outcome_of(r) == TaskOutcome::Completed) <==> (r is Success),
        r is Denied ==> outcome_of(r) == TaskOutcome::Failed,
{
}

/// At most `max_concurrent` tasks run at once: starting a task only while a
/// slot is free, and ending tasks, never takes the running count past the limit.
pub proof fn lemma_running_within_limit(m: SchedulerMetrics, max_concurrent: usize, o: TaskOutcome)
    requires
        m.running <= max_concurrent,
    ensures
        m.running < max_concurrent ==> metrics_started(m).running <= max_concurrent,
        metrics_after(m, o).running <= max_concurrent,
        metrics_after(m, o).running <= m.running,
{
}

/// A running task that passes its deadline is marked timed out, and one
/// cancelled while running is marked cancelled; a finished or failed run
/// ends it as completed or failed.
pub proof fn lemma_running_task_ends(worker_id: u128, error: String)
    ensures
        after_attempt(ExecutionState::Running { worker_id }, ExecutionState::TimedOut) == ExecutionState::TimedOut,
        after_attempt(ExecutionState::Running { worker_id }, ExecutionState::Cancelled) == ExecutionState::Cancelled,
        after_attempt(ExecutionState::Running { worker_id }, ExecutionState::Completed) == ExecutionState::Completed,
        after_attempt(ExecutionState::Running { worker_id }, ExecutionState::Failed { error }) == (ExecutionState::Failed {
            error,
        }),
{
}

} // verus!
