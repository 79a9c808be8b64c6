//! The execution state machine of a task.
//!
//! ```text
//! Created ──> Queued ──> Running ──> Completed
//!                           ├──> Failed
//!                           ├──> Cancelled
//!                           ├──> TimedOut
//!                           └──> ResourceExceeded
//! ```

use vstd::prelude::*;
use crate::clock::now_millis;

verus! {

/// The state of one task's execution.
#[derive(Clone, Debug, PartialEq, Eq)]
pub enum ExecutionState {
    Created,
    Queued,
    Running { worker_id: u128 },
    Completed,
    Failed { error: String },
    Cancelled,
    TimedOut,
    ResourceExceeded,
}

/// Whether the state machine has an edge from `from` to `to`.
pub open spec fn transition_allowed(from: ExecutionState, to: ExecutionState) -> bool {
    match (from, to) {
        (ExecutionState::Created, ExecutionState::Queued) => true,
        (ExecutionState::Queued, ExecutionState::Running { .. }) => true,
        (ExecutionState::Running { .. }, ExecutionState::Completed) => true,
        (ExecutionState::Running { .. }, ExecutionState::Failed { .. }) => true,
        (ExecutionState::Running { .. }, ExecutionState::Cancelled) => true,
        (ExecutionState::Running { .. }, ExecutionState::TimedOut) => true,
        (ExecutionState::Running { .. }, ExecutionState::ResourceExceeded) => true,
        _ => false,
    }
}

/// A state with no way out.
pub open spec fn is_terminal(s: ExecutionState) -> bool {
    match s {
        ExecutionState::Completed | ExecutionState::Failed { .. } | ExecutionState::Cancelled
        | ExecutionState::TimedOut | ExecutionState::ResourceExceeded => true,
        _ => false,
    }
}

impl ExecutionState {
    /// Whether moving from this state to `next` is a valid transition.
    pub fn can_transition_to(&self, next: &ExecutionState) -> (r: bool)
        ensures
            r == transition_allowed(*self, *next),
    {
        match (self, next) {
            (ExecutionState::Created, ExecutionState::Queued) => true,
            (ExecutionState::Queued, ExecutionState::Running { .. }) => true,
            (ExecutionState::Running { .. }, ExecutionState::Completed) => true,
            (ExecutionState::Running { .. }, ExecutionState::Failed { .. }) => true,
            (ExecutionState::Running { .. }, ExecutionState::Cancelled) => true,
            (ExecutionState::Running { .. }, ExecutionState::TimedOut) => true,
            (ExecutionState::Running { .. }, ExecutionState::ResourceExceeded) => true,
            _ => false,
        }
    }
}

/// The error returned for a transition that the state machine does not allow.
pub open spec fn invalid_transition_text() -> Seq<char> {
    "invalid state transition"@
}

/// Per-task execution record: the current state and when it was last set
/// (milliseconds since the Unix epoch).
#[derive(Clone, Debug)]
pub struct ExecutionRecord {
    pub task_id: u128,
    pub state: ExecutionState,
    pub updated_at: i64,
    pub worker_id: Option<u128>,
}

impl ExecutionRecord {
    /// A record in the `Created` state, stamped with the time `now`.
    pub fn new_at(task_id: u128, now: i64) -> (r: ExecutionRecord)
        ensures
            r.task_id == task_id,
            r.state == ExecutionState::Created,
            r.updated_at == now,
            r.worker_id is None,
    {
        ExecutionRecord { task_id, state: ExecutionState::Created, updated_at: now, worker_id: None }
    }

    /// A record in the `Created` state, stamped now.
    pub fn new(task_id: u128) -> (r: ExecutionRecord)
        ensures
            r.task_id == task_id,
            r.state == ExecutionState::Created,
            r.worker_id is None,
    {
        ExecutionRecord::new_at(task_id, now_millis())
    }

    /// Moves to `next` at the time `now` when the state machine allows it;
    /// otherwise changes nothing and returns the error.
    pub fn transition_at(&mut self, next: ExecutionState, now: i64) -> (r: Result<(), &'static str>)
        ensures
            r is Ok <==> transition_allowed(old(self).state, next),
            r is Ok ==> final(self).state == next && final(self).updated_at == now
                && final(self).task_id == old(self).task_id && final(self).worker_id == old(self).worker_id,
            r is Err ==> *final(self) == *old(self),
            r matches Err(e) ==> e@ == invalid_transition_text(),
    {
        if self.state.can_transition_to(&next) {
            self.state = next;
            self.updated_at = now;
            Ok(())
        } else {
            proof {
                reveal_strlit("invalid state transition");
            }
            Err("invalid state transition")
        }
    }

    /// Moves to `next` now when the state machine allows it.
    pub fn transition(&mut self, next: ExecutionState) -> (r: Result<(), &'static str>)
        ensures
            r is Ok <==> transition_allowed(old(self).state, next),
            r is Ok ==> final(self).state == next && final(self).task_id == old(self).task_id,
            r is Err ==> *final(self) == *old(self),
            r matches Err(e) ==> e@ == invalid_transition_text(),
    {
        let now = now_millis();
        self.transition_at(next, now)
    }

    /// The current state.
    pub fn state(&self) -> (s: ExecutionState)
        ensures
            s == self.state,
    {
        match &self.state {
            ExecutionState::Created => ExecutionState::Created,
            ExecutionState::Queued => ExecutionState::Queued,
            ExecutionState::Running { worker_id } => ExecutionState::Running { worker_id: *worker_id },
            ExecutionState::Completed => ExecutionState::Completed,
            ExecutionState::Failed { error } => ExecutionState::Failed { error: error.clone() },
            ExecutionState::Cancelled => ExecutionState::Cancelled,
            ExecutionState::TimedOut => ExecutionState::TimedOut,
            ExecutionState::ResourceExceeded => ExecutionState::ResourceExceeded,
        }
    }
}

/// No state can be entered from a terminal state.
pub proof fn lemma_terminal_states_are_final(from: ExecutionState, to: ExecutionState)
    requires
        is_terminal(from),
    ensures
        !transition_allowed(from, to),
{
}

/// No transition leads back to `Created`, and none stays in the same state: the
/// machine only moves forward.
pub proof fn lemma_no_backward_edges(from: ExecutionState, to: ExecutionState)
    requires
        transition_allowed(from, to),
    ensures
        to !is Created,
        from !is Created ==> to !is Queued,
        !(from is Running && to is Running),
        from != to,
        to is Running ==> from is Queued,
{
}

/// A task must be queued before it runs, and must run before it ends in any
/// way (completed, failed, cancelled, timed out or over its resources).
pub proof fn lemma_completion_requires_running(from: ExecutionState, to: ExecutionState)
    requires
        transition_allowed(from, to),
        to is Completed || to is Failed || to is Cancelled || to is TimedOut || to is ResourceExceeded,
    ensures
        from is Running,
{
}

/// A running task may end in every way: it may complete, fail, be
/// cancelled, time out (which the scheduler's deadline handling needs) or
/// exceed its resources; and a task that has not started may not end.
pub proof fn lemma_running_may_end(worker_id: u128, to: ExecutionState)
    ensures
        (to is Completed || to is Failed || to is Cancelled || to is TimedOut || to is ResourceExceeded)
            ==> transition_allowed(ExecutionState::Running { worker_id }, to),
        (to is Completed || to is Failed || to is Cancelled || to is TimedOut || to is ResourceExceeded)
            ==> !transition_allowed(ExecutionState::Created, to) && !transition_allowed(ExecutionState::Queued, to),
{
}

} // verus!
