//! Worker lifecycle tracking with per-worker quota enforcement, and the
//! cancellation tokens that workers and tasks carry.

use vstd::prelude::*;
use std::collections::HashMap;
use tokio_util::sync::CancellationToken;
use crate::sandbox::{
    ResourceQuota, ResourceUsage, WorkerGuard, lemma_fresh_guard_within_quota, usage_plus, within_quota,
    zero_usage,
};

verus! {

broadcast use vstd::std_specs::hash::group_hash_axioms;

#[verifier::external_type_specification]
#[verifier::external_body]
pub struct ExCancellationToken(tokio_util::sync::CancellationToken);

/// A fresh, uncancelled token (`CancellationToken::new`).
#[verifier::external_body]
pub(crate) fn new_token() -> (t: CancellationToken) {
    CancellationToken::new()
}

/// `CancellationToken::clone`: another handle to the same token, so that
/// cancelling either cancels both; nothing is stated of the result.
pub assume_specification[ <CancellationToken as Clone>::clone ](t: &CancellationToken) -> (c: CancellationToken);

/// Cancels `t` and every clone of it (`CancellationToken::cancel`); the token
/// is shared state outside this library's view, so nothing is stated of it.
#[verifier::external_body]
pub(crate) fn cancel_token(t: &CancellationToken) {
    t.cancel()
}

/// Lifecycle of a worker: `Idle`, then `Running`, then `Completed`.
#[derive(Clone, Copy, Debug, PartialEq, Eq, Structural)]
pub enum WorkerStateStatus {
    Idle,
    Running,
    Completed,
}

impl Default for WorkerStateStatus {
    fn default() -> (s: WorkerStateStatus)
        ensures
            s == WorkerStateStatus::Idle,
    {
        WorkerStateStatus::Idle
    }
}

/// One worker: its quota guard, its cancellation token and its status.
#[derive(Debug)]
pub struct WorkerState {
    pub guard: WorkerGuard,
    pub cancel: CancellationToken,
    pub status: WorkerStateStatus,
}

/// Returned when a task cannot be started because its quota is exhausted.
#[derive(Debug, Clone, Copy)]
pub struct QuotaExceeded;

impl QuotaExceeded {
    /// The error's message.
    pub fn message(&self) -> (s: String)
        ensures
            s@ == "worker quota exceeded"@,
    {
        "worker quota exceeded".to_owned()
    }
}

/// The workers of a pool, by task identifier, and the quota new workers get.
#[derive(Debug)]
pub struct WorkerPool {
    pub workers: HashMap<u128, WorkerState>,
    pub default_quota: ResourceQuota,
}

/// The all-zero quota.
pub open spec fn zero_quota() -> ResourceQuota {
    ResourceQuota { max_memory_bytes: 0, max_cpu_ms: 0, max_wall_ms: 0, max_network_bytes: 0, max_requests: 0 }
}

/// A freshly started worker under `quota`.
pub open spec fn started(w: WorkerState, quota: ResourceQuota) -> bool {
    w.guard.quota == quota && w.guard.usage == zero_usage() && w.status == WorkerStateStatus::Running
}

impl Default for WorkerPool {
    fn default() -> (p: WorkerPool)
        ensures
            p.workers@ == Map::<u128, WorkerState>::empty(),
            p.default_quota == zero_quota(),
    {
        WorkerPool::new()
    }
}

impl WorkerPool {
    /// An empty pool whose default quota is all zeros.
    pub fn new() -> (p: WorkerPool)
        ensures
            p.workers@ == Map::<u128, WorkerState>::empty(),
            p.default_quota == zero_quota(),
    {
        WorkerPool {
            workers: HashMap::new(),
            default_quota: ResourceQuota {
                max_memory_bytes: 0,
                max_cpu_ms: 0,
                max_wall_ms: 0,
                max_network_bytes: 0,
                max_requests: 0,
            },
        }
    }

    /// Registers a running worker for `task_id` under `quota`, after checking
    /// that a fresh guard for the quota passes enforcement (it always does, as
    /// nothing has been used yet). A worker already registered for the task is
    /// replaced.
    pub fn spawn_with_quota(&mut self, task_id: u128, quota: ResourceQuota) -> (r: Result<(), QuotaExceeded>)
        ensures
            r is Ok,
            final(self).workers@.dom() == old(self).workers@.dom().insert(task_id),
            started(final(self).workers@[task_id], quota),
            forall|k: u128| k != task_id && #[trigger] old(self).workers@.contains_key(k) ==> final(self).workers@[k]
                == old(self).workers@[k],
            final(self).default_quota == old(self).default_quota,
    {
        let guard = WorkerGuard::new(quota);
        proof {
            lemma_fresh_guard_within_quota(quota);
        }
        if !guard.enforce() {
            return Err(QuotaExceeded);
        }
        let state = WorkerState { guard, cancel: new_token(), status: WorkerStateStatus::Running };
        self.workers.insert(task_id, state);
        Ok(())
    }

    /// `spawn_with_quota` with the pool's default quota.
    pub fn spawn(&mut self, task_id: u128) -> (r: Result<(), QuotaExceeded>)
        ensures
            r is Ok,
            final(self).workers@.dom() == old(self).workers@.dom().insert(task_id),
            started(final(self).workers@[task_id], old(self).default_quota),
            forall|k: u128| k != task_id && #[trigger] old(self).workers@.contains_key(k) ==> final(self).workers@[k]
                == old(self).workers@[k],
            final(self).default_quota == old(self).default_quota,
    {
        let quota = self.default_quota;
        self.spawn_with_quota(task_id, quota)
    }

    /// Adds `delta` to the usage of the worker for `task_id`; `false` when
    /// there is none.
    pub fn add_usage(&mut self, task_id: u128, delta: ResourceUsage) -> (r: bool)
        ensures
            r == old(self).workers@.contains_key(task_id),
            final(self).workers@.dom() == old(self).workers@.dom(),
            r ==> ({
                let (o, n) = (old(self).workers@[task_id], final(self).workers@[task_id]);
                n.guard.quota == o.guard.quota && n.guard.usage == usage_plus(o.guard.usage, delta) && n.status
                    == o.status
            }),
            forall|k: u128| k != task_id && #[trigger] old(self).workers@.contains_key(k) ==> final(self).workers@[k]
                == old(self).workers@[k],
            final(self).default_quota == old(self).default_quota,
    {
        match self.workers.remove(&task_id) {
            Some(mut state) => {
                state.guard.add_usage(delta);
                self.workers.insert(task_id, state);
                proof {
                    assert(self.workers@.dom() =~= old(self).workers@.dom());
                }
                true
            },
            None => false,
        }
    }

    /// Whether the worker for `task_id` is within its quota; `false` when there
    /// is no such worker.
    pub fn check_enforcement(&self, task_id: u128) -> (r: bool)
        ensures
            r == (self.workers@.contains_key(task_id) && within_quota(
                self.workers@[task_id].guard.usage,
                self.workers@[task_id].guard.quota,
            )),
    {
        match self.workers.get(&task_id) {
            Some(s) => s.guard.enforce(),
            None => false,
        }
    }

    /// Cancels the worker for `task_id` through its token; `false` when there
    /// is no such worker.
    pub fn cancel(&self, task_id: u128) -> (r: bool)
        ensures
            r == self.workers@.contains_key(task_id),
    {
        match self.workers.get(&task_id) {
            Some(w) => {
                cancel_token(&w.cancel);
                true
            },
            None => false,
        }
    }

    /// Removes the worker for `task_id` and returns it, a running worker marked
    /// completed.
    pub fn remove(&mut self, task_id: u128) -> (r: Option<WorkerState>)
        ensures
            final(self).workers@ == old(self).workers@.remove(task_id),
            final(self).default_quota == old(self).default_quota,
            r is Some == old(self).workers@.contains_key(task_id),
            r matches Some(w) ==> ({
                let o = old(self).workers@[task_id];
                w.guard == o.guard && w.status == (if o.status == WorkerStateStatus::Running {
                    WorkerStateStatus::Completed
                } else {
                    o.status
                })
            }),
    {
        match self.workers.remove(&task_id) {
            Some(mut state) => {
                if state.status == WorkerStateStatus::Running {
                    state.status = WorkerStateStatus::Completed;
                }
                Some(state)
            },
            None => None,
        }
    }

    /// The number of registered workers.
    pub fn count(&self) -> (n: usize)
        ensures
            n == self.workers@.len(),
    {
        self.workers.len()
    }
}

/// A worker started under any quota passes enforcement until usage is added:
/// starting never fails for lack of quota.
pub proof fn lemma_started_worker_within_quota(w: WorkerState, quota: ResourceQuota)
    requires
        started(w, quota),
    ensures
        within_quota(w.guard.usage, w.guard.quota),
{
    lemma_fresh_guard_within_quota(quota);
}

} // verus!
