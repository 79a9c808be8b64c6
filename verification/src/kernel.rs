//! The runtime kernel: the policy gate in front of task submission, with its
//! observability and worker pool.

use vstd::prelude::*;
use std::sync::Arc;
use crate::auth::AgentIdentity;
use crate::clock::now_millis;
use crate::observability::{LogLevel, Observability, ReplayEvent, TraceContext};
use crate::policy::{Decision, PolicyEngine, check_spec, decision_view};
use crate::text::push_str;
use crate::worker::WorkerPool;

verus! {

/// A structured log line of a policy check: its level, its event name, and
/// the checked action and the verdict as its fields `action` and `decision`.
#[derive(Debug)]
pub struct PolicyCheckLog {
    pub level: LogLevel,
    pub event: String,
    pub action: String,
    pub verdict: &'static str,
}

/// The verdict text of a decision.
pub open spec fn verdict_text(d: Option<Seq<char>>) -> Seq<char> {
    if d is None {
        "allow"@
    } else {
        "deny"@
    }
}

/// The log line of a check of `action` that decided `d`: at level `Info`, the
/// event `policy_check: <action>`, with the action and `allow` or `deny`.
pub fn policy_check_log(action: &str, d: &Decision) -> (l: PolicyCheckLog)
    ensures
        l.level == LogLevel::Info,
        l.event@ == "policy_check: "@ + action@,
        l.action@ == action@,
        l.verdict@ == verdict_text(decision_view(*d)),
{
    let mut event: Vec<char> = Vec::new();
    push_str(&mut event, "policy_check: ");
    push_str(&mut event, action);
    let verdict = match d {
        Decision::Allow => "allow",
        Decision::Deny { .. } => "deny",
    };
    PolicyCheckLog {
        level: LogLevel::Info,
        event: crate::text::string_from_chars(event.as_slice()),
        action: action.to_owned(),
        verdict,
    }
}

/// The parts of the runtime that every task passes through.
#[derive(Debug)]
pub struct RuntimeKernel<O> {
    pub workers: WorkerPool,
    pub observability: Arc<O>,
    pub policy: Arc<PolicyEngine>,
}

impl<O: Observability> RuntimeKernel<O> {
    /// A kernel with an empty worker pool.
    pub fn new(policy: Arc<PolicyEngine>, observability: Arc<O>) -> (k: RuntimeKernel<O>)
        ensures
            k.policy == policy,
            k.observability == observability,
            k.workers.workers@ == Map::<u128, crate::worker::WorkerState>::empty(),
    {
        RuntimeKernel { workers: WorkerPool::new(), observability, policy }
    }

    /// The policy's decision on `action` for `agent` at the time `now`, logged
    /// through the observability as `policy_check_log(action, decision)`.
    pub fn check_capability_at(&self, agent: &AgentIdentity, action: &str, now: i64) -> (d: Decision)
        ensures
            decision_view(d) == check_spec(self.policy@, *agent, action@, now),
    {
        let d = self.policy.check_at(agent, action, now);
        let line = policy_check_log(action, &d);
        let ctx = TraceContext::new(agent.agent_id.0, None);
        self.observability.log_structured(
            line.level,
            line.event.as_str(),
            &ctx,
            &[("action", line.action.as_str()), ("decision", line.verdict)],
        );
        d
    }

    /// The policy's decision on `action` for `agent` now, logged.
    pub fn check_capability(&self, agent: &AgentIdentity, action: &str) -> (d: Decision)
        ensures
            exists|now: i64| 0 <= now < crate::clock::TIMESTAMP_BOUND && #[trigger] check_spec(self.policy@, *agent, action@, now) == decision_view(d),
    {
        self.check_capability_at(agent, action, now_millis())
    }

    /// Records a replay event; returns the sequence number it was given.
    pub fn record_replay(&self, event: ReplayEvent) -> (seq: u64) {
        self.observability.record_replay(event)
    }
}

} // verus!
