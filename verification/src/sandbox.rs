//! Per-worker resource quotas and their enforcement.

use vstd::prelude::*;

verus! {

/// Upper limits on the resources one worker may consume.
#[derive(Clone, Copy, Debug, Default, PartialEq, Eq)]
pub struct ResourceQuota {
    pub max_memory_bytes: u64,
    pub max_cpu_ms: u64,
    pub max_wall_ms: u64,
    pub max_network_bytes: u64,
    pub max_requests: u32,
}

/// Resource usage counters tracked per worker.
#[derive(Clone, Copy, Debug, Default, PartialEq, Eq)]
pub struct ResourceUsage {
    pub memory_bytes: u64,
    pub cpu_ms: u64,
    pub wall_ms: u64,
    pub network_bytes: u64,
    pub requests: u32,
}

/// Crash watchdog marker.
#[derive(Clone, Debug)]
pub struct Watchdog {}

/// A quota together with the usage accumulated against it.
#[derive(Clone, Debug)]
pub struct WorkerGuard {
    pub quota: ResourceQuota,
    pub usage: ResourceUsage,
}

/// `a + b`, clamped at `max`.
pub open spec fn saturating(a: int, b: int, max: int) -> int {
    if a + b > max { max } else { a + b }
}

/// Usage after adding `delta` to `usage`, each counter saturating at its type's maximum.
pub open spec fn usage_plus(usage: ResourceUsage, delta: ResourceUsage) -> ResourceUsage {
    ResourceUsage {
        memory_bytes: saturating(usage.memory_bytes as int, delta.memory_bytes as int, u64::MAX as int) as u64,
        cpu_ms: saturating(usage.cpu_ms as int, delta.cpu_ms as int, u64::MAX as int) as u64,
        wall_ms: saturating(usage.wall_ms as int, delta.wall_ms as int, u64::MAX as int) as u64,
        network_bytes: saturating(usage.network_bytes as int, delta.network_bytes as int, u64::MAX as int) as u64,
        requests: saturating(usage.requests as int, delta.requests as int, u32::MAX as int) as u32,
    }
}

/// Every counter of `usage` is within the matching limit of `quota`.
pub open spec fn within_quota(usage: ResourceUsage, quota: ResourceQuota) -> bool {
    &&& usage.memory_bytes <= quota.max_memory_bytes
    &&& usage.cpu_ms <= quota.max_cpu_ms
    &&& usage.wall_ms <= quota.max_wall_ms
    &&& usage.network_bytes <= quota.max_network_bytes
    &&& usage.requests <= quota.max_requests
}

/// Every counter of `a` is at most the matching counter of `b`.
pub open spec fn usage_le(a: ResourceUsage, b: ResourceUsage) -> bool {
    &&& a.memory_bytes <= b.memory_bytes
    &&& a.cpu_ms <= b.cpu_ms
    &&& a.wall_ms <= b.wall_ms
    &&& a.network_bytes <= b.network_bytes
    &&& a.requests <= b.requests
}

pub open spec fn zero_usage() -> ResourceUsage {
    ResourceUsage { memory_bytes: 0, cpu_ms: 0, wall_ms: 0, network_bytes: 0, requests: 0 }
}

impl ResourceUsage {
    /// All counters at zero.
    pub fn zero() -> (r: ResourceUsage)
        ensures
            r == zero_usage(),
    {
        ResourceUsage { memory_bytes: 0, cpu_ms: 0, wall_ms: 0, network_bytes: 0, requests: 0 }
    }
}

impl WorkerGuard {
    /// A guard for `quota` with no usage recorded yet.
    pub fn new(quota: ResourceQuota) -> (g: WorkerGuard)
        ensures
            g.quota == quota,
            g.usage == zero_usage(),
    {
        WorkerGuard { quota, usage: ResourceUsage::zero() }
    }

    /// Adds `delta` to the tracked counters, each one saturating.
    pub fn add_usage(&mut self, delta: ResourceUsage)
        ensures
            final(self).quota == old(self).quota,
            final(self).usage == usage_plus(old(self).usage, delta),
    {
        self.usage.memory_bytes = self.usage.memory_bytes.saturating_add(delta.memory_bytes);
        self.usage.cpu_ms = self.usage.cpu_ms.saturating_add(delta.cpu_ms);
        self.usage.wall_ms = self.usage.wall_ms.saturating_add(delta.wall_ms);
        self.usage.network_bytes = self.usage.network_bytes.saturating_add(delta.network_bytes);
        self.usage.requests = self.usage.requests.saturating_add(delta.requests);
    }

    /// `true` exactly when no counter exceeds its limit.
    pub fn enforce(&self) -> (ok: bool)
        ensures
            ok == within_quota(self.usage, self.quota),
    {
        if self.usage.memory_bytes > self.quota.max_memory_bytes {
            return false;
        }
        if self.usage.cpu_ms > self.quota.max_cpu_ms {
            return false;
        }
        if self.usage.wall_ms > self.quota.max_wall_ms {
            return false;
        }
        if self.usage.network_bytes > self.quota.max_network_bytes {
            return false;
        }
        if self.usage.requests > self.quota.max_requests {
            return false;
        }
        true
    }
}

/// A fresh guard passes enforcement, whatever its quota.
pub proof fn lemma_fresh_guard_within_quota(quota: ResourceQuota)
    ensures
        within_quota(zero_usage(), quota),
{
}

/// Adding usage never lowers a counter.
pub proof fn lemma_usage_grows(usage: ResourceUsage, delta: ResourceUsage)
    ensures
        usage_le(usage, usage_plus(usage, delta)),
{
}

/// Once a guard fails enforcement, no further usage makes it pass again.
pub proof fn lemma_exceeded_stays_exceeded(usage: ResourceUsage, delta: ResourceUsage, quota: ResourceQuota)
    requires
        !within_quota(usage, quota),
    ensures
        !within_quota(usage_plus(usage, delta), quota),
{
}

/// Adding zero usage changes nothing.
pub proof fn lemma_add_zero(usage: ResourceUsage)
    ensures
        usage_plus(usage, zero_usage()) == usage,
{
}

/// Usage that is at most some usage within the quota is within the quota too.
pub proof fn lemma_within_quota_antitone(a: ResourceUsage, b: ResourceUsage, quota: ResourceQuota)
    requires
        usage_le(a, b),
        within_quota(b, quota),
    ensures
        within_quota(a, quota),
{
}

/// Usage accumulates: after adding `delta`, each counter is the sum of its old
/// value and the delta's, or the largest value of its type when the sum does
/// not fit.
pub proof fn lemma_usage_adds(usage: ResourceUsage, delta: ResourceUsage)
    ensures
        usage_plus(usage, delta).memory_bytes == (if usage.memory_bytes + delta.memory_bytes <= u64::MAX {
            usage.memory_bytes + delta.memory_bytes
        } else {
            u64::MAX as int
        }),
        usage_plus(usage, delta).cpu_ms == (if usage.cpu_ms + delta.cpu_ms <= u64::MAX {
            usage.cpu_ms + delta.cpu_ms
        } else {
            u64::MAX as int
        }),
        usage_plus(usage, delta).wall_ms == (if usage.wall_ms + delta.wall_ms <= u64::MAX {
            usage.wall_ms + delta.wall_ms
        } else {
            u64::MAX as int
        }),
        usage_plus(usage, delta).network_bytes == (if usage.network_bytes + delta.network_bytes <= u64::MAX {
            usage.network_bytes + delta.network_bytes
        } else {
            u64::MAX as int
        }),
        usage_plus(usage, delta).requests == (if usage.requests + delta.requests <= u32::MAX {
            usage.requests + delta.requests
        } else {
            u32::MAX as int
        }),
{
}

/// Two deltas added to a fresh guard give their sum: a counter that two
/// additions fill to no more than its type's maximum holds `d1 + d2`.
pub proof fn lemma_usage_of_two_deltas(d1: ResourceUsage, d2: ResourceUsage)
    requires
        d1.requests + d2.requests <= u32::MAX,
        d1.memory_bytes + d2.memory_bytes <= u64::MAX,
        d1.cpu_ms + d2.cpu_ms <= u64::MAX,
        d1.wall_ms + d2.wall_ms <= u64::MAX,
        d1.network_bytes + d2.network_bytes <= u64::MAX,
    ensures
        usage_plus(usage_plus(zero_usage(), d1), d2).requests == d1.requests + d2.requests,
        usage_plus(usage_plus(zero_usage(), d1), d2).memory_bytes == d1.memory_bytes + d2.memory_bytes,
        usage_plus(usage_plus(zero_usage(), d1), d2).cpu_ms == d1.cpu_ms + d2.cpu_ms,
        usage_plus(usage_plus(zero_usage(), d1), d2).wall_ms == d1.wall_ms + d2.wall_ms,
        usage_plus(usage_plus(zero_usage(), d1), d2).network_bytes == d1.network_bytes + d2.network_bytes,
{
    lemma_usage_adds(zero_usage(), d1);
    lemma_usage_adds(usage_plus(zero_usage(), d1), d2);
}

} // verus!
