use openbrowser::sandbox::{ResourceQuota, ResourceUsage, WorkerGuard};
use openbrowser::worker::{WorkerPool, WorkerStateStatus};

#[test]
fn enforce_passes_under_quota() {
    let guard = WorkerGuard::new(ResourceQuota {
        max_memory_bytes: 1024,
        max_cpu_ms: 100,
        max_wall_ms: 200,
        max_network_bytes: 100,
        max_requests: 5,
    });
    assert!(guard.enforce());
}

#[test]
fn enforce_fails_memory_exceeded() {
    let mut guard = WorkerGuard::new(ResourceQuota {
        max_memory_bytes: 100,
        max_cpu_ms: 100,
        max_wall_ms: 200,
        max_network_bytes: 100,
        max_requests: 5,
    });
    guard.add_usage(ResourceUsage { memory_bytes: 150, ..Default::default() });
    assert!(!guard.enforce());
}

#[test]
fn enforce_fails_cpu_exceeded() {
    let mut guard = WorkerGuard::new(ResourceQuota {
        max_memory_bytes: 1024,
        max_cpu_ms: 50,
        max_wall_ms: 200,
        max_network_bytes: 100,
        max_requests: 5,
    });
    guard.add_usage(ResourceUsage { cpu_ms: 60, ..Default::default() });
    assert!(!guard.enforce());
}

#[test]
fn enforce_fails_wall_exceeded() {
    let mut guard = WorkerGuard::new(ResourceQuota {
        max_memory_bytes: 1024,
        max_cpu_ms: 100,
        max_wall_ms: 10,
        max_network_bytes: 100,
        max_requests: 5,
    });
    guard.add_usage(ResourceUsage { wall_ms: 15, ..Default::default() });
    assert!(!guard.enforce());
}

#[test]
fn enforce_fails_network_exceeded() {
    let mut guard = WorkerGuard::new(ResourceQuota {
        max_memory_bytes: 1024,
        max_cpu_ms: 100,
        max_wall_ms: 200,
        max_network_bytes: 10,
        max_requests: 5,
    });
    guard.add_usage(ResourceUsage { network_bytes: 20, ..Default::default() });
    assert!(!guard.enforce());
}

#[test]
fn enforce_fails_requests_exceeded() {
    let mut guard = WorkerGuard::new(ResourceQuota {
        max_memory_bytes: 1024,
        max_cpu_ms: 100,
        max_wall_ms: 200,
        max_network_bytes: 100,
        max_requests: 2,
    });
    guard.add_usage(ResourceUsage { requests: 3, ..Default::default() });
    assert!(!guard.enforce());
}

#[test]
fn enforce_at_limit_is_ok() {
    let mut guard = WorkerGuard::new(ResourceQuota {
        max_memory_bytes: 100,
        max_cpu_ms: 100,
        max_wall_ms: 100,
        max_network_bytes: 100,
        max_requests: 100,
    });
    guard.add_usage(ResourceUsage {
        memory_bytes: 100,
        cpu_ms: 100,
        wall_ms: 100,
        network_bytes: 100,
        requests: 100,
    });
    assert!(guard.enforce());
}

#[test]
fn usage_saturates_instead_of_wrapping() {
    let mut guard = WorkerGuard::new(ResourceQuota::default());
    guard.add_usage(ResourceUsage { cpu_ms: u64::MAX - 1, requests: u32::MAX, ..Default::default() });
    guard.add_usage(ResourceUsage { cpu_ms: 5, requests: 7, ..Default::default() });
    assert_eq!(guard.usage.cpu_ms, u64::MAX);
    assert_eq!(guard.usage.requests, u32::MAX);
    assert!(!guard.enforce());
}

#[test]
fn exceeded_guard_stays_exceeded() {
    let mut guard = WorkerGuard::new(ResourceQuota { max_memory_bytes: 10, ..Default::default() });
    guard.add_usage(ResourceUsage { memory_bytes: 11, ..Default::default() });
    assert!(!guard.enforce());
    guard.add_usage(ResourceUsage::zero());
    assert!(!guard.enforce());
}

#[test]
fn worker_pool_spawn_enforces_quota() {
    let mut pool = WorkerPool::new();
    assert!(pool.spawn(1).is_ok(), "spawn should succeed under default quota");
    let mut pool2 = WorkerPool::new();
    let quota_zero = ResourceQuota {
        max_memory_bytes: 0,
        max_cpu_ms: 0,
        max_wall_ms: 0,
        max_network_bytes: 0,
        max_requests: 0,
    };
    assert!(pool2.spawn_with_quota(7, quota_zero).is_ok());
    assert!(pool2.check_enforcement(7), "check_enforcement should pass initially (usage=0)");
    assert!(pool2.add_usage(7, ResourceUsage { memory_bytes: 1, ..Default::default() }));
    assert!(!pool2.check_enforcement(7), "check_enforcement should fail when usage > 0 and quota = 0");
}

#[test]
fn worker_pool_add_usage_and_check() {
    let mut pool = WorkerPool::new();
    pool.default_quota = ResourceQuota {
        max_memory_bytes: 100_000,
        max_cpu_ms: 1000,
        max_wall_ms: 1000,
        max_network_bytes: 10_000,
        max_requests: 10,
    };
    pool.spawn(3).unwrap();
    pool.add_usage(3, ResourceUsage { memory_bytes: 10, cpu_ms: 5, wall_ms: 10, network_bytes: 10, requests: 1 });
    assert!(pool.check_enforcement(3), "enforcement should pass with headroom");
    pool.add_usage(3, ResourceUsage { memory_bytes: 1_000_000, cpu_ms: 0, wall_ms: 0, network_bytes: 0, requests: 0 });
    assert!(!pool.check_enforcement(3), "enforcement should fail when quota exceeded");
}

#[test]
fn worker_pool_cancel_and_remove() {
    let mut pool = WorkerPool::new();
    pool.spawn(9).unwrap();
    assert_eq!(pool.count(), 1);
    assert!(pool.cancel(9));
    let removed = pool.remove(9);
    assert!(removed.is_some(), "worker should be removed");
    assert_eq!(removed.unwrap().status, WorkerStateStatus::Completed);
    assert_eq!(pool.count(), 0);
    assert!(!pool.cancel(9));
}

#[test]
fn worker_pool_remove_nonexistent() {
    let mut pool = WorkerPool::new();
    assert!(pool.remove(42).is_none());
    assert!(!pool.add_usage(42, ResourceUsage::zero()));
    assert!(!pool.check_enforcement(42));
}
