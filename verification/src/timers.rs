//! Cancellation handles of timers and intervals.

use vstd::prelude::*;
use std::sync::Arc;
use std::sync::atomic::{AtomicBool, Ordering};

verus! {

/// Handle of a one-shot timer; cancelling it stops the callback from running.
#[derive(Clone, Debug)]
pub struct TimerHandle {
    cancelled: Arc<AtomicBool>,
}

impl TimerHandle {
    /// A handle not yet cancelled.
    pub fn new() -> (h: TimerHandle) {
        TimerHandle { cancelled: Arc::new(AtomicBool::new(false)) }
    }

    /// Cancels the timer (shared with every clone of this handle).
    pub fn cancel(&self) {
        self.cancelled.store(true, Ordering::Relaxed);
    }

    /// Whether the timer was cancelled.
    pub fn is_cancelled(&self) -> (b: bool) {
        self.cancelled.load(Ordering::Relaxed)
    }
}

/// Handle of a repeating timer; cancelling it stops further callbacks.
#[derive(Clone, Debug)]
pub struct IntervalHandle {
    cancelled: Arc<AtomicBool>,
}

impl IntervalHandle {
    /// A handle not yet cancelled.
    pub fn new() -> (h: IntervalHandle) {
        IntervalHandle { cancelled: Arc::new(AtomicBool::new(false)) }
    }

    /// Cancels the interval (shared with every clone of this handle).
    pub fn cancel(&self) {
        self.cancelled.store(true, Ordering::Relaxed);
    }

    /// Whether the interval was cancelled.
    pub fn is_cancelled(&self) -> (b: bool) {
        self.cancelled.load(Ordering::Relaxed)
    }
}

} // verus!
