//! A barrier lets processors wait until a number of them has arrived.
//!
//! The counters of a [Barrier] are atomics shared by all processors. The
//! waiting itself, spinning until other processors change a counter, has no
//! bound that a proof of termination could use; it is done by the caller
//! through the steps below, each of which decides or touches the counters
//! once.

use vstd::prelude::*;

use core::sync::atomic::AtomicU32;

use crate::types::time::{TscDuration, TscTimestamp};

verus! {

/// The memory orderings of atomic operations.
#[derive(Debug, Clone, Copy, PartialEq, Eq, Structural)]
pub enum MemoryOrdering {
    Relaxed,
    Release,
    Acquire,
    AcqRel,
    SeqCst,
}

impl MemoryOrdering {
    /// The ordering as std names it.
    pub fn to_std(self) -> (r: core::sync::atomic::Ordering)
        ensures
            r == (match self {
                MemoryOrdering::Relaxed => core::sync::atomic::Ordering::Relaxed,
                MemoryOrdering::Release => core::sync::atomic::Ordering::Release,
                MemoryOrdering::Acquire => core::sync::atomic::Ordering::Acquire,
                MemoryOrdering::AcqRel => core::sync::atomic::Ordering::AcqRel,
                MemoryOrdering::SeqCst => core::sync::atomic::Ordering::SeqCst,
            }),
    {
        match self {
            MemoryOrdering::Relaxed => core::sync::atomic::Ordering::Relaxed,
            MemoryOrdering::Release => core::sync::atomic::Ordering::Release,
            MemoryOrdering::Acquire => core::sync::atomic::Ordering::Acquire,
            MemoryOrdering::AcqRel => core::sync::atomic::Ordering::AcqRel,
            MemoryOrdering::SeqCst => core::sync::atomic::Ordering::SeqCst,
        }
    }
}

/// A barrier that only lets processors pass when [Barrier::target]
/// processors are waiting. It accepts exactly that many and resets itself.
pub struct Barrier {
    enter_count: AtomicU32,
    passing_count: AtomicU32,
    target: u32,
    ordering: MemoryOrdering,
}

impl Barrier {
    /// The ordering requested for reads of the target.
    pub closed spec fn target_ordering(&self) -> MemoryOrdering {
        self.ordering
    }

    /// The number of processors that pass together.
    pub closed spec fn spec_target(&self) -> u32 {
        self.target
    }

    /// The counter of the processors that arrived.
    pub closed spec fn enter_counter(&self) -> AtomicU32 {
        self.enter_count
    }

    /// The counter of the processors that still have to pass.
    pub closed spec fn passing_counter(&self) -> AtomicU32 {
        self.passing_count
    }

    /// A barrier which waits for `target` processors.
    pub fn new(target: u32) -> (r: Self)
        ensures
            r.spec_target() == target,
            r.target_ordering() == MemoryOrdering::Relaxed,
    {
        Barrier {
            enter_count: AtomicU32::new(0),
            passing_count: AtomicU32::new(0),
            target,
            ordering: MemoryOrdering::Relaxed,
        }
    }

    /// The barrier with the target read with `ordering`.
    pub fn with_target_ordering(self, ordering: MemoryOrdering) -> (r: Self)
        ensures
            r.target_ordering() == ordering,
            r.spec_target() == self.spec_target(),
            r.enter_counter() == self.enter_counter(),
            r.passing_counter() == self.passing_counter(),
    {
        Barrier { ordering, ..self }
    }

    /// The number of processors that pass together.
    ///
    /// The target is fixed when the barrier is made and never changes after,
    /// so reading it needs no ordering with the work of other processors.
    pub fn target(&self) -> (r: u32)
        ensures
            r == self.spec_target(),
    {
        self.target
    }

    /// The counter of the processors that arrived.
    pub fn enter_count(&self) -> (r: &AtomicU32)
        ensures
            *r == self.enter_counter(),
    {
        &self.enter_count
    }

    /// The counter of the processors that still have to pass, or zero when
    /// no group is passing.
    pub fn passing_count(&self) -> (r: &AtomicU32)
        ensures
            *r == self.passing_counter(),
    {
        &self.passing_count
    }
}

/// Whether a processor may enter the barrier: no group is passing, or the
/// passing group has not started to leave.
pub fn gate_open(pass_count: u32, target: u32) -> (r: bool)
    ensures
        r == (pass_count == target || pass_count == 0),
{
    pass_count == target || pass_count == 0
}

/// Whether all processors of a group arrived, given the arrival counter.
pub fn all_arrived(enter_count: u32, target: u32) -> (r: bool)
    ensures
        r == (enter_count >= target),
{
    enter_count >= target
}

/// Whether every other processor of the group left, so that the leader may
/// reset the barrier.
pub fn others_left(pass_count: u32) -> (r: bool)
    ensures
        r == (pass_count == 1),
{
    pass_count == 1
}

/// The number of cheap checks before a timeout starts to read the clock.
pub const TIMEOUT_FREE_CHECKS: u32 = 10_000;

/// The timeout of a wait at a barrier.
///
/// Reading the tsc clock is slow, so the first [TIMEOUT_FREE_CHECKS] checks
/// only count; the last of them reads the clock and starts the timeout.
#[derive(Debug, Clone, Copy)]
pub struct TimeoutCheck {
    /// How long the wait may take once the clock was read
    pub timeout: TscDuration,
    /// The checks left before the clock is read
    pub checks_left: u32,
    /// When the clock was first read
    pub start: TscTimestamp,
    /// When the wait times out
    pub end: TscTimestamp,
}

impl TimeoutCheck {
    /// The check of a wait that may take `timeout` once the free checks are
    /// used up.
    pub fn new(timeout: TscDuration) -> (r: Self)
        ensures
            r.timeout == timeout,
            r.checks_left == TIMEOUT_FREE_CHECKS,
            r.start@ == 0,
            r.end@ == 0,
    {
        TimeoutCheck {
            timeout,
            checks_left: TIMEOUT_FREE_CHECKS,
            start: TscTimestamp::new(0),
            end: TscTimestamp::new(0),
        }
    }

    /// Whether the next [TimeoutCheck::check] reads the clock.
    pub open spec fn reads_clock(self) -> bool {
        self.checks_left <= 1
    }

    /// Whether the next [TimeoutCheck::check] reads the clock.
    pub fn needs_clock(&self) -> (r: bool)
        ensures
            r == self.reads_clock(),
    {
        self.checks_left <= 1
    }

    /// One check of the timeout; `now` is the value of the clock, which is
    /// only used where [TimeoutCheck::needs_clock] holds. Fails with the time
    /// waited since the clock was first read once the wait is past its end.
    pub fn check(&mut self, now: TscTimestamp) -> (r: Result<(), TscDuration>)
        requires
            old(self).checks_left == 1 ==> 0 <= now@ + old(self).timeout@ <= u64::MAX,
            old(self).checks_left == 0 && now@ > old(self).end@ ==> i64::MIN <= now@ - old(
                self,
            ).start@ <= i64::MAX,
        ensures
            old(self).checks_left == 0 ==> *final(self) == *old(self) && if now@ > old(
                self,
            ).end@ {
                r matches Err(waited) && waited@ == now@ - old(self).start@
            } else {
                r is Ok
            },
            old(self).checks_left == 1 ==> r is Ok && final(self).checks_left == 0
                && final(self).start == now && final(self).end@ == now@ + old(self).timeout@
                && final(self).timeout == old(self).timeout,
            old(self).checks_left > 1 ==> r is Ok && *final(self) == (TimeoutCheck {
                checks_left: (old(self).checks_left - 1) as u32,
                ..*old(self)
            }),
    {
        if self.checks_left == 0 {
            if now.as_u64() > self.end.as_u64() {
                return Err(now - self.start);
            }
        } else {
            self.checks_left = self.checks_left - 1;
            if self.checks_left == 0 {
                self.start = now;
                self.end = now + self.timeout;
            }
        }
        Ok(())
    }
}

/// The errors of a barrier that passes data.
#[derive(Debug, Clone, Copy, PartialEq, Eq, Structural)]
pub enum DataBarrierError {
    /// No data was provided
    NoData,
    /// The barrier timed out after `duration` ticks
    Timeout { duration: TscDuration },
}

} // verus!
