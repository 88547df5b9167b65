//! Synchronization between processors: the traits through which the
//! operating system describes the running processor, and barriers.

use vstd::prelude::*;

use crate::types::coreid::CoreId;

pub mod barrier;

verus! {

/// Access to the operating system's knowledge of the running processor.
pub trait CoreInfo: Sized {
    /// The ID of the running core, unique to the core.
    fn core_id() -> CoreId;

    /// Whether the running processor is the bootstrap processor.
    fn is_bsp() -> bool;

    /// Whether the running processor is an application processor, that is
    /// not the bootstrap processor.
    fn is_ap() -> (r: bool) {
        !Self::is_bsp()
    }
}

/// Access to the operating system's interrupt and exception state, and the
/// calls that bracket a held lock.
pub trait InterruptState: CoreInfo {
    /// Whether the processor is handling an interrupt.
    fn in_interrupt() -> bool;

    /// Whether the processor is handling an exception, in which case no lock
    /// may be taken.
    fn in_exception() -> bool;

    /// Signals that a lock was taken; with `disable_interrupts` the kernel
    /// disables interrupts. Each call is paired with exactly one call of
    /// [InterruptState::exit_lock] with the same argument.
    fn enter_lock(disable_interrupts: bool);

    /// Signals that a lock was released; with `enable_interrupts` the kernel
    /// enables interrupts again where it can.
    fn exit_lock(enable_interrupts: bool);

    /// The instance of the state, a value without data.
    fn instance() -> Self;
}

} // verus!
