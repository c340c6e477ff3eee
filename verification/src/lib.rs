//! A verified model of a small preemptive real-time microkernel for
//! microcontroller-class devices.
//!
//! The kernel provides priority scheduling over ready, delay and
//! overflow-delay queues, tick-based timekeeping with wakeup, sleep/wake
//! synchronization on wait channels, and sleep-based mutual exclusion.
//! All kernel state lives in an explicit [`sched::Scheduler`] value; the
//! platform-specific port (context-switch assembly, interrupt masking,
//! memory-mapped device access) sits outside this crate and drives the
//! kernel through its public operations.

use vstd::prelude::*;

pub mod args;
pub mod atomic;
pub mod atomic_queue;
pub mod heap;
pub mod init;
pub mod math;
pub mod peripheral;
pub mod queue;
pub mod sched;
pub mod sorted_list;
pub mod stack;
pub mod sync;
pub mod syscall;
pub mod system_control;
pub mod task;
pub mod time;

pub use args::{Args, Builder};
pub use sched::{init_idle_task, new_task, start_scheduler, switch_context, Scheduler};
pub use task::{Priority, State, TaskControl, TaskHandle};

verus! {

/// The number of distinct task priority levels.
pub const NUM_PRIORITIES: usize = 4;

} // verus!
