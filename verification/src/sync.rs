//! Synchronization primitives: scope-bound critical sections, the
//! sleep-based mutex, and the busy-waiting spin mutex.

pub mod critical;
pub mod mutex;
pub mod spin;

pub use critical::{CriticalSection, CriticalSectionGuard};
pub use mutex::{fetch_next_chan, lock_transition, Mutex, MutexGuard};
pub use spin::SpinMutex;
