//! The syscall interface: yield, sleep, wake and the system tick.
//!
//! Every call takes the scheduler explicitly; on the target the port
//! wraps these in its trap or critical-section entry points.

use vstd::prelude::*;

use crate::sched::{
    blocked_until, due_moved_delay, due_moved_overflow, keep_prio, woken_by_chan, Scheduler,
};

verus! {

/// The reserved wait channel whose sleepers wake only when their delay
/// elapses; waking it explicitly is legal and wakes those sleepers
/// early.
pub const FOREVER_CHAN: usize = 0;

/// Yields the current task to the scheduler so another task can run:
/// requests a context switch at the next safe point and returns; the
/// switch itself happens when the port takes the pended request.
pub fn sched_yield(sched: &mut Scheduler)
    ensures
        final(sched).spec_pend_sv(),
        final(sched).spec_same_but_pend(*old(sched)),
{
    sched.set_pend_sv();
}

/// Puts the current task to sleep on the wait channel `wchan`; it wakes
/// only when `wake` is called on the same channel.
pub fn sleep(sched: &mut Scheduler, wchan: usize)
    requires
        old(sched).wf(),
        old(sched).spec_current() is Some,
    ensures
        final(sched).wf(),
        final(sched).spec_current() == Some(blocked_until(*old(sched), wchan, 0)),
        final(sched).spec_pend_sv(),
        final(sched).spec_same_queues(*old(sched)),
{
    sleep_for(sched, wchan, 0);
}

/// Puts the current task to sleep on `wchan` with a timeout: it wakes
/// on `wake(wchan)`, or — when `wchan` is the reserved forever channel —
/// when `delay` ticks have elapsed.
///
/// The wakeup deadline is the current tick plus `delay`; when that sum
/// wraps the counter, the task is marked overflowed and becomes
/// eligible to wake only after the tick counter itself has wrapped.
pub fn sleep_for(sched: &mut Scheduler, wchan: usize, delay: usize)
    requires
        old(sched).wf(),
        old(sched).spec_current() is Some,
    ensures
        final(sched).wf(),
        final(sched).spec_current() == Some(blocked_until(*old(sched), wchan, delay)),
        final(sched).spec_pend_sv(),
        final(sched).spec_same_queues(*old(sched)),
{
    sched.block_current(wchan, delay);
    sched.set_pend_sv();
}

/// Wakes every task sleeping on the wait channel `wchan`, in either
/// delay queue: each moves to the tail of the ready queue of its
/// priority, with its channel cleared and its state set to `Ready`.
/// Waking a channel nobody sleeps on changes nothing.
pub fn wake(sched: &mut Scheduler, wchan: usize)
    requires
        old(sched).wf(),
    ensures
        final(sched).wf(),
        final(sched).spec_delay() == crate::sched::remaining_after_wake(
            old(sched).spec_delay(),
            wchan,
        ),
        final(sched).spec_overflow() == crate::sched::remaining_after_wake(
            old(sched).spec_overflow(),
            wchan,
        ),
        forall|k: int|
            0 <= k < crate::NUM_PRIORITIES ==> #[trigger] final(sched).spec_ready(k) == old(
                sched,
            ).spec_ready(k) + keep_prio(woken_by_chan(*old(sched), wchan), k),
        final(sched).spec_current() == old(sched).spec_current(),
        final(sched).spec_clock() == old(sched).spec_clock(),
        final(sched).spec_pend_sv() == old(sched).spec_pend_sv(),
        final(sched).spec_next_tid() == old(sched).spec_next_tid(),
{
    sched.wake_channel(wchan);
}

/// Advances time and performs wakeup and the preemption check; called
/// from the system-tick interrupt handler, in kernel mode.
///
/// The tick counter advances by one.  Pure time sleepers in the delay
/// queue whose deadline has passed move to their ready queues.  When
/// the counter has just wrapped past its maximum, every task in the
/// overflow-delay queue moves to the delay queue with its overflow flag
/// cleared.  Finally, if any ready queue at the running task's priority
/// or higher is non-empty, a context switch is requested.
pub fn system_tick(sched: &mut Scheduler)
    requires
        old(sched).wf(),
        old(sched).spec_current() is Some,
    ensures
        final(sched).wf(),
        final(sched).spec_clock().spec_ticks() == vstd::wrapping::usize_specs::wrapping_add(
            old(sched).spec_clock().spec_ticks(),
            1,
        ),
        final(sched).spec_clock().spec_resolution() == old(sched).spec_clock().spec_resolution(),
        final(sched).spec_delay() == due_moved_delay(*old(sched)),
        final(sched).spec_overflow() == due_moved_overflow(*old(sched)),
        old(sched).spec_clock().spec_ticks() == usize::MAX ==> final(sched).spec_overflow()
            == Seq::<crate::task::TaskControl>::empty(),
        forall|k: int|
            0 <= k < crate::NUM_PRIORITIES ==> #[trigger] final(sched).spec_ready(k) == old(
                sched,
            ).spec_ready(k) + keep_prio(crate::sched::woken_due(*old(sched)), k),
        final(sched).spec_current() == old(sched).spec_current(),
        final(sched).spec_pend_sv() == (old(sched).spec_pend_sv() || exists|k: int|
            {
                &&& 0 <= k <= (match old(sched).spec_current() {
                    Some(c) => c.priority.spec_index(),
                    None => 0,
                })
                &&& (#[trigger] final(sched).spec_ready(k)).len() > 0
            }),
        final(sched).spec_next_tid() == old(sched).spec_next_tid(),
{
    sched.handle_tick();
}

} // verus!
