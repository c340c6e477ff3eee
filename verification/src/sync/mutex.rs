//! Sleep-based mutual exclusion.
//!
//! A mutex pairs a lock flag with a wait channel.  A task that fails to
//! take the lock goes to sleep on the channel and retries when the
//! unlock wakes it; the race between simultaneously woken waiters is
//! resolved by the indivisible test-and-set on the flag.  The lock is
//! not first-in first-out and does not inherit priority.
//!
//! The guard owns the payload while the lock is held: it exists exactly
//! while the flag is set, so at most one guard per mutex can exist at
//! any instant.

use vstd::prelude::*;

use crate::sched::Scheduler;
use crate::task::State;

verus! {

/// Hands out the next unused wait-channel id, for synchronization
/// objects that lazily name their channel.
pub fn fetch_next_chan(sched: &mut Scheduler) -> (r: usize)
    requires
        old(sched).wf(),
        old(sched).spec_next_wchan() < usize::MAX,
    ensures
        final(sched).wf(),
        r == old(sched).spec_next_wchan(),
        final(sched).spec_next_wchan() == old(sched).spec_next_wchan() + 1,
        forall|k: int|
            0 <= k < crate::NUM_PRIORITIES ==> #[trigger] final(sched).spec_ready(k) == old(
                sched,
            ).spec_ready(k),
        final(sched).spec_delay() == old(sched).spec_delay(),
        final(sched).spec_overflow() == old(sched).spec_overflow(),
        final(sched).spec_current() == old(sched).spec_current(),
        final(sched).spec_clock() == old(sched).spec_clock(),
        final(sched).spec_pend_sv() == old(sched).spec_pend_sv(),
{
    sched.fetch_next_chan()
}

/// A mutex protecting a payload of type `T`.
///
/// The payload sits in the mutex while the lock is free and moves into
/// the guard while it is held.
pub struct Mutex<T> {
    wchan: usize,
    locked: bool,
    data: Option<T>,
}

/// Exclusive access to a mutex's payload; give it back with
/// [`Mutex::unlock`], which frees the lock and wakes the waiters.
pub struct MutexGuard<T> {
    wchan: usize,
    data: T,
}

impl<T> MutexGuard<T> {
    /// The wait channel of the mutex this guard came from.
    pub closed spec fn spec_wchan(&self) -> usize {
        self.wchan
    }

    /// The held payload.
    pub closed spec fn spec_data(&self) -> T {
        self.data
    }

    /// Reads the protected payload.
    pub fn data(&self) -> (r: &T)
        ensures
            *r == self.spec_data(),
    {
        &self.data
    }

    /// Writes the protected payload.
    pub fn set_data(&mut self, v: T)
        ensures
            final(self).spec_data() == v,
            final(self).spec_wchan() == old(self).spec_wchan(),
    {
        self.data = v;
    }
}

/// How one lock attempt changes a mutex: it succeeds exactly when the
/// lock was free, and then the payload moves into the returned guard.
pub open spec fn lock_transition<T>(
    pre: Mutex<T>,
    post: Mutex<T>,
    r: Option<MutexGuard<T>>,
) -> bool {
    if pre.spec_locked() {
        &&& r is None
        &&& post.spec_locked()
        &&& post.spec_data() == pre.spec_data()
    } else {
        &&& (r matches Some(g) && g.spec_data() == pre.spec_data()->Some_0 && g.spec_wchan()
            == post.spec_wchan())
        &&& post.spec_locked()
        &&& post.spec_data() is None
    }
}

/// At most one guard exists per mutex at every instant: while a guard
/// from one acquisition is outstanding, every further attempt fails.
pub proof fn lemma_mutex_exclusion<T>(
    m0: Mutex<T>,
    m1: Mutex<T>,
    m2: Mutex<T>,
    r1: Option<MutexGuard<T>>,
    r2: Option<MutexGuard<T>>,
)
    requires
        lock_transition(m0, m1, r1),
        lock_transition(m1, m2, r2),
        r1 is Some,
    ensures
        r2 is None,
{
}

impl<T> Mutex<T> {
    /// The wait channel waiters sleep on; zero until first contention
    /// names one.
    pub closed spec fn spec_wchan(&self) -> usize {
        self.wchan
    }

    /// Whether the lock is held.
    pub closed spec fn spec_locked(&self) -> bool {
        self.locked
    }

    /// The payload, present exactly while the lock is free.
    pub closed spec fn spec_data(&self) -> Option<T> {
        self.data
    }

    /// The payload sits in the mutex exactly while the lock is free.
    pub open spec fn wf(&self) -> bool {
        self.spec_locked() <==> self.spec_data() is None
    }

    /// Creates an unlocked mutex holding `data`, with no wait channel
    /// named yet.
    pub fn new(data: T) -> (r: Self)
        ensures
            r.wf(),
            !r.spec_locked(),
            r.spec_data() == Some(data),
            r.spec_wchan() == 0,
    {
        Mutex { wchan: 0, locked: false, data: Some(data) }
    }

    /// Tries to take the lock without blocking: returns the guard when
    /// the lock was free and `None` when it was already held.
    pub fn try_lock(&mut self) -> (r: Option<MutexGuard<T>>)
        requires
            old(self).wf(),
        ensures
            final(self).wf(),
            lock_transition(*old(self), *final(self), r),
            final(self).spec_wchan() == old(self).spec_wchan(),
            !old(self).spec_locked() ==> final(self).spec_locked(),
            old(self).spec_locked() ==> *final(self) == *old(self),
    {
        if self.locked {
            None
        } else {
            self.locked = true;
            let mut slot: Option<T> = None;
            core::mem::swap(&mut self.data, &mut slot);
            match slot {
                Some(data) => Some(MutexGuard { wchan: self.wchan, data }),
                None => {
                    proof {
                        assert(false);
                    }
                    None
                },
            }
        }
    }

    /// One blocking lock attempt: takes the lock when it is free;
    /// otherwise names a wait channel if none is named yet, puts the
    /// running task to sleep on it, and returns `None`.  The task
    /// retries when the unlock wakes it; spurious wakeups only lead to
    /// another attempt.
    pub fn lock(&mut self, sched: &mut Scheduler) -> (r: Option<MutexGuard<T>>)
        requires
            old(self).wf(),
            old(sched).wf(),
            old(sched).spec_current() is Some,
            old(sched).spec_next_wchan() < usize::MAX,
        ensures
            final(self).wf(),
            final(sched).wf(),
            lock_transition(*old(self), *final(self), r),
            !old(self).spec_locked() ==> final(self).spec_wchan() == old(self).spec_wchan()
                && final(sched).spec_current() == old(sched).spec_current(),
            old(self).spec_locked() ==> {
                &&& final(self).spec_wchan() == (if old(self).spec_wchan() == 0 {
                    old(sched).spec_next_wchan()
                } else {
                    old(self).spec_wchan()
                })
                &&& final(sched).spec_pend_sv()
                &&& (final(sched).spec_current() matches Some(c) && c.state == State::Blocked
                    && c.wchan == final(self).spec_wchan())
            },
    {
        match self.try_lock() {
            Some(guard) => Some(guard),
            None => {
                if self.wchan == 0 {
                    self.wchan = fetch_next_chan(sched);
                }
                crate::syscall::sleep(sched, self.wchan);
                None
            },
        }
    }

    /// Releases the lock: puts the guard's payload back, clears the
    /// flag, and wakes every task sleeping on the mutex's wait channel.
    pub fn unlock(&mut self, guard: MutexGuard<T>, sched: &mut Scheduler)
        requires
            old(self).wf(),
            old(self).spec_locked(),
            old(sched).wf(),
        ensures
            final(self).wf(),
            !final(self).spec_locked(),
            final(self).spec_data() == Some(guard.spec_data()),
            final(self).spec_wchan() == old(self).spec_wchan(),
            final(sched).wf(),
            final(sched).spec_delay() == crate::sched::remaining_after_wake(
                old(sched).spec_delay(),
                old(self).spec_wchan(),
            ),
            final(sched).spec_overflow() == crate::sched::remaining_after_wake(
                old(sched).spec_overflow(),
                old(self).spec_wchan(),
            ),
            final(sched).spec_current() == old(sched).spec_current(),
    {
        self.locked = false;
        self.data = Some(guard.data);
        crate::syscall::wake(sched, self.wchan);
    }
}

} // verus!
