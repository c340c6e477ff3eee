//! Busy-waiting mutual exclusion for the kernel's own short sections.
//!
//! A spin mutex has the same shape as the sleep-based mutex but never
//! sleeps: a contended lock is retried in place.  It guards short
//! kernel data-structure operations, and is never taken from an
//! interrupt handler while the same data is locked with interrupts
//! disabled.

use vstd::prelude::*;

verus! {

/// A busy-waiting mutex protecting a payload of type `T`.
pub struct SpinMutex<T> {
    locked: bool,
    data: Option<T>,
}

/// Exclusive access to a spin mutex's payload; give it back with
/// [`SpinMutex::unlock`].
pub struct SpinGuard<T> {
    data: T,
}

impl<T> SpinGuard<T> {
    /// The held payload.
    pub closed spec fn spec_data(&self) -> T {
        self.data
    }

    /// Reads the protected payload.
    pub fn data(&self) -> (r: &T)
        ensures
            *r == self.spec_data(),
    {
        &self.data
    }

    /// Writes the protected payload.
    pub fn set_data(&mut self, v: T)
        ensures
            final(self).spec_data() == v,
    {
        self.data = v;
    }

    /// Borrows the protected payload for mutation.
    pub fn data_mut(&mut self) -> (r: &mut T)
        ensures
            *r == old(self).spec_data(),
            final(self).spec_data() == *final(r),
    {
        &mut self.data
    }
}

impl<T> SpinMutex<T> {
    /// Whether the lock is held.
    pub closed spec fn spec_locked(&self) -> bool {
        self.locked
    }

    /// The payload, present exactly while the lock is free.
    pub closed spec fn spec_data(&self) -> Option<T> {
        self.data
    }

    /// The payload sits in the mutex exactly while the lock is free.
    pub open spec fn wf(&self) -> bool {
        self.spec_locked() <==> self.spec_data() is None
    }

    /// Borrows the payload of a free lock for reading.
    pub fn data_ref(&self) -> (r: &T)
        requires
            self.wf(),
            !self.spec_locked(),
        ensures
            *r == self.spec_data()->Some_0,
    {
        match &self.data {
            Some(d) => d,
            None => vstd::pervasive::unreached(),
        }
    }

    /// Creates an unlocked spin mutex holding `data`.
    pub fn new(data: T) -> (r: Self)
        ensures
            r.wf(),
            !r.spec_locked(),
            r.spec_data() == Some(data),
    {
        SpinMutex { locked: false, data: Some(data) }
    }

    /// Tries to take the lock without waiting: returns the guard when
    /// the lock was free and `None` when it was already held.
    pub fn try_lock(&mut self) -> (r: Option<SpinGuard<T>>)
        requires
            old(self).wf(),
        ensures
            final(self).wf(),
            !old(self).spec_locked() ==> {
                &&& (r matches Some(g) && g.spec_data() == old(self).spec_data()->Some_0)
                &&& final(self).spec_locked()
            },
            old(self).spec_locked() ==> r is None && *final(self) == *old(self),
    {
        if self.locked {
            None
        } else {
            self.locked = true;
            let mut slot: Option<T> = None;
            core::mem::swap(&mut self.data, &mut slot);
            match slot {
                Some(data) => Some(SpinGuard { data }),
                None => {
                    proof {
                        assert(false);
                    }
                    None
                },
            }
        }
    }

    /// Takes the lock.  On a single core the kernel only spins on a
    /// lock that interrupt masking already keeps free, so the lock must
    /// be free here; spinning on a held lock with interrupts disabled
    /// would never end.
    pub fn lock(&mut self) -> (r: SpinGuard<T>)
        requires
            old(self).wf(),
            !old(self).spec_locked(),
        ensures
            final(self).wf(),
            final(self).spec_locked(),
            r.spec_data() == old(self).spec_data()->Some_0,
    {
        match self.try_lock() {
            Some(guard) => guard,
            None => vstd::pervasive::unreached(),
        }
    }

    /// Releases the lock, putting the guard's payload back.
    pub fn unlock(&mut self, guard: SpinGuard<T>)
        requires
            old(self).wf(),
            old(self).spec_locked(),
        ensures
            final(self).wf(),
            !final(self).spec_locked(),
            final(self).spec_data() == Some(guard.spec_data()),
    {
        self.locked = false;
        self.data = Some(guard.data);
    }
}

} // verus!
