//! Atomic cells for a single-core target without atomic instructions.
//!
//! On the target these operations run inside short interrupt-masked
//! sections supplied by the port, which makes each one indivisible with
//! respect to interrupt handlers.  The model tracks the held value; the
//! masking itself is the port's concern, so operations take the cell
//! exclusively.

use vstd::prelude::*;

verus! {

/// A cell whose operations are indivisible on the target.
pub struct Atomic<T> {
    data: T,
}

impl<T: Copy> Atomic<T> {
    /// The held value.
    pub closed spec fn spec_value(&self) -> T {
        self.data
    }

    /// Creates a cell holding `data`.
    pub fn new(data: T) -> (r: Self)
        ensures
            r.spec_value() == data,
    {
        Atomic { data }
    }

    /// Reads the held value.
    pub fn load(&self) -> (r: T)
        ensures
            r == self.spec_value(),
    {
        self.data
    }

    /// Replaces the held value.
    pub fn store(&mut self, data: T)
        ensures
            final(self).spec_value() == data,
    {
        self.data = data;
    }

    /// Replaces the held value, returning the old one.
    pub fn swap(&mut self, data: T) -> (r: T)
        ensures
            r == old(self).spec_value(),
            final(self).spec_value() == data,
    {
        let r = self.data;
        self.data = data;
        r
    }
}

impl Atomic<bool> {
    /// Replaces the held value with `new` when it equals `current`;
    /// returns the previous value either way.
    pub fn compare_and_swap(&mut self, current: bool, new: bool) -> (r: bool)
        ensures
            r == old(self).spec_value(),
            final(self).spec_value() == if old(self).spec_value() == current {
                new
            } else {
                old(self).spec_value()
            },
    {
        match self.compare_exchange(current, new) {
            Ok(x) => x,
            Err(x) => x,
        }
    }

    /// Replaces the held value with `new` when it equals `current`;
    /// returns `Ok` with the previous value on success and `Err` with
    /// the actual value otherwise.
    pub fn compare_exchange(&mut self, current: bool, new: bool) -> (r: Result<bool, bool>)
        ensures
            old(self).spec_value() == current ==> r == Result::<bool, bool>::Ok(current)
                && final(self).spec_value() == new,
            old(self).spec_value() != current ==> r == Result::<bool, bool>::Err(
                old(self).spec_value(),
            ) && final(self).spec_value() == old(self).spec_value(),
    {
        if self.data == current {
            let old_val = self.data;
            self.data = new;
            Ok(old_val)
        } else {
            Err(self.data)
        }
    }
}

impl Atomic<usize> {
    /// Replaces the held value with `new` when it equals `current`;
    /// returns the previous value either way.
    pub fn compare_and_swap(&mut self, current: usize, new: usize) -> (r: usize)
        ensures
            r == old(self).spec_value(),
            final(self).spec_value() == if old(self).spec_value() == current {
                new
            } else {
                old(self).spec_value()
            },
    {
        match self.compare_exchange(current, new) {
            Ok(x) => x,
            Err(x) => x,
        }
    }

    /// Replaces the held value with `new` when it equals `current`;
    /// returns `Ok` with the previous value on success and `Err` with
    /// the actual value otherwise.
    pub fn compare_exchange(&mut self, current: usize, new: usize) -> (r: Result<usize, usize>)
        ensures
            old(self).spec_value() == current ==> r == Result::<usize, usize>::Ok(current)
                && final(self).spec_value() == new,
            old(self).spec_value() != current ==> r == Result::<usize, usize>::Err(
                old(self).spec_value(),
            ) && final(self).spec_value() == old(self).spec_value(),
    {
        if self.data == current {
            let old_val = self.data;
            self.data = new;
            Ok(old_val)
        } else {
            Err(self.data)
        }
    }

    /// Adds `data` to the held value, wrapping at the word size;
    /// returns the previous value.
    pub fn fetch_add(&mut self, data: usize) -> (r: usize)
        ensures
            r == old(self).spec_value(),
            final(self).spec_value() == vstd::wrapping::usize_specs::wrapping_add(
                old(self).spec_value(),
                data,
            ),
    {
        let r = self.data;
        self.data = self.data.wrapping_add(data);
        r
    }

    /// Subtracts `data` from the held value, wrapping at zero; returns
    /// the previous value.
    pub fn fetch_sub(&mut self, data: usize) -> (r: usize)
        ensures
            r == old(self).spec_value(),
            final(self).spec_value() == vstd::wrapping::usize_specs::wrapping_sub(
                old(self).spec_value(),
                data,
            ),
    {
        let r = self.data;
        self.data = self.data.wrapping_sub(data);
        r
    }

    /// Bitwise-ands `data` into the held value; returns the previous
    /// value.
    pub fn fetch_and(&mut self, data: usize) -> (r: usize)
        ensures
            r == old(self).spec_value(),
            final(self).spec_value() == (old(self).spec_value() & data),
    {
        let r = self.data;
        self.data = self.data & data;
        r
    }

    /// Bitwise-ors `data` into the held value; returns the previous
    /// value.
    pub fn fetch_or(&mut self, data: usize) -> (r: usize)
        ensures
            r == old(self).spec_value(),
            final(self).spec_value() == (old(self).spec_value() | data),
    {
        let r = self.data;
        self.data = self.data | data;
        r
    }

    /// Bitwise-xors `data` into the held value; returns the previous
    /// value.
    pub fn fetch_xor(&mut self, data: usize) -> (r: usize)
        ensures
            r == old(self).spec_value(),
            final(self).spec_value() == (old(self).spec_value() ^ data),
    {
        let r = self.data;
        self.data = self.data ^ data;
        r
    }
}

} // verus!
