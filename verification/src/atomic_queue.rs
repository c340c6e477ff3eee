//! A synchronized wrapper around the queue: the same operations, each
//! one taken under a spin lock.
//!
//! Suitable for queue mutation from any context; between operations the
//! lock is always free.  This is distinct from the sleep-based mutex,
//! which blocks the calling task instead of busy-waiting.

use vstd::prelude::*;

use crate::queue::{drop_by, keep_by, Node, Queue};
use crate::sync::spin::SpinMutex;

verus! {

/// A queue whose every operation runs under its own spin lock, viewed
/// as the sequence of its payloads in head-to-tail order.
pub struct SyncQueue<T> {
    lock: SpinMutex<Queue<T>>,
}

impl<T> View for SyncQueue<T> {
    type V = Seq<T>;

    closed spec fn view(&self) -> Seq<T> {
        match self.lock.spec_data() {
            Some(q) => q@,
            None => Seq::empty(),
        }
    }
}

impl<T> SyncQueue<T> {
    /// Between operations the lock is free and holds the queue.
    pub closed spec fn wf(&self) -> bool {
        &&& self.lock.wf()
        &&& !self.lock.spec_locked()
    }

    /// Creates an empty synchronized queue.
    pub fn new() -> (r: Self)
        ensures
            r.wf(),
            r@ == Seq::<T>::empty(),
    {
        SyncQueue { lock: SpinMutex::new(Queue::new()) }
    }

    /// Wraps an existing queue.
    pub fn from(queue: Queue<T>) -> (r: Self)
        ensures
            r.wf(),
            r@ == queue@,
    {
        SyncQueue { lock: SpinMutex::new(queue) }
    }

    /// Places a new item onto the end of the queue.
    pub fn enqueue(&mut self, elem: Box<Node<T>>)
        requires
            old(self).wf(),
        ensures
            final(self).wf(),
            final(self)@ == old(self)@.push(elem.data),
    {
        let mut guard = self.lock.lock();
        guard.data_mut().enqueue(elem);
        self.lock.unlock(guard);
    }

    /// Takes the item at the front of the queue, or `None` when the
    /// queue is empty.
    pub fn dequeue(&mut self) -> (r: Option<Box<Node<T>>>)
        requires
            old(self).wf(),
        ensures
            final(self).wf(),
            old(self)@.len() == 0 ==> r is None && final(self)@ == old(self)@,
            old(self)@.len() > 0 ==> {
                &&& r matches Some(n) && n.data == old(self)@[0]
                &&& final(self)@ == old(self)@.drop_first()
            },
    {
        let mut guard = self.lock.lock();
        let r = guard.data_mut().dequeue();
        self.lock.unlock(guard);
        r
    }

    /// Removes every element matching `predicate` and returns them in a
    /// new queue, in their original order; the elements that do not
    /// match stay behind, also in their original order.
    pub fn remove<F: Fn(&T) -> bool>(&mut self, predicate: F) -> (matching: Queue<T>)
        requires
            old(self).wf(),
            forall|t: &T| #[trigger] predicate.requires((t,)),
        ensures
            final(self).wf(),
            exists|sel: Seq<bool>|
                {
                    &&& sel.len() == old(self)@.len()
                    &&& matching@ == #[trigger] keep_by(old(self)@, sel)
                    &&& final(self)@ == drop_by(old(self)@, sel)
                    &&& forall|i: int|
                        0 <= i < sel.len() ==> predicate.ensures((&old(self)@[i],), sel[i])
                },
    {
        let mut guard = self.lock.lock();
        let ghost pre = guard.spec_data()@;
        let r = guard.data_mut().remove(predicate);
        let ghost qf = guard.spec_data()@;
        self.lock.unlock(guard);
        proof {
            let sel = choose|sel: Seq<bool>|
                {
                    &&& sel.len() == pre.len()
                    &&& r@ == #[trigger] keep_by(pre, sel)
                    &&& qf == drop_by(pre, sel)
                    &&& forall|i: int|
                        0 <= i < sel.len() ==> predicate.ensures((&pre[i],), sel[i])
                };
            assert(sel.len() == old(self)@.len() && r@ == keep_by(old(self)@, sel) && self@
                == drop_by(old(self)@, sel));
        }
        r
    }

    /// Appends all the elements of `to_append` onto the end of the
    /// queue.
    pub fn append(&mut self, to_append: Queue<T>)
        requires
            old(self).wf(),
        ensures
            final(self).wf(),
            final(self)@ == old(self)@ + to_append@,
    {
        let mut guard = self.lock.lock();
        guard.data_mut().append(to_append);
        self.lock.unlock(guard);
    }

    /// Replaces every payload of the queue with the result of `block`
    /// on it, keeping the queue's length and order.
    pub fn modify_all<F: Fn(T) -> T>(&mut self, block: F)
        requires
            old(self).wf(),
            forall|t: T| #[trigger] block.requires((t,)),
        ensures
            final(self).wf(),
            final(self)@.len() == old(self)@.len(),
            forall|i: int|
                0 <= i < old(self)@.len() ==> block.ensures((old(self)@[i],), final(self)@[i]),
    {
        let mut guard = self.lock.lock();
        guard.data_mut().modify_all(block);
        self.lock.unlock(guard);
    }

    /// Removes all the elements and returns them in a plain queue,
    /// leaving this one empty.
    pub fn remove_all(&mut self) -> (r: Queue<T>)
        requires
            old(self).wf(),
        ensures
            final(self).wf(),
            r@ == old(self)@,
            final(self)@ == Seq::<T>::empty(),
    {
        let mut guard = self.lock.lock();
        let r = guard.data_mut().remove_all();
        self.lock.unlock(guard);
        r
    }

    /// True iff the queue holds no items.
    pub fn is_empty(&self) -> (r: bool)
        requires
            self.wf(),
        ensures
            r == (self@.len() == 0),
    {
        self.lock.data_ref().is_empty()
    }
}

} // verus!
