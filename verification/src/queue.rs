//! First-in first-out queues of owned nodes.
//!
//! The scheduler keeps tasks on queues of this kind: enqueue appends at
//! the tail, dequeue takes from the head, and a queue can be partitioned
//! by a predicate or appended onto another wholesale.  A queue is viewed
//! in specifications as the sequence of the payloads it holds, in
//! head-to-tail order.

use vstd::prelude::*;

verus! {

/// A queue element: the payload together with its place in a queue.
pub struct Node<T> {
    /// The payload carried by this node.
    pub data: T,
}

impl<T> Node<T> {
    /// Wraps a payload for insertion into a queue.
    pub fn new(data: T) -> (r: Self)
        ensures
            r.data == data,
    {
        Node { data }
    }
}

/// A FIFO queue, viewed as the sequence of its payloads.
pub struct Queue<T> {
    items: Vec<Node<T>>,
}

impl<T> View for Queue<T> {
    type V = Seq<T>;

    closed spec fn view(&self) -> Seq<T> {
        self.items@.map_values(|n: Node<T>| n.data)
    }
}

impl<T> Queue<T> {
    /// Creates an empty queue.
    pub fn new() -> (r: Self)
        ensures
            r@ == Seq::<T>::empty(),
    {
        let r = Queue { items: Vec::new() };
        proof {
            assert(r@ =~= Seq::<T>::empty());
        }
        r
    }

    /// Places a new item onto the end of the queue.
    pub fn enqueue(&mut self, elem: Box<Node<T>>)
        ensures
            final(self)@ == old(self)@.push(elem.data),
    {
        self.items.push(*elem);
        proof {
            assert(final(self)@ =~= old(self)@.push(elem.data));
        }
    }

    /// Takes the item at the front of the queue, or `None` when the queue
    /// is empty.
    pub fn dequeue(&mut self) -> (r: Option<Box<Node<T>>>)
        ensures
            old(self)@.len() == 0 ==> r is None && *final(self) == *old(self),
            old(self)@.len() > 0 ==> {
                &&& r matches Some(n) && n.data == old(self)@[0]
                &&& final(self)@ == old(self)@.drop_first()
            },
    {
        if self.items.len() == 0 {
            None
        } else {
            let n = self.items.remove(0);
            proof {
                assert(final(self)@ =~= old(self)@.drop_first());
            }
            Some(Box::new(n))
        }
    }

    /// Appends all the elements of `queue` onto the end of `self`.
    pub fn append(&mut self, queue: Queue<T>)
        ensures
            final(self)@ == old(self)@ + queue@,
    {
        let mut rest = queue;
        loop
            invariant
                self@ + rest@ == old(self)@ + queue@,
            decreases rest@.len(),
        {
            let ghost pre_self = self@;
            let ghost pre_rest = rest@;
            match rest.dequeue() {
                Some(n) => {
                    self.enqueue(n);
                    proof {
                        assert(self@ + rest@ =~= pre_self + pre_rest);
                    }
                },
                None => {
                    proof {
                        assert(self@ =~= self@ + rest@);
                    }
                    return ;
                },
            }
        }
    }

    /// Removes all the elements from `self` and returns them in a new
    /// queue, leaving `self` empty.
    pub fn remove_all(&mut self) -> (r: Queue<T>)
        ensures
            r@ == old(self)@,
            final(self)@ == Seq::<T>::empty(),
    {
        let mut drained = Queue::new();
        core::mem::swap(self, &mut drained);
        drained
    }

    /// True iff the queue holds no items.
    pub fn is_empty(&self) -> (r: bool)
        ensures
            r == (self@.len() == 0),
    {
        self.items.len() == 0
    }

    /// The number of items in the queue.
    pub fn len(&self) -> (r: usize)
        ensures
            r == self@.len(),
    {
        self.items.len()
    }

    /// A reference to the payload at position `i` from the head.
    pub(crate) fn get(&self, i: usize) -> (r: &T)
        requires
            i < self@.len(),
        ensures
            *r == self@[i as int],
    {
        &self.items[i].data
    }

    /// Takes the payload at position `i` out of the queue.
    pub(crate) fn take_at(&mut self, i: usize) -> (r: T)
        requires
            i < old(self)@.len(),
        ensures
            r == old(self)@[i as int],
            final(self)@ == old(self)@.remove(i as int),
    {
        let n = self.items.remove(i);
        proof {
            assert(final(self)@ =~= old(self)@.remove(i as int));
        }
        n.data
    }

    /// Puts a payload back into the queue at position `i`.
    pub(crate) fn insert_at(&mut self, i: usize, v: T)
        requires
            i <= old(self)@.len(),
        ensures
            final(self)@ == old(self)@.insert(i as int, v),
    {
        self.items.insert(i, Node::new(v));
        proof {
            assert(final(self)@ =~= old(self)@.insert(i as int, v));
        }
    }

    /// Consumes the queue, yielding its nodes from the head onward.
    pub fn into_iter(self) -> (r: IntoIter<T>)
        ensures
            r@ == self@,
    {
        IntoIter(self)
    }

    /// Borrows the queue, yielding references to its payloads from the
    /// head onward.
    pub fn iter(&self) -> (r: Iter<'_, T>)
        ensures
            r@ == self@,
            r.pos() == 0,
    {
        Iter { queue: self, pos: 0 }
    }
}

/// The subsequence of `s` at the positions where `sel` is true,
/// in their original order.
pub open spec fn keep_by<T>(s: Seq<T>, sel: Seq<bool>) -> Seq<T>
    recommends
        s.len() == sel.len(),
    decreases s.len(),
{
    if s.len() == 0 {
        Seq::empty()
    } else {
        let rest = keep_by(s.drop_last(), sel.drop_last());
        if sel.last() {
            rest.push(s.last())
        } else {
            rest
        }
    }
}

/// The subsequence of `s` at the positions where `sel` is false,
/// in their original order.
pub open spec fn drop_by<T>(s: Seq<T>, sel: Seq<bool>) -> Seq<T>
    recommends
        s.len() == sel.len(),
    decreases s.len(),
{
    if s.len() == 0 {
        Seq::empty()
    } else {
        let rest = drop_by(s.drop_last(), sel.drop_last());
        if sel.last() {
            rest
        } else {
            rest.push(s.last())
        }
    }
}

/// Extending a sequence and its selection extends the partition in the
/// matching half.
pub(crate) proof fn lemma_partition_push<T>(s: Seq<T>, sel: Seq<bool>, x: T, b: bool)
    requires
        s.len() == sel.len(),
    ensures
        keep_by(s.push(x), sel.push(b)) == if b {
            keep_by(s, sel).push(x)
        } else {
            keep_by(s, sel)
        },
        drop_by(s.push(x), sel.push(b)) == if b {
            drop_by(s, sel)
        } else {
            drop_by(s, sel).push(x)
        },
{
    assert(s.push(x).drop_last() =~= s);
    assert(sel.push(b).drop_last() =~= sel);
}

/// Partitioning a sequence by any selection preserves its membership:
/// the kept and dropped halves together hold exactly the original
/// elements, with multiplicity.  This is the set-preservation half of the
/// queue round-trip law; that each half keeps the encounter order is
/// definitional for [`keep_by`] and [`drop_by`].
pub proof fn lemma_partition_membership<T>(s: Seq<T>, sel: Seq<bool>)
    requires
        s.len() == sel.len(),
    ensures
        (keep_by(s, sel) + drop_by(s, sel)).to_multiset() == s.to_multiset(),
    decreases s.len(),
{
    vstd::seq_lib::lemma_multiset_commutative(keep_by(s, sel), drop_by(s, sel));
    broadcast use vstd::seq_lib::group_to_multiset_ensures;

    if s.len() == 0 {
        assert(keep_by(s, sel) + drop_by(s, sel) =~= Seq::<T>::empty());
        assert(s.to_multiset() =~= (keep_by(s, sel) + drop_by(s, sel)).to_multiset());
    } else {
        let s0 = s.drop_last();
        let sel0 = sel.drop_last();
        lemma_partition_membership(s0, sel0);
        vstd::seq_lib::lemma_multiset_commutative(keep_by(s0, sel0), drop_by(s0, sel0));
        assert(s0.push(s.last()) =~= s);
        assert(sel0.push(sel.last()) =~= sel);
        lemma_partition_push(s0, sel0, s.last(), sel.last());
        assert((keep_by(s, sel) + drop_by(s, sel)).to_multiset() =~= s.to_multiset());
    }
}

impl<T> Queue<T> {
    /// Removes every element matching `predicate` and returns them in a
    /// new queue, in their original order; the elements that do not match
    /// stay behind, also in their original order.
    pub fn remove<F: Fn(&T) -> bool>(&mut self, predicate: F) -> (matching: Queue<T>)
        requires
            forall|t: &T| #[trigger] predicate.requires((t,)),
        ensures
            exists|sel: Seq<bool>|
                {
                    &&& sel.len() == old(self)@.len()
                    &&& matching@ == #[trigger] keep_by(old(self)@, sel)
                    &&& final(self)@ == drop_by(old(self)@, sel)
                    &&& forall|i: int|
                        0 <= i < sel.len() ==> predicate.ensures(
                            (&old(self)@[i],),
                            sel[i],
                        )
                },
    {
        let mut matching = Queue::new();
        let mut not_matching = Queue::new();
        let ghost mut sel: Seq<bool> = Seq::empty();
        let ghost orig = old(self)@;
        loop
            invariant
                forall|t: &T| #[trigger] predicate.requires((t,)),
                sel.len() + self@.len() == orig.len(),
                self@ == orig.skip(sel.len() as int),
                matching@ == keep_by(orig.take(sel.len() as int), sel),
                not_matching@ == drop_by(orig.take(sel.len() as int), sel),
                forall|i: int|
                    0 <= i < sel.len() ==> predicate.ensures((&orig[i],), sel[i]),
            ensures
                self@.len() == 0,
            decreases self@.len(),
        {
            let ghost i = sel.len() as int;
            match self.dequeue() {
                Some(n) => {
                    proof {
                        assert(self@ =~= orig.skip(i + 1));
                        assert(orig.take(i + 1) =~= orig.take(i).push(orig[i]));
                    }
                    let b = predicate(&n.data);
                    proof {
                        lemma_partition_push(orig.take(i), sel, orig[i], b);
                        sel = sel.push(b);
                    }
                    if b {
                        matching.enqueue(n);
                    } else {
                        not_matching.enqueue(n);
                    }
                },
                None => {
                    break ;
                },
            }
        }
        proof {
            assert(orig.take(sel.len() as int) =~= orig);
        }
        let mut swap_target = not_matching;
        core::mem::swap(self, &mut swap_target);
        proof {
            assert({
                &&& sel.len() == orig.len()
                &&& matching@ == keep_by(orig, sel)
                &&& self@ == drop_by(orig, sel)
                &&& forall|i: int|
                    0 <= i < sel.len() ==> predicate.ensures((&orig[i],), sel[i])
            });
        }
        matching
    }

    /// Replaces every payload of the queue with the result of `block` on
    /// it, keeping the queue's length and order.
    pub fn modify_all<F: Fn(T) -> T>(&mut self, block: F)
        requires
            forall|t: T| #[trigger] block.requires((t,)),
        ensures
            final(self)@.len() == old(self)@.len(),
            forall|i: int|
                0 <= i < old(self)@.len() ==> block.ensures(
                    (old(self)@[i],),
                    final(self)@[i],
                ),
    {
        let mut done: Queue<T> = Queue::new();
        let ghost orig = old(self)@;
        loop
            invariant
                forall|t: T| #[trigger] block.requires((t,)),
                done@.len() + self@.len() == orig.len(),
                self@ == orig.skip(done@.len() as int),
                forall|i: int|
                    0 <= i < done@.len() ==> block.ensures((orig[i],), done@[i]),
            ensures
                self@.len() == 0,
            decreases self@.len(),
        {
            let ghost i = done@.len() as int;
            match self.dequeue() {
                Some(n) => {
                    proof {
                        assert(self@ =~= orig.skip(i + 1));
                    }
                    let node = *n;
                    let v = block(node.data);
                    done.enqueue(Box::new(Node::new(v)));
                },
                None => {
                    break ;
                },
            }
        }
        core::mem::swap(self, &mut done);
    }
}

/// Yields the nodes of a consumed queue from the head onward.
pub struct IntoIter<T>(Queue<T>);

impl<T> View for IntoIter<T> {
    type V = Seq<T>;

    closed spec fn view(&self) -> Seq<T> {
        self.0@
    }
}

impl<T> IntoIter<T> {
    /// The next node of the consumed queue, or `None` when all have been
    /// yielded.
    pub fn next(&mut self) -> (r: Option<Box<Node<T>>>)
        ensures
            old(self)@.len() == 0 ==> r is None && *final(self) == *old(self),
            old(self)@.len() > 0 ==> {
                &&& r matches Some(n) && n.data == old(self)@[0]
                &&& final(self)@ == old(self)@.drop_first()
            },
    {
        self.0.dequeue()
    }
}

/// Yields references to a queue's payloads from the head onward.
pub struct Iter<'a, T> {
    queue: &'a Queue<T>,
    pos: usize,
}

impl<'a, T> View for Iter<'a, T> {
    type V = Seq<T>;

    closed spec fn view(&self) -> Seq<T> {
        self.queue@
    }
}

impl<'a, T> Iter<'a, T> {
    /// How many payloads have been yielded so far.
    pub closed spec fn pos(&self) -> usize {
        self.pos
    }

    /// A reference to the next payload, or `None` when the walk is done.
    pub fn next(&mut self) -> (r: Option<&'a T>)
        ensures
            final(self)@ == old(self)@,
            old(self).pos() >= old(self)@.len() ==> {
                &&& r is None
                &&& final(self).pos() == old(self).pos()
            },
            old(self).pos() < old(self)@.len() ==> {
                &&& r matches Some(t) && *t == old(self)@[old(self).pos() as int]
                &&& final(self).pos() == old(self).pos() + 1
            },
    {
        if self.pos < self.queue.items.len() {
            let r = &self.queue.items[self.pos].data;
            self.pos += 1;
            Some(r)
        } else {
            None
        }
    }
}

} // verus!
