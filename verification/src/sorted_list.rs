//! A list ordered by the payloads' own comparison, with the least element
//! at the front.
//!
//! Insertion walks the list and places the new node before the first
//! element it compares less-or-equal to, so under a total order the list
//! stays ascending and `pop` yields the minimum in constant time.

use vstd::prelude::*;

use crate::queue::{keep_by, drop_by, Node};
use vstd::std_specs::cmp::PartialOrdSpec;

verus! {

/// `a <= b` under the payload type's comparison.
pub open spec fn le_spec<T: PartialOrd>(a: T, b: T) -> bool {
    a.partial_cmp_spec(&b) matches Some(
        core::cmp::Ordering::Less
        | core::cmp::Ordering::Equal,
    )
}

/// The position where [`SortedList::insert`] places `x` in `s`: just
/// before the first element that `x` compares less-or-equal to, or at the
/// end when there is none.
pub open spec fn insertion_point<T: PartialOrd>(s: Seq<T>, x: T) -> int
    decreases s.len(),
{
    if s.len() == 0 {
        0
    } else if le_spec(x, s[0]) {
        0
    } else {
        1 + insertion_point(s.drop_first(), x)
    }
}

/// `s` with each element of `elems` inserted in turn at its insertion
/// point.
pub open spec fn insert_all<T: PartialOrd>(s: Seq<T>, elems: Seq<T>) -> Seq<T>
    decreases elems.len(),
{
    if elems.len() == 0 {
        s
    } else {
        insert_all(s.insert(insertion_point(s, elems[0]), elems[0]), elems.drop_first())
    }
}

/// The insertion point is the first position whose element `x` compares
/// less-or-equal to.
pub proof fn lemma_insertion_point_properties<T: PartialOrd>(s: Seq<T>, x: T)
    ensures
        0 <= insertion_point(s, x) <= s.len(),
        forall|j: int| 0 <= j < insertion_point(s, x) ==> !le_spec(x, s[j]),
        insertion_point(s, x) < s.len() ==> le_spec(x, s[insertion_point(s, x)]),
    decreases s.len(),
{
    if s.len() > 0 && !le_spec(x, s[0]) {
        lemma_insertion_point_properties(s.drop_first(), x);
        assert forall|j: int| 0 <= j < insertion_point(s, x) implies !le_spec(x, s[j]) by {
            if j > 0 {
                assert(s.drop_first()[j - 1] == s[j]);
            }
        }
    }
}

/// True iff neighbouring elements of `s` are in ascending order.
pub open spec fn sorted<T: PartialOrd>(s: Seq<T>) -> bool {
    forall|i: int| 0 <= i < s.len() - 1 ==> le_spec(#[trigger] s[i], s[i + 1])
}

/// Inserting at the insertion point keeps a list sorted, whenever the
/// payload order is total: the new element goes before the first
/// element it compares less-or-equal to, and after everything it does
/// not.
pub proof fn lemma_insert_keeps_sorted<T: PartialOrd>(s: Seq<T>, x: T)
    requires
        sorted(s),
        forall|a: T, b: T| le_spec(a, b) || #[trigger] le_spec(b, a),
    ensures
        sorted(s.insert(insertion_point(s, x), x)),
{
    lemma_insertion_point_properties(s, x);
    let p = insertion_point(s, x);
    let s2 = s.insert(p, x);
    assert forall|i: int| 0 <= i < s2.len() - 1 implies le_spec(#[trigger] s2[i], s2[i + 1]) by {
        if i + 1 < p {
            assert(s2[i] == s[i] && s2[i + 1] == s[i + 1]);
        } else if i + 1 == p {
            assert(s2[i] == s[i] && s2[i + 1] == x);
            assert(!le_spec(x, s[i]));
        } else if i == p {
            assert(s2[i] == x && s2[i + 1] == s[p]);
        } else {
            assert(s2[i] == s[i - 1] && s2[i + 1] == s[i]);
        }
    }
}

/// A list kept in ascending payload order, viewed as the sequence of its
/// payloads from least to greatest.
pub struct SortedList<T: PartialOrd> {
    items: Vec<Node<T>>,
}

impl<T: PartialOrd> View for SortedList<T> {
    type V = Seq<T>;

    closed spec fn view(&self) -> Seq<T> {
        self.items@.map_values(|n: Node<T>| n.data)
    }
}

impl<T: PartialOrd> SortedList<T> {
    /// Creates an empty list.
    pub fn new() -> (r: Self)
        ensures
            r@ == Seq::<T>::empty(),
    {
        let r = SortedList { items: Vec::new() };
        proof {
            assert(r@ =~= Seq::<T>::empty());
        }
        r
    }

    /// Places a new item into the list at its insertion point, keeping
    /// the list sorted when the payload order is total.
    pub fn insert(&mut self, elem: Box<Node<T>>)
        requires
            T::obeys_partial_cmp_spec(),
        ensures
            final(self)@ == old(self)@.insert(
                insertion_point(old(self)@, elem.data),
                elem.data,
            ),
    {
        proof {
            lemma_insertion_point_properties(self@, elem.data);
        }
        let mut i: usize = 0;
        loop
            invariant
                T::obeys_partial_cmp_spec(),
                *self == *old(self),
                0 <= i <= self@.len(),
                forall|j: int| 0 <= j < i ==> !le_spec(elem.data, self@[j]),
            ensures
                *self == *old(self),
                i == insertion_point(self@, elem.data),
            decreases self@.len() - i,
        {
            if i == self.items.len() {
                proof {
                    lemma_insertion_point_properties(self@, elem.data);
                    lemma_insertion_point_unique(self@, elem.data, i as int);
                }
                break ;
            }
            if elem.data.le(&self.items[i].data) {
                proof {
                    lemma_insertion_point_properties(self@, elem.data);
                    lemma_insertion_point_unique(self@, elem.data, i as int);
                }
                break ;
            }
            i += 1;
        }
        self.items.insert(i, *elem);
        proof {
            assert(final(self)@ =~= old(self)@.insert(
                insertion_point(old(self)@, elem.data),
                elem.data,
            ));
        }
    }

    /// Takes the item at the front of the list — the least element when
    /// the payload order is total — or `None` when the list is empty.
    pub fn pop(&mut self) -> (r: Option<Box<Node<T>>>)
        ensures
            old(self)@.len() == 0 ==> r is None && *final(self) == *old(self),
            old(self)@.len() > 0 ==> {
                &&& r matches Some(n) && n.data == old(self)@[0]
                &&& final(self)@ == old(self)@.drop_first()
            },
    {
        if self.items.len() == 0 {
            None
        } else {
            let n = self.items.remove(0);
            proof {
                assert(final(self)@ =~= old(self)@.drop_first());
            }
            Some(Box::new(n))
        }
    }

    /// Removes every element matching `predicate` and returns them in a
    /// new list; both the removed and the retained elements are re-placed
    /// by their insertion points.
    pub fn remove<F: Fn(&T) -> bool>(&mut self, predicate: F) -> (matching: SortedList<T>)
        requires
            T::obeys_partial_cmp_spec(),
            forall|t: &T| #[trigger] predicate.requires((t,)),
        ensures
            exists|sel: Seq<bool>|
                {
                    &&& sel.len() == old(self)@.len()
                    &&& matching@ == insert_all(
                        Seq::empty(),
                        #[trigger] keep_by(old(self)@, sel),
                    )
                    &&& final(self)@ == insert_all(Seq::empty(), drop_by(old(self)@, sel))
                    &&& forall|i: int|
                        0 <= i < sel.len() ==> predicate.ensures(
                            (&old(self)@[i],),
                            sel[i],
                        )
                },
    {
        let mut matching = SortedList::new();
        let mut not_matching = SortedList::new();
        let ghost mut sel: Seq<bool> = Seq::empty();
        let ghost orig = self@;
        loop
            invariant
                T::obeys_partial_cmp_spec(),
                forall|t: &T| #[trigger] predicate.requires((t,)),
                sel.len() + self@.len() == orig.len(),
                self@ == orig.skip(sel.len() as int),
                matching@ == insert_all(Seq::empty(), keep_by(orig.take(sel.len() as int), sel)),
                not_matching@ == insert_all(
                    Seq::empty(),
                    drop_by(orig.take(sel.len() as int), sel),
                ),
                forall|i: int|
                    0 <= i < sel.len() ==> predicate.ensures((&orig[i],), sel[i]),
            ensures
                self@.len() == 0,
                sel.len() == orig.len(),
            decreases self@.len(),
        {
            let ghost i = sel.len() as int;
            match self.pop() {
                Some(n) => {
                    proof {
                        assert(self@ =~= orig.skip(i + 1));
                        assert(orig.take(i + 1) =~= orig.take(i).push(orig[i]));
                        crate::queue::lemma_partition_push(orig.take(i), sel, orig[i], true);
                    }
                    let b = predicate(&n.data);
                    proof {
                        crate::queue::lemma_partition_push(orig.take(i), sel, orig[i], b);
                        lemma_insert_all_push(
                            Seq::empty(),
                            keep_by(orig.take(i), sel),
                            orig[i],
                        );
                        lemma_insert_all_push(
                            Seq::empty(),
                            drop_by(orig.take(i), sel),
                            orig[i],
                        );
                        sel = sel.push(b);
                    }
                    if b {
                        matching.insert(n);
                    } else {
                        not_matching.insert(n);
                    }
                },
                None => {
                    break ;
                },
            }
        }
        proof {
            assert(orig.take(sel.len() as int) =~= orig);
        }
        let mut swap_target = not_matching;
        core::mem::swap(self, &mut swap_target);
        proof {
            assert({
                &&& sel.len() == orig.len()
                &&& matching@ == insert_all(Seq::empty(), keep_by(orig, sel))
                &&& self@ == insert_all(Seq::empty(), drop_by(orig, sel))
                &&& forall|i: int|
                    0 <= i < sel.len() ==> predicate.ensures((&orig[i],), sel[i])
            });
        }
        matching
    }

    /// Inserts every element of `list` into `self` at its insertion
    /// point, consuming `list`.
    pub fn merge(&mut self, list: SortedList<T>)
        requires
            T::obeys_partial_cmp_spec(),
        ensures
            final(self)@ == insert_all(old(self)@, list@),
    {
        let mut rest = list;
        loop
            invariant
                T::obeys_partial_cmp_spec(),
                insert_all(self@, rest@) == insert_all(old(self)@, list@),
            decreases rest@.len(),
        {
            match rest.pop() {
                Some(n) => {
                    self.insert(n);
                },
                None => {
                    return ;
                },
            }
        }
    }

    /// Removes all the elements from `self` and returns them in a new
    /// list, leaving `self` empty.
    pub fn remove_all(&mut self) -> (r: SortedList<T>)
        ensures
            r@ == old(self)@,
            final(self)@ == Seq::<T>::empty(),
    {
        let mut drained = SortedList { items: Vec::new() };
        proof {
            assert(drained@ =~= Seq::<T>::empty());
        }
        core::mem::swap(self, &mut drained);
        drained
    }

    /// True iff the list holds no items.
    pub fn is_empty(&self) -> (r: bool)
        ensures
            r == (self@.len() == 0),
    {
        self.items.len() == 0
    }

    /// Consumes the list, yielding its nodes from least to greatest.
    pub fn into_iter(self) -> (r: IntoIter<T>)
        ensures
            r@ == self@,
    {
        IntoIter(self)
    }

    /// Borrows the list, yielding references to its payloads from least
    /// to greatest.
    pub fn iter(&self) -> (r: Iter<'_, T>)
        ensures
            r@ == self@,
            r.pos() == 0,
    {
        Iter { list: self, pos: 0 }
    }
}

/// Only one position satisfies the insertion-point characterization.
proof fn lemma_insertion_point_unique<T: PartialOrd>(s: Seq<T>, x: T, i: int)
    requires
        0 <= i <= s.len(),
        forall|j: int| 0 <= j < i ==> !le_spec(x, s[j]),
        i < s.len() ==> le_spec(x, s[i]),
    ensures
        i == insertion_point(s, x),
{
    lemma_insertion_point_properties(s, x);
    let p = insertion_point(s, x);
    if p < i {
        assert(!le_spec(x, s[p]));
    } else if i < p {
        assert(!le_spec(x, s[i]));
    }
}

/// Inserting one more element extends an [`insert_all`] fold.
proof fn lemma_insert_all_push<T: PartialOrd>(base: Seq<T>, elems: Seq<T>, x: T)
    ensures
        insert_all(base, elems.push(x)) == insert_all(base, elems).insert(
            insertion_point(insert_all(base, elems), x),
            x,
        ),
    decreases elems.len(),
{
    if elems.len() == 0 {
        assert(elems.push(x).drop_first() =~= Seq::<T>::empty());
        assert(insert_all(base, elems.push(x)) == insert_all(
            base.insert(insertion_point(base, x), x),
            Seq::empty(),
        ));
    } else {
        let base1 = base.insert(insertion_point(base, elems[0]), elems[0]);
        assert(elems.push(x).drop_first() =~= elems.drop_first().push(x));
        lemma_insert_all_push(base1, elems.drop_first(), x);
    }
}

/// Yields the nodes of a consumed list from least to greatest.
pub struct IntoIter<T: PartialOrd>(SortedList<T>);

impl<T: PartialOrd> View for IntoIter<T> {
    type V = Seq<T>;

    closed spec fn view(&self) -> Seq<T> {
        self.0@
    }
}

impl<T: PartialOrd> IntoIter<T> {
    /// The next node of the consumed list, or `None` when all have been
    /// yielded.
    pub fn next(&mut self) -> (r: Option<Box<Node<T>>>)
        ensures
            old(self)@.len() == 0 ==> r is None && *final(self) == *old(self),
            old(self)@.len() > 0 ==> {
                &&& r matches Some(n) && n.data == old(self)@[0]
                &&& final(self)@ == old(self)@.drop_first()
            },
    {
        self.0.pop()
    }
}

/// Yields references to a list's payloads from least to greatest.
pub struct Iter<'a, T: PartialOrd> {
    list: &'a SortedList<T>,
    pos: usize,
}

impl<'a, T: PartialOrd> View for Iter<'a, T> {
    type V = Seq<T>;

    closed spec fn view(&self) -> Seq<T> {
        self.list@
    }
}

impl<'a, T: PartialOrd> Iter<'a, T> {
    /// How many payloads have been yielded so far.
    pub closed spec fn pos(&self) -> usize {
        self.pos
    }

    /// A reference to the next payload, or `None` when the walk is done.
    pub fn next(&mut self) -> (r: Option<&'a T>)
        ensures
            final(self)@ == old(self)@,
            old(self).pos() >= old(self)@.len() ==> {
                &&& r is None
                &&& final(self).pos() == old(self).pos()
            },
            old(self).pos() < old(self)@.len() ==> {
                &&& r matches Some(t) && *t == old(self)@[old(self).pos() as int]
                &&& final(self).pos() == old(self).pos() + 1
            },
    {
        if self.pos < self.list.items.len() {
            let r = &self.list.items[self.pos].data;
            self.pos += 1;
            Some(r)
        } else {
            None
        }
    }
}

} // verus!
