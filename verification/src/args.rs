//! Arguments handed to a task at creation.
//!
//! A task entry point receives an opaque bag of word-sized values.  The
//! [`Builder`] is told its capacity up front, takes one word at a time,
//! and is finalized into an [`Args`] bag that the task reads by index.

use vstd::prelude::*;

verus! {

/// Builds an [`Args`] bag of a fixed capacity, one word at a time.
pub struct Builder {
    cap: usize,
    vec: Vec<usize>,
}

impl View for Builder {
    type V = Seq<usize>;

    closed spec fn view(&self) -> Seq<usize> {
        self.vec@
    }
}

impl Builder {
    /// The capacity this builder was created with.
    pub closed spec fn spec_cap(&self) -> usize {
        self.cap
    }

    /// Returns an empty `Args` bag, for a task that takes no arguments.
    pub fn empty() -> (r: Args)
        ensures
            r@ == Seq::<usize>::empty(),
    {
        Args::empty()
    }

    /// Creates a builder that will accept up to `cap` argument words.
    pub fn new(cap: usize) -> (r: Self)
        ensures
            r@ == Seq::<usize>::empty(),
            r.spec_cap() == cap,
    {
        Builder { cap, vec: Vec::new() }
    }

    /// Adds one argument word.
    ///
    /// Adding more words than the capacity allocated is a fatal misuse
    /// and is excluded.
    pub fn add_arg(self, arg: usize) -> (r: Self)
        requires
            self@.len() < self.spec_cap(),
        ensures
            r@ == self@.push(arg),
            r.spec_cap() == self.spec_cap(),
    {
        let mut this = self;
        this.vec.push(arg);
        this
    }

    /// Finishes the construction and returns the bag of arguments added
    /// so far.
    pub fn finalize(self) -> (r: Args)
        ensures
            r@ == self@,
    {
        Args { args: self.vec }
    }
}

/// The argument words passed into a task, addressable by index.
pub struct Args {
    args: Vec<usize>,
}

impl View for Args {
    type V = Seq<usize>;

    closed spec fn view(&self) -> Seq<usize> {
        self.args@
    }
}

impl Args {
    /// Returns an empty bag, for a task that takes no arguments.
    pub fn empty() -> (r: Self)
        ensures
            r@ == Seq::<usize>::empty(),
    {
        Args { args: Vec::new() }
    }

    /// The number of argument words in the bag.
    pub fn len(&self) -> (r: usize)
        ensures
            r == self@.len(),
    {
        self.args.len()
    }

    /// The argument word at `index`.
    pub fn get(&self, index: usize) -> (r: usize)
        requires
            index < self@.len(),
        ensures
            r == self@[index as int],
    {
        self.args[index]
    }
}

} // verus!
