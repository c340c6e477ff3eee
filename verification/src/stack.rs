//! A task's stack: a region carved from the kernel heap, and the saved
//! stack pointer that the context switch restores from.
//!
//! Creating a stack allocates `depth` bytes and leaves the stack pointer
//! at the top; planting the initial frame moves it down by one machine
//! frame, so that the first restore pops the planted registers and enters
//! the task's code.  The frame layout itself (callee-saved registers,
//! argument register, link register, program counter, status word) is the
//! port's context-switch contract; this model tracks the addresses and
//! the words the kernel decides: the entry address and the argument
//! pointer.

use vstd::prelude::*;

use crate::heap::{spec_round_up, BumpAllocator};

verus! {

/// Bytes the planted initial machine frame occupies: sixteen words of
/// four bytes each (eight callee-saved registers, the four caller-saved
/// registers with the argument register, the scratch register, the link
/// register, the program counter and the status word).
pub const INITIAL_FRAME_BYTES: usize = 64;

/// The initial processor status word planted for a new task, with the
/// Thumb bit set.
pub const INITIAL_XPSR: usize = 0x0100_0000;

/// A stack region `[base, base + depth)` and the saved stack pointer
/// inside it.
pub struct Stack {
    base: usize,
    depth: usize,
    sp: usize,
}

impl Stack {
    /// The lowest address of the stack region.
    pub closed spec fn spec_base(&self) -> usize {
        self.base
    }

    /// The size of the stack region in bytes.
    pub closed spec fn spec_depth(&self) -> usize {
        self.depth
    }

    /// The saved stack pointer.
    pub closed spec fn spec_sp(&self) -> usize {
        self.sp
    }

    /// Allocates a stack of `depth` bytes from the kernel heap, with the
    /// stack pointer at the top of the region.
    ///
    /// Running out of heap at task creation is fatal and is excluded: the
    /// heap must still hold a word-aligned block of `depth` bytes.
    pub fn new(alloc: &mut BumpAllocator, depth: usize) -> (r: Stack)
        requires
            old(alloc).wf(),
            spec_round_up(old(alloc).spec_next() as int, 4) + depth <= old(alloc).spec_heap_start()
                + old(alloc).spec_heap_size(),
        ensures
            final(alloc).wf(),
            final(alloc).spec_heap_start() == old(alloc).spec_heap_start(),
            final(alloc).spec_heap_size() == old(alloc).spec_heap_size(),
            final(alloc).spec_next() == r.spec_base() + r.spec_depth(),
            r.spec_base() == spec_round_up(old(alloc).spec_next() as int, 4),
            r.spec_depth() == depth,
            r.spec_sp() == r.spec_base() + r.spec_depth(),
    {
        proof {
            assert(crate::heap::is_pow2(4)) by {
                assert(4usize & 3usize == 0) by (bit_vector);
            };
        }
        let base = match alloc.allocate(depth, 4) {
            Some(base) => base,
            None => {
                // unreachable: the heap holds the block by the contract
                0
            },
        };
        Stack { base, depth, sp: base + depth }
    }

    /// Plants the initial machine frame: moves the saved stack pointer
    /// down by one frame, to the first word the context-switch restore
    /// code will pop.
    ///
    /// The stack must be fresh (pointer still at the top) and deep enough
    /// to hold the frame.
    pub fn initialize(&mut self)
        requires
            old(self).spec_sp() == old(self).spec_base() + old(self).spec_depth(),
            old(self).spec_depth() >= INITIAL_FRAME_BYTES,
        ensures
            final(self).spec_base() == old(self).spec_base(),
            final(self).spec_depth() == old(self).spec_depth(),
            final(self).spec_sp() == old(self).spec_sp() - INITIAL_FRAME_BYTES,
    {
        self.sp = self.sp - INITIAL_FRAME_BYTES;
    }

    /// True iff the saved stack pointer has descended to or below the
    /// stack base, which means the stack has overflowed its region.
    pub fn check_overflow(&self) -> (r: bool)
        ensures
            r == (self.spec_sp() <= self.spec_base()),
    {
        self.sp <= self.base
    }

    /// The size of the stack region in bytes.
    pub fn depth(&self) -> (r: usize)
        ensures
            r == self.spec_depth(),
    {
        self.depth
    }
}

} // verus!
