//! Kernel initialization.

use vstd::prelude::*;

use crate::sched::Scheduler;

verus! {

/// Names the kernel heap region that task stacks are carved from.
/// Called once, before any task is created.
pub fn init_heap(sched: &mut Scheduler, heap_start: usize, heap_size: usize)
    requires
        old(sched).wf(),
        heap_start + heap_size <= usize::MAX,
    ensures
        final(sched).wf(),
        final(sched).spec_alloc().spec_heap_start() == heap_start,
        final(sched).spec_alloc().spec_heap_size() == heap_size,
        final(sched).spec_alloc().spec_next() == heap_start,
        final(sched).spec_current() == old(sched).spec_current(),
        final(sched).spec_next_tid() == old(sched).spec_next_tid(),
        final(sched).spec_clock() == old(sched).spec_clock(),
{
    sched.init_heap(heap_start, heap_size);
}

} // verus!
