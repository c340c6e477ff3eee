//! Task records, priorities, states and handles.
//!
//! A task is a schedulable unit with its own stack, saved machine state,
//! identity and scheduling fields.  Handles reference a task by its id
//! and validate a cookie on every access, so use after destruction fails
//! with a distinct error rather than reaching a stale record.

use vstd::prelude::*;

use crate::args::Args;
use crate::heap::{spec_round_up, BumpAllocator};
use crate::sched::Scheduler;
use crate::stack::{Stack, INITIAL_FRAME_BYTES};

verus! {

/// The base value of the validity cookie; a live task's cookie is this
/// plus the low byte of its id.
pub const VALID_TASK: usize = 0xBADB_0100;

/// The cookie of a destroyed task.
pub const INVALID_TASK: usize = 0x0;

/// The cookie a live task with id `tid` carries.
pub open spec fn valid_cookie(tid: usize) -> usize {
    (VALID_TASK + (tid & 0xFF)) as usize
}

/// The low byte of an id fits under the cookie base, so a cookie never
/// wraps the word size.
pub proof fn lemma_cookie_fits(tid: usize)
    ensures
        tid & 0xFF <= 0xFF,
        VALID_TASK + (tid & 0xFF) <= 0xBADB_01FF,
{
    assert(tid & 0xFF <= 0xFF) by (bit_vector);
}

/// Priorities that a task can have.
///
/// A higher-priority task is always run before a lower-priority task
/// that is ready at the same moment.
#[derive(Clone, Copy, PartialEq, Eq, Structural, Debug)]
pub enum Priority {
    /// The highest priority, for short, time-critical work.
    Critical,
    /// The standard task priority.
    Normal,
    /// The minimal application priority; such tasks run only when
    /// nothing else is ready.
    Low,
    /// The priority of the idle task; applications do not use it.
    Idle,
}

impl Priority {
    /// The ready-queue index of this priority, counting from the
    /// highest.
    pub open spec fn spec_index(self) -> int {
        match self {
            Priority::Critical => 0,
            Priority::Normal => 1,
            Priority::Low => 2,
            Priority::Idle => 3,
        }
    }

    /// The ready-queue index of this priority, counting from the
    /// highest.
    pub fn index(self) -> (r: usize)
        ensures
            r == self.spec_index(),
            r < crate::NUM_PRIORITIES,
    {
        match self {
            Priority::Critical => 0,
            Priority::Normal => 1,
            Priority::Low => 2,
            Priority::Idle => 3,
        }
    }

    /// The range of queue indices over every priority, from the highest
    /// down.
    pub fn all() -> (r: core::ops::Range<usize>)
        ensures
            r.start == 0 && r.end == crate::NUM_PRIORITIES,
    {
        0..crate::NUM_PRIORITIES
    }

    /// The range of queue indices at this priority or higher, from the
    /// highest down.
    pub fn higher(&self) -> (r: core::ops::Range<usize>)
        ensures
            r.start == 0 && r.end == self.spec_index() + 1,
    {
        0..(self.index() + 1)
    }
}

/// States a task can be in; the scheduler uses them to decide which
/// tasks may run.
#[derive(Clone, Copy, PartialEq, Eq, Structural, Debug)]
pub enum State {
    /// Being created; not yet usable.
    Embryo,
    /// Ready to run whenever the scheduler picks it.
    Ready,
    /// Currently running.
    Running,
    /// Waiting on a wait channel or a wakeup deadline.
    Blocked,
    /// Suspended; will not run until resumed.
    Suspended,
}

/// The record the kernel keeps for one task.
///
/// The saved stack pointer lives in the stack record at the front; the
/// context switch restores machine state from it.  The entry address is
/// the word planted in the initial frame's program-counter slot.
pub struct TaskControl {
    /// The task's stack region and saved stack pointer.
    pub stack: Stack,
    /// The argument words handed to the task's entry function.
    pub args: Args,
    /// The entry address planted in the initial frame.
    pub entry: usize,
    /// The task's id, unique across the scheduler.
    pub tid: usize,
    /// The task's static name.
    pub name: &'static str,
    /// The validity cookie that a handle compares before each access.
    pub valid: usize,
    /// The wait channel the task is sleeping on.
    pub wchan: usize,
    /// The absolute tick at which a delayed task is due.
    pub delay: usize,
    /// Set when the task has been marked for destruction.
    pub destroy: bool,
    /// Set when the wakeup deadline wrapped past the counter maximum.
    pub overflowed: bool,
    /// The task's priority level.
    pub priority: Priority,
    /// The task's scheduling state.
    pub state: State,
}

impl TaskControl {
    /// The task's id.
    pub open spec fn spec_tid(&self) -> usize {
        self.tid
    }

    /// The task's static name.
    pub open spec fn spec_name(&self) -> &'static str {
        self.name
    }

    /// The task's validity cookie.
    pub open spec fn spec_valid(&self) -> usize {
        self.valid
    }

    /// The entry address planted in the task's initial frame.
    pub open spec fn spec_entry(&self) -> usize {
        self.entry
    }

    /// The task's stack record.
    pub open spec fn spec_stack(&self) -> Stack {
        self.stack
    }

    /// The task's argument words.
    pub open spec fn spec_args(&self) -> Seq<usize> {
        self.args@
    }

    /// Creates a task record ready to be scheduled: allocates its stack,
    /// plants the initial frame, and marks the record `Ready`.
    ///
    /// `entry` is the address of the task's code, as the port resolves
    /// it.  The stack must be deep enough for the initial frame, and the
    /// kernel heap must still hold the stack; running out of memory at
    /// task creation is fatal and is excluded.
    pub fn new(
        alloc: &mut BumpAllocator,
        tid: usize,
        entry: usize,
        args: Args,
        depth: usize,
        priority: Priority,
        name: &'static str,
    ) -> (r: TaskControl)
        requires
            old(alloc).wf(),
            spec_round_up(old(alloc).spec_next() as int, 4) + depth <= old(alloc).spec_heap_start()
                + old(alloc).spec_heap_size(),
            depth >= INITIAL_FRAME_BYTES,
        ensures
            final(alloc).wf(),
            final(alloc).spec_heap_start() == old(alloc).spec_heap_start(),
            final(alloc).spec_heap_size() == old(alloc).spec_heap_size(),
            final(alloc).spec_next() >= old(alloc).spec_next(),
            r.spec_tid() == tid,
            r.spec_name() == name,
            r.spec_valid() == valid_cookie(tid),
            r.spec_entry() == entry,
            r.spec_args() == args@,
            r.wchan == 0,
            r.delay == 0,
            r.destroy == false,
            r.overflowed == false,
            r.priority == priority,
            r.state == State::Ready,
            r.spec_stack().spec_depth() == depth,
            r.spec_stack().spec_sp() == r.spec_stack().spec_base() + depth
                - INITIAL_FRAME_BYTES,
            !r.spec_is_stack_overflowed() || depth == INITIAL_FRAME_BYTES,
    {
        let stack = Stack::new(alloc, depth);
        let mut task = TaskControl {
            stack,
            args,
            entry,
            tid,
            name,
            valid: {
                proof {
                    lemma_cookie_fits(tid);
                }
                VALID_TASK + (tid & 0xFF)
            },
            wchan: 0,
            delay: 0,
            destroy: false,
            overflowed: false,
            priority,
            state: State::Embryo,
        };
        task.initialize();
        task
    }

    /// Plants the initial machine frame on the task's fresh stack and
    /// marks the task ready.  Called once, from [`TaskControl::new`].
    fn initialize(&mut self)
        requires
            old(self).spec_stack().spec_sp() == old(self).spec_stack().spec_base()
                + old(self).spec_stack().spec_depth(),
            old(self).spec_stack().spec_depth() >= INITIAL_FRAME_BYTES,
        ensures
            *final(self) == (TaskControl {
                stack: final(self).spec_stack(),
                state: State::Ready,
                ..*old(self)
            }),
            final(self).spec_stack().spec_base() == old(self).spec_stack().spec_base(),
            final(self).spec_stack().spec_depth() == old(self).spec_stack().spec_depth(),
            final(self).spec_stack().spec_sp() == old(self).spec_stack().spec_sp()
                - INITIAL_FRAME_BYTES,
    {
        self.stack.initialize();
        self.state = State::Ready;
    }

    /// True iff the saved stack pointer has descended to or below the
    /// stack base.
    pub open spec fn spec_is_stack_overflowed(&self) -> bool {
        self.spec_stack().spec_sp() <= self.spec_stack().spec_base()
    }

    /// Checks whether the stack has gone past its bounds; a true result
    /// means memory may already be corrupt.
    pub fn is_stack_overflowed(&self) -> (r: bool)
        ensures
            r == self.spec_is_stack_overflowed(),
    {
        self.stack.check_overflow()
    }

    /// The task's id.
    pub fn tid(&self) -> (r: usize)
        ensures
            r == self.spec_tid(),
    {
        self.tid
    }

    /// The task's static name.
    pub fn name(&self) -> (r: &'static str)
        ensures
            r == self.spec_name(),
    {
        self.name
    }

    /// The size of the task's stack in bytes.
    pub fn stack_size(&self) -> (r: usize)
        ensures
            r == self.spec_stack().spec_depth(),
    {
        self.stack.depth()
    }

    /// True iff the task's validity cookie is the live cookie for its
    /// id.
    pub open spec fn spec_is_valid(&self) -> bool {
        self.spec_valid() == valid_cookie(self.spec_tid())
    }

    /// Checks the validity cookie against the one recomputed from the
    /// task's id.
    pub fn is_valid(&self) -> (r: bool)
        ensures
            r == self.spec_is_valid(),
    {
        proof {
            lemma_cookie_fits(self.tid);
        }
        let tid_mask = self.tid & 0xFF;
        self.valid == VALID_TASK + tid_mask
    }

    /// Marks the task destroyed: sets the destroy flag and clears the
    /// validity cookie.
    pub(crate) fn mark_destroyed(&mut self)
        ensures
            *final(self) == (TaskControl {
                destroy: true,
                valid: INVALID_TASK,
                ..*old(self)
            }),
    {
        self.destroy = true;
        self.valid = INVALID_TASK;
    }
}

/// An externally held reference to a task, validated on each use.
///
/// A handle names its task by id; every accessor looks the task up in
/// the scheduler and checks the validity cookie first, so operations on
/// a destroyed task fail with `Err(())` rather than reaching a stale
/// record.  Handles are freely copyable.
#[derive(Clone, Copy, Debug)]
pub struct TaskHandle {
    /// The id of the task this handle references.
    pub tid: usize,
}

impl TaskHandle {
    /// The id of the task this handle references.
    pub open spec fn spec_tid(&self) -> usize {
        self.tid
    }

    /// Creates a handle referencing the given task record.
    pub fn new(task: &TaskControl) -> (r: Self)
        ensures
            r.spec_tid() == task.spec_tid(),
    {
        TaskHandle { tid: task.tid() }
    }

    /// Marks the referenced task for destruction; returns true if the
    /// task was still valid, false if it had already been destroyed.
    ///
    /// This does not reclaim the task at once: it sets the destroy flag
    /// and clears the validity cookie, and the next context switch that
    /// encounters the task drops it.  After this call every access
    /// through any handle to the task returns `Err(())`.
    pub fn destroy(&self, sched: &mut Scheduler) -> (r: bool)
        requires
            old(sched).wf(),
        ensures
            final(sched).wf(),
            crate::sched::destroy_transition(*old(sched), *final(sched), self.spec_tid(), r),
            r == old(sched).spec_handle_valid(self.spec_tid()),
    {
        sched.destroy_by_tid(self.tid)
    }

    /// The referenced task's id, or `Err(())` if the task has been
    /// destroyed.
    pub fn tid(&self, sched: &Scheduler) -> (r: Result<usize, ()>)
        requires
            sched.wf(),
        ensures
            r == if sched.spec_handle_valid(self.spec_tid()) {
                Result::<usize, ()>::Ok(self.spec_tid())
            } else {
                Result::<usize, ()>::Err(())
            },
    {
        match sched.find_task(self.tid) {
            Some(task) => {
                if task.is_valid() {
                    Ok(task.tid())
                } else {
                    Err(())
                }
            },
            None => Err(()),
        }
    }

    /// The referenced task's priority, or `Err(())` if the task has been
    /// destroyed.
    pub fn priority(&self, sched: &Scheduler) -> (r: Result<Priority, ()>)
        requires
            sched.wf(),
        ensures
            r == if sched.spec_handle_valid(self.spec_tid()) {
                Result::<Priority, ()>::Ok(sched.spec_task_with_tid(self.spec_tid()).priority)
            } else {
                Result::<Priority, ()>::Err(())
            },
    {
        match sched.find_task(self.tid) {
            Some(task) => {
                if task.is_valid() {
                    Ok(task.priority)
                } else {
                    Err(())
                }
            },
            None => Err(()),
        }
    }

    /// The referenced task's state, or `Err(())` if the task has been
    /// destroyed.
    pub fn state(&self, sched: &Scheduler) -> (r: Result<State, ()>)
        requires
            sched.wf(),
        ensures
            r == if sched.spec_handle_valid(self.spec_tid()) {
                Result::<State, ()>::Ok(sched.spec_task_with_tid(self.spec_tid()).state)
            } else {
                Result::<State, ()>::Err(())
            },
    {
        match sched.find_task(self.tid) {
            Some(task) => {
                if task.is_valid() {
                    Ok(task.state)
                } else {
                    Err(())
                }
            },
            None => Err(()),
        }
    }

    /// The referenced task's name, or `Err(())` if the task has been
    /// destroyed.
    pub fn name(&self, sched: &Scheduler) -> (r: Result<&'static str, ()>)
        requires
            sched.wf(),
        ensures
            r == if sched.spec_handle_valid(self.spec_tid()) {
                Result::<&'static str, ()>::Ok(
                    sched.spec_task_with_tid(self.spec_tid()).spec_name(),
                )
            } else {
                Result::<&'static str, ()>::Err(())
            },
    {
        match sched.find_task(self.tid) {
            Some(task) => {
                if task.is_valid() {
                    Ok(task.name())
                } else {
                    Err(())
                }
            },
            None => Err(()),
        }
    }

    /// The referenced task's stack size, or `Err(())` if the task has
    /// been destroyed.
    pub fn stack_size(&self, sched: &Scheduler) -> (r: Result<usize, ()>)
        requires
            sched.wf(),
        ensures
            r == if sched.spec_handle_valid(self.spec_tid()) {
                Result::<usize, ()>::Ok(
                    sched.spec_task_with_tid(self.spec_tid()).spec_stack().spec_depth(),
                )
            } else {
                Result::<usize, ()>::Err(())
            },
    {
        match sched.find_task(self.tid) {
            Some(task) => {
                if task.is_valid() {
                    Ok(task.stack_size())
                } else {
                    Err(())
                }
            },
            None => Err(()),
        }
    }
}

} // verus!
