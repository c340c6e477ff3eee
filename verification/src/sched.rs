//! The scheduler: every piece of kernel state, and the operations that
//! move tasks between the ready, delay and overflow-delay queues and the
//! running slot.
//!
//! The state that a bare-metal kernel keeps in process-wide globals is
//! held here in one explicit [`Scheduler`] value, serialized by the
//! port's critical sections.  Its well-formedness invariant pins the
//! resting places of tasks: a task id occurs at most once across all
//! queues and the running slot; every task in a ready queue is `Ready`
//! and sits in the queue of its own priority; every task in a delay
//! queue is `Blocked`, and it sits in the overflow-delay queue exactly
//! when its wakeup deadline wrapped the tick counter.

use vstd::prelude::*;

use crate::args::Args;
use crate::heap::{spec_round_up, BumpAllocator};
use crate::queue::{drop_by, keep_by, Queue};
use crate::stack::INITIAL_FRAME_BYTES;
use crate::task::{Priority, State, TaskControl, TaskHandle, INVALID_TASK};
use crate::time::Tick;
use crate::NUM_PRIORITIES;

verus! {

/// How many tasks in `q` carry the id `tid`.
pub open spec fn seq_cnt(q: Seq<TaskControl>, tid: usize) -> nat
    decreases q.len(),
{
    if q.len() == 0 {
        0
    } else {
        seq_cnt(q.drop_last(), tid) + if q.last().spec_tid() == tid {
            1nat
        } else {
            0nat
        }
    }
}

/// True iff some task in `q` carries the id `tid`.
pub open spec fn tid_in(q: Seq<TaskControl>, tid: usize) -> bool {
    exists|j: int| 0 <= j < q.len() && (#[trigger] q[j]).spec_tid() == tid
}

/// A position in `q` of a task carrying the id `tid`.
pub open spec fn idx_in(q: Seq<TaskControl>, tid: usize) -> int {
    choose|j: int| 0 <= j < q.len() && (#[trigger] q[j]).spec_tid() == tid
}

/// The task in `q` carrying the id `tid`.
pub open spec fn task_in(q: Seq<TaskControl>, tid: usize) -> TaskControl {
    q[idx_in(q, tid)]
}

/// True iff every task id in `q` is below `bound`.
pub open spec fn tids_below(q: Seq<TaskControl>, bound: usize) -> bool {
    forall|j: int| 0 <= j < q.len() ==> (#[trigger] q[j]).spec_tid() < bound
}

/// True iff every task in `q` is `Ready` and belongs to the priority
/// with queue index `i`.
pub open spec fn ready_queue_ok(q: Seq<TaskControl>, i: int) -> bool {
    forall|j: int|
        0 <= j < q.len() ==> (#[trigger] q[j]).priority.spec_index() == i && q[j].state
            == State::Ready
}

/// True iff every task in `q` is `Blocked` with the given overflow flag.
pub open spec fn blocked_queue_ok(q: Seq<TaskControl>, ovf: bool) -> bool {
    forall|j: int|
        0 <= j < q.len() ==> (#[trigger] q[j]).state == State::Blocked && q[j].overflowed == ovf
}

/// The running slot as a sequence of zero or one tasks.
pub open spec fn opt_seq(c: Option<TaskControl>) -> Seq<TaskControl> {
    match c {
        Some(t) => seq![t],
        None => Seq::empty(),
    }
}

/// `t` marked for destruction: the destroy flag set and the validity
/// cookie cleared, everything else untouched.
pub open spec fn marked_destroyed(t: TaskControl) -> TaskControl {
    TaskControl { destroy: true, valid: INVALID_TASK, ..t }
}

/// `q` with the task carrying `tid`, if any, marked for destruction.
pub open spec fn destroy_in(q: Seq<TaskControl>, tid: usize) -> Seq<TaskControl> {
    if tid_in(q, tid) {
        q.update(idx_in(q, tid), marked_destroyed(q[idx_in(q, tid)]))
    } else {
        q
    }
}

/// Appending a task adds one to the count of its own id and nothing to
/// any other.
pub proof fn lemma_cnt_push(q: Seq<TaskControl>, t: TaskControl, tid: usize)
    ensures
        seq_cnt(q.push(t), tid) == seq_cnt(q, tid) + if t.spec_tid() == tid {
            1nat
        } else {
            0nat
        },
{
    assert(q.push(t).drop_last() =~= q);
}

/// Removing the task at `i` takes one from the count of its id and
/// nothing from any other.
pub proof fn lemma_cnt_remove(q: Seq<TaskControl>, i: int, tid: usize)
    requires
        0 <= i < q.len(),
    ensures
        seq_cnt(q.remove(i), tid) == seq_cnt(q, tid) - if q[i].spec_tid() == tid {
            1nat
        } else {
            0nat
        },
    decreases q.len(),
{
    if i == q.len() - 1 {
        assert(q.remove(i) =~= q.drop_last());
    } else {
        assert(q.remove(i).drop_last() =~= q.drop_last().remove(i));
        assert(q.remove(i).last() == q.last());
        lemma_cnt_remove(q.drop_last(), i, tid);
    }
}

/// Replacing the task at `i` moves a count from the old id to the new.
pub proof fn lemma_cnt_update(q: Seq<TaskControl>, i: int, t: TaskControl, tid: usize)
    requires
        0 <= i < q.len(),
    ensures
        seq_cnt(q.update(i, t), tid) == seq_cnt(q, tid) - (if q[i].spec_tid() == tid {
            1nat
        } else {
            0nat
        }) + (if t.spec_tid() == tid {
            1nat
        } else {
            0nat
        }),
    decreases q.len(),
{
    if i == q.len() - 1 {
        assert(q.update(i, t).drop_last() =~= q.drop_last());
        assert(q.update(i, t).last() == t);
    } else {
        assert(q.update(i, t).drop_last() =~= q.drop_last().update(i, t));
        assert(q.update(i, t).last() == q.last());
        lemma_cnt_update(q.drop_last(), i, t, tid);
    }
}

/// A task id occurs in `q` exactly when its count is positive.
pub proof fn lemma_cnt_in(q: Seq<TaskControl>, tid: usize)
    ensures
        tid_in(q, tid) <==> seq_cnt(q, tid) > 0,
    decreases q.len(),
{
    if q.len() > 0 {
        lemma_cnt_in(q.drop_last(), tid);
        if q.last().spec_tid() == tid {
            assert(q[q.len() - 1].spec_tid() == tid);
        }
        if tid_in(q, tid) && q.last().spec_tid() != tid {
            let j = choose|j: int| 0 <= j < q.len() && (#[trigger] q[j]).spec_tid() == tid;
            assert(q.drop_last()[j] == q[j]);
        }
        if tid_in(q.drop_last(), tid) {
            let j = idx_in(q.drop_last(), tid);
            assert(0 <= j < q.len() && q[j].spec_tid() == tid);
        }
    }
}

/// Two positions carrying the same id force a count of at least two.
pub proof fn lemma_cnt_two(q: Seq<TaskControl>, tid: usize, j1: int, j2: int)
    requires
        0 <= j1 < j2 < q.len(),
        q[j1].spec_tid() == tid,
        q[j2].spec_tid() == tid,
    ensures
        seq_cnt(q, tid) >= 2,
    decreases q.len(),
{
    if j2 == q.len() - 1 {
        lemma_cnt_in(q.drop_last(), tid);
        assert(q.drop_last()[j1].spec_tid() == tid);
    } else {
        assert(q.drop_last()[j1] == q[j1]);
        assert(q.drop_last()[j2] == q[j2]);
        lemma_cnt_two(q.drop_last(), tid, j1, j2);
    }
}

/// In a queue whose count of `tid` is at most one, any two positions
/// carrying `tid` coincide; in particular any found position is the
/// chosen one.
pub proof fn lemma_cnt_unique(q: Seq<TaskControl>, tid: usize, j: int)
    requires
        seq_cnt(q, tid) <= 1,
        0 <= j < q.len(),
        q[j].spec_tid() == tid,
    ensures
        tid_in(q, tid),
        idx_in(q, tid) == j,
        task_in(q, tid) == q[j],
{
    assert(tid_in(q, tid));
    let j2 = idx_in(q, tid);
    if j < j2 {
        lemma_cnt_two(q, tid, j, j2);
    } else if j2 < j {
        lemma_cnt_two(q, tid, j2, j);
    }
}

/// A bound on every id in `q` empties the count of any id at or above
/// it.
pub proof fn lemma_cnt_bounded(q: Seq<TaskControl>, bound: usize, tid: usize)
    requires
        tids_below(q, bound),
        tid >= bound,
    ensures
        seq_cnt(q, tid) == 0,
{
    lemma_cnt_in(q, tid);
}

/// When every id count is at most one, an id present in one container
/// is absent from every other.
pub proof fn lemma_unique_location(s: Scheduler, tid: usize)
    requires
        forall|t2: usize| #[trigger] s.spec_task_count(t2) <= 1,
    ensures
        seq_cnt(s.spec_ready(0), tid) <= 1,
        seq_cnt(s.spec_ready(1), tid) <= 1,
        seq_cnt(s.spec_ready(2), tid) <= 1,
        seq_cnt(s.spec_ready(3), tid) <= 1,
        seq_cnt(s.spec_delay(), tid) <= 1,
        seq_cnt(s.spec_overflow(), tid) <= 1,
        seq_cnt(opt_seq(s.spec_current()), tid) <= 1,
        tid_in(s.spec_ready(0), tid) ==> s.spec_only_in(tid, 0),
        tid_in(s.spec_ready(1), tid) ==> s.spec_only_in(tid, 1),
        tid_in(s.spec_ready(2), tid) ==> s.spec_only_in(tid, 2),
        tid_in(s.spec_ready(3), tid) ==> s.spec_only_in(tid, 3),
        tid_in(s.spec_delay(), tid) ==> s.spec_only_in(tid, 4),
        tid_in(s.spec_overflow(), tid) ==> s.spec_only_in(tid, 5),
        tid_in(opt_seq(s.spec_current()), tid) ==> s.spec_only_in(tid, 6),
{
    assert(s.spec_task_count(tid) <= 1);
    lemma_cnt_in(s.spec_ready(0), tid);
    lemma_cnt_in(s.spec_ready(1), tid);
    lemma_cnt_in(s.spec_ready(2), tid);
    lemma_cnt_in(s.spec_ready(3), tid);
    lemma_cnt_in(s.spec_delay(), tid);
    lemma_cnt_in(s.spec_overflow(), tid);
    lemma_cnt_in(opt_seq(s.spec_current()), tid);
}


/// A bound on every id in `q` also holds for any larger bound.
pub proof fn lemma_tids_below_mono(q: Seq<TaskControl>, b1: usize, b2: usize)
    requires
        tids_below(q, b1),
        b1 <= b2,
    ensures
        tids_below(q, b2),
{
    assert forall|j: int| 0 <= j < q.len() implies (#[trigger] q[j]).spec_tid() < b2 by {
        assert(q[j].spec_tid() < b1);
    }
}

/// A scheduler with the same tasks in the same places as a well-formed
/// one, an id bound no smaller, and a well-formed heap is itself
/// well-formed.
pub proof fn lemma_wf_same_tasks(a: Scheduler, b: Scheduler)
    requires
        a.wf(),
        b.spec_queue_count() == a.spec_queue_count(),
        forall|i: int| 0 <= i < NUM_PRIORITIES ==> #[trigger] b.spec_ready(i) == a.spec_ready(i),
        b.spec_delay() == a.spec_delay(),
        b.spec_overflow() == a.spec_overflow(),
        b.spec_current() == a.spec_current(),
        b.spec_next_tid() >= a.spec_next_tid(),
        b.spec_alloc().wf(),
    ensures
        b.wf(),
{
    assert forall|i: int| 0 <= i < NUM_PRIORITIES implies ready_queue_ok(
        #[trigger] b.spec_ready(i),
        i,
    ) by {
        assert(ready_queue_ok(a.spec_ready(i), i));
    }
    assert forall|t2: usize| #[trigger] b.spec_task_count(t2) <= 1 by {
        assert(b.spec_ready(0) == a.spec_ready(0));
        assert(b.spec_ready(1) == a.spec_ready(1));
        assert(b.spec_ready(2) == a.spec_ready(2));
        assert(b.spec_ready(3) == a.spec_ready(3));
        assert(a.spec_task_count(t2) <= 1);
    }
    assert forall|i: int| 0 <= i < NUM_PRIORITIES implies tids_below(
        #[trigger] b.spec_ready(i),
        b.spec_next_tid(),
    ) by {
        lemma_tids_below_mono(a.spec_ready(i), a.spec_next_tid(), b.spec_next_tid());
    }
    lemma_tids_below_mono(a.spec_delay(), a.spec_next_tid(), b.spec_next_tid());
    lemma_tids_below_mono(a.spec_overflow(), a.spec_next_tid(), b.spec_next_tid());
    lemma_tids_below_mono(opt_seq(a.spec_current()), a.spec_next_tid(), b.spec_next_tid());
}

/// True iff every task in `q` is marked for destruction.
pub open spec fn all_destroyed(q: Seq<TaskControl>) -> bool {
    forall|j: int| 0 <= j < q.len() ==> (#[trigger] q[j]).destroy
}

/// `t` with its state set to `Ready`, everything else untouched.
pub open spec fn ready_version(t: TaskControl) -> TaskControl {
    TaskControl { state: State::Ready, ..t }
}

/// `t` with its state set to `Running`, everything else untouched.
pub open spec fn running_version(t: TaskControl) -> TaskControl {
    TaskControl { state: State::Running, ..t }
}

/// The ready queue with index `k` after the outgoing task has been put
/// back: a live, non-blocked outgoing task is appended, as `Ready`, to
/// the queue of its own priority.
pub open spec fn requeued_ready(pre: Scheduler, k: int) -> Seq<TaskControl> {
    match pre.spec_current() {
        Some(out) => if !out.destroy && out.state != State::Blocked && out.priority.spec_index()
            == k {
            pre.spec_ready(k).push(ready_version(out))
        } else {
            pre.spec_ready(k)
        },
        None => pre.spec_ready(k),
    }
}

/// The delay queue after the outgoing task has been put back: a live,
/// blocked outgoing task whose deadline did not wrap is appended.
pub open spec fn requeued_delay(pre: Scheduler) -> Seq<TaskControl> {
    match pre.spec_current() {
        Some(out) => if !out.destroy && out.state == State::Blocked && !out.overflowed {
            pre.spec_delay().push(out)
        } else {
            pre.spec_delay()
        },
        None => pre.spec_delay(),
    }
}

/// The overflow-delay queue after the outgoing task has been put back:
/// a live, blocked outgoing task whose deadline wrapped is appended.
pub open spec fn requeued_overflow(pre: Scheduler) -> Seq<TaskControl> {
    match pre.spec_current() {
        Some(out) => if !out.destroy && out.state == State::Blocked && out.overflowed {
            pre.spec_overflow().push(out)
        } else {
            pre.spec_overflow()
        },
        None => pre.spec_overflow(),
    }
}

/// One of four ready queues, picked by index.
pub open spec fn pick(
    m0: Seq<TaskControl>,
    m1: Seq<TaskControl>,
    m2: Seq<TaskControl>,
    m3: Seq<TaskControl>,
    k: int,
) -> Seq<TaskControl> {
    if k == 0 {
        m0
    } else if k == 1 {
        m1
    } else if k == 2 {
        m2
    } else {
        m3
    }
}

/// How the context switch selected the next running task from the
/// requeued ready queues `m0..m3`: the task at position `j` of queue
/// `i` is the first live task in priority order — every task in a
/// higher-priority queue and every task ahead of it in its own queue
/// was marked destroyed and has been dropped — and it is installed as
/// the running task.
pub open spec fn selected_from(
    m0: Seq<TaskControl>,
    m1: Seq<TaskControl>,
    m2: Seq<TaskControl>,
    m3: Seq<TaskControl>,
    post: Scheduler,
    i: int,
    j: int,
) -> bool {
    &&& 0 <= i < NUM_PRIORITIES
    &&& 0 <= j < pick(m0, m1, m2, m3, i).len()
    &&& !pick(m0, m1, m2, m3, i)[j].destroy
    &&& forall|j2: int| 0 <= j2 < j ==> (#[trigger] pick(m0, m1, m2, m3, i)[j2]).destroy
    &&& forall|k: int| 0 <= k < i ==> all_destroyed(#[trigger] pick(m0, m1, m2, m3, k))
    &&& post.spec_current() == Some(running_version(pick(m0, m1, m2, m3, i)[j]))
    &&& forall|k: int| 0 <= k < i ==> (#[trigger] post.spec_ready(k)).len() == 0
    &&& post.spec_ready(i) == pick(m0, m1, m2, m3, i).skip(j + 1)
    &&& forall|k: int|
        i < k < NUM_PRIORITIES ==> #[trigger] post.spec_ready(k) == pick(m0, m1, m2, m3, k)
}

/// True iff some ready queue holds a task not marked for destruction.
pub open spec fn has_live_ready(pre: Scheduler) -> bool {
    exists|i: int, j: int|
        0 <= i < NUM_PRIORITIES && 0 <= j < pre.spec_ready(i).len() && !(#[trigger] pre.spec_ready(
            i,
        )[j]).destroy
}

/// Dropping the head of a queue keeps residency facts and removes one
/// count of the head's id.
proof fn lemma_drop_first_facts(q: Seq<TaskControl>)
    requires
        q.len() > 0,
    ensures
        forall|i: int| ready_queue_ok(q, i) ==> ready_queue_ok(#[trigger] q.drop_first(), i),
        forall|b: usize| tids_below(q, b) ==> tids_below(#[trigger] q.drop_first(), b),
        forall|t2: usize|
            seq_cnt(#[trigger] q.drop_first(), t2) == seq_cnt(q, t2) - if q[0].spec_tid() == t2 {
                1nat
            } else {
                0nat
            },
{
    assert(q.drop_first() =~= q.remove(0));
    assert forall|t2: usize|
        seq_cnt(#[trigger] q.drop_first(), t2) == seq_cnt(q, t2) - (if q[0].spec_tid() == t2 {
            1nat
        } else {
            0nat
        }) by {
        lemma_cnt_remove(q, 0, t2);
    }
    assert forall|i: int| ready_queue_ok(q, i) implies ready_queue_ok(
        #[trigger] q.drop_first(),
        i,
    ) by {
        assert forall|j: int| 0 <= j < q.drop_first().len() implies (#[trigger] q.drop_first()[j])
            .priority.spec_index() == i && q.drop_first()[j].state == State::Ready by {
            assert(q.drop_first()[j] == q[j + 1]);
        }
    }
    assert forall|b: usize| tids_below(q, b) implies tids_below(#[trigger] q.drop_first(), b) by {
        assert forall|j: int| 0 <= j < q.drop_first().len() implies (#[trigger] q.drop_first()[j])
            .spec_tid() < b by {
            assert(q.drop_first()[j] == q[j + 1]);
        }
    }
}

/// How many tasks across the four ready queues of `s` carry the id
/// `tid`.
pub open spec fn spec_ready_cnt_of(s: Scheduler, tid: usize) -> nat {
    seq_cnt(s.spec_ready(0), tid) + seq_cnt(s.spec_ready(1), tid) + seq_cnt(s.spec_ready(2), tid)
        + seq_cnt(s.spec_ready(3), tid)
}

/// `t` as it wakes: back on no channel and ready to run.
pub open spec fn awakened(t: TaskControl) -> TaskControl {
    TaskControl { wchan: 0, state: State::Ready, ..t }
}

/// `t` as it wakes from an elapsed delay: channel and deadline cleared,
/// ready to run.
pub open spec fn awakened_due(t: TaskControl) -> TaskControl {
    TaskControl { wchan: 0, delay: 0, state: State::Ready, ..t }
}

/// `t` with its overflow flag cleared, as when the tick counter wraps.
pub open spec fn overflow_cleared(t: TaskControl) -> TaskControl {
    TaskControl { overflowed: false, ..t }
}

/// Which positions of `q` sleep on the wait channel `wchan`.
pub open spec fn chan_sel(q: Seq<TaskControl>, wchan: usize) -> Seq<bool> {
    Seq::new(q.len(), |i: int| q[i].wchan == wchan)
}

/// Which positions of `q` are pure time sleepers due at tick `now`.
pub open spec fn due_sel(q: Seq<TaskControl>, now: usize) -> Seq<bool> {
    Seq::new(q.len(), |i: int| q[i].delay <= now && q[i].wchan == crate::syscall::FOREVER_CHAN)
}

/// Which positions of `q` belong to the priority with queue index `k`.
pub open spec fn prio_sel(q: Seq<TaskControl>, k: int) -> Seq<bool> {
    Seq::new(q.len(), |i: int| q[i].priority.spec_index() == k)
}

/// The tasks of `q` that belong to the priority with queue index `k`,
/// in order.
pub open spec fn keep_prio(q: Seq<TaskControl>, k: int) -> Seq<TaskControl> {
    keep_by(q, prio_sel(q, k))
}

/// What remains of a delay queue after `wake(wchan)`: the tasks not
/// sleeping on that channel, in order.
pub open spec fn remaining_after_wake(q: Seq<TaskControl>, wchan: usize) -> Seq<TaskControl> {
    drop_by(q, chan_sel(q, wchan))
}

/// The tasks `wake(wchan)` moves to the ready queues: the sleepers on
/// that channel from the delay queue, then those from the
/// overflow-delay queue, each awakened.
pub open spec fn woken_by_chan(pre: Scheduler, wchan: usize) -> Seq<TaskControl> {
    (keep_by(pre.spec_delay(), chan_sel(pre.spec_delay(), wchan)) + keep_by(
        pre.spec_overflow(),
        chan_sel(pre.spec_overflow(), wchan),
    )).map_values(|t: TaskControl| awakened(t))
}

/// The tick the counter shows after the next system tick.
pub open spec fn next_now(pre: Scheduler) -> usize {
    vstd::wrapping::usize_specs::wrapping_add(pre.spec_clock().spec_ticks(), 1)
}

/// The tasks a system tick wakes: the pure time sleepers in the delay
/// queue whose deadline has passed, each awakened with its deadline
/// cleared.
pub open spec fn woken_due(pre: Scheduler) -> Seq<TaskControl> {
    keep_by(pre.spec_delay(), due_sel(pre.spec_delay(), next_now(pre))).map_values(
        |t: TaskControl| awakened_due(t),
    )
}

/// The delay queue after a system tick: the sleepers not yet due, and —
/// when the tick counter has just wrapped past its maximum — the whole
/// overflow-delay queue appended with overflow flags cleared.
pub open spec fn due_moved_delay(pre: Scheduler) -> Seq<TaskControl> {
    let kept = drop_by(pre.spec_delay(), due_sel(pre.spec_delay(), next_now(pre)));
    if pre.spec_clock().spec_ticks() == usize::MAX {
        kept + pre.spec_overflow().map_values(|t: TaskControl| overflow_cleared(t))
    } else {
        kept
    }
}

/// The overflow-delay queue after a system tick: empty when the tick
/// counter has just wrapped past its maximum, untouched otherwise.
pub open spec fn due_moved_overflow(pre: Scheduler) -> Seq<TaskControl> {
    if pre.spec_clock().spec_ticks() == usize::MAX {
        Seq::empty()
    } else {
        pre.spec_overflow()
    }
}

/// The current task as a sleep call leaves it: blocked on the given
/// channel with its deadline `delay` ticks from now, and marked
/// overflowed exactly when that deadline wrapped the counter.
pub open spec fn blocked_until(pre: Scheduler, wchan: usize, delay: usize) -> TaskControl {
    let t = match pre.spec_current() {
        Some(t) => t,
        None => arbitrary(),
    };
    let target = vstd::wrapping::usize_specs::wrapping_add(
        pre.spec_clock().spec_ticks(),
        delay,
    );
    TaskControl {
        wchan,
        delay: target,
        state: State::Blocked,
        overflowed: pre.spec_clock().spec_ticks() + delay > usize::MAX,
        ..t
    }
}

/// The count of an id over a concatenation is the sum over the parts.
pub proof fn lemma_cnt_concat(a: Seq<TaskControl>, b: Seq<TaskControl>, tid: usize)
    ensures
        seq_cnt(a + b, tid) == seq_cnt(a, tid) + seq_cnt(b, tid),
    decreases b.len(),
{
    if b.len() == 0 {
        assert(a + b =~= a);
    } else {
        assert((a + b).drop_last() =~= a + b.drop_last());
        assert((a + b).last() == b.last());
        lemma_cnt_concat(a, b.drop_last(), tid);
    }
}

/// A map that keeps task ids keeps every id count.
pub proof fn lemma_cnt_map_tid(
    q: Seq<TaskControl>,
    f: spec_fn(TaskControl) -> TaskControl,
    tid: usize,
)
    requires
        forall|t: TaskControl| (#[trigger] f(t)).spec_tid() == t.spec_tid(),
    ensures
        seq_cnt(q.map_values(f), tid) == seq_cnt(q, tid),
    decreases q.len(),
{
    if q.len() > 0 {
        assert(q.map_values(f).drop_last() =~= q.drop_last().map_values(f));
        assert(q.map_values(f).last() == f(q.last()));
        lemma_cnt_map_tid(q.drop_last(), f, tid);
    }
}

/// The two halves of a partition split every id count.
pub proof fn lemma_partition_cnt(q: Seq<TaskControl>, sel: Seq<bool>, tid: usize)
    requires
        q.len() == sel.len(),
    ensures
        seq_cnt(keep_by(q, sel), tid) + seq_cnt(drop_by(q, sel), tid) == seq_cnt(q, tid),
    decreases q.len(),
{
    if q.len() > 0 {
        let q0 = q.drop_last();
        let sel0 = sel.drop_last();
        lemma_partition_cnt(q0, sel0, tid);
        assert(q0.push(q.last()) =~= q);
        assert(sel0.push(sel.last()) =~= sel);
        crate::queue::lemma_partition_push(q0, sel0, q.last(), sel.last());
        if sel.last() {
            lemma_cnt_push(keep_by(q0, sel0), q.last(), tid);
        } else {
            lemma_cnt_push(drop_by(q0, sel0), q.last(), tid);
        }
    }
}

/// Every element the kept half holds comes from the original queue.
pub proof fn lemma_keep_by_element(q: Seq<TaskControl>, sel: Seq<bool>, j: int)
    requires
        q.len() == sel.len(),
        0 <= j < keep_by(q, sel).len(),
    ensures
        exists|i: int| 0 <= i < q.len() && #[trigger] q[i] == keep_by(q, sel)[j],
    decreases q.len(),
{
    let q0 = q.drop_last();
    let sel0 = sel.drop_last();
    if sel.last() && j == keep_by(q, sel).len() - 1 {
        assert(keep_by(q, sel)[j] == q.last());
        assert(q[q.len() - 1] == keep_by(q, sel)[j]);
    } else {
        lemma_keep_by_element(q0, sel0, j);
        let i = choose|i: int| 0 <= i < q0.len() && #[trigger] q0[i] == keep_by(q0, sel0)[j];
        assert(q[i] == keep_by(q, sel)[j]);
    }
}

/// Every element the dropped half holds comes from the original queue.
pub proof fn lemma_drop_by_element(q: Seq<TaskControl>, sel: Seq<bool>, j: int)
    requires
        q.len() == sel.len(),
        0 <= j < drop_by(q, sel).len(),
    ensures
        exists|i: int| 0 <= i < q.len() && #[trigger] q[i] == drop_by(q, sel)[j],
    decreases q.len(),
{
    let q0 = q.drop_last();
    let sel0 = sel.drop_last();
    if !sel.last() && j == drop_by(q, sel).len() - 1 {
        assert(drop_by(q, sel)[j] == q.last());
        assert(q[q.len() - 1] == drop_by(q, sel)[j]);
    } else {
        lemma_drop_by_element(q0, sel0, j);
        let i = choose|i: int| 0 <= i < q0.len() && #[trigger] q0[i] == drop_by(q0, sel0)[j];
        assert(q[i] == drop_by(q, sel)[j]);
    }
}


/// Consumes a queue of sleepers and returns them awakened, in order.
fn mark_awakened(q: Queue<TaskControl>) -> (r: Queue<TaskControl>)
    ensures
        r@ == q@.map_values(|t: TaskControl| awakened(t)),
{
    let ghost ws = q@;
    let mut rest = q;
    let mut out: Queue<TaskControl> = Queue::new();
    let ghost mut p: int = 0;
    loop
        invariant
            0 <= p <= ws.len(),
            rest@ == ws.skip(p),
            out@ == ws.take(p).map_values(|t: TaskControl| awakened(t)),
        ensures
            p == ws.len(),
        decreases rest@.len(),
    {
        match rest.dequeue() {
            Some(n) => {
                let mut node = *n;
                node.data.wchan = 0;
                node.data.state = State::Ready;
                proof {
                    assert(ws.skip(p)[0] == ws[p]);
                    assert(node.data == awakened(ws[p]));
                    assert(rest@ =~= ws.skip(p + 1));
                }
                out.enqueue(Box::new(node));
                proof {
                    assert(ws.take(p + 1) =~= ws.take(p).push(ws[p]));
                    assert(out@ =~= ws.take(p + 1).map_values(|t: TaskControl| awakened(t)));
                    p = p + 1;
                }
            },
            None => {
                proof {
                    assert(ws.skip(p).len() == 0);
                }
                break ;
            },
        }
    }
    proof {
        assert(ws.take(ws.len() as int) =~= ws);
    }
    out
}

/// Consumes a queue of due time sleepers and returns them awakened with
/// their deadlines cleared, in order.
fn mark_awakened_due(q: Queue<TaskControl>) -> (r: Queue<TaskControl>)
    ensures
        r@ == q@.map_values(|t: TaskControl| awakened_due(t)),
{
    let ghost ws = q@;
    let mut rest = q;
    let mut out: Queue<TaskControl> = Queue::new();
    let ghost mut p: int = 0;
    loop
        invariant
            0 <= p <= ws.len(),
            rest@ == ws.skip(p),
            out@ == ws.take(p).map_values(|t: TaskControl| awakened_due(t)),
        ensures
            p == ws.len(),
        decreases rest@.len(),
    {
        match rest.dequeue() {
            Some(n) => {
                let mut node = *n;
                node.data.wchan = 0;
                node.data.state = State::Ready;
                node.data.delay = 0;
                proof {
                    assert(ws.skip(p)[0] == ws[p]);
                    assert(node.data == awakened_due(ws[p]));
                    assert(rest@ =~= ws.skip(p + 1));
                }
                out.enqueue(Box::new(node));
                proof {
                    assert(ws.take(p + 1) =~= ws.take(p).push(ws[p]));
                    assert(out@ =~= ws.take(p + 1).map_values(
                        |t: TaskControl| awakened_due(t),
                    ));
                    p = p + 1;
                }
            },
            None => {
                proof {
                    assert(ws.skip(p).len() == 0);
                }
                break ;
            },
        }
    }
    proof {
        assert(ws.take(ws.len() as int) =~= ws);
    }
    out
}

/// The tasks the wakeup pass moves to the ready queues: the pure time
/// sleepers in the delay queue whose deadline has passed at the current
/// tick, each awakened with its deadline cleared.
pub open spec fn alarm_woken(pre: Scheduler) -> Seq<TaskControl> {
    keep_by(
        pre.spec_delay(),
        due_sel(pre.spec_delay(), pre.spec_clock().spec_ticks()),
    ).map_values(|t: TaskControl| awakened_due(t))
}

/// The delay queue after the wakeup pass: the sleepers not yet due,
/// and — when the tick counter reads zero, as it does right after
/// wrapping its maximum — the whole overflow-delay queue appended with
/// overflow flags cleared.
pub open spec fn alarm_moved_delay(pre: Scheduler) -> Seq<TaskControl> {
    let kept = drop_by(
        pre.spec_delay(),
        due_sel(pre.spec_delay(), pre.spec_clock().spec_ticks()),
    );
    if pre.spec_clock().spec_ticks() == 0 {
        kept + pre.spec_overflow().map_values(|t: TaskControl| overflow_cleared(t))
    } else {
        kept
    }
}

/// The overflow-delay queue after the wakeup pass: empty when the tick
/// counter reads zero, untouched otherwise.
pub open spec fn alarm_moved_overflow(pre: Scheduler) -> Seq<TaskControl> {
    if pre.spec_clock().spec_ticks() == 0 {
        Seq::empty()
    } else {
        pre.spec_overflow()
    }
}

/// The wakeup pass of the tick handler: moves every pure time sleeper
/// whose deadline has passed to the ready queue of its priority, and,
/// when the tick counter has just wrapped to its minimum, moves the
/// whole overflow-delay queue back to the delay queue with overflow
/// flags cleared.
pub fn alarm_wake(sched: &mut Scheduler)
    requires
        old(sched).wf(),
    ensures
        final(sched).wf(),
        final(sched).spec_delay() == alarm_moved_delay(*old(sched)),
        final(sched).spec_overflow() == alarm_moved_overflow(*old(sched)),
        forall|k: int|
            0 <= k < NUM_PRIORITIES ==> #[trigger] final(sched).spec_ready(k) == old(
                sched,
            ).spec_ready(k) + keep_prio(alarm_woken(*old(sched)), k),
        final(sched).spec_current() == old(sched).spec_current(),
        final(sched).spec_clock() == old(sched).spec_clock(),
        final(sched).spec_pend_sv() == old(sched).spec_pend_sv(),
        final(sched).spec_next_tid() == old(sched).spec_next_tid(),
        final(sched).spec_next_wchan() == old(sched).spec_next_wchan(),
        final(sched).spec_alloc() == old(sched).spec_alloc(),
{
    let ghost pre = *old(sched);
    let now = crate::time::get_tick(&sched.clock);
    let ghost now_g = pre.spec_clock().spec_ticks();
        // wake the pure time sleepers that are due
        let pred = |t: &TaskControl| -> (r: bool)
            ensures
                r == (t.delay <= now && t.wchan == crate::syscall::FOREVER_CHAN),
            { t.delay <= now && t.wchan == crate::syscall::FOREVER_CHAN };
        let matched = sched.delay_queue.remove(pred);
        proof {
            let ds = choose|sel: Seq<bool>|
                {
                    &&& sel.len() == pre.spec_delay().len()
                    &&& matched@ == #[trigger] keep_by(pre.spec_delay(), sel)
                    &&& sched.delay_queue@ == drop_by(pre.spec_delay(), sel)
                    &&& forall|i: int|
                        0 <= i < sel.len() ==> pred.ensures((&pre.spec_delay()[i],), sel[i])
                };
            assert(ds =~= due_sel(pre.spec_delay(), now_g));
        }
        let ghost ws = matched@;
        let batch = mark_awakened_due(matched);
        proof {
            assert(batch@ == alarm_woken(pre));
            let dsel = due_sel(pre.spec_delay(), now_g);
            assert forall|j: int| 0 <= j < batch@.len() implies (#[trigger] batch@[j]).state
                == State::Ready && batch@[j].spec_tid() < pre.spec_next_tid() by {
                assert(batch@[j] == awakened_due(ws[j]));
                lemma_keep_by_element(pre.spec_delay(), dsel, j);
            }
        }
        proof {
            assert forall|i: int| 0 <= i < NUM_PRIORITIES implies ready_queue_ok(
                #[trigger] sched.spec_ready(i),
                i,
            ) by {
                assert(ready_queue_ok(pre.spec_ready(i), i));
            }
            assert forall|i: int| 0 <= i < NUM_PRIORITIES implies tids_below(
                #[trigger] sched.spec_ready(i),
                sched.spec_next_tid(),
            ) by {
                assert(tids_below(pre.spec_ready(i), pre.spec_next_tid()));
            }
        }
        sched.distribute_ready(batch);
        proof {
            let dsel = due_sel(pre.spec_delay(), now_g);
            let kd = keep_by(pre.spec_delay(), dsel);
            assert forall|j: int| 0 <= j < sched.spec_delay().len() implies (
            #[trigger] sched.spec_delay()[j]).state == State::Blocked && sched.spec_delay()[j]
                .overflowed == false && sched.spec_delay()[j].spec_tid()
                < sched.spec_next_tid() by {
                lemma_drop_by_element(pre.spec_delay(), dsel, j);
            }
            assert forall|t2: usize| #[trigger] sched.spec_task_count(t2) <= 1 by {
                lemma_partition_cnt(pre.spec_delay(), dsel, t2);
                lemma_cnt_map_tid(ws, |t: TaskControl| awakened_due(t), t2);
                assert(pre.spec_task_count(t2) <= 1);
                assert(spec_ready_cnt_of(*sched, t2) == spec_ready_cnt_of(pre, t2) + seq_cnt(
                    batch@,
                    t2,
                ));
            }
            assert(sched.wf());
        }
        // when the counter has just wrapped, the whole overflow-delay
        // queue becomes eligible again
        if now == 0 {
            let ghost s2 = *sched;
            let mut drained = sched.overflow_delay_queue.remove_all();
            let ghost dv = drained@;
            let ghost mut p: int = 0;
            loop
                invariant
                    0 <= p <= dv.len(),
                    drained@ == dv.skip(p),
                    sched.spec_overflow() == Seq::<TaskControl>::empty(),
                    sched.spec_delay() == s2.spec_delay() + dv.take(p).map_values(
                        |t: TaskControl| overflow_cleared(t),
                    ),
                    forall|k: int|
                        0 <= k < NUM_PRIORITIES ==> #[trigger] sched.spec_ready(k)
                            == s2.spec_ready(k),
                    sched.spec_current() == s2.spec_current(),
                    sched.spec_queue_count() == NUM_PRIORITIES,
                    sched.spec_next_tid() == s2.spec_next_tid(),
                    sched.spec_next_wchan() == s2.spec_next_wchan(),
                    sched.spec_alloc() == s2.spec_alloc(),
                    sched.spec_clock() == s2.spec_clock(),
                    sched.spec_pend_sv() == s2.spec_pend_sv(),
                    s2.wf(),
                    dv == pre.spec_overflow(),
                ensures
                    p == dv.len(),
                decreases drained@.len(),
            {
                let ghost before = *sched;
                match drained.dequeue() {
                    Some(n) => {
                        let mut node = *n;
                        node.data.overflowed = false;
                        proof {
                            assert(dv.skip(p)[0] == dv[p]);
                            assert(node.data == overflow_cleared(dv[p]));
                            assert(drained@ =~= dv.skip(p + 1));
                        }
                        sched.delay_queue.enqueue(Box::new(node));
                        proof {
                            assert(sched.spec_delay() =~= s2.spec_delay() + dv.take(p + 1)
                                .map_values(|t: TaskControl| overflow_cleared(t)));
                            assert forall|k2: int|
                                0 <= k2 < NUM_PRIORITIES implies #[trigger] sched.spec_ready(k2)
                                == s2.spec_ready(k2) by {
                                assert(before.spec_ready(k2) == s2.spec_ready(k2));
                            }
                            p = p + 1;
                        }
                    },
                    None => {
                        proof {
                            assert(dv.skip(p).len() == 0);
                        }
                        break ;
                    },
                }
            }
            proof {
                assert(dv.take(dv.len() as int) =~= dv);
                assert(sched.spec_delay() == s2.spec_delay() + dv.map_values(
                    |t: TaskControl| overflow_cleared(t),
                ));
                let dm = dv.map_values(|t: TaskControl| overflow_cleared(t));
                assert forall|j: int| 0 <= j < sched.spec_delay().len() implies (
                #[trigger] sched.spec_delay()[j]).state == State::Blocked && sched.spec_delay()[j]
                    .overflowed == false && sched.spec_delay()[j].spec_tid()
                    < sched.spec_next_tid() by {
                    if j < s2.spec_delay().len() {
                        assert(sched.spec_delay()[j] == s2.spec_delay()[j]);
                    } else {
                        assert(sched.spec_delay()[j] == dm[j - s2.spec_delay().len()]);
                        assert(dm[j - s2.spec_delay().len()] == overflow_cleared(
                            dv[j - s2.spec_delay().len()],
                        ));
                    }
                }
                assert forall|t2: usize| #[trigger] sched.spec_task_count(t2) <= 1 by {
                    lemma_cnt_concat(s2.spec_delay(), dm, t2);
                    lemma_cnt_map_tid(dv, |t: TaskControl| overflow_cleared(t), t2);
                    assert(s2.spec_task_count(t2) <= 1);
                }
                assert(sched.wf());
            }
        }
}

/// The stack depth the idle task is created with.
pub const IDLE_STACK_DEPTH: usize = 256;

/// The conditions under which a task with the given stack depth can be
/// created: a task id is left, the kernel heap still holds a
/// word-aligned stack of that depth, and the stack can hold the initial
/// frame.  Running out of either is fatal at task creation.
pub open spec fn can_create(s: Scheduler, stack_depth: usize) -> bool {
    &&& s.spec_next_tid() < usize::MAX
    &&& spec_round_up(s.spec_alloc().spec_next() as int, 4) + stack_depth <= s.spec_alloc()
        .spec_heap_start() + s.spec_alloc().spec_heap_size()
    &&& stack_depth >= INITIAL_FRAME_BYTES
}

/// Creates a new task and puts it at the tail of the ready queue of its
/// priority, returning a handle to monitor it with.
///
/// `entry` is the address of the task's code, as the port resolves it;
/// it is planted in the program-counter slot of the task's initial
/// frame.  The new task gets the next unused id, a freshly allocated
/// stack of `stack_depth` bytes, and the state `Ready`.
pub fn new_task(
    sched: &mut Scheduler,
    entry: usize,
    args: Args,
    stack_depth: usize,
    priority: Priority,
    name: &'static str,
) -> (h: TaskHandle)
    requires
        old(sched).wf(),
        can_create(*old(sched), stack_depth),
    ensures
        final(sched).wf(),
        h.spec_tid() == old(sched).spec_next_tid(),
        final(sched).spec_next_tid() == old(sched).spec_next_tid() + 1,
        ({
            let p = priority.spec_index();
            let q = final(sched).spec_ready(p);
            &&& q.len() == old(sched).spec_ready(p).len() + 1
            &&& q == old(sched).spec_ready(p).push(q.last())
            &&& q.last().spec_tid() == h.spec_tid()
            &&& q.last().state == State::Ready
            &&& q.last().priority == priority
            &&& q.last().spec_name() == name
            &&& q.last().spec_entry() == entry
            &&& q.last().spec_args() == args@
            &&& q.last().wchan == 0
            &&& q.last().delay == 0
            &&& !q.last().destroy
            &&& !q.last().overflowed
            &&& q.last().spec_valid() == crate::task::valid_cookie(h.spec_tid())
            &&& q.last().spec_stack().spec_depth() == stack_depth
        }),
        forall|k: int|
            0 <= k < NUM_PRIORITIES && k != priority.spec_index()
                ==> #[trigger] final(sched).spec_ready(k) == old(sched).spec_ready(k),
        final(sched).spec_delay() == old(sched).spec_delay(),
        final(sched).spec_overflow() == old(sched).spec_overflow(),
        final(sched).spec_current() == old(sched).spec_current(),
        final(sched).spec_clock() == old(sched).spec_clock(),
        final(sched).spec_pend_sv() == old(sched).spec_pend_sv(),
        final(sched).spec_next_wchan() == old(sched).spec_next_wchan(),
        final(sched).spec_handle_valid(h.spec_tid()),
{
    let tid = sched.fetch_next_tid();
    let task = TaskControl::new(&mut sched.alloc, tid, entry, args, stack_depth, priority, name);
    let handle = TaskHandle::new(&task);
    let ghost s1 = *sched;
    let ghost t = task;
    let ghost p = priority.spec_index();
    sched.enqueue_ready(task);
    proof {
        let newq = sched.spec_ready(p);
        assert(newq == s1.spec_ready(p).push(t));
        assert(newq.last() == t);
        assert forall|i2: int| 0 <= i2 < NUM_PRIORITIES implies ready_queue_ok(
            #[trigger] sched.spec_ready(i2),
            i2,
        ) by {
            assert(ready_queue_ok(old(sched).spec_ready(i2), i2));
            if i2 == p {
                assert forall|j: int| 0 <= j < newq.len() implies (#[trigger] newq[j])
                    .priority.spec_index() == i2 && newq[j].state == State::Ready by {
                    if j < newq.len() - 1 {
                        assert(newq[j] == old(sched).spec_ready(p)[j]);
                    }
                }
            }
        }
        assert forall|t2: usize| #[trigger] sched.spec_task_count(t2) <= 1 by {
            lemma_cnt_push(s1.spec_ready(p), t, t2);
            if t2 == tid {
                lemma_cnt_bounded(old(sched).spec_ready(0), tid, t2);
                lemma_cnt_bounded(old(sched).spec_ready(1), tid, t2);
                lemma_cnt_bounded(old(sched).spec_ready(2), tid, t2);
                lemma_cnt_bounded(old(sched).spec_ready(3), tid, t2);
                lemma_cnt_bounded(old(sched).spec_delay(), tid, t2);
                lemma_cnt_bounded(old(sched).spec_overflow(), tid, t2);
                lemma_cnt_bounded(opt_seq(old(sched).spec_current()), tid, t2);
            } else {
                assert(old(sched).spec_task_count(t2) <= 1);
            }
        }
        assert forall|i2: int| 0 <= i2 < NUM_PRIORITIES implies tids_below(
            #[trigger] sched.spec_ready(i2),
            sched.spec_next_tid(),
        ) by {
            lemma_tids_below_mono(
                old(sched).spec_ready(i2),
                old(sched).spec_next_tid(),
                sched.spec_next_tid(),
            );
            if i2 == p {
                assert forall|j: int| 0 <= j < newq.len() implies (#[trigger] newq[j])
                    .spec_tid() < sched.spec_next_tid() by {
                    if j < newq.len() - 1 {
                        assert(newq[j] == old(sched).spec_ready(p)[j]);
                        assert(newq[j].spec_tid() < old(sched).spec_next_tid());
                    }
                }
            }
        }
        lemma_tids_below_mono(
            old(sched).spec_delay(),
            old(sched).spec_next_tid(),
            sched.spec_next_tid(),
        );
        lemma_tids_below_mono(
            old(sched).spec_overflow(),
            old(sched).spec_next_tid(),
            sched.spec_next_tid(),
        );
        lemma_tids_below_mono(
            opt_seq(old(sched).spec_current()),
            old(sched).spec_next_tid(),
            sched.spec_next_tid(),
        );
        // the handle reaches the freshly created task
        lemma_cnt_push(s1.spec_ready(p), t, tid);
        lemma_cnt_bounded(old(sched).spec_ready(0), tid, tid);
        lemma_cnt_bounded(old(sched).spec_ready(1), tid, tid);
        lemma_cnt_bounded(old(sched).spec_ready(2), tid, tid);
        lemma_cnt_bounded(old(sched).spec_ready(3), tid, tid);
        lemma_cnt_bounded(old(sched).spec_delay(), tid, tid);
        lemma_cnt_bounded(old(sched).spec_overflow(), tid, tid);
        lemma_cnt_bounded(opt_seq(old(sched).spec_current()), tid, tid);
        lemma_cnt_in(sched.spec_ready(0), tid);
        lemma_cnt_in(sched.spec_ready(1), tid);
        lemma_cnt_in(sched.spec_ready(2), tid);
        lemma_cnt_in(sched.spec_ready(3), tid);
        lemma_cnt_unique(newq, tid, newq.len() - 1);
    }
    handle
}

/// Creates the idle task: the always-present task at the lowest
/// priority that the scheduler falls back to when nothing else is
/// ready.  `entry` is the address of the port's idle loop.
pub fn init_idle_task(sched: &mut Scheduler, entry: usize)
    requires
        old(sched).wf(),
        can_create(*old(sched), IDLE_STACK_DEPTH),
    ensures
        final(sched).wf(),
        final(sched).spec_next_tid() == old(sched).spec_next_tid() + 1,
        ({
            let q = final(sched).spec_ready(3);
            &&& q == old(sched).spec_ready(3).push(q.last())
            &&& q.last().priority == Priority::Idle
            &&& q.last().state == State::Ready
            &&& !q.last().destroy
        }),
        forall|k: int|
            0 <= k < 3 ==> #[trigger] final(sched).spec_ready(k) == old(sched).spec_ready(k),
        final(sched).spec_delay() == old(sched).spec_delay(),
        final(sched).spec_overflow() == old(sched).spec_overflow(),
        final(sched).spec_current() == old(sched).spec_current(),
        final(sched).spec_clock() == old(sched).spec_clock(),
        final(sched).spec_pend_sv() == old(sched).spec_pend_sv(),
{
    let _handle = new_task(
        sched,
        entry,
        crate::args::Builder::empty(),
        IDLE_STACK_DEPTH,
        Priority::Idle,
        "idle",
    );
}

/// The count of an id in a one-task queue is one exactly for that
/// task's id.
proof fn lemma_cnt_singleton(t: TaskControl, tid: usize)
    ensures
        seq_cnt(seq![t], tid) == if t.spec_tid() == tid {
            1nat
        } else {
            0nat
        },
{
    assert(seq![t].drop_last() =~= Seq::<TaskControl>::empty());
    assert(seq_cnt(Seq::<TaskControl>::empty(), tid) == 0);
    assert(seq![t].last() == t);
}

/// Selects a new task to run.
///
/// The outgoing task leaves the running slot: a destroyed task is
/// dropped; a blocked task joins the delay queue of its overflow flag;
/// any other task is marked `Ready` and requeued at the tail of its
/// priority's ready queue.  Then, scanning the ready queues from the
/// highest priority down and dropping destroyed tasks, the first live
/// task is marked `Running` and installed as the running task.
///
/// The port calls this with interrupts disabled, from its
/// pend-context-switch handler, and afterwards resumes the selected
/// task from its saved stack pointer.  A running slot without a task is
/// fatal; so is a live outgoing task whose stack has overflowed; and
/// some live task must exist to select — the idle task, wherever the
/// application may destroy every task of its own.
pub fn switch_context(sched: &mut Scheduler)
    requires
        old(sched).wf(),
        old(sched).spec_current() is Some,
        (match old(sched).spec_current() {
            Some(out) => out.destroy || !out.spec_is_stack_overflowed(),
            None => false,
        }),
        has_live_ready(*old(sched)) || (match old(sched).spec_current() {
            Some(out) => !out.destroy && out.state != State::Blocked,
            None => false,
        }),
    ensures
        final(sched).wf(),
        final(sched).spec_delay() == requeued_delay(*old(sched)),
        final(sched).spec_overflow() == requeued_overflow(*old(sched)),
        (final(sched).spec_current() matches Some(c) && c.state == State::Running && !c.destroy),
        exists|i: int, j: int|
            #[trigger] selected_from(
                requeued_ready(*old(sched), 0),
                requeued_ready(*old(sched), 1),
                requeued_ready(*old(sched), 2),
                requeued_ready(*old(sched), 3),
                *final(sched),
                i,
                j,
            ),
        (match final(sched).spec_current() {
            Some(c) => forall|k: int|
                0 <= k < c.priority.spec_index() ==> (#[trigger] final(sched).spec_ready(
                    k,
                )).len() == 0,
            None => false,
        }),
        final(sched).spec_next_tid() == old(sched).spec_next_tid(),
        final(sched).spec_next_wchan() == old(sched).spec_next_wchan(),
        final(sched).spec_alloc() == old(sched).spec_alloc(),
        final(sched).spec_clock() == old(sched).spec_clock(),
        final(sched).spec_pend_sv() == old(sched).spec_pend_sv(),
{
    let ghost pre = *old(sched);
    let mut slot: Option<TaskControl> = None;
    core::mem::swap(&mut sched.current_task, &mut slot);
    let out = match slot {
        Some(t) => t,
        None => {
            proof {
                assert(false);
            }
            return ;
        },
    };
    let ghost out_g = out;
    if out.destroy {
        // dropped here: destruction takes effect at the context switch
        // that encounters the task
    } else {
        if out.is_stack_overflowed() {
            // fatal: the saved stack pointer descended to the stack base
            proof {
                assert(false);
            }
            return ;
        }
        if out.state == State::Blocked {
            if out.overflowed {
                sched.overflow_delay_queue.enqueue(Box::new(crate::queue::Node::new(out)));
            } else {
                sched.delay_queue.enqueue(Box::new(crate::queue::Node::new(out)));
            }
        } else {
            let mut ready_out = out;
            ready_out.state = State::Ready;
            sched.enqueue_ready(ready_out);
        }
    }
    let ghost m0 = sched.spec_ready(0);
    let ghost m1 = sched.spec_ready(1);
    let ghost m2 = sched.spec_ready(2);
    let ghost m3 = sched.spec_ready(3);
    proof {
        assert(m0 == requeued_ready(pre, 0));
        assert(m1 == requeued_ready(pre, 1));
        assert(m2 == requeued_ready(pre, 2));
        assert(m3 == requeued_ready(pre, 3));
        assert(sched.spec_delay() == requeued_delay(pre));
        assert(sched.spec_overflow() == requeued_overflow(pre));
        // the state between take-out and selection is well formed with
        // an empty running slot
        assert forall|t2: usize| #[trigger] sched.spec_task_count(t2) <= 1 by {
            lemma_cnt_singleton(out_g, t2);
            assert(pre.spec_task_count(t2) <= 1);
            if !out_g.destroy {
                if out_g.state == State::Blocked {
                    if out_g.overflowed {
                        lemma_cnt_push(pre.spec_overflow(), out_g, t2);
                    } else {
                        lemma_cnt_push(pre.spec_delay(), out_g, t2);
                    }
                } else {
                    lemma_cnt_push(
                        pre.spec_ready(out_g.priority.spec_index()),
                        ready_version(out_g),
                        t2,
                    );
                }
            }
        }
        assert forall|i2: int| 0 <= i2 < NUM_PRIORITIES implies ready_queue_ok(
            #[trigger] sched.spec_ready(i2),
            i2,
        ) by {
            assert(ready_queue_ok(pre.spec_ready(i2), i2));
            let q = sched.spec_ready(i2);
            assert forall|j: int| 0 <= j < q.len() implies (#[trigger] q[j]).priority.spec_index()
                == i2 && q[j].state == State::Ready by {
                if j < pre.spec_ready(i2).len() {
                    assert(q[j] == pre.spec_ready(i2)[j]);
                }
            }
        }
        assert forall|j: int| 0 <= j < sched.spec_delay().len() implies (
        #[trigger] sched.spec_delay()[j]).state == State::Blocked && sched.spec_delay()[j]
            .overflowed == false by {
            if j < pre.spec_delay().len() {
                assert(sched.spec_delay()[j] == pre.spec_delay()[j]);
            }
        }
        assert forall|j: int| 0 <= j < sched.spec_overflow().len() implies (
        #[trigger] sched.spec_overflow()[j]).state == State::Blocked && sched.spec_overflow()[j]
            .overflowed == true by {
            if j < pre.spec_overflow().len() {
                assert(sched.spec_overflow()[j] == pre.spec_overflow()[j]);
            }
        }
        assert forall|i2: int| 0 <= i2 < NUM_PRIORITIES implies tids_below(
            #[trigger] sched.spec_ready(i2),
            sched.spec_next_tid(),
        ) by {
            assert(tids_below(pre.spec_ready(i2), pre.spec_next_tid()));
            assert(opt_seq(pre.spec_current())[0] == out_g);
            let q = sched.spec_ready(i2);
            assert forall|j: int| 0 <= j < q.len() implies (#[trigger] q[j]).spec_tid()
                < sched.spec_next_tid() by {
                if j < pre.spec_ready(i2).len() {
                    assert(q[j] == pre.spec_ready(i2)[j]);
                }
            }
        }
        assert(opt_seq(pre.spec_current())[0] == out_g);
        assert forall|j: int| 0 <= j < sched.spec_delay().len() implies (
        #[trigger] sched.spec_delay()[j]).spec_tid() < sched.spec_next_tid() by {
            if j < pre.spec_delay().len() {
                assert(sched.spec_delay()[j] == pre.spec_delay()[j]);
            }
        }
        assert forall|j: int| 0 <= j < sched.spec_overflow().len() implies (
        #[trigger] sched.spec_overflow()[j]).spec_tid() < sched.spec_next_tid() by {
            if j < pre.spec_overflow().len() {
                assert(sched.spec_overflow()[j] == pre.spec_overflow()[j]);
            }
        }
        assert(sched.wf());
        // some live task sits in the requeued ready queues
        if has_live_ready(pre) {
            let (i0, j0) = choose|i0: int, j0: int|
                0 <= i0 < NUM_PRIORITIES && 0 <= j0 < pre.spec_ready(i0).len() && !(
                #[trigger] pre.spec_ready(i0)[j0]).destroy;
            assert(pick(m0, m1, m2, m3, i0)[j0] == pre.spec_ready(i0)[j0]);
            assert(exists|k: int, j: int|
                0 <= k < NUM_PRIORITIES && 0 <= j < pick(m0, m1, m2, m3, k).len() && !(
                #[trigger] pick(m0, m1, m2, m3, k)[j]).destroy);
        } else {
            let p = out_g.priority.spec_index();
            assert(pick(m0, m1, m2, m3, p) == pre.spec_ready(p).push(ready_version(out_g)));
            assert(!pick(m0, m1, m2, m3, p)[pre.spec_ready(p).len() as int].destroy);
            assert(exists|k: int, j: int|
                0 <= k < NUM_PRIORITIES && 0 <= j < pick(m0, m1, m2, m3, k).len() && !(
                #[trigger] pick(m0, m1, m2, m3, k)[j]).destroy);
        }
    }
    proof {
        assert(has_live_ready(*sched));
    }
    let ghost mid = *sched;
    select_next(sched);
    proof {
        assert(mid.spec_ready(0) == requeued_ready(pre, 0));
        let (iw, jw) = choose|i: int, j: int|
            #[trigger] selected_from(
                mid.spec_ready(0),
                mid.spec_ready(1),
                mid.spec_ready(2),
                mid.spec_ready(3),
                *sched,
                i,
                j,
            );
        assert(selected_from(
            requeued_ready(pre, 0),
            requeued_ready(pre, 1),
            requeued_ready(pre, 2),
            requeued_ready(pre, 3),
            *sched,
            iw,
            jw,
        ));
    }
}

/// Selects the first live task in priority order from the ready
/// queues, dropping destroyed tasks on the way, and installs it as the
/// running task.
fn select_next(sched: &mut Scheduler)
    requires
        old(sched).wf(),
        old(sched).spec_current() is None,
        has_live_ready(*old(sched)),
    ensures
        final(sched).wf(),
        (final(sched).spec_current() matches Some(c) && c.state == State::Running && !c.destroy),
        exists|i: int, j: int|
            #[trigger] selected_from(
                old(sched).spec_ready(0),
                old(sched).spec_ready(1),
                old(sched).spec_ready(2),
                old(sched).spec_ready(3),
                *final(sched),
                i,
                j,
            ),
        (match final(sched).spec_current() {
            Some(c) => forall|k: int|
                0 <= k < c.priority.spec_index() ==> (#[trigger] final(sched).spec_ready(
                    k,
                )).len() == 0,
            None => false,
        }),
        final(sched).spec_delay() == old(sched).spec_delay(),
        final(sched).spec_overflow() == old(sched).spec_overflow(),
        final(sched).spec_next_tid() == old(sched).spec_next_tid(),
        final(sched).spec_next_wchan() == old(sched).spec_next_wchan(),
        final(sched).spec_alloc() == old(sched).spec_alloc(),
        final(sched).spec_clock() == old(sched).spec_clock(),
        final(sched).spec_pend_sv() == old(sched).spec_pend_sv(),
{
    let ghost mid = *old(sched);
    let ghost m0 = mid.spec_ready(0);
    let ghost m1 = mid.spec_ready(1);
    let ghost m2 = mid.spec_ready(2);
    let ghost m3 = mid.spec_ready(3);
    proof {
        let (i0, j0) = choose|i0: int, j0: int|
            0 <= i0 < NUM_PRIORITIES && 0 <= j0 < mid.spec_ready(i0).len() && !(
            #[trigger] mid.spec_ready(i0)[j0]).destroy;
        assert(pick(m0, m1, m2, m3, i0) == mid.spec_ready(i0));
        assert(exists|k: int, j: int|
            0 <= k < NUM_PRIORITIES && 0 <= j < pick(m0, m1, m2, m3, k).len() && !(#[trigger] pick(
                m0,
                m1,
                m2,
                m3,
                k,
            )[j]).destroy);
    }
    let mut i: usize = 0;
    while i < 4
        invariant
            sched.wf(),
            i <= 4,
            mid == *old(sched),
            m0 == mid.spec_ready(0),
            m1 == mid.spec_ready(1),
            m2 == mid.spec_ready(2),
            m3 == mid.spec_ready(3),
            sched.spec_current() is None,
            sched.spec_delay() == mid.spec_delay(),
            sched.spec_overflow() == mid.spec_overflow(),
            sched.spec_next_tid() == mid.spec_next_tid(),
            sched.spec_next_wchan() == mid.spec_next_wchan(),
            sched.spec_alloc() == mid.spec_alloc(),
            sched.spec_clock() == mid.spec_clock(),
            sched.spec_pend_sv() == mid.spec_pend_sv(),
            forall|k: int| 0 <= k < i ==> all_destroyed(#[trigger] pick(m0, m1, m2, m3, k)),
            forall|k: int| 0 <= k < i ==> (#[trigger] sched.spec_ready(k)).len() == 0,
            forall|k: int|
                i <= k < NUM_PRIORITIES ==> #[trigger] sched.spec_ready(k) == pick(
                    m0,
                    m1,
                    m2,
                    m3,
                    k,
                ),
            exists|k: int, j: int|
                i <= k < NUM_PRIORITIES && 0 <= j < pick(m0, m1, m2, m3, k).len() && !(
                #[trigger] pick(m0, m1, m2, m3, k)[j]).destroy,
        decreases 4 - i,
    {
        let ghost mi = pick(m0, m1, m2, m3, i as int);
        let ghost mut d: int = 0;
        loop
            invariant
                sched.wf(),
                i < 4,
                mid == *old(sched),
                m0 == mid.spec_ready(0),
                m1 == mid.spec_ready(1),
                m2 == mid.spec_ready(2),
                m3 == mid.spec_ready(3),
                sched.spec_current() is None,
                sched.spec_delay() == mid.spec_delay(),
                sched.spec_overflow() == mid.spec_overflow(),
                sched.spec_next_tid() == mid.spec_next_tid(),
                sched.spec_next_wchan() == mid.spec_next_wchan(),
                sched.spec_alloc() == mid.spec_alloc(),
                sched.spec_clock() == mid.spec_clock(),
                sched.spec_pend_sv() == mid.spec_pend_sv(),
                mi == pick(m0, m1, m2, m3, i as int),
                forall|k: int| 0 <= k < i ==> all_destroyed(#[trigger] pick(m0, m1, m2, m3, k)),
                forall|k: int| 0 <= k < i ==> (#[trigger] sched.spec_ready(k)).len() == 0,
                forall|k: int|
                    i < k < NUM_PRIORITIES ==> #[trigger] sched.spec_ready(k) == pick(
                        m0,
                        m1,
                        m2,
                        m3,
                        k,
                    ),
                0 <= d <= mi.len(),
                sched.spec_ready(i as int) == mi.skip(d),
                forall|j2: int| 0 <= j2 < d ==> (#[trigger] mi[j2]).destroy,
                exists|k: int, j: int|
                    i <= k < NUM_PRIORITIES && 0 <= j < pick(m0, m1, m2, m3, k).len() && !(
                    #[trigger] pick(m0, m1, m2, m3, k)[j]).destroy,
            ensures
                sched.spec_ready(i as int).len() == 0,
                d == mi.len(),
                forall|j2: int| 0 <= j2 < d ==> (#[trigger] mi[j2]).destroy,
            decreases sched.spec_ready(i as int).len(),
        {
            let ghost before = *sched;
            match sched.dequeue_ready(i) {
                Some(t) => {
                    proof {
                        assert(before.spec_ready(i as int)[0] == mi[d]);
                        assert(sched.spec_ready(i as int) =~= mi.skip(d + 1));
                        lemma_drop_first_facts(before.spec_ready(i as int));
                        assert(sched.spec_ready(0) == if i == 0 {
                            before.spec_ready(0).drop_first()
                        } else {
                            before.spec_ready(0)
                        });
                        assert(sched.spec_ready(1) == if i == 1 {
                            before.spec_ready(1).drop_first()
                        } else {
                            before.spec_ready(1)
                        });
                        assert(sched.spec_ready(2) == if i == 2 {
                            before.spec_ready(2).drop_first()
                        } else {
                            before.spec_ready(2)
                        });
                        assert(sched.spec_ready(3) == if i == 3 {
                            before.spec_ready(3).drop_first()
                        } else {
                            before.spec_ready(3)
                        });
                        assert forall|t2: usize| #[trigger] sched.spec_task_count(t2)
                            <= 1 by {
                            assert(before.spec_task_count(t2) <= 1);
                            assert(seq_cnt(sched.spec_ready(i as int), t2) <= seq_cnt(
                                before.spec_ready(i as int),
                                t2,
                            ));
                        }
                    }
                    if t.destroy {
                        // a destroyed task found in a ready queue is
                        // dropped during selection
                        proof {
                            d = d + 1;
                        }
                    } else {
                        let mut winner = t;
                        winner.state = State::Running;
                        sched.current_task = Some(winner);
                        proof {
                            let ghost s2 = *sched;
                            let tw = t.spec_tid();
                            // the selected task is nowhere else
                            lemma_cnt_in(before.spec_ready(i as int), tw);
                            assert(before.spec_ready(i as int)[0].spec_tid() == tw);
                            assert(before.spec_task_count(tw) <= 1);
                            lemma_cnt_singleton(winner, tw);
                            assert forall|t2: usize| #[trigger] sched.spec_task_count(t2)
                                <= 1 by {
                                lemma_cnt_singleton(winner, t2);
                                lemma_drop_first_facts(before.spec_ready(i as int));
                                assert(before.spec_task_count(t2) <= 1);
                                if t2 == tw {
                                    assert(seq_cnt(before.spec_ready(i as int), tw) >= 1);
                                }
                            }
                            assert(tids_below(before.spec_ready(i as int), mid.spec_next_tid()));
                            assert(before.spec_ready(i as int)[0] == t);
                            assert(winner.spec_tid() == t.spec_tid());
                            assert forall|j2: int|
                                0 <= j2 < opt_seq(sched.spec_current()).len() implies (
                            #[trigger] opt_seq(sched.spec_current())[j2]).spec_tid()
                                < sched.spec_next_tid() by {
                                assert(opt_seq(sched.spec_current())[j2] == winner);
                            }
                            assert(sched.wf());
                            // the ensures: this is the selection
                            assert(t == mi[d]);
                            assert(ready_queue_ok(mi.skip(d), i as int));
                            assert(mi.skip(d)[0] == mi[d]);
                            assert(t.priority.spec_index() == i as int);
                            assert(winner == running_version(mi[d]));
                            assert(selected_from(m0, m1, m2, m3, *sched, i as int, d));
                        }
                        return ;
                    }
                },
                None => {
                    proof {
                        assert(mi.skip(d).len() == 0);
                        assert(d == mi.len());
                        assert forall|t2: usize| #[trigger] sched.spec_task_count(t2)
                            <= 1 by {
                            assert(before.spec_task_count(t2) <= 1);
                        }
                    }
                    break ;
                },
            }
        }
        proof {
            assert forall|j2: int| 0 <= j2 < mi.len() implies (#[trigger] mi[j2]).destroy by {}
            assert(all_destroyed(pick(m0, m1, m2, m3, i as int)));
            // the live task is in a later queue
            let (k0, j0) = choose|k0: int, j0: int|
                i <= k0 < NUM_PRIORITIES && 0 <= j0 < pick(m0, m1, m2, m3, k0).len() && !(
                #[trigger] pick(m0, m1, m2, m3, k0)[j0]).destroy;
            assert(k0 != i);
            assert(i + 1 <= k0 < NUM_PRIORITIES && 0 <= j0 < pick(m0, m1, m2, m3, k0).len() && !(
            pick(m0, m1, m2, m3, k0)[j0]).destroy);
        }
        i += 1;
    }
    proof {
        // unreachable: a live ready task existed
        assert(false);
    }
}


/// Brings the scheduler up: creates the idle task and installs the
/// highest-priority ready task as the running task.
///
/// After this returns, the port switches from its bootstrap stack onto
/// the running task's planted frame and never comes back; from then on
/// the scheduler is entered only through the syscalls and the tick
/// handler.  `idle_entry` is the address of the port's idle loop.
pub fn start_scheduler(sched: &mut Scheduler, idle_entry: usize)
    requires
        old(sched).wf(),
        old(sched).spec_current() is None,
        can_create(*old(sched), IDLE_STACK_DEPTH),
    ensures
        final(sched).wf(),
        (final(sched).spec_current() matches Some(c) && c.state == State::Running && !c.destroy),
        (match final(sched).spec_current() {
            Some(c) => forall|k: int|
                0 <= k < c.priority.spec_index() ==> (#[trigger] final(sched).spec_ready(
                    k,
                )).len() == 0,
            None => false,
        }),
        final(sched).spec_delay() == old(sched).spec_delay(),
        final(sched).spec_overflow() == old(sched).spec_overflow(),
        final(sched).spec_clock() == old(sched).spec_clock(),
        final(sched).spec_pend_sv() == old(sched).spec_pend_sv(),
{
    init_idle_task(sched, idle_entry);
    proof {
        let q3 = sched.spec_ready(3);
        assert(!q3[q3.len() - 1].destroy);
        assert(has_live_ready(*sched));
    }
    select_next(sched);
}

/// How one destroy call changes the scheduler: it returns whether a
/// live task with the id existed, and exactly when one did, that task —
/// wherever it rests — has its destroy flag set and its validity cookie
/// cleared, with everything else untouched.
pub open spec fn destroy_transition(pre: Scheduler, post: Scheduler, tid: usize, r: bool) -> bool {
    &&& r == pre.spec_handle_valid(tid)
    &&& post.spec_ready(0) == if r {
        destroy_in(pre.spec_ready(0), tid)
    } else {
        pre.spec_ready(0)
    }
    &&& post.spec_ready(1) == if r {
        destroy_in(pre.spec_ready(1), tid)
    } else {
        pre.spec_ready(1)
    }
    &&& post.spec_ready(2) == if r {
        destroy_in(pre.spec_ready(2), tid)
    } else {
        pre.spec_ready(2)
    }
    &&& post.spec_ready(3) == if r {
        destroy_in(pre.spec_ready(3), tid)
    } else {
        pre.spec_ready(3)
    }
    &&& post.spec_delay() == if r {
        destroy_in(pre.spec_delay(), tid)
    } else {
        pre.spec_delay()
    }
    &&& post.spec_overflow() == if r {
        destroy_in(pre.spec_overflow(), tid)
    } else {
        pre.spec_overflow()
    }
    &&& post.spec_current() == match pre.spec_current() {
        Some(t) => Some(
            if t.spec_tid() == tid && r {
                marked_destroyed(t)
            } else {
                t
            },
        ),
        None => None::<TaskControl>,
    }
    &&& post.spec_next_tid() == pre.spec_next_tid()
    &&& post.spec_next_wchan() == pre.spec_next_wchan()
    &&& post.spec_alloc() == pre.spec_alloc()
    &&& post.spec_clock() == pre.spec_clock()
    &&& post.spec_pend_sv() == pre.spec_pend_sv()
}

/// Marking a task destroyed keeps its id in place and every id count,
/// and the looked-up task becomes its marked version.
proof fn lemma_destroy_in_props(q: Seq<TaskControl>, tid: usize)
    requires
        seq_cnt(q, tid) <= 1,
    ensures
        tid_in(destroy_in(q, tid), tid) == tid_in(q, tid),
        tid_in(q, tid) ==> task_in(destroy_in(q, tid), tid) == marked_destroyed(task_in(q, tid)),
        forall|t2: usize| seq_cnt(#[trigger] destroy_in(q, tid), t2) == seq_cnt(q, t2),
{
    if tid_in(q, tid) {
        let i0 = idx_in(q, tid);
        lemma_cnt_unique(q, tid, i0);
        lemma_update_marked(q, i0, tid);
        let q2 = q.update(i0, marked_destroyed(q[i0]));
        assert(q2[i0].spec_tid() == tid);
        lemma_cnt_unique(q2, tid, i0);
    }
}

/// Destroy idempotence: when a destroy call found a live task and
/// returned true, an immediately following destroy on the same id finds
/// the cookie already cleared and returns false.
pub proof fn lemma_destroy_idempotent(
    s0: Scheduler,
    s1: Scheduler,
    s2: Scheduler,
    tid: usize,
    r1: bool,
    r2: bool,
)
    requires
        forall|t2: usize| #[trigger] s0.spec_task_count(t2) <= 1,
        destroy_transition(s0, s1, tid, r1),
        destroy_transition(s1, s2, tid, r2),
        r1,
    ensures
        !r2,
{
    lemma_unique_location(s0, tid);
    lemma_destroy_in_props(s0.spec_ready(0), tid);
    lemma_destroy_in_props(s0.spec_ready(1), tid);
    lemma_destroy_in_props(s0.spec_ready(2), tid);
    lemma_destroy_in_props(s0.spec_ready(3), tid);
    lemma_destroy_in_props(s0.spec_delay(), tid);
    lemma_destroy_in_props(s0.spec_overflow(), tid);
    lemma_destroy_in_props(opt_seq(s0.spec_current()), tid);
    // the running slot changes exactly as destroy_in describes
    match s0.spec_current() {
        Some(t) => {
            if t.spec_tid() == tid {
                assert(opt_seq(s0.spec_current())[0].spec_tid() == tid);
                assert(tid_in(opt_seq(s0.spec_current()), tid));
                lemma_cnt_unique(opt_seq(s0.spec_current()), tid, 0);
                assert(destroy_in(opt_seq(s0.spec_current()), tid) =~= opt_seq(
                    s1.spec_current(),
                ));
            } else {
                if tid_in(opt_seq(s0.spec_current()), tid) {
                    let j = idx_in(opt_seq(s0.spec_current()), tid);
                    assert(opt_seq(s0.spec_current())[j] == t);
                }
                assert(destroy_in(opt_seq(s0.spec_current()), tid) == opt_seq(
                    s1.spec_current(),
                ));
            }
        },
        None => {
            assert(!tid_in(opt_seq(s0.spec_current()), tid));
        },
    }
    // the marked task fails the cookie check
    crate::task::lemma_cookie_fits(tid);
    assert(!marked_destroyed(s0.spec_task_with_tid(tid)).spec_is_valid());
    assert(!s1.spec_handle_valid(tid));
}

/// A running slot free of the id `tid` holds no task with that id.
proof fn lemma_no_tid_current(s: Scheduler, tid: usize)
    requires
        !tid_in(opt_seq(s.spec_current()), tid),
    ensures
        s.spec_current() matches Some(t) ==> t.spec_tid() != tid,
{
    match s.spec_current() {
        Some(t) => {
            if t.spec_tid() == tid {
                assert(opt_seq(s.spec_current())[0].spec_tid() == tid);
            }
        },
        None => {},
    }
}

/// Marking the task at `j` destroyed realizes [`destroy_in`] and keeps
/// every id count, every id bound, and the queue-residency fields.
proof fn lemma_update_marked(q: Seq<TaskControl>, j: int, tid: usize)
    requires
        0 <= j < q.len(),
        q[j].spec_tid() == tid,
        seq_cnt(q, tid) <= 1,
    ensures
        q.update(j, marked_destroyed(q[j])) == destroy_in(q, tid),
        forall|t2: usize|
            seq_cnt(#[trigger] q.update(j, marked_destroyed(q[j])), t2) == seq_cnt(q, t2),
        forall|b: usize|
            tids_below(q, b) ==> tids_below(#[trigger] q.update(j, marked_destroyed(q[j])), b),
        forall|i: int|
            ready_queue_ok(q, i) ==> ready_queue_ok(
                #[trigger] q.update(j, marked_destroyed(q[j])),
                i,
            ),
        forall|ovf: bool|
            blocked_queue_ok(q, ovf) ==> blocked_queue_ok(
                #[trigger] q.update(j, marked_destroyed(q[j])),
                ovf,
            ),
{
    lemma_cnt_unique(q, tid, j);
    let q2 = q.update(j, marked_destroyed(q[j]));
    assert forall|t2: usize| seq_cnt(#[trigger] q.update(j, marked_destroyed(q[j])), t2)
        == seq_cnt(q, t2) by {
        lemma_cnt_update(q, j, marked_destroyed(q[j]), t2);
    }
    assert forall|b: usize| tids_below(q, b) implies tids_below(
        #[trigger] q.update(j, marked_destroyed(q[j])),
        b,
    ) by {
        assert forall|k: int| 0 <= k < q2.len() implies (#[trigger] q2[k]).spec_tid() < b by {
            assert(q[k].spec_tid() < b);
        }
    }
}

/// Borrows the task in `q` carrying the id `tid`, or `None` when no
/// task in `q` does.  The id must occur at most once in `q`.
fn find_in<'a>(q: &'a Queue<TaskControl>, tid: usize) -> (r: Option<&'a TaskControl>)
    requires
        seq_cnt(q@, tid) <= 1,
    ensures
        match r {
            Some(t) => tid_in(q@, tid) && *t == task_in(q@, tid) && t.spec_tid() == tid,
            None => !tid_in(q@, tid),
        },
{
    let n = q.len();
    let mut j: usize = 0;
    while j < n
        invariant
            seq_cnt(q@, tid) <= 1,
            n == q@.len(),
            j <= n,
            forall|k: int| 0 <= k < j ==> (#[trigger] q@[k]).spec_tid() != tid,
        decreases n - j,
    {
        let t = q.get(j);
        if t.tid() == tid {
            proof {
                lemma_cnt_unique(q@, tid, j as int);
            }
            return Some(t);
        }
        j += 1;
    }
    None
}

/// The position in `q` of the task carrying the id `tid`, or `None`
/// when no task in `q` does.  The id must occur at most once in `q`.
fn find_idx(q: &Queue<TaskControl>, tid: usize) -> (r: Option<usize>)
    requires
        seq_cnt(q@, tid) <= 1,
    ensures
        match r {
            Some(j) => tid_in(q@, tid) && j == idx_in(q@, tid) && j < q@.len() && q@[
                j as int
            ].spec_tid() == tid,
            None => !tid_in(q@, tid),
        },
{
    let n = q.len();
    let mut j: usize = 0;
    while j < n
        invariant
            seq_cnt(q@, tid) <= 1,
            n == q@.len(),
            j <= n,
            forall|k: int| 0 <= k < j ==> (#[trigger] q@[k]).spec_tid() != tid,
        decreases n - j,
    {
        if q.get(j).tid() == tid {
            proof {
                lemma_cnt_unique(q@, tid, j as int);
            }
            return Some(j);
        }
        j += 1;
    }
    None
}

/// All kernel state: the priority-indexed ready queues, the two delay
/// queues, the running slot, the id and wait-channel counters, the
/// kernel heap, the system clock, and the pending context-switch
/// request.
pub struct Scheduler {
    priority_queues: Vec<Queue<TaskControl>>,
    delay_queue: Queue<TaskControl>,
    overflow_delay_queue: Queue<TaskControl>,
    current_task: Option<TaskControl>,
    next_tid: usize,
    next_wchan: usize,
    alloc: BumpAllocator,
    clock: Tick,
    pend_sv: bool,
}

impl Scheduler {
    /// The ready queue with index `i`, highest priority first.
    pub closed spec fn spec_ready(&self, i: int) -> Seq<TaskControl> {
        self.priority_queues@[i]@
    }

    /// The delay queue: blocked tasks whose deadline has not wrapped.
    pub closed spec fn spec_delay(&self) -> Seq<TaskControl> {
        self.delay_queue@
    }

    /// The overflow-delay queue: blocked tasks whose deadline wrapped
    /// the tick counter.
    pub closed spec fn spec_overflow(&self) -> Seq<TaskControl> {
        self.overflow_delay_queue@
    }

    /// The running slot.
    pub closed spec fn spec_current(&self) -> Option<TaskControl> {
        self.current_task
    }

    /// The id the next created task will get.
    pub closed spec fn spec_next_tid(&self) -> usize {
        self.next_tid
    }

    /// The wait channel the next request will get.
    pub closed spec fn spec_next_wchan(&self) -> usize {
        self.next_wchan
    }

    /// The kernel heap.
    pub closed spec fn spec_alloc(&self) -> BumpAllocator {
        self.alloc
    }

    /// The system clock.
    pub closed spec fn spec_clock(&self) -> Tick {
        self.clock
    }

    /// Whether a context switch has been requested and not yet taken.
    pub closed spec fn spec_pend_sv(&self) -> bool {
        self.pend_sv
    }

    /// How many tasks across all queues and the running slot carry the
    /// id `tid`.
    pub open spec fn spec_task_count(&self, tid: usize) -> nat {
        seq_cnt(self.spec_ready(0), tid) + seq_cnt(self.spec_ready(1), tid) + seq_cnt(
            self.spec_ready(2),
            tid,
        ) + seq_cnt(self.spec_ready(3), tid) + seq_cnt(self.spec_delay(), tid) + seq_cnt(
            self.spec_overflow(),
            tid,
        ) + seq_cnt(opt_seq(self.spec_current()), tid)
    }

    /// The scheduler's resting invariant.
    ///
    /// Each task id occurs at most once anywhere — a task is on exactly
    /// one queue or is the unique running task.  Ready queues hold
    /// `Ready` tasks of their own priority; the delay queues hold
    /// `Blocked` tasks, split by whether their deadline wrapped.  The
    /// running slot may hold a `Blocked` task only transiently, between
    /// a sleep call and the context switch it requests.
    pub open spec fn wf(&self) -> bool {
        &&& self.spec_queue_count() == NUM_PRIORITIES
        &&& forall|i: int|
            0 <= i < NUM_PRIORITIES ==> ready_queue_ok(#[trigger] self.spec_ready(i), i)
        &&& blocked_queue_ok(self.spec_delay(), false)
        &&& blocked_queue_ok(self.spec_overflow(), true)
        &&& (self.spec_current() matches Some(t) ==> t.state == State::Running || t.state
            == State::Blocked)
        &&& forall|tid: usize| #[trigger] self.spec_task_count(tid) <= 1
        &&& forall|i: int|
            0 <= i < NUM_PRIORITIES ==> tids_below(
                #[trigger] self.spec_ready(i),
                self.spec_next_tid(),
            )
        &&& tids_below(self.spec_delay(), self.spec_next_tid())
        &&& tids_below(self.spec_overflow(), self.spec_next_tid())
        &&& tids_below(opt_seq(self.spec_current()), self.spec_next_tid())
        &&& self.spec_alloc().wf()
    }

    /// The number of ready queues.
    pub closed spec fn spec_queue_count(&self) -> int {
        self.priority_queues@.len() as int
    }

    /// True iff some task anywhere in the scheduler carries the id
    /// `tid`.
    pub open spec fn spec_contains_tid(&self, tid: usize) -> bool {
        ||| tid_in(self.spec_ready(0), tid)
        ||| tid_in(self.spec_ready(1), tid)
        ||| tid_in(self.spec_ready(2), tid)
        ||| tid_in(self.spec_ready(3), tid)
        ||| tid_in(self.spec_delay(), tid)
        ||| tid_in(self.spec_overflow(), tid)
        ||| tid_in(opt_seq(self.spec_current()), tid)
    }

    /// The task carrying the id `tid`, looked up across the containers
    /// in a fixed order.
    pub open spec fn spec_task_with_tid(&self, tid: usize) -> TaskControl {
        if tid_in(self.spec_ready(0), tid) {
            task_in(self.spec_ready(0), tid)
        } else if tid_in(self.spec_ready(1), tid) {
            task_in(self.spec_ready(1), tid)
        } else if tid_in(self.spec_ready(2), tid) {
            task_in(self.spec_ready(2), tid)
        } else if tid_in(self.spec_ready(3), tid) {
            task_in(self.spec_ready(3), tid)
        } else if tid_in(self.spec_delay(), tid) {
            task_in(self.spec_delay(), tid)
        } else if tid_in(self.spec_overflow(), tid) {
            task_in(self.spec_overflow(), tid)
        } else {
            task_in(opt_seq(self.spec_current()), tid)
        }
    }

    /// True iff the id `tid` is absent from every container but the one
    /// numbered `which`, counting the ready queues as zero to three,
    /// then the delay queue, the overflow-delay queue and the running
    /// slot.
    pub open spec fn spec_only_in(&self, tid: usize, which: int) -> bool {
        &&& (which == 0 || !tid_in(self.spec_ready(0), tid))
        &&& (which == 1 || !tid_in(self.spec_ready(1), tid))
        &&& (which == 2 || !tid_in(self.spec_ready(2), tid))
        &&& (which == 3 || !tid_in(self.spec_ready(3), tid))
        &&& (which == 4 || !tid_in(self.spec_delay(), tid))
        &&& (which == 5 || !tid_in(self.spec_overflow(), tid))
        &&& (which == 6 || !tid_in(opt_seq(self.spec_current()), tid))
    }

    /// True iff a handle naming `tid` still reaches a live task: the
    /// task exists and its validity cookie checks out.
    pub open spec fn spec_handle_valid(&self, tid: usize) -> bool {
        self.spec_contains_tid(tid) && self.spec_task_with_tid(tid).spec_is_valid()
    }

    /// Creates a scheduler with no tasks, no heap region, the clock at
    /// zero and nothing pending.
    pub fn new() -> (r: Scheduler)
        ensures
            r.wf(),
            r.spec_ready(0) == Seq::<TaskControl>::empty(),
            r.spec_ready(1) == Seq::<TaskControl>::empty(),
            r.spec_ready(2) == Seq::<TaskControl>::empty(),
            r.spec_ready(3) == Seq::<TaskControl>::empty(),
            r.spec_delay() == Seq::<TaskControl>::empty(),
            r.spec_overflow() == Seq::<TaskControl>::empty(),
            r.spec_current() is None,
            r.spec_next_tid() == 0,
            r.spec_next_wchan() == 1,
            r.spec_alloc().spec_heap_size() == 0,
            r.spec_clock().spec_ticks() == 0,
            r.spec_clock().spec_resolution() == crate::time::DEFAULT_RESOLUTION,
            !r.spec_pend_sv(),
    {
        let mut queues: Vec<Queue<TaskControl>> = Vec::new();
        queues.push(Queue::new());
        queues.push(Queue::new());
        queues.push(Queue::new());
        queues.push(Queue::new());
        let r = Scheduler {
            priority_queues: queues,
            delay_queue: Queue::new(),
            overflow_delay_queue: Queue::new(),
            current_task: None,
            next_tid: 0,
            next_wchan: 1,
            alloc: BumpAllocator::new(),
            clock: Tick::new(),
            pend_sv: false,
        };
        r
    }

    /// Names the kernel heap region the allocator will carve stacks
    /// from.  Called once, before any task is created.
    pub fn init_heap(&mut self, heap_start: usize, heap_size: usize)
        requires
            old(self).wf(),
            heap_start + heap_size <= usize::MAX,
        ensures
            final(self).wf(),
            final(self).spec_alloc().spec_heap_start() == heap_start,
            final(self).spec_alloc().spec_heap_size() == heap_size,
            final(self).spec_alloc().spec_next() == heap_start,
            final(self).spec_ready(0) == old(self).spec_ready(0),
            final(self).spec_ready(1) == old(self).spec_ready(1),
            final(self).spec_ready(2) == old(self).spec_ready(2),
            final(self).spec_ready(3) == old(self).spec_ready(3),
            final(self).spec_delay() == old(self).spec_delay(),
            final(self).spec_overflow() == old(self).spec_overflow(),
            final(self).spec_current() == old(self).spec_current(),
            final(self).spec_next_tid() == old(self).spec_next_tid(),
            final(self).spec_clock() == old(self).spec_clock(),
            final(self).spec_pend_sv() == old(self).spec_pend_sv(),
    {
        self.alloc.init(heap_start, heap_size);
        proof {
            lemma_wf_same_tasks(*old(self), *self);
        }
    }

    /// Hands out the next unused task id.
    pub fn fetch_next_tid(&mut self) -> (r: usize)
        requires
            old(self).wf(),
            old(self).spec_next_tid() < usize::MAX,
        ensures
            final(self).wf(),
            r == old(self).spec_next_tid(),
            final(self).spec_next_tid() == old(self).spec_next_tid() + 1,
            final(self).spec_ready(0) == old(self).spec_ready(0),
            final(self).spec_ready(1) == old(self).spec_ready(1),
            final(self).spec_ready(2) == old(self).spec_ready(2),
            final(self).spec_ready(3) == old(self).spec_ready(3),
            final(self).spec_delay() == old(self).spec_delay(),
            final(self).spec_overflow() == old(self).spec_overflow(),
            final(self).spec_current() == old(self).spec_current(),
            final(self).spec_next_wchan() == old(self).spec_next_wchan(),
            final(self).spec_alloc() == old(self).spec_alloc(),
            final(self).spec_clock() == old(self).spec_clock(),
            final(self).spec_pend_sv() == old(self).spec_pend_sv(),
    {
        let r = self.next_tid;
        self.next_tid = self.next_tid + 1;
        proof {
            lemma_wf_same_tasks(*old(self), *self);
        }
        r
    }

    /// The id of the task in the running slot, or `None` when the
    /// scheduler has not started.
    pub fn current_tid(&self) -> (r: Option<usize>)
        ensures
            r == match self.spec_current() {
                Some(t) => Some(t.spec_tid()),
                None => None::<usize>,
            },
    {
        match &self.current_task {
            Some(t) => Some(t.tid()),
            None => None,
        }
    }

    /// Borrows the task carrying the id `tid`, wherever it rests, or
    /// `None` when no task with that id exists.
    pub fn find_task(&self, tid: usize) -> (r: Option<&TaskControl>)
        requires
            self.wf(),
        ensures
            match r {
                Some(t) => self.spec_contains_tid(tid) && *t == self.spec_task_with_tid(tid)
                    && t.spec_tid() == tid,
                None => !self.spec_contains_tid(tid),
            },
    {
        proof {
            assert(self.spec_task_count(tid) <= 1);
        }
        let mut i: usize = 0;
        while i < 4
            invariant
                self.wf(),
                i <= 4,
                forall|k: int| 0 <= k < i ==> !tid_in(#[trigger] self.spec_ready(k), tid),
            decreases 4 - i,
        {
            proof {
                assert(self.spec_task_count(tid) <= 1);
            }
            match find_in(self.ready_queue(i), tid) {
                Some(t) => {
                    return Some(t);
                },
                None => {},
            }
            i += 1;
        }
        proof {
            assert(self.spec_task_count(tid) <= 1);
        }
        match find_in(&self.delay_queue, tid) {
            Some(t) => {
                return Some(t);
            },
            None => {},
        }
        match find_in(&self.overflow_delay_queue, tid) {
            Some(t) => {
                return Some(t);
            },
            None => {},
        }
        match &self.current_task {
            Some(t) => {
                if t.tid() == tid {
                    proof {
                        assert(opt_seq(self.spec_current())[0].spec_tid() == tid);
                        lemma_cnt_unique(opt_seq(self.spec_current()), tid, 0);
                    }
                    return Some(t);
                }
                proof {
                    assert(forall|j: int|
                        0 <= j < opt_seq(self.spec_current()).len() ==> (#[trigger] opt_seq(
                            self.spec_current(),
                        )[j]).spec_tid() != tid);
                }
            },
            None => {},
        }
        None
    }

    /// A shared borrow of the ready queue with index `i`.
    fn ready_queue(&self, i: usize) -> (r: &Queue<TaskControl>)
        requires
            self.spec_queue_count() == NUM_PRIORITIES,
            i < NUM_PRIORITIES,
        ensures
            r@ == self.spec_ready(i as int),
    {
        &self.priority_queues[i]
    }

    /// Marks the task carrying `tid` for destruction, if a live one
    /// exists: sets its destroy flag and clears its validity cookie in
    /// place, wherever the task rests.  Returns whether a live task was
    /// found; a second call on the same id finds the cookie cleared and
    /// returns false.
    pub(crate) fn destroy_by_tid(&mut self, tid: usize) -> (r: bool)
        requires
            old(self).wf(),
        ensures
            final(self).wf(),
            destroy_transition(*old(self), *final(self), tid, r),
    {
        let valid = match self.find_task(tid) {
            Some(t) => t.is_valid(),
            None => false,
        };
        if !valid {
            return false;
        }
        let mut i: usize = 0;
        while i < 4
            invariant
                old(self).wf(),
                *self == *old(self),
                old(self).spec_handle_valid(tid),
                i <= 4,
                forall|k: int| 0 <= k < i ==> !tid_in(#[trigger] self.spec_ready(k), tid),
            decreases 4 - i,
        {
            proof {
                lemma_unique_location(*old(self), tid);
            }
            match find_idx(self.ready_queue(i), tid) {
                Some(j) => {
                    let ghost pre = *old(self);
                    let ghost ri = pre.spec_ready(i as int);
                    let mut q = self.priority_queues.remove(i);
                    let mut t = q.take_at(j);
                    t.mark_destroyed();
                    q.insert_at(j, t);
                    let ghost qv = q@;
                    self.priority_queues.insert(i, q);
                    proof {
                        assert(qv =~= ri.update(j as int, marked_destroyed(ri[j as int])));
                        lemma_update_marked(ri, j as int, tid);
                        assert(self.priority_queues@ =~= pre.priority_queues@.update(
                            i as int,
                            self.priority_queues@[i as int],
                        ));
                        assert(self.spec_ready(i as int) == destroy_in(ri, tid));
                        lemma_no_tid_current(pre, tid);
                        assert forall|t2: usize| #[trigger] self.spec_task_count(t2)
                            <= 1 by {
                            assert(self.spec_task_count(t2) == pre.spec_task_count(t2));
                        }
                        assert forall|i2: int|
                            0 <= i2 < NUM_PRIORITIES implies ready_queue_ok(
                            #[trigger] self.spec_ready(i2),
                            i2,
                        ) by {
                            assert(ready_queue_ok(pre.spec_ready(i2), i2));
                        }
                        assert forall|i2: int|
                            0 <= i2 < NUM_PRIORITIES implies tids_below(
                            #[trigger] self.spec_ready(i2),
                            self.spec_next_tid(),
                        ) by {
                            assert(tids_below(pre.spec_ready(i2), pre.spec_next_tid()));
                        }
                        assert(true == pre.spec_handle_valid(tid));
                        assert(self.spec_ready(i as int) == destroy_in(
                            pre.spec_ready(i as int),
                            tid,
                        ));
                        assert forall|k: int|
                            0 <= k < NUM_PRIORITIES && k != i implies #[trigger] self.spec_ready(
                            k,
                        ) == destroy_in(pre.spec_ready(k), tid) by {
                            assert(!tid_in(pre.spec_ready(k), tid));
                        }
                        assert(self.spec_delay() == destroy_in(pre.spec_delay(), tid));
                        assert(self.spec_overflow() == destroy_in(pre.spec_overflow(), tid));
                        assert(self.spec_current() == match pre.spec_current() {
                            Some(t2) => Some(
                                if t2.spec_tid() == tid {
                                    marked_destroyed(t2)
                                } else {
                                    t2
                                },
                            ),
                            None => None::<TaskControl>,
                        });
                    }
                    return true;
                },
                None => {},
            }
            i += 1;
        }
        proof {
            lemma_unique_location(*old(self), tid);
        }
        match find_idx(&self.delay_queue, tid) {
            Some(j) => {
                let ghost pre = *old(self);
                let ghost dq = pre.spec_delay();
                let mut t = self.delay_queue.take_at(j);
                t.mark_destroyed();
                self.delay_queue.insert_at(j, t);
                proof {
                    assert(self.spec_delay() =~= dq.update(
                        j as int,
                        marked_destroyed(dq[j as int]),
                    ));
                    lemma_update_marked(dq, j as int, tid);
                    lemma_no_tid_current(pre, tid);
                    assert forall|t2: usize| #[trigger] self.spec_task_count(t2) <= 1 by {
                        assert(self.spec_task_count(t2) == pre.spec_task_count(t2));
                    }
                }
                return true;
            },
            None => {},
        }
        match find_idx(&self.overflow_delay_queue, tid) {
            Some(j) => {
                let ghost pre = *old(self);
                let ghost oq = pre.spec_overflow();
                let mut t = self.overflow_delay_queue.take_at(j);
                t.mark_destroyed();
                self.overflow_delay_queue.insert_at(j, t);
                proof {
                    assert(self.spec_overflow() =~= oq.update(
                        j as int,
                        marked_destroyed(oq[j as int]),
                    ));
                    lemma_update_marked(oq, j as int, tid);
                    lemma_no_tid_current(pre, tid);
                    assert forall|t2: usize| #[trigger] self.spec_task_count(t2) <= 1 by {
                        assert(self.spec_task_count(t2) == pre.spec_task_count(t2));
                    }
                }
                return true;
            },
            None => {},
        }
        let mut slot: Option<TaskControl> = None;
        core::mem::swap(&mut self.current_task, &mut slot);
        match slot {
            Some(t) => {
                let ghost pre = *old(self);
                let ghost cq = opt_seq(pre.spec_current());
                proof {
                    if t.spec_tid() != tid {
                        assert(!pre.spec_contains_tid(tid));
                        assert(false);
                    }
                    assert(cq[0] == t);
                }
                let mut t = t;
                t.mark_destroyed();
                self.current_task = Some(t);
                proof {
                    assert(opt_seq(self.spec_current()) =~= cq.update(
                        0,
                        marked_destroyed(cq[0]),
                    ));
                    lemma_update_marked(cq, 0, tid);
                    assert forall|t2: usize| #[trigger] self.spec_task_count(t2) <= 1 by {
                        assert(seq_cnt(opt_seq(self.spec_current()), t2) == seq_cnt(cq, t2));
                        assert(self.spec_task_count(t2) == pre.spec_task_count(t2));
                    }
                    assert(tids_below(opt_seq(self.spec_current()), self.spec_next_tid()));
                }
                true
            },
            None => {
                proof {
                    // unreachable: a valid task exists somewhere, and the
                    // searches ruled out every queue
                    assert(!old(self).spec_contains_tid(tid));
                    assert(false);
                }
                false
            },
        }
    }

    /// Appends a task at the tail of the ready queue of its priority.
    fn enqueue_ready(&mut self, task: TaskControl)
        requires
            old(self).spec_queue_count() == NUM_PRIORITIES,
        ensures
            final(self).spec_queue_count() == NUM_PRIORITIES,
            final(self).spec_ready(task.priority.spec_index()) == old(self).spec_ready(
                task.priority.spec_index(),
            ).push(task),
            forall|k: int|
                0 <= k < NUM_PRIORITIES && k != task.priority.spec_index()
                    ==> #[trigger] final(self).spec_ready(k) == old(self).spec_ready(k),
            final(self).spec_delay() == old(self).spec_delay(),
            final(self).spec_overflow() == old(self).spec_overflow(),
            final(self).spec_current() == old(self).spec_current(),
            final(self).spec_next_tid() == old(self).spec_next_tid(),
            final(self).spec_next_wchan() == old(self).spec_next_wchan(),
            final(self).spec_alloc() == old(self).spec_alloc(),
            final(self).spec_clock() == old(self).spec_clock(),
            final(self).spec_pend_sv() == old(self).spec_pend_sv(),
    {
        let i = task.priority.index();
        let ghost t = task;
        let mut q = self.priority_queues.remove(i);
        q.enqueue(Box::new(crate::queue::Node::new(task)));
        self.priority_queues.insert(i, q);
        proof {
            assert(self.priority_queues@ =~= old(self).priority_queues@.update(
                i as int,
                self.priority_queues@[i as int],
            ));
            assert(self.spec_ready(i as int) == old(self).spec_ready(i as int).push(t));
        }
    }

    /// True iff `self` and `other` agree on everything but the pending
    /// context-switch request.
    pub open spec fn spec_same_but_pend(&self, other: Scheduler) -> bool {
        &&& forall|k: int|
            0 <= k < NUM_PRIORITIES ==> #[trigger] self.spec_ready(k) == other.spec_ready(k)
        &&& self.spec_delay() == other.spec_delay()
        &&& self.spec_overflow() == other.spec_overflow()
        &&& self.spec_current() == other.spec_current()
        &&& self.spec_next_tid() == other.spec_next_tid()
        &&& self.spec_next_wchan() == other.spec_next_wchan()
        &&& self.spec_alloc() == other.spec_alloc()
        &&& self.spec_clock() == other.spec_clock()
    }

    /// True iff `self` and `other` agree on every queue, the clock and
    /// the counters; the running slot and the pending request may
    /// differ.
    pub open spec fn spec_same_queues(&self, other: Scheduler) -> bool {
        &&& forall|k: int|
            0 <= k < NUM_PRIORITIES ==> #[trigger] self.spec_ready(k) == other.spec_ready(k)
        &&& self.spec_delay() == other.spec_delay()
        &&& self.spec_overflow() == other.spec_overflow()
        &&& self.spec_next_tid() == other.spec_next_tid()
        &&& self.spec_next_wchan() == other.spec_next_wchan()
        &&& self.spec_alloc() == other.spec_alloc()
        &&& self.spec_clock() == other.spec_clock()
    }

    /// Requests a context switch at the next safe point; the port's
    /// pend-switch mechanism takes it asynchronously.
    pub fn set_pend_sv(&mut self)
        ensures
            final(self).spec_pend_sv(),
            final(self).spec_same_but_pend(*old(self)),
            old(self).wf() ==> final(self).wf(),
    {
        self.pend_sv = true;
        proof {
            if old(self).wf() {
                lemma_wf_same_tasks(*old(self), *self);
            }
        }
    }

    /// Clears the pending context-switch request; the port calls this
    /// as it takes the pended switch.
    pub fn clear_pend_sv(&mut self)
        ensures
            !final(self).spec_pend_sv(),
            final(self).spec_same_but_pend(*old(self)),
            old(self).wf() ==> final(self).wf(),
    {
        self.pend_sv = false;
        proof {
            if old(self).wf() {
                lemma_wf_same_tasks(*old(self), *self);
            }
        }
    }

    /// Whether a context switch has been requested and not yet taken.
    pub fn pend_sv(&self) -> (r: bool)
        ensures
            r == self.spec_pend_sv(),
    {
        self.pend_sv
    }

    /// Replaces the system clock, as when the port seeds the counter
    /// at boot.
    pub fn reset_clock(&mut self, clock: Tick)
        ensures
            final(self).spec_clock() == clock,
            forall|k: int|
                0 <= k < NUM_PRIORITIES ==> #[trigger] final(self).spec_ready(k) == old(
                    self,
                ).spec_ready(k),
            final(self).spec_delay() == old(self).spec_delay(),
            final(self).spec_overflow() == old(self).spec_overflow(),
            final(self).spec_current() == old(self).spec_current(),
            final(self).spec_next_tid() == old(self).spec_next_tid(),
            final(self).spec_next_wchan() == old(self).spec_next_wchan(),
            final(self).spec_alloc() == old(self).spec_alloc(),
            final(self).spec_pend_sv() == old(self).spec_pend_sv(),
            old(self).wf() ==> final(self).wf(),
    {
        self.clock = clock;
        proof {
            if old(self).wf() {
                lemma_wf_same_tasks(*old(self), *self);
            }
        }
    }

    /// The system clock.
    pub fn clock(&self) -> (r: &Tick)
        ensures
            *r == self.spec_clock(),
    {
        &self.clock
    }

    /// Marks the running task blocked on `wchan` with its wakeup
    /// deadline `delay` ticks from now, setting its overflow flag
    /// exactly when the deadline wrapped the tick counter.
    pub(crate) fn block_current(&mut self, wchan: usize, delay: usize)
        requires
            old(self).wf(),
            old(self).spec_current() is Some,
        ensures
            final(self).wf(),
            final(self).spec_current() == Some(blocked_until(*old(self), wchan, delay)),
            final(self).spec_pend_sv() == old(self).spec_pend_sv(),
            final(self).spec_same_queues(*old(self)),
    {
        let now = crate::time::get_tick(&self.clock);
        let target = now.wrapping_add(delay);
        let mut slot: Option<TaskControl> = None;
        core::mem::swap(&mut self.current_task, &mut slot);
        let mut t = match slot {
            Some(t) => t,
            None => {
                proof {
                    assert(false);
                }
                return ;
            },
        };
        t.wchan = wchan;
        t.state = State::Blocked;
        t.delay = target;
        t.overflowed = target < now;
        self.current_task = Some(t);
        proof {
            assert(opt_seq(old(self).spec_current())[0].spec_tid() == t.spec_tid());
            assert forall|t2: usize| #[trigger] self.spec_task_count(t2) <= 1 by {
                lemma_cnt_singleton(t, t2);
                lemma_cnt_singleton(opt_seq(old(self).spec_current())[0], t2);
                assert(old(self).spec_task_count(t2) <= 1);
            }
            assert forall|j2: int| 0 <= j2 < opt_seq(self.spec_current()).len() implies (
            #[trigger] opt_seq(self.spec_current())[j2]).spec_tid() < self.spec_next_tid() by {
                assert(opt_seq(self.spec_current())[j2] == t);
                assert(opt_seq(old(self).spec_current())[0].spec_tid()
                    < old(self).spec_next_tid());
            }
        }
    }

    /// Moves each task of `batch`, already marked ready, to the tail of
    /// the ready queue of its priority, keeping their order within each
    /// priority.
    fn distribute_ready(&mut self, batch: Queue<TaskControl>)
        requires
            old(self).spec_queue_count() == NUM_PRIORITIES,
            forall|j: int| 0 <= j < batch@.len() ==> (#[trigger] batch@[j]).state == State::Ready,
            forall|i: int|
                0 <= i < NUM_PRIORITIES ==> ready_queue_ok(#[trigger] old(self).spec_ready(i), i),
            forall|i: int|
                0 <= i < NUM_PRIORITIES ==> tids_below(
                    #[trigger] old(self).spec_ready(i),
                    old(self).spec_next_tid(),
                ),
            tids_below(batch@, old(self).spec_next_tid()),
        ensures
            final(self).spec_queue_count() == NUM_PRIORITIES,
            forall|k: int|
                0 <= k < NUM_PRIORITIES ==> #[trigger] final(self).spec_ready(k) == old(
                    self,
                ).spec_ready(k) + keep_prio(batch@, k),
            forall|k: int|
                0 <= k < NUM_PRIORITIES ==> ready_queue_ok(#[trigger] final(self).spec_ready(k), k),
            forall|k: int|
                0 <= k < NUM_PRIORITIES ==> tids_below(
                    #[trigger] final(self).spec_ready(k),
                    old(self).spec_next_tid(),
                ),
            forall|t2: usize|
                #[trigger] spec_ready_cnt_of(*final(self), t2) == spec_ready_cnt_of(*old(self), t2) + seq_cnt(
                    batch@,
                    t2,
                ),
            final(self).spec_delay() == old(self).spec_delay(),
            final(self).spec_overflow() == old(self).spec_overflow(),
            final(self).spec_current() == old(self).spec_current(),
            final(self).spec_next_tid() == old(self).spec_next_tid(),
            final(self).spec_next_wchan() == old(self).spec_next_wchan(),
            final(self).spec_alloc() == old(self).spec_alloc(),
            final(self).spec_clock() == old(self).spec_clock(),
            final(self).spec_pend_sv() == old(self).spec_pend_sv(),
    {
        let ghost bs = batch@;
        let ghost pre = *old(self);
        let mut rest = batch;
        let ghost mut p: int = 0;
        loop
            invariant
                pre == *old(self),
                self.spec_queue_count() == NUM_PRIORITIES,
                0 <= p <= bs.len(),
                rest@ == bs.skip(p),
                forall|j: int| 0 <= j < bs.len() ==> (#[trigger] bs[j]).state == State::Ready,
                tids_below(bs, pre.spec_next_tid()),
                forall|k: int|
                    0 <= k < NUM_PRIORITIES ==> #[trigger] self.spec_ready(k) == pre.spec_ready(k)
                        + keep_by(bs.take(p), prio_sel(bs, k).take(p)),
                forall|k: int|
                    0 <= k < NUM_PRIORITIES ==> ready_queue_ok(#[trigger] self.spec_ready(k), k),
                forall|k: int|
                    0 <= k < NUM_PRIORITIES ==> tids_below(
                        #[trigger] self.spec_ready(k),
                        pre.spec_next_tid(),
                    ),
                forall|t2: usize|
                    #[trigger] spec_ready_cnt_of(*self, t2) == spec_ready_cnt_of(pre, t2) + seq_cnt(
                        bs.take(p),
                        t2,
                    ),
                self.spec_delay() == pre.spec_delay(),
                self.spec_overflow() == pre.spec_overflow(),
                self.spec_current() == pre.spec_current(),
                self.spec_next_tid() == pre.spec_next_tid(),
                self.spec_next_wchan() == pre.spec_next_wchan(),
                self.spec_alloc() == pre.spec_alloc(),
                self.spec_clock() == pre.spec_clock(),
                self.spec_pend_sv() == pre.spec_pend_sv(),
            ensures
                p == bs.len(),
            decreases rest@.len(),
        {
            let ghost before = *self;
            match rest.dequeue() {
                Some(n) => {
                    let node = *n;
                    let t = node.data;
                    proof {
                        assert(bs.skip(p)[0] == bs[p]);
                        assert(rest@ =~= bs.skip(p + 1));
                    }
                    self.enqueue_ready(t);
                    proof {
                        let tp = bs[p].priority.spec_index();
                        assert forall|k: int|
                            0 <= k < NUM_PRIORITIES implies #[trigger] self.spec_ready(k)
                            == pre.spec_ready(k) + keep_by(
                            bs.take(p + 1),
                            prio_sel(bs, k).take(p + 1),
                        ) by {
                            assert(bs.take(p + 1) =~= bs.take(p).push(bs[p]));
                            assert(prio_sel(bs, k).take(p + 1) =~= prio_sel(bs, k).take(p).push(
                                prio_sel(bs, k)[p],
                            ));
                            crate::queue::lemma_partition_push(
                                bs.take(p),
                                prio_sel(bs, k).take(p),
                                bs[p],
                                prio_sel(bs, k)[p],
                            );
                            if k == tp {
                                assert(self.spec_ready(k) =~= pre.spec_ready(k) + keep_by(
                                    bs.take(p),
                                    prio_sel(bs, k).take(p),
                                ).push(bs[p]));
                            }
                        }
                        assert(self.spec_ready(0) == if tp == 0 {
                            before.spec_ready(0).push(bs[p])
                        } else {
                            before.spec_ready(0)
                        });
                        assert(self.spec_ready(1) == if tp == 1 {
                            before.spec_ready(1).push(bs[p])
                        } else {
                            before.spec_ready(1)
                        });
                        assert(self.spec_ready(2) == if tp == 2 {
                            before.spec_ready(2).push(bs[p])
                        } else {
                            before.spec_ready(2)
                        });
                        assert(self.spec_ready(3) == if tp == 3 {
                            before.spec_ready(3).push(bs[p])
                        } else {
                            before.spec_ready(3)
                        });
                        assert forall|t2: usize|
                            #[trigger] spec_ready_cnt_of(*self, t2) == spec_ready_cnt_of(pre, t2) + seq_cnt(
                            bs.take(p + 1),
                            t2,
                        ) by {
                            lemma_cnt_push(before.spec_ready(0), bs[p], t2);
                            lemma_cnt_push(before.spec_ready(1), bs[p], t2);
                            lemma_cnt_push(before.spec_ready(2), bs[p], t2);
                            lemma_cnt_push(before.spec_ready(3), bs[p], t2);
                            assert(bs.take(p + 1) =~= bs.take(p).push(bs[p]));
                            lemma_cnt_push(bs.take(p), bs[p], t2);
                            assert(spec_ready_cnt_of(before, t2) == spec_ready_cnt_of(pre, t2)
                                + seq_cnt(bs.take(p), t2));
                        }
                        assert forall|k: int| 0 <= k < NUM_PRIORITIES implies ready_queue_ok(
                            #[trigger] self.spec_ready(k),
                            k,
                        ) by {
                            assert(ready_queue_ok(before.spec_ready(k), k));
                            if k == tp {
                                let q = self.spec_ready(k);
                                assert forall|j: int| 0 <= j < q.len() implies (#[trigger] q[j])
                                    .priority.spec_index() == k && q[j].state
                                    == State::Ready by {
                                    if j < q.len() - 1 {
                                        assert(q[j] == before.spec_ready(k)[j]);
                                    } else {
                                        assert(q[j] == bs[p]);
                                    }
                                }
                            }
                        }
                        assert forall|k: int| 0 <= k < NUM_PRIORITIES implies tids_below(
                            #[trigger] self.spec_ready(k),
                            pre.spec_next_tid(),
                        ) by {
                            assert(tids_below(before.spec_ready(k), pre.spec_next_tid()));
                            if k == tp {
                                let q = self.spec_ready(k);
                                assert forall|j: int| 0 <= j < q.len() implies (#[trigger] q[j])
                                    .spec_tid() < pre.spec_next_tid() by {
                                    if j < q.len() - 1 {
                                        assert(q[j] == before.spec_ready(k)[j]);
                                    } else {
                                        assert(q[j] == bs[p]);
                                    }
                                }
                            }
                        }
                        p = p + 1;
                    }
                },
                None => {
                    proof {
                        assert(bs.skip(p).len() == 0);
                    }
                    break ;
                },
            }
        }
        proof {
            assert(bs.take(bs.len() as int) =~= bs);
            assert forall|k: int| 0 <= k < NUM_PRIORITIES implies #[trigger] self.spec_ready(k)
                == pre.spec_ready(k) + keep_prio(bs, k) by {
                assert(prio_sel(bs, k).take(bs.len() as int) =~= prio_sel(bs, k));
            }
        }
    }

    /// Wakes every task sleeping on `wchan` in either delay queue: each
    /// moves to the ready queue of its priority, awakened.
    pub(crate) fn wake_channel(&mut self, wchan: usize)
        requires
            old(self).wf(),
        ensures
            final(self).wf(),
            final(self).spec_delay() == remaining_after_wake(old(self).spec_delay(), wchan),
            final(self).spec_overflow() == remaining_after_wake(old(self).spec_overflow(), wchan),
            forall|k: int|
                0 <= k < NUM_PRIORITIES ==> #[trigger] final(self).spec_ready(k) == old(
                    self,
                ).spec_ready(k) + keep_prio(woken_by_chan(*old(self), wchan), k),
            final(self).spec_current() == old(self).spec_current(),
            final(self).spec_clock() == old(self).spec_clock(),
            final(self).spec_pend_sv() == old(self).spec_pend_sv(),
            final(self).spec_next_tid() == old(self).spec_next_tid(),
            final(self).spec_next_wchan() == old(self).spec_next_wchan(),
            final(self).spec_alloc() == old(self).spec_alloc(),
    {
        let ghost pre = *old(self);
        let pred = |t: &TaskControl| -> (r: bool)
            ensures
                r == (t.wchan == wchan),
            { t.wchan == wchan };
        let matched_delay = self.delay_queue.remove(pred);
        proof {
            let ds = choose|sel: Seq<bool>|
                {
                    &&& sel.len() == pre.spec_delay().len()
                    &&& matched_delay@ == #[trigger] keep_by(pre.spec_delay(), sel)
                    &&& self.delay_queue@ == drop_by(pre.spec_delay(), sel)
                    &&& forall|i: int|
                        0 <= i < sel.len() ==> pred.ensures((&pre.spec_delay()[i],), sel[i])
                };
            assert(ds =~= chan_sel(pre.spec_delay(), wchan));
        }
        let pred2 = |t: &TaskControl| -> (r: bool)
            ensures
                r == (t.wchan == wchan),
            { t.wchan == wchan };
        let matched_ovf = self.overflow_delay_queue.remove(pred2);
        proof {
            let os = choose|sel: Seq<bool>|
                {
                    &&& sel.len() == pre.spec_overflow().len()
                    &&& matched_ovf@ == #[trigger] keep_by(pre.spec_overflow(), sel)
                    &&& self.overflow_delay_queue@ == drop_by(pre.spec_overflow(), sel)
                    &&& forall|i: int|
                        0 <= i < sel.len() ==> pred2.ensures((&pre.spec_overflow()[i],), sel[i])
                };
            assert(os =~= chan_sel(pre.spec_overflow(), wchan));
        }
        let mut to_wake = matched_delay;
        to_wake.append(matched_ovf);
        let ghost ws = to_wake@;
        let batch = mark_awakened(to_wake);
        proof {
            assert(batch@ == woken_by_chan(pre, wchan));
            let dsel = chan_sel(pre.spec_delay(), wchan);
            let osel = chan_sel(pre.spec_overflow(), wchan);
            let kd = keep_by(pre.spec_delay(), dsel);
            let ko = keep_by(pre.spec_overflow(), osel);
            assert forall|j: int| 0 <= j < batch@.len() implies (#[trigger] batch@[j]).state
                == State::Ready by {
                assert(batch@[j] == awakened(ws[j]));
            }
            assert forall|j: int| 0 <= j < batch@.len() implies (#[trigger] batch@[j]).spec_tid()
                < pre.spec_next_tid() by {
                assert(batch@[j] == awakened(ws[j]));
                if j < kd.len() {
                    assert(ws[j] == kd[j]);
                    lemma_keep_by_element(pre.spec_delay(), dsel, j);
                } else {
                    assert(ws[j] == ko[j - kd.len()]);
                    lemma_keep_by_element(pre.spec_overflow(), osel, j - kd.len());
                }
            }
        }
        proof {
            assert forall|i: int| 0 <= i < NUM_PRIORITIES implies ready_queue_ok(
                #[trigger] self.spec_ready(i),
                i,
            ) by {
                assert(ready_queue_ok(pre.spec_ready(i), i));
            }
            assert forall|i: int| 0 <= i < NUM_PRIORITIES implies tids_below(
                #[trigger] self.spec_ready(i),
                self.spec_next_tid(),
            ) by {
                assert(tids_below(pre.spec_ready(i), pre.spec_next_tid()));
            }
        }
        self.distribute_ready(batch);
        proof {
            let dsel = chan_sel(pre.spec_delay(), wchan);
            let osel = chan_sel(pre.spec_overflow(), wchan);
            let kd = keep_by(pre.spec_delay(), dsel);
            let ko = keep_by(pre.spec_overflow(), osel);
            assert forall|j: int| 0 <= j < self.spec_delay().len() implies (
            #[trigger] self.spec_delay()[j]).state == State::Blocked && self.spec_delay()[j]
                .overflowed == false && self.spec_delay()[j].spec_tid()
                < self.spec_next_tid() by {
                lemma_drop_by_element(pre.spec_delay(), dsel, j);
            }
            assert forall|j: int| 0 <= j < self.spec_overflow().len() implies (
            #[trigger] self.spec_overflow()[j]).state == State::Blocked && self.spec_overflow()[j]
                .overflowed == true && self.spec_overflow()[j].spec_tid()
                < self.spec_next_tid() by {
                lemma_drop_by_element(pre.spec_overflow(), osel, j);
            }
            assert forall|t2: usize| #[trigger] self.spec_task_count(t2) <= 1 by {
                lemma_partition_cnt(pre.spec_delay(), dsel, t2);
                lemma_partition_cnt(pre.spec_overflow(), osel, t2);
                lemma_cnt_concat(kd, ko, t2);
                lemma_cnt_map_tid(ws, |t: TaskControl| awakened(t), t2);
                assert(pre.spec_task_count(t2) <= 1);
                assert(spec_ready_cnt_of(*self, t2) == spec_ready_cnt_of(pre, t2) + seq_cnt(
                    batch@,
                    t2,
                ));
            }
        }
    }

    /// Advances the clock, wakes due time sleepers, handles a tick
    /// counter wrap, and requests a context switch when a task at the
    /// running task's priority or higher is ready.
    pub(crate) fn handle_tick(&mut self)
        requires
            old(self).wf(),
            old(self).spec_current() is Some,
        ensures
            final(self).wf(),
            final(self).spec_clock().spec_ticks() == next_now(*old(self)),
            final(self).spec_clock().spec_resolution() == old(self).spec_clock()
                .spec_resolution(),
            final(self).spec_delay() == due_moved_delay(*old(self)),
            final(self).spec_overflow() == due_moved_overflow(*old(self)),
            old(self).spec_clock().spec_ticks() == usize::MAX ==> final(self).spec_overflow()
                == Seq::<TaskControl>::empty(),
            forall|k: int|
                0 <= k < NUM_PRIORITIES ==> #[trigger] final(self).spec_ready(k) == old(
                    self,
                ).spec_ready(k) + keep_prio(woken_due(*old(self)), k),
            final(self).spec_current() == old(self).spec_current(),
            final(self).spec_pend_sv() == (old(self).spec_pend_sv() || exists|k: int|
                {
                    &&& 0 <= k <= (match old(self).spec_current() {
                        Some(c) => c.priority.spec_index(),
                        None => 0,
                    })
                    &&& (#[trigger] final(self).spec_ready(k)).len() > 0
                }),
            final(self).spec_next_tid() == old(self).spec_next_tid(),
            final(self).spec_next_wchan() == old(self).spec_next_wchan(),
            final(self).spec_alloc() == old(self).spec_alloc(),
    {
        let ghost pre = *old(self);
        crate::time::tick(&mut self.clock);
        proof {
            lemma_wf_same_tasks(pre, *self);
        }
        let ghost s1 = *self;
        alarm_wake(self);
        proof {
            assert(s1.spec_clock().spec_ticks() == next_now(pre));
            assert((next_now(pre) == 0) == (pre.spec_clock().spec_ticks() == usize::MAX));
            assert(alarm_woken(s1) =~= woken_due(pre));
            assert(alarm_moved_delay(s1) =~= due_moved_delay(pre));
            assert(alarm_moved_overflow(s1) =~= due_moved_overflow(pre));
        }
        // preemption check: another task at the running task's priority
        // or higher is ready
        let ghost s3 = *self;
        let curp = match &self.current_task {
            Some(t) => t.priority,
            None => {
                proof {
                    assert(false);
                }
                Priority::Idle
            },
        };
        let limit = curp.index() + 1;
        let mut k: usize = 0;
        let mut found = false;
        while k < limit
            invariant
                *self == s3,
                limit == curp.spec_index() + 1,
                limit <= NUM_PRIORITIES,
                k <= limit,
                self.spec_queue_count() == NUM_PRIORITIES,
                !found ==> forall|k2: int|
                    0 <= k2 < k ==> (#[trigger] self.spec_ready(k2)).len() == 0,
                found ==> exists|k2: int|
                    0 <= k2 < limit && (#[trigger] self.spec_ready(k2)).len() > 0,
            ensures
                found || k == limit,
            decreases limit - k,
        {
            if !self.ready_queue(k).is_empty() {
                found = true;
                break ;
            }
            k += 1;
        }
        if found {
            let ghost k2 = choose|k2: int|
                0 <= k2 < limit && (#[trigger] s3.spec_ready(k2)).len() > 0;
            self.set_pend_sv();
            proof {
                assert(self.spec_ready(k2) == s3.spec_ready(k2));
                assert(0 <= k2 <= curp.spec_index() && (self.spec_ready(k2)).len() > 0);
            }
        } else {
            proof {
                assert(k == limit);
                assert forall|k2: int| 0 <= k2 <= curp.spec_index() implies (
                #[trigger] self.spec_ready(k2)).len() == 0 by {
                    assert(s3.spec_ready(k2).len() == 0);
                }
            }
        }
    }

    /// Takes the task at the head of the ready queue with index `i`.
    fn dequeue_ready(&mut self, i: usize) -> (r: Option<TaskControl>)
        requires
            old(self).spec_queue_count() == NUM_PRIORITIES,
            i < NUM_PRIORITIES,
        ensures
            final(self).spec_queue_count() == NUM_PRIORITIES,
            old(self).spec_ready(i as int).len() == 0 ==> r is None && final(self).spec_ready(
                i as int,
            ) == old(self).spec_ready(i as int),
            old(self).spec_ready(i as int).len() > 0 ==> r == Some(
                old(self).spec_ready(i as int)[0],
            ) && final(self).spec_ready(i as int) == old(self).spec_ready(i as int).drop_first(),
            forall|k: int|
                0 <= k < NUM_PRIORITIES && k != i ==> #[trigger] final(self).spec_ready(k) == old(
                    self,
                ).spec_ready(k),
            final(self).spec_delay() == old(self).spec_delay(),
            final(self).spec_overflow() == old(self).spec_overflow(),
            final(self).spec_current() == old(self).spec_current(),
            final(self).spec_next_tid() == old(self).spec_next_tid(),
            final(self).spec_next_wchan() == old(self).spec_next_wchan(),
            final(self).spec_alloc() == old(self).spec_alloc(),
            final(self).spec_clock() == old(self).spec_clock(),
            final(self).spec_pend_sv() == old(self).spec_pend_sv(),
    {
        let mut q = self.priority_queues.remove(i);
        let r = q.dequeue();
        self.priority_queues.insert(i, q);
        proof {
            assert(self.priority_queues@ =~= old(self).priority_queues@.update(
                i as int,
                self.priority_queues@[i as int],
            ));
        }
        match r {
            Some(n) => {
                let node = *n;
                Some(node.data)
            },
            None => None,
        }
    }

    /// Hands out the next unused wait-channel id.
    pub fn fetch_next_chan(&mut self) -> (r: usize)
        requires
            old(self).wf(),
            old(self).spec_next_wchan() < usize::MAX,
        ensures
            final(self).wf(),
            r == old(self).spec_next_wchan(),
            final(self).spec_next_wchan() == old(self).spec_next_wchan() + 1,
            final(self).spec_ready(0) == old(self).spec_ready(0),
            final(self).spec_ready(1) == old(self).spec_ready(1),
            final(self).spec_ready(2) == old(self).spec_ready(2),
            final(self).spec_ready(3) == old(self).spec_ready(3),
            final(self).spec_delay() == old(self).spec_delay(),
            final(self).spec_overflow() == old(self).spec_overflow(),
            final(self).spec_current() == old(self).spec_current(),
            final(self).spec_next_tid() == old(self).spec_next_tid(),
            final(self).spec_alloc() == old(self).spec_alloc(),
            final(self).spec_clock() == old(self).spec_clock(),
            final(self).spec_pend_sv() == old(self).spec_pend_sv(),
    {
        let r = self.next_wchan;
        self.next_wchan = self.next_wchan + 1;
        proof {
            lemma_wf_same_tasks(*old(self), *self);
        }
        r
    }
}

} // verus!
