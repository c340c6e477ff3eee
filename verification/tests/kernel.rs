use altos_core::init::init_heap;
use altos_core::syscall::{sched_yield, sleep, sleep_for, system_tick, wake, FOREVER_CHAN};
use altos_core::time::{delay_ms, get_tick, set_tick, Tick};
use altos_core::{
    new_task, start_scheduler, switch_context, Args, Builder, Priority, Scheduler, State,
};

const HEAP_START: usize = 0x2000_0000;
const HEAP_SIZE: usize = 0x1_0000;
const ENTRY: usize = 0x0800_0100;
const IDLE_ENTRY: usize = 0x0800_0000;

fn boot() -> Scheduler {
    let mut sched = Scheduler::new();
    init_heap(&mut sched, HEAP_START, HEAP_SIZE);
    sched
}

fn current_tid(sched: &Scheduler) -> usize {
    sched.current_tid().expect("no running task")
}

#[test]
fn new_task_returns_handle() {
    let mut sched = boot();
    let handle = new_task(&mut sched, ENTRY, Args::empty(), 512, Priority::Normal, "worker");

    assert_eq!(handle.tid(&sched), Ok(0));
    assert_eq!(handle.priority(&sched), Ok(Priority::Normal));
    assert_eq!(handle.state(&sched), Ok(State::Ready));
    assert_eq!(handle.name(&sched), Ok("worker"));
    assert_eq!(handle.stack_size(&sched), Ok(512));
}

#[test]
fn destroy_returns_true_then_false() {
    let mut sched = boot();
    let handle = new_task(&mut sched, ENTRY, Args::empty(), 512, Priority::Normal, "doomed");

    assert!(handle.destroy(&mut sched));
    assert!(!handle.destroy(&mut sched));
    assert_eq!(handle.state(&sched), Err(()));
}

#[test]
fn fifo_within_priority() {
    let mut sched = boot();
    let a = new_task(&mut sched, ENTRY, Args::empty(), 256, Priority::Normal, "a");
    let b = new_task(&mut sched, ENTRY, Args::empty(), 256, Priority::Normal, "b");
    let c = new_task(&mut sched, ENTRY, Args::empty(), 256, Priority::Normal, "c");
    start_scheduler(&mut sched, IDLE_ENTRY);

    let (ta, tb, tc) = (a.tid(&sched).unwrap(), b.tid(&sched).unwrap(), c.tid(&sched).unwrap());
    let mut order = vec![current_tid(&sched)];
    for _ in 0..5 {
        sched_yield(&mut sched);
        sched.clear_pend_sv();
        switch_context(&mut sched);
        order.push(current_tid(&sched));
    }
    assert_eq!(order, vec![ta, tb, tc, ta, tb, tc]);
}

#[test]
fn strict_priority() {
    let mut sched = boot();
    let high = new_task(&mut sched, ENTRY, Args::empty(), 256, Priority::Critical, "high");
    let low = new_task(&mut sched, ENTRY, Args::empty(), 256, Priority::Normal, "low");
    start_scheduler(&mut sched, IDLE_ENTRY);

    // the critical task runs first and keeps running across yields
    assert_eq!(current_tid(&sched), high.tid(&sched).unwrap());
    switch_context(&mut sched);
    assert_eq!(current_tid(&sched), high.tid(&sched).unwrap());

    // once it is destroyed, the next switch reaches the normal task
    assert!(high.destroy(&mut sched));
    switch_context(&mut sched);
    assert_eq!(current_tid(&sched), low.tid(&sched).unwrap());
}

#[test]
fn sleep_wake_rendezvous() {
    let mut sched = boot();
    let waiter = new_task(&mut sched, ENTRY, Args::empty(), 256, Priority::Normal, "waiter");
    start_scheduler(&mut sched, IDLE_ENTRY);
    assert_eq!(current_tid(&sched), waiter.tid(&sched).unwrap());

    sleep(&mut sched, 0xABCD);
    sched.clear_pend_sv();
    switch_context(&mut sched);
    assert_eq!(waiter.state(&sched), Ok(State::Blocked));

    wake(&mut sched, 0xABCD);
    assert_eq!(waiter.state(&sched), Ok(State::Ready));

    switch_context(&mut sched);
    assert_eq!(waiter.state(&sched), Ok(State::Running));
}

#[test]
fn timed_delay() {
    let mut sched = boot();
    let sleeper = new_task(&mut sched, ENTRY, Args::empty(), 256, Priority::Normal, "sleeper");
    start_scheduler(&mut sched, IDLE_ENTRY);

    let mut clock = Tick::new();
    set_tick(&mut clock, 1000);
    sched.reset_clock(clock);

    delay_ms(&mut sched, 300);
    sched.clear_pend_sv();
    switch_context(&mut sched);
    assert_eq!(sleeper.state(&sched), Ok(State::Blocked));

    // not ready before tick 1300
    while get_tick(sched.clock()) < 1299 {
        system_tick(&mut sched);
        assert_eq!(sleeper.state(&sched), Ok(State::Blocked));
    }
    system_tick(&mut sched);
    assert_eq!(get_tick(sched.clock()), 1300);
    assert_eq!(sleeper.state(&sched), Ok(State::Ready));
}

#[test]
fn tick_wrap_moves_overflow_sleepers() {
    let mut sched = boot();
    let sleeper = new_task(&mut sched, ENTRY, Args::empty(), 256, Priority::Normal, "wrapper");
    start_scheduler(&mut sched, IDLE_ENTRY);

    let mut clock = Tick::new();
    set_tick(&mut clock, usize::MAX - 2);
    sched.reset_clock(clock);

    // target wraps past the counter maximum
    sleep_for(&mut sched, FOREVER_CHAN, 5);
    sched.clear_pend_sv();
    switch_context(&mut sched);
    assert_eq!(sleeper.state(&sched), Ok(State::Blocked));

    // two ticks reach the maximum; the sleeper stays in the overflow
    // queue and keeps waiting
    system_tick(&mut sched);
    system_tick(&mut sched);
    assert_eq!(sleeper.state(&sched), Ok(State::Blocked));

    // the wrap tick moves it to the delay queue; it wakes when the
    // counter reaches its wrapped target
    system_tick(&mut sched);
    assert_eq!(get_tick(sched.clock()), 0);
    assert_eq!(sleeper.state(&sched), Ok(State::Blocked));
    system_tick(&mut sched);
    system_tick(&mut sched);
    assert_eq!(get_tick(sched.clock()), 2);
    assert_eq!(sleeper.state(&sched), Ok(State::Ready));
}

#[test]
fn wake_on_empty_channel_is_noop() {
    let mut sched = boot();
    let task = new_task(&mut sched, ENTRY, Args::empty(), 256, Priority::Normal, "only");
    start_scheduler(&mut sched, IDLE_ENTRY);

    wake(&mut sched, 0x1234);
    assert_eq!(task.state(&sched), Ok(State::Running));
}

#[test]
fn preemption_requested_when_higher_ready() {
    let mut sched = boot();
    let _low = new_task(&mut sched, ENTRY, Args::empty(), 256, Priority::Low, "bg");
    start_scheduler(&mut sched, IDLE_ENTRY);
    assert!(!sched.pend_sv());

    // a new critical task makes the tick handler request a switch
    let _high = new_task(&mut sched, ENTRY, Args::empty(), 256, Priority::Critical, "fg");
    system_tick(&mut sched);
    assert!(sched.pend_sv());

    sched.clear_pend_sv();
    switch_context(&mut sched);
    assert_eq!(current_tid(&sched), _high.tid(&sched).unwrap());
}

#[test]
fn args_reach_the_task_record() {
    let mut sched = boot();
    let args = Builder::new(2).add_arg(100).add_arg(500).finalize();
    assert_eq!(args.len(), 2);
    assert_eq!(args.get(0), 100);
    assert_eq!(args.get(1), 500);
    let handle = new_task(&mut sched, ENTRY, args, 512, Priority::Normal, "args");
    assert_eq!(handle.state(&sched), Ok(State::Ready));
}

#[test]
fn sleep_for_with_wrapping_target_marks_overflow() {
    let mut sched = boot();
    let _t = new_task(&mut sched, ENTRY, Args::empty(), 256, Priority::Normal, "ovf");
    start_scheduler(&mut sched, IDLE_ENTRY);

    let mut clock = Tick::new();
    set_tick(&mut clock, 5);
    sched.reset_clock(clock);

    sleep_for(&mut sched, FOREVER_CHAN, usize::MAX);
    sched.clear_pend_sv();
    switch_context(&mut sched);

    // it waits in the overflow-delay queue: a tick does not wake it
    // even though its wrapped target of four has "passed"
    system_tick(&mut sched);
    assert_eq!(_t.state(&sched), Ok(State::Blocked));
}
