use altos_core::atomic::Atomic;
use altos_core::init::init_heap;
use altos_core::sync::{CriticalSection, Mutex, SpinMutex};
use altos_core::{new_task, start_scheduler, Args, Priority, Scheduler, State};

fn booted() -> Scheduler {
    let mut sched = Scheduler::new();
    init_heap(&mut sched, 0x2000_0000, 0x1_0000);
    let _ = new_task(&mut sched, 0x0800_0100, Args::empty(), 256, Priority::Normal, "t");
    start_scheduler(&mut sched, 0x0800_0000);
    sched
}

#[test]
fn mutex_smoke() {
}

#[test]
fn mutex_try_lock_excludes() {
    let mut m = Mutex::new(7u32);

    let guard = m.try_lock().expect("lock was free");
    assert_eq!(*guard.data(), 7);

    // a second attempt while the guard is out must fail
    assert!(m.try_lock().is_none());

    let mut sched = booted();
    m.unlock(guard, &mut sched);
    assert!(m.try_lock().is_some());
}

#[test]
fn mutex_guarded_increments() {
    let mut m = Mutex::new(0u32);
    let mut sched = booted();

    // two logical tasks each add ten thousand under the lock
    for _ in 0..2 {
        for _ in 0..10000 {
            let mut guard = match m.lock(&mut sched) {
                Some(g) => g,
                None => unreachable!(),
            };
            let v = *guard.data();
            guard.set_data(v + 1);
            m.unlock(guard, &mut sched);
        }
    }
    let guard = m.try_lock().expect("free at the end");
    assert_eq!(*guard.data(), 20000);
}

#[test]
fn mutex_contention_sleeps_current() {
    let mut m = Mutex::new(1u32);
    let mut sched = booted();

    let guard = m.try_lock().expect("first take");
    // the running task fails to take the lock and goes to sleep on the
    // mutex's freshly named channel
    assert!(m.lock(&mut sched).is_none());
    let handle = altos_core::TaskHandle { tid: 0 };
    assert_eq!(handle.state(&sched), Ok(State::Blocked));
    drop(guard);
}

#[test]
fn spin_mutex_try_lock_excludes() {
    let mut m = SpinMutex::new(3usize);

    let guard = m.try_lock().expect("lock was free");
    assert_eq!(*guard.data(), 3);
    assert!(m.try_lock().is_none());
    m.unlock(guard);

    let guard = m.lock();
    assert_eq!(*guard.data(), 3);
    m.unlock(guard);
}

#[test]
fn critical_section_guard() {
    let guard = CriticalSection::begin();
    assert_eq!(guard.mask(), 0);
}

#[test]
fn load() {
    let atomic = Atomic::new(0usize);

    assert_eq!(atomic.load(), 0);
}

#[test]
fn store() {
    let mut atomic = Atomic::new(0usize);

    atomic.store(1);
    assert_eq!(atomic.load(), 1);
}

#[test]
fn swap() {
    let mut atomic = Atomic::new(0usize);

    assert_eq!(atomic.swap(1), 0);
    assert_eq!(atomic.load(), 1);
}

#[test]
fn compare_and_swap() {
    let mut atomic = Atomic::new(0usize);

    assert_eq!(atomic.compare_and_swap(0, 1), 0);
    assert_eq!(atomic.load(), 1);
}

#[test]
fn compare_and_swap_fail() {
    let mut atomic = Atomic::new(0usize);

    assert_eq!(atomic.compare_and_swap(1, 2), 0);
    assert_eq!(atomic.load(), 0);
}

#[test]
fn compare_exchange() {
    let mut atomic = Atomic::new(0usize);

    assert_eq!(atomic.compare_exchange(0, 1), Ok(0));
    assert_eq!(atomic.load(), 1);
}

#[test]
fn compare_exchange_fail() {
    let mut atomic = Atomic::new(0usize);

    assert_eq!(atomic.compare_exchange(1, 2), Err(0));
    assert_eq!(atomic.load(), 0);
}

#[test]
fn fetch_add() {
    let mut atomic = Atomic::new(0usize);

    assert_eq!(atomic.fetch_add(1), 0);
    assert_eq!(atomic.load(), 1);
}

#[test]
fn fetch_sub() {
    let mut atomic = Atomic::new(1usize);

    assert_eq!(atomic.fetch_sub(1), 1);
    assert_eq!(atomic.load(), 0);
}

#[test]
fn fetch_and() {
    let mut atomic = Atomic::new(0b101usize);

    assert_eq!(atomic.fetch_and(0b100), 0b101);
    assert_eq!(atomic.load(), 0b100);
}

#[test]
fn fetch_or() {
    let mut atomic = Atomic::new(0b101usize);

    assert_eq!(atomic.fetch_or(0b010), 0b101);
    assert_eq!(atomic.load(), 0b111);
}

#[test]
fn fetch_xor() {
    let mut atomic = Atomic::new(0b101usize);

    assert_eq!(atomic.fetch_xor(0b111), 0b101);
    assert_eq!(atomic.load(), 0b010);
}

#[test]
fn atomic_bool_compare_and_swap() {
    let mut flag = Atomic::new(false);

    assert_eq!(flag.compare_and_swap(false, true), false);
    assert_eq!(flag.load(), true);
    assert_eq!(flag.compare_and_swap(false, true), true);
}
