//! System timekeeping: the tick counter and the derived wall time.
//!
//! The system-tick interrupt advances a monotonic tick counter that may
//! wrap at the word size; once every `ticks_per_ms` ticks the derived
//! `(seconds, milliseconds)` pair advances by one millisecond.  The
//! resolution is configured once at startup.

use vstd::prelude::*;

verus! {

/// The tick resolution a fresh clock starts with: one tick per
/// millisecond.
pub const DEFAULT_RESOLUTION: usize = 1;

/// How many ticks have passed since the system started, together with
/// the resolution and the derived wall time.
pub struct Tick {
    ticks: usize,
    ms_res: usize,
    time: Time,
}

impl Tick {
    /// The raw tick count.
    pub closed spec fn spec_ticks(&self) -> usize {
        self.ticks
    }

    /// Ticks per millisecond.
    pub closed spec fn spec_resolution(&self) -> usize {
        self.ms_res
    }

    /// The derived wall time.
    pub closed spec fn spec_time(&self) -> Time {
        self.time
    }

    /// Creates a clock at tick zero with the default resolution.
    pub fn new() -> (r: Self)
        ensures
            r.spec_ticks() == 0,
            r.spec_resolution() == DEFAULT_RESOLUTION,
            r.spec_time() == (Time { sec: 0, msec: 0 }),
    {
        Tick { ticks: 0, ms_res: DEFAULT_RESOLUTION, time: Time { sec: 0, msec: 0 } }
    }
}

/// Advances the tick counter by one, wrapping at the word size, and
/// advances the wall time by a millisecond once every `ticks_per_ms`
/// ticks.  Called from the system-tick interrupt handler only.
pub fn tick(t: &mut Tick)
    ensures
        final(t).spec_ticks() == vstd::wrapping::usize_specs::wrapping_add(
            old(t).spec_ticks(),
            1,
        ),
        final(t).spec_resolution() == old(t).spec_resolution(),
        final(t).spec_time() == if old(t).spec_resolution() != 0 && final(t).spec_ticks() as int
            % old(t).spec_resolution() as int == 0 {
            old(t).spec_time().spec_incremented()
        } else {
            old(t).spec_time()
        },
{
    let new_ticks = t.ticks.wrapping_add(1);
    t.ticks = new_ticks;
    if t.ms_res != 0 && new_ticks % t.ms_res == 0 {
        t.time = t.time.increment();
    }
}

/// The number of ticks that have passed since the system started.
///
/// The counter can wrap back to zero, so the value returned is not
/// guaranteed to be greater than previous values.
pub fn get_tick(t: &Tick) -> (r: usize)
    ensures
        r == t.spec_ticks(),
{
    t.ticks
}

/// Sets the millisecond resolution of the ticks.
///
/// This should be called once, at system initialization; changing it
/// after tasks have been delayed could wake them early.  A resolution of
/// zero is a misuse and is excluded.
pub fn set_resolution(t: &mut Tick, ticks_per_ms: usize)
    requires
        ticks_per_ms > 0,
    ensures
        final(t).spec_ticks() == old(t).spec_ticks(),
        final(t).spec_resolution() == ticks_per_ms,
        final(t).spec_time() == old(t).spec_time(),
{
    t.ms_res = ticks_per_ms;
}

/// Seeds the raw tick count, as when testing wrap behavior or resuming
/// a saved counter; the resolution and the wall time stay.
pub fn set_tick(t: &mut Tick, ticks: usize)
    ensures
        final(t).spec_ticks() == ticks,
        final(t).spec_resolution() == old(t).spec_resolution(),
        final(t).spec_time() == old(t).spec_time(),
{
    t.ticks = ticks;
}

/// The current ticks-per-millisecond resolution.
pub fn get_resolution(t: &Tick) -> (r: usize)
    ensures
        r == t.spec_resolution(),
{
    t.ms_res
}

/// The wall time that has passed since the system started.
pub fn now(t: &Tick) -> (r: Time)
    ensures
        r == t.spec_time(),
{
    t.time
}

/// Delays the running task for `ms` milliseconds: a pure time sleep on
/// the reserved forever channel, for `ms` times the configured
/// resolution in ticks.
pub fn delay_ms(sched: &mut crate::sched::Scheduler, ms: usize)
    requires
        old(sched).wf(),
        old(sched).spec_current() is Some,
        ms * old(sched).spec_clock().spec_resolution() <= usize::MAX,
    ensures
        final(sched).wf(),
        final(sched).spec_current() == Some(
            crate::sched::blocked_until(
                *old(sched),
                crate::syscall::FOREVER_CHAN,
                (ms * old(sched).spec_clock().spec_resolution()) as usize,
            ),
        ),
        final(sched).spec_pend_sv(),
        final(sched).spec_same_queues(*old(sched)),
{
    let res = get_resolution(sched.clock());
    let ticks = ms * res;
    crate::syscall::sleep_for(sched, crate::syscall::FOREVER_CHAN, ticks);
}

/// Delays the running task for `s` seconds.
pub fn delay_s(sched: &mut crate::sched::Scheduler, s: usize)
    requires
        old(sched).wf(),
        old(sched).spec_current() is Some,
        s * 1000 <= usize::MAX,
        (s * 1000) * old(sched).spec_clock().spec_resolution() <= usize::MAX,
    ensures
        final(sched).wf(),
        final(sched).spec_current() == Some(
            crate::sched::blocked_until(
                *old(sched),
                crate::syscall::FOREVER_CHAN,
                ((s * 1000) * old(sched).spec_clock().spec_resolution()) as usize,
            ),
        ),
        final(sched).spec_pend_sv(),
        final(sched).spec_same_queues(*old(sched)),
{
    delay_ms(sched, s * 1000);
}

/// The wall time passed since the start of the system, as whole seconds
/// and the milliseconds into the current second.
#[derive(Clone, Copy, PartialEq, Eq, Structural, Debug)]
pub struct Time {
    /// Number of seconds that have passed.
    pub sec: usize,

    /// Number of milliseconds into the current second.
    pub msec: usize,
}

impl Time {
    /// Creates a time of zero seconds, zero milliseconds.
    pub fn new() -> (r: Self)
        ensures
            r.sec == 0 && r.msec == 0,
    {
        Time { sec: 0, msec: 0 }
    }

    /// The sum of two times, carrying milliseconds into seconds; the
    /// seconds wrap at the word size.
    pub open spec fn spec_add(self, rhs: Time) -> Time {
        let sec = vstd::wrapping::usize_specs::wrapping_add(self.sec, rhs.sec);
        let msec = vstd::wrapping::usize_specs::wrapping_add(self.msec, rhs.msec);
        if msec >= 1000 {
            Time {
                sec: vstd::wrapping::usize_specs::wrapping_add(sec, 1),
                msec: (msec % 1000) as usize,
            }
        } else {
            Time { sec, msec }
        }
    }

    /// This time advanced by one millisecond, carrying into the seconds
    /// when the milliseconds roll over.
    pub open spec fn spec_incremented(self) -> Time {
        self.spec_add(Time { sec: 0, msec: 1 })
    }

    /// This time advanced by one millisecond.
    pub fn increment(self) -> (r: Time)
        ensures
            r == self.spec_incremented(),
    {
        self + Time { sec: 0, msec: 1 }
    }
}

impl core::ops::Add<Time> for Time {
    type Output = Time;

    /// Adds two times, carrying milliseconds into seconds; the seconds
    /// wrap at the word size.
    fn add(self, rhs: Time) -> (r: Time)
        ensures
            r == self.spec_add(rhs),
    {
        let sec = self.sec.wrapping_add(rhs.sec);
        let msec = self.msec.wrapping_add(rhs.msec);
        if msec >= 1000 {
            Time { sec: sec.wrapping_add(1), msec: msec % 1000 }
        } else {
            Time { sec, msec }
        }
    }
}

impl vstd::std_specs::ops::AddSpecImpl<Time> for Time {
    open spec fn obeys_add_spec() -> bool {
        true
    }

    open spec fn add_req(self, rhs: Time) -> bool {
        true
    }

    open spec fn add_spec(self, rhs: Time) -> Time {
        self.spec_add(rhs)
    }
}

impl core::ops::Sub<Time> for Time {
    type Output = Time;

    /// The difference of two times; the subtrahend must be strictly
    /// smaller, component-borrowing included.
    fn sub(self, rhs: Time) -> (r: Time)
        ensures
            r == self.spec_sub(rhs),
    {
        let sec = self.sec - rhs.sec;
        if self.msec > rhs.msec {
            Time { sec, msec: self.msec - rhs.msec }
        } else {
            Time { sec: sec - 1, msec: 1000 - (rhs.msec - self.msec) }
        }
    }
}

impl vstd::std_specs::ops::SubSpecImpl<Time> for Time {
    open spec fn obeys_sub_spec() -> bool {
        true
    }

    open spec fn sub_req(self, rhs: Time) -> bool {
        if self.msec > rhs.msec {
            self.sec >= rhs.sec
        } else {
            self.sec > rhs.sec && rhs.msec - self.msec <= 1000
        }
    }

    open spec fn sub_spec(self, rhs: Time) -> Time {
        self.spec_sub(rhs)
    }
}

impl Time {
    /// The difference of two times, borrowing a second when the
    /// milliseconds do not cover the subtrahend's.
    pub open spec fn spec_sub(self, rhs: Time) -> Time {
        if self.msec > rhs.msec {
            Time { sec: (self.sec - rhs.sec) as usize, msec: (self.msec - rhs.msec) as usize }
        } else {
            Time {
                sec: (self.sec - rhs.sec - 1) as usize,
                msec: (1000 - (rhs.msec - self.msec)) as usize,
            }
        }
    }
}

} // verus!
