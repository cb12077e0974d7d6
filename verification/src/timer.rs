//! Game timers measured in whole nanoseconds.
//!
//! A timer counts elapsed time towards a duration. A `Once` timer stops in the
//! finished state; a `Repeating` timer wraps around and reports how many times
//! it completed during the last tick.
use vstd::prelude::*;

verus! {

/// One nanosecond-based second.
pub const NANOS_PER_SECOND: u64 = 1_000_000_000;

/// One nanosecond-based millisecond.
pub const NANOS_PER_MILLI: u64 = 1_000_000;

/// Whether a timer stops when it finishes or starts over.
#[derive(Clone, Copy, Debug, PartialEq, Eq, Structural)]
pub enum TimerMode {
    Once,
    Repeating,
}

/// The mathematical state of a timer.
pub struct TimerModel {
    pub elapsed: nat,
    pub duration: nat,
    pub repeating: bool,
    pub finished: bool,
    pub times_finished_this_tick: nat,
}

/// The state of a timer after `delta` nanoseconds pass.
///
/// A finished `Once` timer stays as it is. Otherwise the elapsed time grows
/// (saturating at `u64::MAX`); when it reaches the duration a `Once` timer
/// pins its elapsed time to the duration and reports one completion, while a
/// `Repeating` timer keeps the remainder and reports the number of whole
/// durations covered (truncated to 32 bits; a zero duration reports
/// `u32::MAX` completions and keeps no elapsed time).
pub open spec fn ticked(t: TimerModel, delta: nat) -> TimerModel {
    if !t.repeating && t.finished {
        TimerModel { times_finished_this_tick: 0, ..t }
    } else {
        let sum = t.elapsed + delta;
        let e: nat = if sum > u64::MAX { u64::MAX as nat } else { sum };
        if e >= t.duration {
            if t.repeating {
                if t.duration == 0 {
                    TimerModel { elapsed: 0, finished: true, times_finished_this_tick: u32::MAX as nat, ..t }
                } else {
                    TimerModel {
                        elapsed: e % t.duration,
                        finished: true,
                        times_finished_this_tick: (e / t.duration) % 0x1_0000_0000,
                        ..t
                    }
                }
            } else {
                TimerModel { elapsed: t.duration, finished: true, times_finished_this_tick: 1, ..t }
            }
        } else {
            TimerModel { elapsed: e, finished: false, times_finished_this_tick: 0, ..t }
        }
    }
}

/// A timer counting nanoseconds towards a duration.
#[derive(Clone, Copy, Debug)]
pub struct Timer {
    elapsed: u64,
    duration: u64,
    mode: TimerMode,
    finished: bool,
    times_finished_this_tick: u32,
}

impl View for Timer {
    type V = TimerModel;

    closed spec fn view(&self) -> TimerModel {
        TimerModel {
            elapsed: self.elapsed as nat,
            duration: self.duration as nat,
            repeating: self.mode == TimerMode::Repeating,
            finished: self.finished,
            times_finished_this_tick: self.times_finished_this_tick as nat,
        }
    }
}

impl Timer {
    /// A fresh, unfinished timer with the given duration.
    pub fn new(duration: u64, mode: TimerMode) -> (t: Timer)
        ensures
            t@.elapsed == 0,
            t@.duration == duration,
            t@.repeating == (mode == TimerMode::Repeating),
            !t@.finished,
            t@.times_finished_this_tick == 0,
    {
        Timer { elapsed: 0, duration, mode, finished: false, times_finished_this_tick: 0 }
    }

    /// A `Once` timer that has already run its full duration, so that it
    /// reports finished from the start.
    pub fn ready_once(duration: u64) -> (t: Timer)
        ensures
            t@.elapsed == duration,
            t@.duration == duration,
            !t@.repeating,
            t@.finished,
            t@.times_finished_this_tick == 1,
    {
        let mut t = Timer::new(duration, TimerMode::Once);
        t.tick(duration);
        t
    }

    pub fn elapsed(&self) -> (e: u64)
        ensures
            e == self@.elapsed,
    {
        self.elapsed
    }

    pub fn duration(&self) -> (d: u64)
        ensures
            d == self@.duration,
    {
        self.duration
    }

    pub fn mode(&self) -> (m: TimerMode)
        ensures
            (m == TimerMode::Repeating) == self@.repeating,
    {
        self.mode
    }

    pub fn is_finished(&self) -> (b: bool)
        ensures
            b == self@.finished,
    {
        self.finished
    }

    pub fn times_finished_this_tick(&self) -> (n: u32)
        ensures
            n == self@.times_finished_this_tick,
    {
        self.times_finished_this_tick
    }

    /// Time left until the duration is reached, zero once it is reached.
    pub fn remaining(&self) -> (r: u64)
        ensures
            r == if self@.elapsed >= self@.duration { 0 } else { self@.duration - self@.elapsed },
    {
        if self.elapsed >= self.duration {
            0
        } else {
            self.duration - self.elapsed
        }
    }

    pub fn set_elapsed(&mut self, elapsed: u64)
        ensures
            final(self)@ == (TimerModel { elapsed: elapsed as nat, ..old(self)@ }),
    {
        self.elapsed = elapsed;
    }

    pub fn set_duration(&mut self, duration: u64)
        ensures
            final(self)@ == (TimerModel { duration: duration as nat, ..old(self)@ }),
    {
        self.duration = duration;
    }

    /// Starts counting from zero again, unfinished.
    pub fn reset(&mut self)
        ensures
            final(self)@ == (TimerModel {
                elapsed: 0,
                finished: false,
                times_finished_this_tick: 0,
                ..old(self)@
            }),
    {
        self.elapsed = 0;
        self.finished = false;
        self.times_finished_this_tick = 0;
    }

    /// Advances the timer by `delta` nanoseconds.
    pub fn tick(&mut self, delta: u64)
        ensures
            final(self)@ == ticked(old(self)@, delta as nat),
    {
        if self.mode != TimerMode::Repeating && self.finished {
            self.times_finished_this_tick = 0;
            return;
        }
        let e = self.elapsed.saturating_add(delta);
        if e >= self.duration {
            self.finished = true;
            if self.mode == TimerMode::Repeating {
                if self.duration == 0 {
                    self.times_finished_this_tick = u32::MAX;
                    self.elapsed = 0;
                } else {
                    let q = e / self.duration;
                    let times = q as u32;
                    assert(times == q % 0x1_0000_0000) by (bit_vector)
                        requires
                            times == q as u32,
                    ;
                    self.times_finished_this_tick = times;
                    self.elapsed = e % self.duration;
                }
            } else {
                self.times_finished_this_tick = 1;
                self.elapsed = self.duration;
            }
        } else {
            self.finished = false;
            self.times_finished_this_tick = 0;
            self.elapsed = e;
        }
    }
}

/// How long something lives before it is removed.
#[derive(Clone, Copy, Debug)]
pub struct Lifetime(pub Timer);

impl Lifetime {
    /// Lives for `duration` from now.
    pub fn new(duration: u64) -> (l: Lifetime)
        ensures
            l.0@ == (TimerModel {
                elapsed: 0,
                duration: duration as nat,
                repeating: false,
                finished: false,
                times_finished_this_tick: 0,
            }),
    {
        Lifetime(Timer::new(duration, TimerMode::Once))
    }

    /// Lets `delta` pass and tells whether the time to live is used up.
    pub fn tick(&mut self, delta: u64) -> (expired: bool)
        ensures
            final(self).0@ == ticked(old(self).0@, delta as nat),
            expired == final(self).0@.finished,
    {
        self.0.tick(delta);
        self.0.is_finished()
    }
}

/// A timer's elapsed time and duration are whole nanoseconds that fit in a
/// `u64`, and its completion count fits in a `u32`.
pub proof fn lemma_timer_fits(t: Timer)
    ensures
        t@.elapsed <= u64::MAX,
        t@.duration <= u64::MAX,
        t@.times_finished_this_tick <= u32::MAX,
{
}

/// A repeating timer loses no time: the completions it reports, times its
/// duration, plus what it keeps as elapsed, add up to what it held before
/// plus the time that passed (when no completion count is truncated and the
/// sum does not saturate).
pub proof fn lemma_repeating_tick_conserves_time(t: TimerModel, delta: nat)
    requires
        t.repeating,
        t.duration > 0,
        t.elapsed + delta <= u64::MAX,
        (t.elapsed + delta) / t.duration < 0x1_0000_0000,
    ensures
        ticked(t, delta).times_finished_this_tick * t.duration + ticked(t, delta).elapsed
            == t.elapsed + delta,
        ticked(t, delta).elapsed < t.duration,
{
    let e = t.elapsed + delta;
    vstd::arithmetic::div_mod::lemma_fundamental_div_mod(e as int, t.duration as int);
    vstd::arithmetic::div_mod::lemma_small_mod((e / t.duration) as nat, 0x1_0000_0000);
    vstd::arithmetic::mul::lemma_mul_is_commutative((e / t.duration) as int, t.duration as int);
    if e < t.duration {
        vstd::arithmetic::div_mod::lemma_basic_div(e as int, t.duration as int);
        vstd::arithmetic::div_mod::lemma_small_mod(e, t.duration);
    }
}

/// A `Once` timer never runs past its duration once ticked, and it reports
/// finished exactly when its elapsed time has reached the duration.
pub proof fn lemma_once_tick_stays_within_duration(t: TimerModel, delta: nat)
    requires
        !t.repeating,
        t.elapsed <= t.duration,
        t.finished ==> t.elapsed == t.duration,
    ensures
        ticked(t, delta).elapsed <= t.duration,
        ticked(t, delta).finished <==> ticked(t, delta).elapsed == t.duration,
        ticked(t, delta).times_finished_this_tick <= 1,
{
}

} // verus!
