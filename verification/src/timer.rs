//! The engine's timer, as the simulation sees it.
//!
//! A [`Timer`] is the engine's own type and is opaque here. What the simulation needs to
//! know of one is collected in [`TimerState`]; the functions at the end of this file call
//! the engine and state, without proof, how a call changes that state.

use bevy::time::Timer;
use bevy::time::TimerMode;
use std::time::Duration;
use vstd::arithmetic::div_mod::{
    lemma_div_is_ordered, lemma_fundamental_div_mod, lemma_fundamental_div_mod_converse,
};
use vstd::prelude::*;

verus! {

/// Declares the engine's `bevy::time::Timer`, so that it can stand in fields and
/// signatures. Nothing is claimed of what it holds.
#[verifier::external_type_specification]
#[verifier::external_body]
pub struct ExTimer(Timer);

/// What a timer holds, with its times in nanoseconds.
pub struct TimerState {
    /// The time counted so far.
    pub elapsed: nat,
    /// The time after which the timer finishes.
    pub duration: nat,
    /// Whether the timer starts over each time it finishes.
    pub repeating: bool,
    /// Whether the timer ignores the time that passes.
    pub paused: bool,
    /// Whether the timer has finished: for a repeating timer during the last tick, for
    /// any other at any time.
    pub finished: bool,
    /// How often the timer finished during the last tick.
    pub times_finished: nat,
}

/// The state of an engine timer: what its methods `elapsed`, `duration`, `mode`,
/// `paused`, `finished` and `times_finished_this_tick` return, with the two times taken
/// in nanoseconds.
pub uninterp spec fn timer_state(timer: Timer) -> TimerState;

/// The longest time that the engine can count, in nanoseconds: all the seconds that
/// fit 64 bits, and one nanosecond less than one second more.
pub open spec fn longest_time() -> nat {
    18_446_744_073_709_551_615_999_999_999
}

/// The number of laps that the engine can tell apart in one tick.
pub open spec fn lap_modulus() -> nat {
    0x1_0000_0000
}

impl TimerState {
    /// A timer that has not counted anything yet.
    pub open spec fn fresh(duration: nat, repeating: bool) -> TimerState {
        TimerState {
            elapsed: 0,
            duration,
            repeating,
            paused: false,
            finished: false,
            times_finished: 0,
        }
    }

    /// Whether the timer counts the time of the next tick.
    pub open spec fn counts(self) -> bool {
        !self.paused && (self.repeating || !self.finished)
    }

    /// Whether the engine can advance the timer by `delta`: the sum must not pass the
    /// longest time, and a repeating timer needs a period.
    pub open spec fn can_tick(self, delta: nat) -> bool {
        self.counts() ==> {
            &&& self.elapsed + delta <= longest_time()
            &&& self.repeating ==> self.duration > 0
        }
    }

    /// The state after a tick of `delta`. A paused timer counts nothing. A finished
    /// one-shot timer stays as it is. A one-shot timer that reaches its duration stops
    /// there; a repeating timer keeps what is left over after its whole laps.
    pub open spec fn ticked(self, delta: nat) -> TimerState {
        if self.paused {
            TimerState {
                finished: if self.repeating { false } else { self.finished },
                times_finished: 0,
                ..self
            }
        } else if !self.repeating && self.finished {
            TimerState { times_finished: 0, ..self }
        } else if self.elapsed + delta < self.duration {
            TimerState {
                elapsed: self.elapsed + delta,
                finished: false,
                times_finished: 0,
                ..self
            }
        } else if self.repeating {
            let laps = ((self.elapsed + delta) / self.duration) % lap_modulus();
            TimerState {
                elapsed: (self.elapsed + delta - self.duration * laps) as nat,
                finished: true,
                times_finished: laps,
                ..self
            }
        } else {
            TimerState { elapsed: self.duration, finished: true, times_finished: 1, ..self }
        }
    }

    /// Whether the timer finished during the last tick.
    pub open spec fn just_finished(self) -> bool {
        self.times_finished > 0
    }
}

/// What a timer holds, as it is read from the timer.
#[derive(Clone, Copy, Debug, PartialEq, Eq, Structural)]
pub struct TimerReading {
    /// The time counted so far, in nanoseconds.
    pub elapsed: u128,
    /// The time after which the timer finishes, in nanoseconds.
    pub duration: u128,
    /// Whether the timer starts over each time it finishes.
    pub repeating: bool,
    /// Whether the timer ignores the time that passes.
    pub paused: bool,
    /// Whether the timer has finished.
    pub finished: bool,
    /// How often the timer finished during the last tick.
    pub times_finished: u32,
}

/// The longest time that the engine can count, in nanoseconds.
pub const LONGEST_TIME: u128 = 18_446_744_073_709_551_615_999_999_999;

impl View for TimerReading {
    type V = TimerState;

    open spec fn view(&self) -> TimerState {
        TimerState {
            elapsed: self.elapsed as nat,
            duration: self.duration as nat,
            repeating: self.repeating,
            paused: self.paused,
            finished: self.finished,
            times_finished: self.times_finished as nat,
        }
    }
}

impl TimerReading {
    /// Reads the state of `timer`.
    pub fn of(timer: &Timer) -> (reading: TimerReading)
        ensures
            reading@ == timer_state(*timer),
    {
        TimerReading {
            elapsed: timer_elapsed(timer),
            duration: timer_duration(timer),
            repeating: timer_repeating(timer),
            paused: timer_paused(timer),
            finished: timer_finished(timer),
            times_finished: timer_times_finished(timer),
        }
    }

    /// Tells whether the engine can advance a timer in this state by `delta` nanoseconds.
    pub fn can_tick(&self, delta: u64) -> (possible: bool)
        ensures
            possible == self@.can_tick(delta as nat),
    {
        let counts = !self.paused && (self.repeating || !self.finished);
        !counts || (self.elapsed <= LONGEST_TIME - (delta as u128) && (!self.repeating
            || self.duration > 0))
    }

    /// The state that a timer in this state has after a tick of `delta` nanoseconds.
    pub fn tick(&self, delta: u64) -> (next: TimerReading)
        requires
            self@.can_tick(delta as nat),
        ensures
            next@ == self@.ticked(delta as nat),
    {
        if self.paused {
            TimerReading {
                finished: if self.repeating {
                    false
                } else {
                    self.finished
                },
                times_finished: 0,
                ..*self
            }
        } else if !self.repeating && self.finished {
            TimerReading { times_finished: 0, ..*self }
        } else {
            let reached: u128 = self.elapsed + (delta as u128);
            if reached < self.duration {
                TimerReading { elapsed: reached, finished: false, times_finished: 0, ..*self }
            } else if self.repeating {
                let laps: u128 = (reached / self.duration) % 0x1_0000_0000;
                proof {
                    let whole = (reached / self.duration) as int;
                    lemma_fundamental_div_mod(reached as int, self.duration as int);
                    assert(self.duration * laps <= self.duration * whole) by (nonlinear_arith)
                        requires
                            0 <= laps <= whole,
                            0 <= self.duration,
                    ;
                }
                TimerReading {
                    elapsed: reached - self.duration * laps,
                    finished: true,
                    times_finished: laps as u32,
                    ..*self
                }
            } else {
                TimerReading {
                    elapsed: self.duration,
                    finished: true,
                    times_finished: 1,
                    ..*self
                }
            }
        }
    }
}

/// The sum of `deltas`.
pub open spec fn total(deltas: Seq<nat>) -> nat
    decreases deltas.len(),
{
    if deltas.len() == 0 {
        0
    } else {
        total(deltas.drop_last()) + deltas.last()
    }
}

impl TimerState {
    /// Whether this is a running repeating timer in the middle of a lap.
    pub open spec fn steady(self) -> bool {
        &&& self.repeating
        &&& !self.paused
        &&& 0 < self.duration
        &&& self.elapsed < self.duration
    }

    /// The state after one tick for each of `deltas`, in order.
    pub open spec fn ticked_all(self, deltas: Seq<nat>) -> TimerState
        decreases deltas.len(),
    {
        if deltas.len() == 0 {
            self
        } else {
            self.ticked_all(deltas.drop_last()).ticked(deltas.last())
        }
    }

    /// How many laps the timer finished over the ticks of `deltas`.
    pub open spec fn laps(self, deltas: Seq<nat>) -> nat
        decreases deltas.len(),
    {
        if deltas.len() == 0 {
            0
        } else {
            self.laps(deltas.drop_last()) + self.ticked_all(deltas).times_finished
        }
    }

    /// After how many of the ticks of `deltas` the timer had just finished.
    pub open spec fn firings(self, deltas: Seq<nat>) -> nat
        decreases deltas.len(),
    {
        if deltas.len() == 0 {
            0
        } else {
            self.firings(deltas.drop_last()) + if self.ticked_all(deltas).just_finished() {
                1nat
            } else {
                0nat
            }
        }
    }
}

impl TimerState {
    /// Whether this is a running timer that has counted no more than its duration: a
    /// repeating one in the middle of a lap, any other at most at its end, where it has
    /// finished. Timers are made so, and ticks keep them so.
    pub open spec fn regular(self) -> bool {
        &&& !self.paused
        &&& self.duration <= u64::MAX
        &&& if self.repeating {
            0 < self.duration && self.elapsed < self.duration
        } else {
            self.elapsed <= self.duration && (self.finished ==> self.elapsed == self.duration)
        }
    }
}

/// A regular timer can be ticked by any time that fits 64 bits, and it stays regular as
/// long as the engine can tell the laps of a repeating timer apart.
pub proof fn lemma_regular_tick(timer: TimerState, delta: nat)
    requires
        timer.regular(),
        delta <= u64::MAX,
    ensures
        timer.can_tick(delta),
        !timer.repeating || (timer.elapsed + delta) / timer.duration < lap_modulus()
            ==> timer.ticked(delta).regular(),
{
    if timer.repeating && (timer.elapsed + delta) / timer.duration < lap_modulus() {
        lemma_steady_tick(timer, delta);
    }
}

/// One tick of a steady timer: as long as the engine can tell the laps apart, the timer
/// finishes as many laps as the time it has reached holds periods, keeps the rest, and
/// stays steady.
pub proof fn lemma_steady_tick(timer: TimerState, delta: nat)
    requires
        timer.steady(),
        timer.elapsed + delta <= longest_time(),
        (timer.elapsed + delta) / timer.duration < lap_modulus(),
    ensures
        timer.can_tick(delta),
        timer.ticked(delta).steady(),
        timer.ticked(delta).duration == timer.duration,
        timer.ticked(delta).elapsed == (timer.elapsed + delta) % timer.duration,
        timer.ticked(delta).times_finished == (timer.elapsed + delta) / timer.duration,
{
    let reached = (timer.elapsed + delta) as int;
    let period = timer.duration as int;
    lemma_fundamental_div_mod(reached, period);
    if reached < period {
        lemma_fundamental_div_mod_converse(reached, period, 0, reached);
    } else {
        let laps = reached / period;
        assert(laps % (lap_modulus() as int) == laps);
        assert(period * laps == period * (reached / period));
        assert(0 <= reached % period < period);
    }
}

/// Over any run of ticks in each of which the engine can tell the laps apart, a steady
/// timer finishes as many laps as the time it has reached holds periods. It has just
/// finished after at most as many ticks: a tick in which several laps end counts once.
pub proof fn lemma_steady_timer_counts_laps(timer: TimerState, deltas: Seq<nat>)
    requires
        timer.steady(),
        forall|index: int|
            0 <= index < deltas.len() ==> timer.duration + #[trigger] deltas[index]
                <= longest_time() && (timer.duration + deltas[index]) / timer.duration
                < lap_modulus(),
    ensures
        timer.ticked_all(deltas).steady(),
        timer.ticked_all(deltas).duration == timer.duration,
        timer.ticked_all(deltas).elapsed == (timer.elapsed + total(deltas)) % timer.duration,
        timer.laps(deltas) == (timer.elapsed + total(deltas)) / timer.duration,
        timer.firings(deltas) <= timer.laps(deltas),
    decreases deltas.len(),
{
    let period = timer.duration as int;
    if deltas.len() == 0 {
        lemma_fundamental_div_mod_converse(timer.elapsed as int, period, 0, timer.elapsed as int);
    } else {
        let before = deltas.drop_last();
        let delta = deltas.last();
        assert forall|index: int| 0 <= index < before.len() implies timer.duration
            + #[trigger] before[index] <= longest_time() && (timer.duration + before[index])
            / timer.duration < lap_modulus() by {
            assert(before[index] == deltas[index]);
        }
        lemma_steady_timer_counts_laps(timer, before);
        let middle = timer.ticked_all(before);
        let sum = (timer.elapsed + total(before)) as int;
        let reached = (middle.elapsed + delta) as int;
        assert(delta == deltas[deltas.len() - 1]);
        lemma_div_is_ordered(reached, period + delta, period);
        lemma_steady_tick(middle, delta);
        lemma_fundamental_div_mod(reached, period);
        lemma_fundamental_div_mod(sum, period);
        assert(sum + delta == (sum / period + reached / period) * period + reached % period)
            by (nonlinear_arith)
            requires
                sum == period * (sum / period) + sum % period,
                reached == sum % period + delta,
                reached == period * (reached / period) + reached % period,
        ;
        lemma_fundamental_div_mod_converse(
            sum + delta,
            period,
            sum / period + reached / period,
            reached % period,
        );
    }
}

/// Over any run of ticks of which none is longer than the period, a steady timer has
/// just finished after exactly as many ticks as the time it has reached holds periods.
pub proof fn lemma_steady_timer_counts_periods(timer: TimerState, deltas: Seq<nat>)
    requires
        timer.steady(),
        timer.duration <= u64::MAX,
        forall|index: int| 0 <= index < deltas.len() ==> deltas[index] <= timer.duration,
    ensures
        timer.ticked_all(deltas).steady(),
        timer.ticked_all(deltas).duration == timer.duration,
        timer.ticked_all(deltas).elapsed == (timer.elapsed + total(deltas)) % timer.duration,
        timer.firings(deltas) == (timer.elapsed + total(deltas)) / timer.duration,
        timer.laps(deltas) == timer.firings(deltas),
    decreases deltas.len(),
{
    let period = timer.duration as int;
    if deltas.len() == 0 {
        lemma_fundamental_div_mod_converse(timer.elapsed as int, period, 0, timer.elapsed as int);
    } else {
        let before = deltas.drop_last();
        let delta = deltas.last();
        lemma_steady_timer_counts_periods(timer, before);
        let middle = timer.ticked_all(before);
        let sum = (timer.elapsed + total(before)) as int;
        let reached = (middle.elapsed + delta) as int;
        assert(reached < 2 * period);
        lemma_fundamental_div_mod(reached, period);
        assert(reached / period < 2) by (nonlinear_arith)
            requires
                0 <= reached < 2 * period,
                reached == period * (reached / period) + reached % period,
                0 <= reached % period,
                0 < period,
        ;
        assert(0 <= reached / period) by (nonlinear_arith)
            requires
                0 <= reached,
                0 < period,
        ;
        lemma_steady_tick(middle, delta);
        lemma_fundamental_div_mod(sum, period);
        assert(sum + delta == (sum / period + reached / period) * period + reached % period)
            by (nonlinear_arith)
            requires
                sum == period * (sum / period) + sum % period,
                reached == sum % period + delta,
                reached == period * (reached / period) + reached % period,
        ;
        lemma_fundamental_div_mod_converse(
            sum + delta,
            period,
            sum / period + reached / period,
            reached % period,
        );
    }
}

/// A repeating timer that is ticked from its start, never by more than its period at a
/// time, has just finished after exactly as many ticks as the time that has passed holds
/// periods. This is the number of particles that an enemy ejects.
pub proof fn lemma_fresh_timer_counts_periods(period: nat, deltas: Seq<nat>)
    requires
        0 < period <= u64::MAX,
        forall|index: int| 0 <= index < deltas.len() ==> deltas[index] <= period,
    ensures
        TimerState::fresh(period, true).firings(deltas) == total(deltas) / period,
        TimerState::fresh(period, true).ticked_all(deltas).elapsed == total(deltas) % period,
{
    lemma_steady_timer_counts_periods(TimerState::fresh(period, true), deltas);
}

/// Calls the engine's `Timer::new` with a duration of `nanos` nanoseconds, made by
/// `Duration::from_nanos`. Claimed: the new timer has counted nothing, is not paused and
/// has not finished.
#[verifier::external_body]
pub(crate) fn timer_new(nanos: u64, repeating: bool) -> (timer: Timer)
    ensures
        timer_state(timer) == TimerState::fresh(nanos as nat, repeating),
{
    let mode = if repeating { TimerMode::Repeating } else { TimerMode::Once };
    Timer::new(Duration::from_nanos(nanos), mode)
}

/// Calls the engine's `Timer::tick` with `nanos` nanoseconds. Claimed: the timer changes
/// as [`TimerState::ticked`] says. The engine panics where the counted time would pass
/// the longest time and where a repeating timer has no period, so both are left out.
#[verifier::external_body]
pub(crate) fn timer_tick(timer: &mut Timer, nanos: u64)
    requires
        timer_state(*old(timer)).can_tick(nanos as nat),
    ensures
        timer_state(*final(timer)) == timer_state(*old(timer)).ticked(nanos as nat),
{
    timer.tick(Duration::from_nanos(nanos));
}

/// Calls the engine's `Timer::elapsed` and takes the time in nanoseconds, by
/// `Duration::as_nanos`. Claimed: it reads the time that the timer has counted.
#[verifier::external_body]
pub(crate) fn timer_elapsed(timer: &Timer) -> (nanos: u128)
    ensures
        nanos == timer_state(*timer).elapsed,
{
    timer.elapsed().as_nanos()
}

/// Calls the engine's `Timer::duration` and takes the time in nanoseconds, by
/// `Duration::as_nanos`. Claimed: it reads the time after which the timer finishes.
#[verifier::external_body]
pub(crate) fn timer_duration(timer: &Timer) -> (nanos: u128)
    ensures
        nanos == timer_state(*timer).duration,
{
    timer.duration().as_nanos()
}

/// Calls the engine's `Timer::mode`. Claimed: it tells whether the timer repeats.
#[verifier::external_body]
pub(crate) fn timer_repeating(timer: &Timer) -> (repeating: bool)
    ensures
        repeating == timer_state(*timer).repeating,
{
    match timer.mode() {
        TimerMode::Repeating => true,
        TimerMode::Once => false,
    }
}

/// Calls the engine's `Timer::paused`. Claimed: it tells whether the timer is paused.
#[verifier::external_body]
pub(crate) fn timer_paused(timer: &Timer) -> (paused: bool)
    ensures
        paused == timer_state(*timer).paused,
{
    timer.paused()
}

/// Calls the engine's `Timer::times_finished_this_tick`. Claimed: it reads how often the
/// timer finished during the last tick.
#[verifier::external_body]
pub(crate) fn timer_times_finished(timer: &Timer) -> (times: u32)
    ensures
        times == timer_state(*timer).times_finished,
{
    timer.times_finished_this_tick()
}

/// Calls the engine's `Timer::finished`. Claimed: it reads the timer's flag.
#[verifier::external_body]
pub(crate) fn timer_finished(timer: &Timer) -> (finished: bool)
    ensures
        finished == timer_state(*timer).finished,
{
    timer.finished()
}

/// Calls the engine's `Timer::just_finished`. Claimed: it tells whether the timer
/// finished at least once during the last tick.
#[verifier::external_body]
pub(crate) fn timer_just_finished(timer: &Timer) -> (finished: bool)
    ensures
        finished == timer_state(*timer).just_finished(),
{
    timer.just_finished()
}

} // verus!
