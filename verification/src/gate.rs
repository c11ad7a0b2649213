use vstd::prelude::*;
use crate::tick::{Tick, spec_elapsed, spec_tick_add, elapsed};

verus! {

/// Per-action record of the minimum spacing between firings and the
/// counter reading at which the action last fired. One instance per
/// periodic action, created at program start with `last_fired` equal to
/// the boot tick and never destroyed.
#[derive(Clone, Copy, PartialEq, Eq, Structural, Debug)]
pub struct ActionState {
    /// Minimum ticks between consecutive firings; constant per action.
    pub interval: u64,
    /// Counter reading at which the action last fired.
    pub last_fired: Tick,
}

/// Whether a gate with this interval and last-fired reading fires at
/// `now`: wraparound-safe elapsed time has reached the interval.
pub open spec fn gate_fires(interval: u64, last_fired: Tick, now: Tick) -> bool {
    spec_elapsed(now, last_fired) >= interval
}

/// The state after one evaluation at `now`: the last-fired reading
/// moves up to `now` precisely on a firing evaluation.
pub open spec fn gate_step(s: ActionState, now: Tick) -> ActionState {
    if gate_fires(s.interval, s.last_fired, now) {
        ActionState { interval: s.interval, last_fired: now }
    } else {
        s
    }
}

/// The counter readings at which a gate fires when fed the readings in
/// `nows` one scheduler iteration at a time, oldest first.
pub open spec fn gate_fire_times(interval: u64, last_fired: Tick, nows: Seq<Tick>) -> Seq<Tick>
    decreases nows.len(),
{
    if nows.len() == 0 {
        Seq::empty()
    } else if gate_fires(interval, last_fired, nows[0]) {
        seq![nows[0]] + gate_fire_times(interval, nows[0], nows.skip(1))
    } else {
        gate_fire_times(interval, last_fired, nows.skip(1))
    }
}

impl ActionState {
    /// A fresh action record: nothing has fired yet, so the boot reading
    /// stands in for the last firing.
    pub fn new(interval: u64, boot: Tick) -> (s: ActionState)
        ensures
            s == (ActionState { interval, last_fired: boot }),
    {
        ActionState { interval, last_fired: boot }
    }

    /// Decide whether the action is due at `now`. Returns true and
    /// records `now` as the new last-fired reading iff
    /// `now - last_fired >= interval` under wraparound-safe subtraction;
    /// otherwise returns false and leaves the state untouched.
    pub fn due(&mut self, now: Tick) -> (fired: bool)
        ensures
            fired == gate_fires(old(self).interval, old(self).last_fired, now),
            *final(self) == gate_step(*old(self), now),
    {
        if elapsed(now, self.last_fired) >= self.interval {
            self.last_fired = now;
            true
        } else {
            false
        }
    }
}

/// Counter overflow cannot distort the decision: advance `last_fired`
/// by `d` ticks with wrapping arithmetic, and the modular-subtraction
/// decision comes out the same as comparing the plain mathematical
/// distance `d` against the interval.
pub proof fn lemma_due_wraparound_agrees(interval: u64, last_fired: Tick, d: u64)
    ensures
        gate_fires(interval, last_fired, spec_tick_add(last_fired, d)) == (d >= interval),
{
}

/// An interval of zero is legitimate, if degenerate: every evaluation
/// returns true, whatever the two readings are.
pub proof fn lemma_zero_interval_always_fires(last_fired: Tick, now: Tick)
    ensures
        gate_fires(0, last_fired, now),
{
}

/// Firings are never closer together than the interval: over any run
/// of readings, each firing stands at least `interval` ticks of modular
/// elapsed time after the one before it, and the first firing at least
/// `interval` ticks after the initial last-fired reading.
pub proof fn lemma_minimum_spacing(interval: u64, last_fired: Tick, nows: Seq<Tick>)
    ensures
        forall|i: int|
            0 <= i && i + 1 < gate_fire_times(interval, last_fired, nows).len()
                ==> spec_elapsed(
                    #[trigger] gate_fire_times(interval, last_fired, nows)[i + 1],
                    gate_fire_times(interval, last_fired, nows)[i],
                ) >= interval,
        gate_fire_times(interval, last_fired, nows).len() > 0 ==> spec_elapsed(
            gate_fire_times(interval, last_fired, nows)[0],
            last_fired,
        ) >= interval,
    decreases nows.len(),
{
    if nows.len() > 0 {
        let rest = nows.skip(1);
        if gate_fires(interval, last_fired, nows[0]) {
            lemma_minimum_spacing(interval, nows[0], rest);
            let tail = gate_fire_times(interval, nows[0], rest);
            let whole = gate_fire_times(interval, last_fired, nows);
            assert(whole == seq![nows[0]] + tail);
            assert(whole[0] == nows[0]);
            assert(forall|i: int| 0 <= i < tail.len() ==> whole[i + 1] == #[trigger] tail[i]);
            assert forall|i: int| 0 <= i && i + 1 < whole.len() implies spec_elapsed(
                #[trigger] whole[i + 1],
                whole[i],
            ) >= interval by {
                if i == 0 {
                    assert(whole[1] == tail[0]);
                } else {
                    assert(whole[i + 1] == tail[i]);
                    assert(whole[i] == tail[i - 1]);
                }
            }
        } else {
            lemma_minimum_spacing(interval, last_fired, rest);
        }
    }
}

} // verus!
