use vstd::prelude::*;
use crate::gate::{ActionState, gate_fires, gate_step};
use crate::tick::Tick;

verus! {

/// The action states after one scheduler pass at `now`: every gate is
/// evaluated against the same clock reading.
pub open spec fn step_states(states: Seq<ActionState>, now: Tick) -> Seq<ActionState> {
    states.map_values(|s: ActionState| gate_step(s, now))
}

/// The indices of the actions due at `now`, in registration order.
pub open spec fn due_indices(states: Seq<ActionState>, now: Tick) -> Seq<usize>
    decreases states.len(),
{
    if states.len() == 0 {
        Seq::empty()
    } else {
        let prefix = due_indices(states.drop_last(), now);
        if gate_fires(states.last().interval, states.last().last_fired, now) {
            prefix.push((states.len() - 1) as usize)
        } else {
            prefix
        }
    }
}

/// The registered periodic actions of the super-loop, in fixed
/// registration order. Each loop iteration reads the clock once, asks
/// every gate in that order, runs the due actions' bodies, and polls
/// the transport unconditionally; only the decision of which actions
/// run lives here, the bodies belong to the caller.
pub struct Scheduler {
    /// One record per registered action, in registration order.
    pub actions: Vec<ActionState>,
}

impl Scheduler {
    /// A scheduler with no actions registered yet.
    pub fn new() -> (s: Scheduler)
        ensures
            s.actions@ == Seq::<ActionState>::empty(),
    {
        Scheduler { actions: Vec::new() }
    }

    /// Register a periodic action with the given interval; `now` is the
    /// clock reading at registration and stands in for a first firing.
    /// Returns the action's index: actions are evaluated in registration
    /// order, so earlier registrations run first within an iteration.
    pub fn register(&mut self, interval: u64, now: Tick) -> (idx: usize)
        ensures
            idx == old(self).actions@.len(),
            final(self).actions@ == old(self).actions@.push(
                ActionState { interval, last_fired: now },
            ),
    {
        let idx = self.actions.len();
        self.actions.push(ActionState::new(interval, now));
        idx
    }

    /// One scheduler pass at clock reading `now`: every gate is
    /// evaluated in registration order against the same reading. The
    /// returned indices are exactly the actions due this iteration, in
    /// registration order; their last-fired readings advance to `now`
    /// and every other record is untouched.
    pub fn step(&mut self, now: Tick) -> (due: Vec<usize>)
        ensures
            final(self).actions@ == step_states(old(self).actions@, now),
            due@ == due_indices(old(self).actions@, now),
    {
        let mut due: Vec<usize> = Vec::new();
        let n = self.actions.len();
        let mut i: usize = 0;
        while i < n
            invariant
                i <= n,
                n == old(self).actions@.len(),
                self.actions@.len() == n,
                forall|j: int|
                    0 <= j < i ==> self.actions@[j] == gate_step(#[trigger] old(self).actions@[j], now),
                forall|j: int| i <= j < n ==> self.actions@[j] == #[trigger] old(self).actions@[j],
                due@ == due_indices(old(self).actions@.take(i as int), now),
            decreases n - i,
        {
            let mut st = self.actions[i];
            let fired = st.due(now);
            self.actions.set(i, st);
            if fired {
                due.push(i);
            }
            i += 1;
            proof {
                let taken = old(self).actions@.take(i as int);
                assert(taken.drop_last() =~= old(self).actions@.take(i - 1));
                assert(taken.last() == old(self).actions@[i - 1]);
            }
        }
        proof {
            assert(old(self).actions@.take(n as int) =~= old(self).actions@);
            assert(self.actions@ =~= step_states(old(self).actions@, now));
        }
        due
    }
}

/// Fairness of the fixed evaluation order: the due list is strictly
/// increasing — earlier registrations come first and none repeats —
/// every listed index is a registered action whose gate fires at `now`,
/// and every registered action whose gate fires is listed. No due
/// action can be starved by another within an iteration.
pub proof fn lemma_due_indices_exact(states: Seq<ActionState>, now: Tick)
    requires
        states.len() <= usize::MAX,
    ensures
        forall|p: int, q: int|
            0 <= p < q < due_indices(states, now).len() ==> due_indices(states, now)[p]
                < due_indices(states, now)[q],
        forall|p: int|
            0 <= p < due_indices(states, now).len() ==> #[trigger] due_indices(states, now)[p]
                < states.len() && gate_fires(
                states[due_indices(states, now)[p] as int].interval,
                states[due_indices(states, now)[p] as int].last_fired,
                now,
            ),
        forall|i: int|
            0 <= i < states.len() && gate_fires(
                #[trigger] states[i].interval,
                states[i].last_fired,
                now,
            ) ==> due_indices(states, now).contains(i as usize),
    decreases states.len(),
{
    if states.len() > 0 {
        lemma_due_indices_exact(states.drop_last(), now);
        let prefix = due_indices(states.drop_last(), now);
        let whole = due_indices(states, now);
        assert(forall|j: int|
            0 <= j < states.len() - 1 ==> #[trigger] states.drop_last()[j] == states[j]);
        if gate_fires(states.last().interval, states.last().last_fired, now) {
            assert(whole == prefix.push((states.len() - 1) as usize));
        } else {
            assert(whole == prefix);
        }
        assert forall|i: int|
            0 <= i < states.len() && gate_fires(
                #[trigger] states[i].interval,
                states[i].last_fired,
                now,
            ) implies whole.contains(i as usize) by {
            if i < states.len() - 1 {
                assert(states.drop_last()[i] == states[i]);
                assert(gate_fires(
                    states.drop_last()[i].interval,
                    states.drop_last()[i].last_fired,
                    now,
                ));
                assert(prefix.contains(i as usize));
                let k = choose|k: int| 0 <= k < prefix.len() && prefix[k] == i as usize;
                assert(whole[k] == i as usize);
            } else {
                assert(whole[whole.len() - 1] == i as usize);
            }
        }
    }
}

} // verus!
