//! The contracts that decouple the learning algorithm from the environment.
//!
//! A game plugs into the learner by implementing `State` and `Action`; an
//! action-selection strategy plugs in by implementing `Policy`. Learned
//! values and rewards are fixed-point integers counted in millionths
//! (`1_000_000` stands for a reward of one).

use vstd::prelude::*;

use crate::random_source::RandomSource;

verus! {

/// The scale of the fixed-point values: one million fixed-point units stand
/// for a value of one.
pub const VALUE_SCALE: i64 = 1_000_000;

/// A move of the game. Each action encodes itself as a small integer, so
/// that a (state, action) pair can key the value table.
pub trait Action: Sized + Copy {
    /// True of the actions the game can ever offer.
    spec fn wf(self) -> bool;

    /// The number this action is encoded as inside a value-table key.
    spec fn key_spec(self) -> u32;

    /// Distinct well-formed actions encode as distinct numbers, so a key
    /// collision in the value table can only come from equal actions.
    proof fn lemma_key_injective(a: Self, b: Self)
        requires
            a.wf(),
            b.wf(),
            a.key_spec() == b.key_spec(),
        ensures
            a == b,
    ;

    fn key(&self) -> (k: u32)
        requires
            self.wf(),
        ensures
            k == self.key_spec(),
    ;
}

/// A snapshot of the game. States are never mutated once produced: every
/// transition returns a fresh state.
pub trait State: Sized {
    type Act: Action;

    /// The internal invariant of a state value.
    spec fn wf(self) -> bool;

    /// Whether the game is over in this state.
    spec fn terminal_spec(self) -> bool;

    /// The actions available in this state, in the game's fixed
    /// deterministic order.
    spec fn actions_spec(self) -> Seq<Self::Act>;

    /// The number this state is encoded as inside a value-table key.
    spec fn key_spec(self) -> u32;

    /// The immediate reward, in millionths, for the transition
    /// `state -- action --> next`, from the viewpoint of the player who
    /// moved in `state`.
    spec fn reward_spec(state: Self, action: Self::Act, next: Self) -> i64;

    /// Distinct well-formed states encode as distinct numbers, so a key
    /// collision in the value table can only come from equal states.
    proof fn lemma_key_injective(a: Self, b: Self)
        requires
            a.wf(),
            b.wf(),
            a.key_spec() == b.key_spec(),
        ensures
            a == b,
    ;

    /// A starting state of the game. Consumes randomness (for instance to
    /// pick who moves first).
    fn initial_state(rng: &mut RandomSource) -> (s: Self)
        ensures
            s.wf(),
    ;

    /// The state after playing `action`, which must be available. Pure:
    /// the source state is left as it is. Every transition strictly
    /// shrinks the set of available actions, so every game is finite.
    fn next_state(&self, action: &Self::Act) -> (s: Self)
        requires
            self.wf(),
            self.actions_spec().contains(*action),
        ensures
            s.wf(),
            s.actions_spec().len() < self.actions_spec().len(),
    ;

    fn is_terminal(&self) -> (b: bool)
        requires
            self.wf(),
        ensures
            b == self.terminal_spec(),
    ;

    /// Every action available in this state. A non-terminal state always
    /// offers at least one, and each is well formed.
    fn available_actions(&self) -> (v: Vec<Self::Act>)
        requires
            self.wf(),
        ensures
            v@ == self.actions_spec(),
            !self.terminal_spec() ==> v@.len() > 0,
            forall|i: int| 0 <= i < v@.len() ==> (#[trigger] v@[i]).wf(),
    ;

    fn num_available_actions(&self) -> (n: usize)
        requires
            self.wf(),
        ensures
            n == self.actions_spec().len(),
    ;

    /// The reward for an observed transition, in millionths, between zero
    /// and one inclusive.
    fn get_reward(state: &Self, action: &Self::Act, next: &Self) -> (r: i64)
        requires
            state.wf(),
            next.wf(),
        ensures
            r == Self::reward_spec(*state, *action, *next),
            0 <= r <= VALUE_SCALE,
    ;

    fn state_key(&self) -> (k: u32)
        requires
            self.wf(),
        ensures
            k == self.key_spec(),
    ;
}

/// The greatest value among a non-empty list of candidate actions.
pub open spec fn max_value<A>(values: Seq<(A, i64)>) -> i64
    recommends
        values.len() > 0,
    decreases values.len(),
{
    if values.len() <= 1 {
        values[0].1
    } else {
        let rest = max_value(values.drop_last());
        if values.last().1 >= rest {
            values.last().1
        } else {
            rest
        }
    }
}

/// Whether `a` is one of the first `n` candidate actions, listed with
/// value `v`.
pub open spec fn appears_with_value<A>(values: Seq<(A, i64)>, n: int, a: A, v: i64) -> bool {
    exists|i: int| 0 <= i < n && #[trigger] values[i] == (a, v)
}

/// Whether `a` is one of the candidate actions and carries the greatest
/// value among them.
pub open spec fn chooses_max<A>(values: Seq<(A, i64)>, a: A) -> bool {
    appears_with_value(values, values.len() as int, a, max_value(values))
}

/// The index of a candidate carrying the greatest listed value, drawn
/// uniformly among the tied maximizers. The random tie-break is
/// deliberate: always taking the first maximizer would bias early play
/// toward low-indexed actions while the values still hold their
/// defaults. Shared by the learner's and the policy's best-action
/// queries.
pub(crate) fn pick_best_index<A>(rng: &mut RandomSource, values: &Vec<(A, i64)>) -> (i: usize)
    requires
        values@.len() > 0,
    ensures
        i < values@.len(),
        values@[i as int].1 == max_value(values@),
{
    let ghost vals = values@;
    let mut max: i64 = values[0].1;
    let mut best_indices: Vec<usize> = Vec::new();
    best_indices.push(0);
    let mut idx: usize = 1;
    proof {
        assert(vals.take(1)[0] == vals[0]);
    }
    while idx < values.len()
        invariant
            vals == values@,
            1 <= idx <= vals.len(),
            max == max_value(vals.take(idx as int)),
            best_indices@.len() >= 1,
            forall|j: int|
                0 <= j < best_indices@.len() ==> (#[trigger] best_indices@[j]) < idx
                    && vals[best_indices@[j] as int].1 == max,
        decreases vals.len() - idx,
    {
        let value = values[idx].1;
        proof {
            assert(vals.take(idx as int + 1).drop_last() =~= vals.take(idx as int));
            assert(vals.take(idx as int + 1).last() == vals[idx as int]);
        }
        if value > max {
            max = value;
            best_indices = Vec::new();
            best_indices.push(idx);
        } else if value == max {
            best_indices.push(idx);
        }
        idx = idx + 1;
    }
    proof {
        assert(vals.take(vals.len() as int) =~= vals);
    }
    let choice = rng.below(best_indices.len());
    best_indices[choice]
}

/// The greatest value is carried by some candidate and bounds every
/// candidate's value.
pub proof fn lemma_max_value_props<A>(values: Seq<(A, i64)>)
    requires
        values.len() > 0,
    ensures
        exists|i: int| 0 <= i < values.len() && (#[trigger] values[i]).1 == max_value(values),
        forall|j: int| 0 <= j < values.len() ==> (#[trigger] values[j]).1 <= max_value(values),
    decreases values.len(),
{
    if values.len() == 1 {
        assert(values[0].1 == max_value(values));
    } else {
        lemma_max_value_props(values.drop_last());
        let i = choose|i: int|
            0 <= i < values.drop_last().len() && (#[trigger] values.drop_last()[i]).1 == max_value(
                values.drop_last(),
            );
        if values.last().1 >= max_value(values.drop_last()) {
            assert(values[values.len() - 1].1 == max_value(values));
        } else {
            assert(values.drop_last()[i] == values[i]);
            assert(values[i].1 == max_value(values));
        }
        assert forall|j: int| 0 <= j < values.len() implies (#[trigger] values[j]).1 <= max_value(
            values,
        ) by {
            if j < values.len() - 1 {
                assert(values.drop_last()[j] == values[j]);
            }
        }
    }
}

/// What a learner offers on top of an environment: value queries for
/// (state, action) pairs and whole states, a best-action query for
/// inference, and the value update applied after an observed transition.
/// Values are fixed-point integers in millionths.
pub trait ReinforcementLearner<S: State> {
    /// The learner's internal invariant.
    spec fn wf(&self) -> bool;

    /// The learned value of taking `action` in `state`.
    fn get_action_value(&self, state: &S, action: &S::Act) -> (v: i64)
        requires
            self.wf(),
            state.wf(),
            action.wf(),
    ;

    /// Every available action of `state` paired with its learned value,
    /// in the environment's action order.
    fn get_action_values(&self, state: &S) -> (values: Vec<(S::Act, i64)>)
        requires
            self.wf(),
            state.wf(),
    ;

    /// One of the available actions of a non-terminal state. Calling this
    /// on a terminal state is a contract violation: play is over there.
    fn get_best_action(&self, rng: &mut RandomSource, state: &S) -> (a: S::Act)
        requires
            self.wf(),
            state.wf(),
            !state.terminal_spec(),
        ensures
            state.actions_spec().contains(a),
            a.wf(),
    ;

    /// Records what the transition `state -- action --> next_state` with
    /// the given reward teaches about the pair's value.
    fn update_action_value(&mut self, state: &S, action: &S::Act, next_state: &S, reward: i64)
        requires
            old(self).wf(),
            state.wf(),
            action.wf(),
            next_state.wf(),
            0 <= reward <= VALUE_SCALE,
        ensures
            final(self).wf(),
    ;

    /// The learned value of a whole state.
    fn get_state_value(&self, state: &S) -> (v: i64)
        requires
            self.wf(),
            state.wf(),
    ;
}

/// An action-selection strategy: given a non-empty list of candidate
/// actions paired with their current estimated values (in millionths),
/// choose exactly one of the listed actions. The list is consumed: the
/// chosen pair is removed from it, and callers must not reuse the rest.
pub trait Policy<S: State> {
    fn get_action(&self, rng: &mut RandomSource, values: &mut Vec<(S::Act, i64)>) -> (a: S::Act)
        requires
            old(values)@.len() > 0,
        ensures
            exists|i: int|
                0 <= i < old(values)@.len() && a == (#[trigger] old(values)@[i]).0
                    && final(values)@ == old(values)@.remove(i),
    ;
}

} // verus!
