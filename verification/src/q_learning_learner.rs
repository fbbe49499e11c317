//! The tabular Q-learning core: the value table, the update rule, and the
//! episodic training loop.
//!
//! The table is shared by both players of an adversarial game. The update
//! rule therefore negates the follow-up state's value: what is good for
//! the player about to move there is bad for the player who just moved.
//! This single-table, sign-flipped encoding is deliberate.

use core::marker::PhantomData;
use std::collections::HashMap;

use vstd::prelude::*;

use crate::generic_reinforcement_learner::{
    chooses_max, lemma_max_value_props, max_value, pick_best_index, Action, Policy,
    ReinforcementLearner, State, VALUE_SCALE,
};
use crate::random_source::RandomSource;

verus! {

broadcast use vstd::std_specs::hash::group_hash_axioms;

/// The scale of the fixed-point hyperparameters: a learning rate or
/// discount factor of one is `RATE_SCALE` thousandths.
pub const RATE_SCALE: u32 = 1000;

/// Learned values are kept within this bound. One update moves a value by
/// at most its distance to the scaled step target, so values reachable
/// from rewards of at most one stay far below the bound; it exists so
/// that every state of the table is provably free of overflow.
pub const VALUE_LIMIT: i64 = 1_000_000_000_000;

/// The number a (state, action) pair is encoded as: the state's encoding
/// shifted above the action's.
pub open spec fn state_action_key(sk: u32, ak: u32) -> int {
    sk * 0x1_0000_0000 + ak
}

/// Division rounding toward zero, as the fixed-point scaling below uses it.
pub open spec fn div_toward_zero(x: int, d: int) -> int
    recommends
        d > 0,
{
    if x >= 0 {
        x / d
    } else {
        -((-x) / d)
    }
}

/// A value pushed back into the representable range.
pub open spec fn clamp_value(v: int) -> i64 {
    if v > VALUE_LIMIT {
        VALUE_LIMIT
    } else if v < -VALUE_LIMIT {
        (-VALUE_LIMIT) as i64
    } else {
        v as i64
    }
}

/// One Q-learning step: the old value moves a fraction `alpha` (in
/// thousandths) of the way toward `reward + gamma * (-v_next)`, where
/// `v_next` is the follow-up state's value and `gamma` the discount (in
/// thousandths). The negation encodes the adversarial two-player setting
/// on one shared table. The scalings round toward zero, and the result is
/// clamped into the representable range.
pub open spec fn updated_q(q_old: i64, alpha: int, gamma: int, reward: int, v_next: i64) -> i64 {
    let discounted = div_toward_zero(gamma * -v_next, RATE_SCALE as int);
    let delta = reward + discounted - q_old;
    clamp_value(q_old + div_toward_zero(alpha * delta, RATE_SCALE as int))
}

/// Two (state, action) pairs share a value-table key only when both the
/// states and the actions are equal.
pub proof fn lemma_state_action_key_injective<S: State>(s1: S, a1: S::Act, s2: S, a2: S::Act)
    requires
        s1.wf(),
        s2.wf(),
        a1.wf(),
        a2.wf(),
        state_action_key(s1.key_spec(), a1.key_spec()) == state_action_key(
            s2.key_spec(),
            a2.key_spec(),
        ),
    ensures
        s1 == s2,
        a1 == a2,
{
    assert(s1.key_spec() == s2.key_spec() && a1.key_spec() == a2.key_spec());
    S::lemma_key_injective(s1, s2);
    <S::Act as Action>::lemma_key_injective(a1, a2);
}

/// A map that has only gained keys has not shrunk.
pub proof fn lemma_table_growth(pre: Map<u64, i64>, post: Map<u64, i64>)
    requires
        pre.dom() <= post.dom(),
        post.dom().finite(),
    ensures
        pre.len() <= post.len(),
{
    vstd::set_lib::lemma_len_subset(pre.dom(), post.dom());
}

/// The learner: the value table and the two hyperparameters of the update
/// rule. Created once, mutated by every training step, and read-only
/// afterwards for best-action queries.
pub struct QLearner<S: State> {
    /// Learned values in millionths of a reward unit, keyed by the packed
    /// (state, action) encoding. Missing entries stand for zero. Keys are
    /// only ever inserted or overwritten, never removed.
    pub q_values: HashMap<u64, i64>,
    /// The learning rate (step size) in thousandths, in `(0, RATE_SCALE]`.
    pub alpha_millis: u32,
    /// The discount factor in thousandths, in `[0, RATE_SCALE]`.
    pub gamma_millis: u32,
    pub game: PhantomData<S>,
}

impl<S: State> QLearner<S> {
    /// The learned value of a (state, action) pair: its table entry, or
    /// zero while the pair has never been updated.
    pub open spec fn q_of(self, sk: u32, ak: u32) -> i64 {
        if self.q_values@.contains_key(state_action_key(sk, ak) as u64) {
            self.q_values@[state_action_key(sk, ak) as u64]
        } else {
            0
        }
    }

    /// Every available action of `s` paired with its learned value, in the
    /// game's action order.
    pub open spec fn action_values_spec(self, s: S) -> Seq<(S::Act, i64)> {
        s.actions_spec().map_values(|a: S::Act| (a, self.q_of(s.key_spec(), a.key_spec())))
    }

    /// The value of a state: zero when terminal, else the greatest learned
    /// value among its available actions.
    pub open spec fn state_value_spec(self, s: S) -> i64 {
        if s.terminal_spec() {
            0
        } else {
            max_value(self.action_values_spec(s))
        }
    }

    /// A learner with an empty value table.
    pub fn new(alpha_millis: u32, gamma_millis: u32) -> (l: QLearner<S>)
        requires
            0 < alpha_millis <= RATE_SCALE,
            gamma_millis <= RATE_SCALE,
        ensures
            l.wf(),
            l.q_values@ == Map::<u64, i64>::empty(),
            l.alpha_millis == alpha_millis,
            l.gamma_millis == gamma_millis,
    {
        QLearner { q_values: HashMap::new(), alpha_millis, gamma_millis, game: PhantomData }
    }

    fn make_key(sk: u32, ak: u32) -> (k: u64)
        ensures
            k == state_action_key(sk, ak),
    {
        (sk as u64) * 0x1_0000_0000u64 + (ak as u64)
    }

    /// `rate * x / RATE_SCALE`, rounded toward zero: a fixed-point
    /// fraction of `x`, never larger in magnitude than `x` itself.
    fn scale_by_rate(rate: u32, x: i64) -> (r: i64)
        requires
            rate <= RATE_SCALE,
            -10_000_000_000_000i64 <= x <= 10_000_000_000_000i64,
        ensures
            r == div_toward_zero(rate * x, RATE_SCALE as int),
            x >= 0 ==> 0 <= r <= x,
            x < 0 ==> x <= r <= 0,
    {
        if x >= 0 {
            proof {
                vstd::arithmetic::mul::lemma_mul_upper_bound(
                    rate as int,
                    1000,
                    x as int,
                    10_000_000_000_000,
                );
                vstd::arithmetic::mul::lemma_mul_nonnegative(rate as int, x as int);
                vstd::arithmetic::mul::lemma_mul_inequality(rate as int, 1000, x as int);
                vstd::arithmetic::div_mod::lemma_div_is_ordered(
                    rate as int * x as int,
                    1000 * x as int,
                    1000,
                );
                vstd::arithmetic::div_mod::lemma_div_multiples_vanish(x as int, 1000);
                vstd::arithmetic::div_mod::lemma_div_pos_is_pos(rate as int * x as int, 1000);
            }
            let p: u64 = (rate as u64) * (x as u64);
            (p / 1000) as i64
        } else {
            let m: i64 = -x;
            proof {
                vstd::arithmetic::mul::lemma_mul_upper_bound(
                    rate as int,
                    1000,
                    m as int,
                    10_000_000_000_000,
                );
                vstd::arithmetic::mul::lemma_mul_nonnegative(rate as int, m as int);
                vstd::arithmetic::mul::lemma_mul_inequality(rate as int, 1000, m as int);
                vstd::arithmetic::div_mod::lemma_div_is_ordered(
                    rate as int * m as int,
                    1000 * m as int,
                    1000,
                );
                vstd::arithmetic::div_mod::lemma_div_multiples_vanish(m as int, 1000);
                vstd::arithmetic::div_mod::lemma_div_pos_is_pos(rate as int * m as int, 1000);
                assert(rate as int * (x as int) == -(rate as int * m as int)) by (nonlinear_arith)
                    requires
                        m as int == -(x as int),
                {
                }
            }
            let p: u64 = (rate as u64) * (m as u64);
            -((p / 1000) as i64)
        }
    }
}

impl<S: State> ReinforcementLearner<S> for QLearner<S> {
    /// The hyperparameters sit within their scales and every stored value
    /// within the representable range.
    open spec fn wf(&self) -> bool {
        &&& 0 < self.alpha_millis <= RATE_SCALE
        &&& self.gamma_millis <= RATE_SCALE
        &&& forall|k: u64|
            self.q_values@.contains_key(k) ==> -VALUE_LIMIT <= #[trigger] self.q_values@[k]
                <= VALUE_LIMIT
    }

    /// The table lookup behind every value query.
    fn get_action_value(&self, state: &S, action: &S::Act) -> (v: i64)
        ensures
            v == self.q_of(state.key_spec(), action.key_spec()),
            -VALUE_LIMIT <= v <= VALUE_LIMIT,
    {
        let key = Self::make_key(state.state_key(), action.key());
        match self.q_values.get(&key) {
            Some(value) => *value,
            None => 0,
        }
    }

    /// Every available action of `state` with its learned value, one entry
    /// per available action, in the game's action order.
    fn get_action_values(&self, state: &S) -> (values: Vec<(S::Act, i64)>)
        ensures
            values@ == self.action_values_spec(*state),
            !state.terminal_spec() ==> values@.len() > 0,
            forall|j: int| 0 <= j < values@.len() ==> (#[trigger] values@[j]).0.wf(),
            forall|j: int|
                0 <= j < values@.len() ==> -VALUE_LIMIT <= (#[trigger] values@[j]).1 <= VALUE_LIMIT,
    {
        let actions = state.available_actions();
        let mut values: Vec<(S::Act, i64)> = Vec::new();
        let mut i: usize = 0;
        while i < actions.len()
            invariant
                self.wf(),
                state.wf(),
                i <= actions@.len(),
                actions@ == state.actions_spec(),
                forall|j: int| 0 <= j < actions@.len() ==> (#[trigger] actions@[j]).wf(),
                values@.len() == i,
                forall|j: int|
                    0 <= j < i ==> #[trigger] values@[j] == (
                        actions@[j],
                        self.q_of(state.key_spec(), actions@[j].key_spec()),
                    ),
            decreases actions@.len() - i,
        {
            let action = actions[i];
            let value = self.get_action_value(state, &action);
            values.push((action, value));
            i = i + 1;
        }
        proof {
            assert(values@ =~= self.action_values_spec(*state));
        }
        values
    }

    /// One of the available actions whose learned value is greatest, drawn
    /// uniformly among the tied maximizers — the same deliberate tie-break
    /// as the policy's exploitation branch, but independent of any
    /// exploration probability. Used at inference time; terminal states,
    /// which offer no action, are excluded by contract.
    fn get_best_action(&self, rng: &mut RandomSource, state: &S) -> (a: S::Act)
        ensures
            chooses_max(self.action_values_spec(*state), a),
            self.q_of(state.key_spec(), a.key_spec()) == self.state_value_spec(*state),
    {
        let actions_and_values = self.get_action_values(state);
        let ghost vals = actions_and_values@;
        let i = pick_best_index(rng, &actions_and_values);
        let chosen = actions_and_values[i].0;
        proof {
            assert(vals[i as int] == (chosen, max_value(vals)));
            assert(vals[i as int].0 == state.actions_spec()[i as int]);
            assert(state.actions_spec().contains(chosen));
        }
        chosen
    }

    /// The value the update rule discounts for a follow-up state: zero for
    /// a terminal state, else the greatest learned value among its
    /// available actions (the value of its best action).
    fn get_state_value(&self, state: &S) -> (v: i64)
        ensures
            v == self.state_value_spec(*state),
            -VALUE_LIMIT <= v <= VALUE_LIMIT,
    {
        if state.is_terminal() {
            return 0;
        }
        let values = self.get_action_values(state);
        let ghost vals = values@;
        let mut max: i64 = values[0].1;
        let mut idx: usize = 1;
        proof {
            assert(vals.take(1)[0] == vals[0]);
        }
        while idx < values.len()
            invariant
                vals == values@,
                1 <= idx <= vals.len(),
                max == max_value(vals.take(idx as int)),
                forall|j: int|
                    0 <= j < vals.len() ==> -VALUE_LIMIT <= (#[trigger] vals[j]).1 <= VALUE_LIMIT,
            decreases vals.len() - idx,
        {
            let pair = values[idx];
            proof {
                assert(vals.take(idx as int + 1).drop_last() =~= vals.take(idx as int));
                assert(vals.take(idx as int + 1).last() == vals[idx as int]);
            }
            if pair.1 > max {
                max = pair.1;
            }
            idx = idx + 1;
        }
        proof {
            assert(vals.take(vals.len() as int) =~= vals);
            lemma_max_value_props(vals);
        }
        max
    }

    /// One Q-learning update, overwriting the table entry of
    /// `(state, action)` with the stepped value: see `updated_q`. The rest
    /// of the table, and the hyperparameters, are untouched, so the set of
    /// stored keys can only grow — by one when the pair is new, not at all
    /// when it is revisited.
    fn update_action_value(&mut self, state: &S, action: &S::Act, next_state: &S, reward: i64)
        ensures
            final(self).alpha_millis == old(self).alpha_millis,
            final(self).gamma_millis == old(self).gamma_millis,
            final(self).q_values@ == old(self).q_values@.insert(
                state_action_key(state.key_spec(), action.key_spec()) as u64,
                updated_q(
                    old(self).q_of(state.key_spec(), action.key_spec()),
                    old(self).alpha_millis as int,
                    old(self).gamma_millis as int,
                    reward as int,
                    old(self).state_value_spec(*next_state),
                ),
            ),
            old(self).q_values@.dom() <= final(self).q_values@.dom(),
            final(self).q_values@.len() == old(self).q_values@.len() + (if old(
                self,
            ).q_values@.contains_key(
                state_action_key(state.key_spec(), action.key_spec()) as u64,
            ) {
                0int
            } else {
                1int
            }),
    {
        let current_q_value = self.get_action_value(state, action);
        let next_value = self.get_state_value(next_state);
        let discounted = Self::scale_by_rate(self.gamma_millis, -next_value);
        let delta = reward + discounted - current_q_value;
        let step = Self::scale_by_rate(self.alpha_millis, delta);
        let stepped = current_q_value + step;
        let new_value = if stepped > VALUE_LIMIT {
            VALUE_LIMIT
        } else if stepped < -VALUE_LIMIT {
            -VALUE_LIMIT
        } else {
            stepped
        };
        let key = Self::make_key(state.state_key(), action.key());
        self.q_values.insert(key, new_value);
        proof {
            vstd::set::axiom_set_insert_len(old(self).q_values@.dom(), key);
        }
    }

}

impl<S: State> QLearner<S> {
    /// The episodic training loop: for each episode, start from a fresh
    /// initial state and, until the game ends, let the policy choose among
    /// the available actions by their current values, observe the
    /// transition and its reward, update the chosen pair's value, and move
    /// on. The table only ever gains keys, and the hyperparameters stay
    /// as they were.
    pub fn q_learning<P: Policy<S>>(
        &mut self,
        rng: &mut RandomSource,
        policy: &P,
        num_episodes: u32,
    )
        requires
            old(self).wf(),
        ensures
            final(self).wf(),
            final(self).alpha_millis == old(self).alpha_millis,
            final(self).gamma_millis == old(self).gamma_millis,
            old(self).q_values@.dom() <= final(self).q_values@.dom(),
    {
        let ghost orig = *old(self);
        let mut episode: u32 = 0;
        while episode < num_episodes
            invariant
                self.wf(),
                self.alpha_millis == orig.alpha_millis,
                self.gamma_millis == orig.gamma_millis,
                orig.q_values@.dom() <= self.q_values@.dom(),
            decreases num_episodes - episode,
        {
            let mut state: S = S::initial_state(rng);
            while !state.is_terminal()
                invariant
                    self.wf(),
                    state.wf(),
                    self.alpha_millis == orig.alpha_millis,
                    self.gamma_millis == orig.gamma_millis,
                    orig.q_values@.dom() <= self.q_values@.dom(),
                decreases state.actions_spec().len(),
            {
                let mut action_values = self.get_action_values(&state);
                let ghost pre = action_values@;
                let action = policy.get_action(rng, &mut action_values);
                proof {
                    let i = choose|i: int|
                        0 <= i < pre.len() && action == (#[trigger] pre[i]).0 && action_values@
                            == pre.remove(i);
                    assert(pre[i].0 == state.actions_spec()[i]);
                    assert(state.actions_spec().contains(action));
                }
                let next_state = state.next_state(&action);
                let reward = S::get_reward(&state, &action, &next_state);
                self.update_action_value(&state, &action, &next_state, reward);
                state = next_state;
            }
            episode = episode + 1;
        }
    }
}

} // verus!
