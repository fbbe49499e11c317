//! Epsilon-greedy action selection: exploit the best-valued action most of
//! the time, explore uniformly otherwise.

use core::marker::PhantomData;

use vstd::prelude::*;

use crate::generic_reinforcement_learner::{
    chooses_max, max_value, pick_best_index, Policy, State,
};
use crate::random_source::RandomSource;

verus! {

/// Exploration probabilities are counted in millionths: `EPSILON_SCALE`
/// stands for probability one.
pub const EPSILON_SCALE: u32 = 1_000_000;

/// A stateless strategy with one hyperparameter, the exploration
/// probability.
pub struct EpsilonGreedyPolicy<S: State> {
    /// The probability of exploring, in millionths, at most
    /// `EPSILON_SCALE`.
    pub epsilon_millionths: u32,
    pub state: PhantomData<S>,
}

impl<S: State> EpsilonGreedyPolicy<S> {
    pub fn new(epsilon_millionths: u32) -> (p: EpsilonGreedyPolicy<S>)
        requires
            epsilon_millionths <= EPSILON_SCALE,
        ensures
            p.epsilon_millionths == epsilon_millionths,
    {
        EpsilonGreedyPolicy { epsilon_millionths, state: PhantomData }
    }
}

impl<S: State> Policy<S> for EpsilonGreedyPolicy<S> {
    /// A single candidate is removed and returned outright, with no
    /// randomness spent. Otherwise, with probability epsilon the choice
    /// falls uniformly on any candidate (the maximizer included:
    /// exploration is not restricted to non-best actions), and with the
    /// remaining probability on a uniformly drawn tied maximizer — so a
    /// zero exploration probability always yields a maximizer. The chosen
    /// pair leaves the list in every case.
    fn get_action(&self, rng: &mut RandomSource, values: &mut Vec<(S::Act, i64)>) -> (a: S::Act)
        ensures
            old(values)@.len() == 1 ==> a == old(values)@[0].0,
            self.epsilon_millionths == 0 && old(values)@.len() > 1 ==> chooses_max(
                old(values)@,
                a,
            ),
    {
        if values.len() == 1 {
            let pair = values.remove(0);
            proof {
                assert(old(values)@[0] == (pair.0, pair.1));
            }
            return pair.0;
        }
        let draw = rng.below(EPSILON_SCALE as usize);
        if draw >= self.epsilon_millionths as usize {
            // Exploit: one of the tied maximizers, drawn uniformly.
            let i = pick_best_index(rng, values);
            let pair = values.remove(i);
            proof {
                assert(old(values)@[i as int] == (pair.0, max_value(old(values)@)));
            }
            pair.0
        } else {
            // Explore: any candidate, drawn uniformly.
            let length = values.len();
            let chosen_action = rng.below(length);
            let pair = values.remove(chosen_action);
            proof {
                assert(old(values)@[chosen_action as int] == (pair.0, pair.1));
            }
            pair.0
        }
    }
}

} // verus!
