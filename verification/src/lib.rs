//! A tabular Q-learning library for two-player grid games, instantiated with
//! tic-tac-toe.
//!
//! The learning core (`q_learning_learner`) is generic over an environment
//! described by the `State`, `Action` and `Policy` traits
//! (`generic_reinforcement_learner`). Learned values are fixed-point integers
//! in millionths, so that the value table and the update rule can be reasoned
//! about exactly. All randomness flows through an explicitly passed
//! `RandomSource`, so that training runs can be reproduced from a seed.

pub mod epsilon_greedy_policy;
pub mod generic_reinforcement_learner;
pub mod q_learning_learner;
pub mod random_source;
pub mod tictactoe;
