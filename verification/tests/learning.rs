use tictactoe_rl::epsilon_greedy_policy::EpsilonGreedyPolicy;
use tictactoe_rl::generic_reinforcement_learner::{Policy, ReinforcementLearner, State};
use tictactoe_rl::q_learning_learner::QLearner;
use tictactoe_rl::random_source::RandomSource;
use tictactoe_rl::tictactoe::{TicTacToeBoard, TicTacToeMove};

#[test]
fn unvisited_pairs_are_worth_exactly_zero() {
    let learner: QLearner<TicTacToeBoard> = QLearner::new(100, 900);
    let board = TicTacToeBoard::new();
    for x in 0..3 {
        for y in 0..3 {
            assert_eq!(
                learner.get_action_value(&board, &TicTacToeMove::new(x, y)),
                0
            );
        }
    }
}

#[test]
fn get_action_values_lists_every_available_action() {
    let learner: QLearner<TicTacToeBoard> = QLearner::new(100, 900);
    let board = TicTacToeBoard::try_from("O  XO XOX".to_string()).unwrap();
    let values = learner.get_action_values(&board);
    assert_eq!(
        values,
        vec![
            (TicTacToeMove::new(0, 1), 0),
            (TicTacToeMove::new(0, 2), 0),
            (TicTacToeMove::new(1, 2), 0)
        ]
    );
}

#[test]
fn update_steps_toward_a_terminal_win() {
    // X to move completes its top row: reward one (a million millionths),
    // and with a step size of one tenth the stored value becomes a tenth
    // of the reward.
    let mut learner: QLearner<TicTacToeBoard> = QLearner::new(100, 900);
    let state = TicTacToeBoard::try_from("XX OO    ".to_string()).unwrap();
    let action = TicTacToeMove::new(0, 2);
    let next = state.next_state(&action);
    let reward = TicTacToeBoard::get_reward(&state, &action, &next);
    assert_eq!(reward, 1_000_000);
    learner.update_action_value(&state, &action, &next, reward);
    assert_eq!(learner.get_action_value(&state, &action), 100_000);
    assert_eq!(learner.q_values.len(), 1);
    // The same update again starts from the stored tenth and adds a tenth
    // of the remaining distance to the reward; the revisited key adds no
    // table entry.
    learner.update_action_value(&state, &action, &next, reward);
    assert_eq!(learner.get_action_value(&state, &action), 190_000);
    assert_eq!(learner.q_values.len(), 1);
}

#[test]
fn update_discounts_and_negates_the_follow_up_value() {
    let mut learner: QLearner<TicTacToeBoard> = QLearner::new(100, 900);
    // Give the follow-up state (X to move) a best action worth 100_000.
    let follow_up = TicTacToeBoard::try_from("XX OO    ".to_string()).unwrap();
    let winning = TicTacToeMove::new(0, 2);
    let terminal = follow_up.next_state(&winning);
    learner.update_action_value(&follow_up, &winning, &terminal, 1_000_000);
    assert_eq!(learner.get_state_value(&follow_up), 100_000);
    // Now update a transition that lands in that state. The opponent's
    // prospect counts against the mover: the discounted follow-up value
    // is subtracted, leaving 0.1 * (0 + 0.9 * (-0.1)) = -0.009.
    let mut state = TicTacToeBoard::try_from("XX O     ".to_string()).unwrap();
    state.change_player(); // O moves here
    let action = TicTacToeMove::new(1, 1);
    let next = state.next_state(&action);
    assert_eq!(next, follow_up);
    let reward = TicTacToeBoard::get_reward(&state, &action, &next);
    assert_eq!(reward, 0);
    learner.update_action_value(&state, &action, &next, reward);
    assert_eq!(learner.get_action_value(&state, &action), -9_000);
}

#[test]
fn terminal_states_are_worth_nothing() {
    let learner: QLearner<TicTacToeBoard> = QLearner::new(100, 900);
    let drawn = TicTacToeBoard::try_from("OXOXOXXOX".to_string()).unwrap();
    assert_eq!(learner.get_state_value(&drawn), 0);
}

#[test]
fn best_action_prefers_the_highest_value() {
    let mut rng = RandomSource::from_seed(11);
    let mut learner: QLearner<TicTacToeBoard> = QLearner::new(100, 900);
    let state = TicTacToeBoard::try_from("XX OO    ".to_string()).unwrap();
    let winning = TicTacToeMove::new(0, 2);
    let terminal = state.next_state(&winning);
    learner.update_action_value(&state, &winning, &terminal, 1_000_000);
    // The trained move is now strictly better than the four untouched ones.
    for _ in 0..20 {
        assert_eq!(learner.get_best_action(&mut rng, &state), winning);
    }
}

#[test]
fn best_action_on_a_fresh_table_is_some_valid_move() {
    let mut rng = RandomSource::from_seed(3);
    let learner: QLearner<TicTacToeBoard> = QLearner::new(100, 900);
    let board = TicTacToeBoard::new();
    // All nine actions tie at zero; the tie-break must still pick a
    // listed, valid move.
    for _ in 0..50 {
        let chosen = learner.get_best_action(&mut rng, &board);
        assert!(board.is_valid_move(chosen));
    }
}

#[test]
fn greedy_policy_exploits_when_epsilon_is_zero() {
    let mut rng = RandomSource::from_seed(5);
    let policy: EpsilonGreedyPolicy<TicTacToeBoard> = EpsilonGreedyPolicy::new(0);
    for _ in 0..20 {
        let mut values = vec![
            (TicTacToeMove::new(0, 0), 5_000),
            (TicTacToeMove::new(1, 1), 20_000),
            (TicTacToeMove::new(2, 2), -3_000),
        ];
        assert_eq!(
            policy.get_action(&mut rng, &mut values),
            TicTacToeMove::new(1, 1)
        );
        // The chosen pair has left the list.
        assert_eq!(
            values,
            vec![
                (TicTacToeMove::new(0, 0), 5_000),
                (TicTacToeMove::new(2, 2), -3_000)
            ]
        );
    }
}

#[test]
fn policy_returns_a_single_candidate_outright() {
    let mut rng = RandomSource::from_seed(5);
    let policy: EpsilonGreedyPolicy<TicTacToeBoard> = EpsilonGreedyPolicy::new(1_000_000);
    let mut values = vec![(TicTacToeMove::new(2, 0), -77)];
    assert_eq!(
        policy.get_action(&mut rng, &mut values),
        TicTacToeMove::new(2, 0)
    );
    assert!(values.is_empty());
}

#[test]
fn exploring_policy_still_picks_a_listed_action() {
    let mut rng = RandomSource::from_seed(9);
    let policy: EpsilonGreedyPolicy<TicTacToeBoard> = EpsilonGreedyPolicy::new(1_000_000);
    for _ in 0..30 {
        let mut values = vec![
            (TicTacToeMove::new(0, 0), 5_000),
            (TicTacToeMove::new(1, 1), 20_000),
            (TicTacToeMove::new(2, 2), -3_000),
        ];
        let candidates: Vec<TicTacToeMove> = values.iter().map(|pair| pair.0).collect();
        let chosen = policy.get_action(&mut rng, &mut values);
        assert!(candidates.contains(&chosen));
        // The chosen pair has left the list.
        assert_eq!(values.len(), 2);
        assert!(values.iter().all(|pair| pair.0 != chosen));
    }
}

#[test]
fn value_table_only_grows_during_training() {
    let mut rng = RandomSource::from_seed(17);
    let mut learner: QLearner<TicTacToeBoard> = QLearner::new(100, 900);
    let policy: EpsilonGreedyPolicy<TicTacToeBoard> = EpsilonGreedyPolicy::new(100_000);
    let mut previous = learner.q_values.len();
    for _ in 0..20 {
        learner.q_learning(&mut rng, &policy, 5);
        let now = learner.q_values.len();
        assert!(now >= previous);
        previous = now;
    }
    assert!(previous > 0);
}
