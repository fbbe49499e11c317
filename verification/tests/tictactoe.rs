use tictactoe_rl::generic_reinforcement_learner::State;
use tictactoe_rl::random_source::RandomSource;
use tictactoe_rl::tictactoe::{BoardEntry, BoardParseError, TicTacToeBoard, TicTacToeMove};

#[test]
fn tictactoe_board_changes_player() {
    let mut board = TicTacToeBoard::new();
    let player = board.current_player;
    board.change_player();
    assert_ne!(player, board.current_player);
}

#[test]
fn tictactoe_board_wins_correctly() {
    let board = match TicTacToeBoard::try_from(
        "OOO\
            X X\
            X  "
            .to_string(),
    ) {
        Ok(res) => res,
        Err(err) => panic!("{err:?}"),
    };
    assert!(board.is_terminal());
    assert_eq!(board.has_someone_won(), Some(BoardEntry::O));
}

#[test]
fn tictactoe_board_draws_correctly() {
    let board = match TicTacToeBoard::try_from(
        "OXO\
            XOX\
            XOX"
        .to_string(),
    ) {
        Ok(res) => res,
        Err(err) => panic!("{err:?}"),
    };
    assert!(board.is_terminal());
    assert_eq!(board.has_someone_won(), Some(BoardEntry::Blank));
}

#[test]
fn tictactoe_board_returns_available_actions() {
    let board = match TicTacToeBoard::try_from(
        "O  \
            XO \
            XOX"
        .to_string(),
    ) {
        Ok(res) => res,
        Err(err) => panic!("{err:?}"),
    };
    assert_eq!(
        board.available_actions(),
        vec![
            TicTacToeMove::new(0, 1),
            TicTacToeMove::new(0, 2),
            TicTacToeMove::new(1, 2)
        ]
    );
}

#[test]
fn parse_rejects_wrong_length() {
    assert_eq!(
        TicTacToeBoard::try_from("OX ".to_string()),
        Err(BoardParseError::WrongLength)
    );
    assert_eq!(
        TicTacToeBoard::try_from("OX OX OX O".to_string()),
        Err(BoardParseError::WrongLength)
    );
}

#[test]
fn parse_rejects_invalid_char() {
    // The first character that encodes no cell is reported.
    assert_eq!(
        TicTacToeBoard::try_from("OOOX XZ Q".to_string()),
        Err(BoardParseError::InvalidChar('Z'))
    );
}

#[test]
fn parse_reconstructs_each_cell() {
    let board = TicTacToeBoard::try_from("XO  X O X".to_string()).unwrap();
    assert_eq!(board.get(0, 0), BoardEntry::X);
    assert_eq!(board.get(0, 1), BoardEntry::O);
    assert_eq!(board.get(0, 2), BoardEntry::Blank);
    assert_eq!(board.get(1, 0), BoardEntry::Blank);
    assert_eq!(board.get(1, 1), BoardEntry::X);
    assert_eq!(board.get(1, 2), BoardEntry::Blank);
    assert_eq!(board.get(2, 0), BoardEntry::O);
    assert_eq!(board.get(2, 1), BoardEntry::Blank);
    assert_eq!(board.get(2, 2), BoardEntry::X);
    assert_eq!(board.current_player, BoardEntry::X);
}

#[test]
fn won_board_with_empty_cells_offers_no_actions() {
    // O's left column is complete, three cells are still empty: the game
    // is over, so nothing may be played.
    let board = TicTacToeBoard::try_from(
        "OOO\
            X X\
            X  "
            .to_string(),
    )
    .unwrap();
    assert!(board.is_terminal());
    assert_eq!(board.available_actions(), vec![]);
    assert_eq!(board.num_available_actions(), 0);
}

#[test]
fn draw_board_offers_no_actions() {
    let board = TicTacToeBoard::try_from("OXOXOXXOX".to_string()).unwrap();
    assert!(board.is_terminal());
    assert_eq!(board.available_actions(), vec![]);
    assert_eq!(board.num_available_actions(), 0);
}

#[test]
fn single_empty_cell_offers_exactly_that_action() {
    let board = TicTacToeBoard::try_from("OXOXOXXO ".to_string()).unwrap();
    assert_eq!(board.available_actions(), vec![TicTacToeMove::new(2, 2)]);
}

#[test]
fn actions_plus_occupied_cells_cover_the_board() {
    let empty = TicTacToeBoard::new();
    assert_eq!(empty.available_actions().len(), 9);
    // Six cells of this board hold a mark.
    let board = TicTacToeBoard::try_from("O  XO XOX".to_string()).unwrap();
    assert_eq!(board.available_actions().len() + 6, 9);
}

#[test]
fn next_state_consumes_one_action_and_flips_the_player() {
    let board = TicTacToeBoard::new();
    assert_eq!(board.current_player, BoardEntry::X);
    let next = board.next_state(&TicTacToeMove::new(1, 1));
    assert_eq!(next.get(1, 1), BoardEntry::X);
    assert_eq!(next.current_player, BoardEntry::O);
    assert_eq!(next.available_actions().len(), 8);
    // The source board is untouched.
    assert_eq!(board.get(1, 1), BoardEntry::Blank);
    assert_eq!(board.available_actions().len(), 9);
}

#[test]
fn initial_state_is_empty_with_a_player_to_move() {
    let mut rng = RandomSource::from_seed(7);
    let board = TicTacToeBoard::initial_state(&mut rng);
    for x in 0..3 {
        for y in 0..3 {
            assert_eq!(board.get(x, y), BoardEntry::Blank);
        }
    }
    assert!(board.current_player == BoardEntry::X || board.current_player == BoardEntry::O);
}

#[test]
fn is_valid_move_accepts_only_empty_cells_on_the_board() {
    let board = TicTacToeBoard::try_from("O  XO XOX".to_string()).unwrap();
    assert!(board.is_valid_move(TicTacToeMove::new(0, 1)));
    assert!(!board.is_valid_move(TicTacToeMove::new(0, 0)));
    assert!(!board.is_valid_move(TicTacToeMove::new(3, 0)));
    assert!(!board.is_valid_move(TicTacToeMove::new(0, 3)));
}

#[test]
fn winner_checks_all_lines() {
    // A column, a row, and both diagonals, for either mark.
    let col = TicTacToeBoard::try_from("X OX OX  ".to_string()).unwrap();
    assert_eq!(col.has_someone_won(), Some(BoardEntry::X));
    let row = TicTacToeBoard::try_from("   OOO   ".to_string()).unwrap();
    assert_eq!(row.has_someone_won(), Some(BoardEntry::O));
    let down = TicTacToeBoard::try_from("X   X   X".to_string()).unwrap();
    assert_eq!(down.has_someone_won(), Some(BoardEntry::X));
    let up = TicTacToeBoard::try_from("  O O O  ".to_string()).unwrap();
    assert_eq!(up.has_someone_won(), Some(BoardEntry::O));
    let open = TicTacToeBoard::try_from("XO       ".to_string()).unwrap();
    assert_eq!(open.has_someone_won(), None);
    assert!(!open.is_terminal());
}

#[test]
fn get_reward_scores_only_the_movers_win() {
    // X, to move, completes its line: one full reward unit.
    let before = TicTacToeBoard::try_from("XX OO    ".to_string()).unwrap();
    let winning = TicTacToeMove::new(0, 2);
    let after = before.next_state(&winning);
    assert!(after.is_terminal());
    assert_eq!(
        TicTacToeBoard::get_reward(&before, &winning, &after),
        1_000_000
    );
    // An ongoing transition is worth nothing.
    let board = TicTacToeBoard::new();
    let quiet = TicTacToeMove::new(0, 0);
    let ongoing = board.next_state(&quiet);
    assert_eq!(TicTacToeBoard::get_reward(&board, &quiet, &ongoing), 0);
    // A transition into a draw is worth nothing either.
    let almost = TicTacToeBoard::try_from("OXOXOXXO ".to_string()).unwrap();
    let last = TicTacToeMove::new(2, 2);
    let drawn = almost.next_state(&last);
    assert!(drawn.is_terminal());
    assert_eq!(TicTacToeBoard::get_reward(&almost, &last, &drawn), 0);
}
