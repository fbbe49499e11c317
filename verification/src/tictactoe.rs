//! The tic-tac-toe environment: board, moves, transitions, terminal
//! detection, rewards, and the compact state encoding used to key the
//! value table.

use vstd::prelude::*;
use vstd::string::StrSliceExecFns;

use crate::generic_reinforcement_learner::{Action, State, VALUE_SCALE};
use crate::random_source::RandomSource;

verus! {

broadcast use vstd::array::group_array_axioms;

/// One cell of the board: empty, or marked by one of the two players.
#[derive(Clone, Copy, Debug, PartialEq, Eq, Hash, Structural)]
pub enum BoardEntry {
    Blank,
    X,
    O,
}

/// The number a cell is encoded as inside a state key.
pub open spec fn entry_code(e: BoardEntry) -> int {
    match e {
        BoardEntry::Blank => 0,
        BoardEntry::O => 1,
        BoardEntry::X => 2,
    }
}

/// The mark opposite to `e`; empty stays empty.
pub open spec fn other_player(e: BoardEntry) -> BoardEntry {
    match e {
        BoardEntry::X => BoardEntry::O,
        BoardEntry::O => BoardEntry::X,
        BoardEntry::Blank => BoardEntry::Blank,
    }
}

/// The cell a character of the textual board encoding stands for, if any.
pub open spec fn entry_of_char(c: char) -> Option<BoardEntry> {
    if c == 'X' {
        Some(BoardEntry::X)
    } else if c == 'O' {
        Some(BoardEntry::O)
    } else if c == ' ' {
        Some(BoardEntry::Blank)
    } else {
        None
    }
}

/// Why a textual board encoding was rejected.
#[derive(Clone, Copy, Debug, PartialEq, Eq, Structural)]
pub enum BoardParseError {
    /// The text does not hold exactly nine characters.
    WrongLength,
    /// Some character is not `'X'`, `'O'` or `' '`; the first offender is
    /// carried.
    InvalidChar(char),
}

impl BoardEntry {
    /// Reads one cell from its character encoding, accepting exactly
    /// `'X'`, `'O'` and `' '`.
    pub fn try_from(c: char) -> (r: Result<BoardEntry, BoardParseError>)
        ensures
            r matches Ok(e) ==> entry_of_char(c) == Some(e),
            r is Err ==> r == Result::<BoardEntry, BoardParseError>::Err(
                BoardParseError::InvalidChar(c),
            ) && entry_of_char(c) is None,
    {
        if c == 'X' {
            Ok(BoardEntry::X)
        } else if c == 'O' {
            Ok(BoardEntry::O)
        } else if c == ' ' {
            Ok(BoardEntry::Blank)
        } else {
            Err(BoardParseError::InvalidChar(c))
        }
    }
}

/// A move: the coordinates of the cell to mark, each in `[0, 2]`.
/// `x` is the row and `y` the column.
#[derive(Clone, Copy, Debug, PartialEq, Eq, Hash, Structural)]
pub struct TicTacToeMove {
    pub x: usize,
    pub y: usize,
}

impl TicTacToeMove {
    pub fn new(x: usize, y: usize) -> (m: TicTacToeMove)
        ensures
            m.x == x,
            m.y == y,
    {
        TicTacToeMove { x, y }
    }
}

impl Action for TicTacToeMove {
    open spec fn wf(self) -> bool {
        self.x <= 2 && self.y <= 2
    }

    open spec fn key_spec(self) -> u32 {
        (3 * self.x + self.y) as u32
    }

    proof fn lemma_key_injective(a: Self, b: Self) {
    }

    fn key(&self) -> (k: u32) {
        (3 * self.x + self.y) as u32
    }
}

/// The move that marks flat cell position `p` (row-major).
pub open spec fn position_move(p: int) -> TicTacToeMove {
    TicTacToeMove { x: (p / 3) as usize, y: (p % 3) as usize }
}

/// How many of the first `n` cells are empty.
pub open spec fn blank_count_prefix(g: Seq<BoardEntry>, n: int) -> nat
    decreases n,
{
    if n <= 0 {
        0
    } else {
        blank_count_prefix(g, n - 1) + (if g[n - 1] == BoardEntry::Blank {
            1nat
        } else {
            0nat
        })
    }
}

/// How many cells of the board are empty.
pub open spec fn blank_count(g: Seq<BoardEntry>) -> nat {
    blank_count_prefix(g, g.len() as int)
}

/// How many of the first `n` cells hold a mark.
pub open spec fn occupied_prefix(g: Seq<BoardEntry>, n: int) -> nat
    decreases n,
{
    if n <= 0 {
        0
    } else {
        occupied_prefix(g, n - 1) + (if g[n - 1] == BoardEntry::Blank {
            0nat
        } else {
            1nat
        })
    }
}

/// How many cells of the board hold a mark.
pub open spec fn occupied_cell_count(g: Seq<BoardEntry>) -> nat {
    occupied_prefix(g, g.len() as int)
}

/// The moves marking the empty cells among the first `n`, in row-major
/// order.
pub open spec fn actions_prefix(g: Seq<BoardEntry>, n: int) -> Seq<TicTacToeMove>
    decreases n,
{
    if n <= 0 {
        Seq::empty()
    } else if g[n - 1] == BoardEntry::Blank {
        actions_prefix(g, n - 1).push(position_move(n - 1))
    } else {
        actions_prefix(g, n - 1)
    }
}

/// Whether the cells at flat positions `p`, `q`, `r` hold three equal
/// marks.
pub open spec fn line_wins(g: Seq<BoardEntry>, p: int, q: int, r: int) -> bool {
    g[p] != BoardEntry::Blank && g[p] == g[q] && g[p] == g[r]
}

/// The game's outcome so far: `Some(mark)` for a completed line (the lines
/// checked in the board's fixed order, first match winning), `Some(Blank)`
/// for a full board with no line (a draw), `None` while the game is still
/// open.
pub open spec fn winner_spec(g: Seq<BoardEntry>) -> Option<BoardEntry> {
    if line_wins(g, 0, 3, 6) {
        Some(g[0])
    } else if line_wins(g, 1, 4, 7) {
        Some(g[1])
    } else if line_wins(g, 2, 5, 8) {
        Some(g[2])
    } else if line_wins(g, 0, 1, 2) {
        Some(g[0])
    } else if line_wins(g, 3, 4, 5) {
        Some(g[3])
    } else if line_wins(g, 6, 7, 8) {
        Some(g[6])
    } else if line_wins(g, 0, 4, 8) {
        Some(g[0])
    } else if line_wins(g, 2, 4, 6) {
        Some(g[2])
    } else if blank_count(g) > 0 {
        None
    } else {
        Some(BoardEntry::Blank)
    }
}

/// Three to the power `n`.
pub open spec fn pow3(n: nat) -> int
    decreases n,
{
    if n == 0 {
        1
    } else {
        3 * pow3((n - 1) as nat)
    }
}

/// The number the first `n` cells are encoded as: a base-3 numeral, one
/// digit per cell.
pub open spec fn encode_prefix(g: Seq<BoardEntry>, n: int) -> int
    decreases n,
{
    if n <= 0 {
        0
    } else {
        encode_prefix(g, n - 1) * 3 + entry_code(g[n - 1])
    }
}

/// The number a whole board is encoded as: the base-3 grid numeral,
/// doubled, plus one bit for whose turn it is.
pub open spec fn board_code(b: TicTacToeBoard) -> int {
    encode_prefix(b.grid(), 9) * 2 + (if b.current_player == BoardEntry::O {
        1int
    } else {
        0int
    })
}

/// The number of available actions among the first `n` cells equals the
/// number of empty cells among them.
pub proof fn lemma_actions_prefix_len(g: Seq<BoardEntry>, n: int)
    ensures
        actions_prefix(g, n).len() == blank_count_prefix(g, n),
    decreases n,
{
    if n > 0 {
        lemma_actions_prefix_len(g, n - 1);
    }
}

/// Every available action among the first `n` cells is a well-formed move
/// aimed at an empty cell below position `n`.
pub proof fn lemma_actions_prefix_elems(g: Seq<BoardEntry>, n: int)
    requires
        n <= 9,
    ensures
        forall|j: int|
            0 <= j < actions_prefix(g, n).len() ==> {
                let m = #[trigger] actions_prefix(g, n)[j];
                &&& m.x <= 2
                &&& m.y <= 2
                &&& 3 * m.x + m.y < n
                &&& g[3 * m.x + m.y] == BoardEntry::Blank
            },
    decreases n,
{
    if n > 0 {
        lemma_actions_prefix_elems(g, n - 1);
    }
}

/// Every empty cell below position `n` has its move among the first `n`
/// cells' available actions.
pub proof fn lemma_actions_prefix_contains(g: Seq<BoardEntry>, n: int, p: int)
    requires
        0 <= p < n,
        g[p] == BoardEntry::Blank,
    ensures
        actions_prefix(g, n).contains(position_move(p)),
    decreases n,
{
    if p == n - 1 {
        assert(actions_prefix(g, n).last() == position_move(p));
    } else {
        lemma_actions_prefix_contains(g, n - 1, p);
        let i = choose|i: int|
            0 <= i < actions_prefix(g, n - 1).len() && #[trigger] actions_prefix(g, n - 1)[i]
                == position_move(p);
        assert(actions_prefix(g, n)[i] == position_move(p));
    }
}

/// Overwriting cell `p` changes the blank count of a prefix by exactly the
/// difference the overwritten and the new entry make, and only when the
/// prefix covers `p`.
pub proof fn lemma_blank_count_prefix_update(g: Seq<BoardEntry>, n: int, p: int, e: BoardEntry)
    requires
        0 <= p < g.len(),
        n <= g.len(),
    ensures
        blank_count_prefix(g.update(p, e), n) == if p < n {
            blank_count_prefix(g, n) - (if g[p] == BoardEntry::Blank {
                1int
            } else {
                0int
            }) + (if e == BoardEntry::Blank {
                1int
            } else {
                0int
            })
        } else {
            blank_count_prefix(g, n) as int
        },
    decreases n,
{
    if n > 0 {
        lemma_blank_count_prefix_update(g, n - 1, p, e);
    }
}

/// Blank and occupied cells together exhaust every prefix of the board.
pub proof fn lemma_blank_occupied_split(g: Seq<BoardEntry>, n: int)
    requires
        0 <= n,
    ensures
        blank_count_prefix(g, n) + occupied_prefix(g, n) == n,
    decreases n,
{
    if n > 0 {
        lemma_blank_occupied_split(g, n - 1);
    }
}

/// On every board still in play, the available actions and the occupied
/// cells together account for all nine cells.
pub proof fn lemma_actions_plus_occupied(b: TicTacToeBoard)
    requires
        !b.terminal_spec(),
    ensures
        b.actions_spec().len() + occupied_cell_count(b.grid()) == 9,
{
    lemma_actions_prefix_len(b.grid(), 9);
    lemma_blank_occupied_split(b.grid(), 9);
}

/// A board offers no action exactly when the game is over there: every
/// terminal board — won or drawn — has an empty action set, and a board
/// still in play always offers a move.
pub proof fn lemma_no_actions_iff_terminal(b: TicTacToeBoard)
    ensures
        b.actions_spec().len() == 0 <==> b.terminal_spec(),
{
    lemma_actions_prefix_len(b.grid(), 9);
}

/// A still-open board with exactly one empty cell offers exactly that
/// cell's move.
pub proof fn lemma_single_blank_single_action(b: TicTacToeBoard, p: int)
    requires
        !b.terminal_spec(),
        blank_count(b.grid()) == 1,
        0 <= p < 9,
        b.grid()[p] == BoardEntry::Blank,
    ensures
        b.actions_spec() == seq![position_move(p)],
{
    lemma_actions_prefix_len(b.grid(), 9);
    lemma_actions_prefix_contains(b.grid(), 9, p);
    let s = b.actions_spec();
    let i = choose|i: int| 0 <= i < s.len() && s[i] == position_move(p);
    assert(s[0] == position_move(p));
    assert(s =~= seq![position_move(p)]);
}

/// A grid numeral is bounded by the power of three of its width.
pub proof fn lemma_encode_prefix_bound(g: Seq<BoardEntry>, n: int)
    requires
        0 <= n,
    ensures
        0 <= encode_prefix(g, n) < pow3(n as nat),
    decreases n,
{
    if n > 0 {
        lemma_encode_prefix_bound(g, n - 1);
    }
}

/// Equal grid numerals come from equal cells: the encoding is injective.
pub proof fn lemma_encode_prefix_injective(g1: Seq<BoardEntry>, g2: Seq<BoardEntry>, n: int)
    requires
        encode_prefix(g1, n) == encode_prefix(g2, n),
    ensures
        forall|p: int| 0 <= p < n ==> g1[p] == g2[p],
    decreases n,
{
    if n > 0 {
        let c1 = entry_code(g1[n - 1]);
        let c2 = entry_code(g2[n - 1]);
        assert(encode_prefix(g1, n - 1) * 3 + c1 == encode_prefix(g2, n - 1) * 3 + c2);
        assert(c1 == c2);
        assert(g1[n - 1] == g2[n - 1]);
        lemma_encode_prefix_injective(g1, g2, n - 1);
    }
}

pub proof fn lemma_pow3_pos(n: nat)
    ensures
        pow3(n) >= 1,
    decreases n,
{
    if n > 0 {
        lemma_pow3_pos((n - 1) as nat);
    }
}

pub proof fn lemma_pow3_mono(m: nat, n: nat)
    requires
        m <= n,
    ensures
        pow3(m) <= pow3(n),
    decreases n,
{
    if m < n {
        lemma_pow3_mono(m, (n - 1) as nat);
        lemma_pow3_pos((n - 1) as nat);
    }
}

/// A board: a 3-by-3 grid of cells and the player to move next.
///
/// Boards are copied on transition, never mutated once observed: the
/// learning loop and the transitions below always produce fresh values.
#[derive(Clone, Copy, Debug, PartialEq, Eq, Hash)]
pub struct TicTacToeBoard {
    pub cells: [BoardEntry; 9],
    pub current_player: BoardEntry,
}

impl TicTacToeBoard {
    /// The grid as a row-major sequence of nine cells.
    pub open spec fn grid(self) -> Seq<BoardEntry> {
        self.cells@
    }

    /// Whether `m` may be played: on the board and aimed at an empty cell.
    pub open spec fn move_valid(self, m: TicTacToeMove) -> bool {
        m.x <= 2 && m.y <= 2 && self.grid()[3 * m.x + m.y] == BoardEntry::Blank
    }

    /// An empty board on which `X` moves first.
    pub fn new() -> (b: TicTacToeBoard)
        ensures
            b.wf(),
            b.current_player == BoardEntry::X,
            forall|p: int| 0 <= p < 9 ==> b.grid()[p] == BoardEntry::Blank,
    {
        TicTacToeBoard {
            cells: [
                BoardEntry::Blank,
                BoardEntry::Blank,
                BoardEntry::Blank,
                BoardEntry::Blank,
                BoardEntry::Blank,
                BoardEntry::Blank,
                BoardEntry::Blank,
                BoardEntry::Blank,
                BoardEntry::Blank,
            ],
            current_player: BoardEntry::X,
        }
    }

    /// The flat position of the cell at row `x`, column `y`.
    pub fn translate_coords_to_internal_state_position(&self, x: usize, y: usize) -> (p: u32)
        requires
            x <= 2,
            y <= 2,
        ensures
            p == 3 * x + y,
    {
        ((x * 3) + y) as u32
    }

    /// The cell at row `x`, column `y`.
    pub fn get(&self, x: usize, y: usize) -> (e: BoardEntry)
        requires
            x <= 2,
            y <= 2,
        ensures
            e == self.grid()[3 * x + y],
    {
        let p = self.translate_coords_to_internal_state_position(x, y);
        self.cells[p as usize]
    }

    /// Overwrites the cell at row `x`, column `y`. The turn is untouched.
    fn put(&mut self, x: usize, y: usize, entry: BoardEntry)
        requires
            x <= 2,
            y <= 2,
        ensures
            final(self).grid() == old(self).grid().update(3 * x + y, entry),
            final(self).current_player == old(self).current_player,
    {
        let p = self.translate_coords_to_internal_state_position(x, y);
        self.cells[p as usize] = entry;
    }

    /// Whether `action` may be played on this board.
    pub fn is_valid_move(&self, action: TicTacToeMove) -> (b: bool)
        ensures
            b == self.move_valid(action),
    {
        action.x <= 2 && action.y <= 2 && matches!(self.get(action.x, action.y), BoardEntry::Blank)
    }

    /// Hands the turn to the other player.
    pub fn change_player(&mut self)
        requires
            old(self).wf(),
        ensures
            final(self).wf(),
            final(self).current_player == other_player(old(self).current_player),
            final(self).grid() == old(self).grid(),
    {
        match self.current_player {
            BoardEntry::X => self.current_player = BoardEntry::O,
            BoardEntry::O => self.current_player = BoardEntry::X,
            BoardEntry::Blank => {
                proof {
                    assert(false);
                }
            },
        }
    }

    /// How many cells are empty.
    fn count_blank_cells(&self) -> (n: usize)
        ensures
            n == blank_count(self.grid()),
    {
        let mut n: usize = 0;
        let mut p: usize = 0;
        while p < 9
            invariant
                p <= 9,
                n <= p,
                n == blank_count_prefix(self.grid(), p as int),
            decreases 9 - p,
        {
            if matches!(self.cells[p], BoardEntry::Blank) {
                n = n + 1;
            }
            p = p + 1;
        }
        n
    }

    /// The game's outcome so far: the winning mark if a line is complete,
    /// `Some(Blank)` for a draw (full board, no line), `None` while moves
    /// remain and nobody has won. Lines are checked in a fixed order and
    /// the first match decides.
    pub fn has_someone_won(&self) -> (w: Option<BoardEntry>)
        ensures
            w == winner_spec(self.grid()),
    {
        let c = &self.cells;
        // Lines through each column, each row, then the two diagonals.
        if !matches!(c[0], BoardEntry::Blank) && c[0] == c[3] && c[0] == c[6] {
            return Some(c[0]);
        }
        if !matches!(c[1], BoardEntry::Blank) && c[1] == c[4] && c[1] == c[7] {
            return Some(c[1]);
        }
        if !matches!(c[2], BoardEntry::Blank) && c[2] == c[5] && c[2] == c[8] {
            return Some(c[2]);
        }
        if !matches!(c[0], BoardEntry::Blank) && c[0] == c[1] && c[0] == c[2] {
            return Some(c[0]);
        }
        if !matches!(c[3], BoardEntry::Blank) && c[3] == c[4] && c[3] == c[5] {
            return Some(c[3]);
        }
        if !matches!(c[6], BoardEntry::Blank) && c[6] == c[7] && c[6] == c[8] {
            return Some(c[6]);
        }
        if !matches!(c[0], BoardEntry::Blank) && c[0] == c[4] && c[0] == c[8] {
            return Some(c[0]);
        }
        if !matches!(c[2], BoardEntry::Blank) && c[2] == c[4] && c[2] == c[6] {
            return Some(c[2]);
        }
        if self.count_blank_cells() > 0 {
            None
        } else {
            // A full board with no completed line: a draw.
            Some(BoardEntry::Blank)
        }
    }

    /// Reads a board from its nine-character textual encoding, row by row:
    /// `'X'`, `'O'` or `' '` per cell. The reconstructed board gives the
    /// turn to `X`. Rejects any other length, and otherwise the first
    /// character that encodes no cell.
    pub fn try_from(s: String) -> (r: Result<TicTacToeBoard, BoardParseError>)
        ensures
            s@.len() != 9 ==> r == Result::<TicTacToeBoard, BoardParseError>::Err(
                BoardParseError::WrongLength,
            ),
            s@.len() == 9 && (exists|i: int| 0 <= i < 9 && entry_of_char(#[trigger] s@[i]) is None)
                ==> (exists|i: int|
                0 <= i < 9 && entry_of_char(#[trigger] s@[i]) is None && (forall|j: int|
                    0 <= j < i ==> entry_of_char(#[trigger] s@[j]) is Some) && r == Result::<
                    TicTacToeBoard,
                    BoardParseError,
                >::Err(BoardParseError::InvalidChar(s@[i]))),
            (s@.len() == 9 && forall|i: int| 0 <= i < 9 ==> entry_of_char(#[trigger] s@[i]) is Some)
                ==> (r matches Ok(b) && b.wf() && b.current_player == BoardEntry::X && (forall|
                i: int,
            |
                0 <= i < 9 ==> b.grid()[i] == entry_of_char(#[trigger] s@[i]).unwrap())),
    {
        let text = s.as_str();
        if text.unicode_len() != 9 {
            return Err(BoardParseError::WrongLength);
        }
        let mut board = TicTacToeBoard::new();
        let mut i: usize = 0;
        while i < 9
            invariant
                i <= 9,
                s@.len() == 9,
                text@ == s@,
                board.wf(),
                board.current_player == BoardEntry::X,
                forall|j: int| 0 <= j < i ==> entry_of_char(#[trigger] s@[j]) is Some,
                forall|j: int| 0 <= j < i ==> board.grid()[j] == entry_of_char(#[trigger] s@[j]).unwrap(),
                forall|j: int| i <= j < 9 ==> board.grid()[j] == BoardEntry::Blank,
            decreases 9 - i,
        {
            let ch = text.get_char(i);
            match BoardEntry::try_from(ch) {
                Ok(entry) => {
                    let x = i / 3;
                    let y = i % 3;
                    board.put(x, y, entry);
                    proof {
                        assert(3 * (i / 3) + i % 3 == i);
                    }
                },
                Err(err) => {
                    return Err(err);
                },
            }
            i = i + 1;
        }
        Ok(board)
    }
}

impl State for TicTacToeBoard {
    type Act = TicTacToeMove;

    /// A board is well formed when one of the two players is to move.
    open spec fn wf(self) -> bool {
        self.current_player == BoardEntry::X || self.current_player == BoardEntry::O
    }

    open spec fn terminal_spec(self) -> bool {
        winner_spec(self.grid()) is Some
    }

    /// A finished game — won or drawn — offers nothing further; an open
    /// one offers every empty cell.
    open spec fn actions_spec(self) -> Seq<TicTacToeMove> {
        if winner_spec(self.grid()) is Some {
            Seq::empty()
        } else {
            actions_prefix(self.grid(), 9)
        }
    }

    open spec fn key_spec(self) -> u32 {
        board_code(self) as u32
    }

    open spec fn reward_spec(state: Self, action: TicTacToeMove, next: Self) -> i64 {
        if winner_spec(next.grid()) == Some(state.current_player) {
            VALUE_SCALE
        } else {
            0
        }
    }

    proof fn lemma_key_injective(a: Self, b: Self) {
        lemma_encode_prefix_bound(a.grid(), 9);
        lemma_encode_prefix_bound(b.grid(), 9);
        assert(pow3(9) == 19683) by {
            reveal_with_fuel(pow3, 10);
        }
        assert(board_code(a) == board_code(b));
        assert(encode_prefix(a.grid(), 9) == encode_prefix(b.grid(), 9));
        lemma_encode_prefix_injective(a.grid(), b.grid(), 9);
        assert(a.cells =~= b.cells);
    }

    /// An empty board; who moves first is drawn from the random source.
    fn initial_state(rng: &mut RandomSource) -> (s: TicTacToeBoard)
        ensures
            forall|p: int| 0 <= p < 9 ==> s.grid()[p] == BoardEntry::Blank,
    {
        let who_starts = rng.below(2);
        let mut board = TicTacToeBoard::new();
        if who_starts == 1 {
            board.current_player = BoardEntry::O;
        }
        board
    }

    /// The board after the player to move marks the action's cell; the turn
    /// passes to the other player. Pure: the source board is untouched.
    /// One empty cell is spent; if the move ends the game, the new board
    /// offers nothing further, otherwise exactly one action fewer.
    fn next_state(&self, action: &TicTacToeMove) -> (s: TicTacToeBoard)
        ensures
            s.grid() == self.grid().update(3 * action.x + action.y, self.current_player),
            s.current_player == other_player(self.current_player),
            blank_count(s.grid()) == blank_count(self.grid()) - 1,
            !s.terminal_spec() ==> s.actions_spec().len() == self.actions_spec().len() - 1,
            s.terminal_spec() ==> s.actions_spec() == Seq::<TicTacToeMove>::empty(),
    {
        proof {
            // An action was available, so the game is still open here.
            assert(!self.terminal_spec());
            lemma_actions_prefix_elems(self.grid(), 9);
            let i = choose|i: int|
                0 <= i < self.actions_spec().len() && self.actions_spec()[i] == *action;
            assert(self.grid()[3 * action.x + action.y] == BoardEntry::Blank);
        }
        let mut next = self.clone();
        next.put(action.x, action.y, self.current_player);
        next.change_player();
        proof {
            lemma_actions_prefix_len(self.grid(), 9);
            lemma_actions_prefix_len(next.grid(), 9);
            lemma_blank_count_prefix_update(
                self.grid(),
                9,
                3 * action.x + action.y,
                self.current_player,
            );
        }
        next
    }

    fn is_terminal(&self) -> (b: bool) {
        self.has_someone_won().is_some()
    }

    /// Every empty cell's move, in row-major order; nothing once the game
    /// is over.
    fn available_actions(&self) -> (v: Vec<TicTacToeMove>) {
        if self.has_someone_won().is_some() {
            return Vec::new();
        }
        let mut v: Vec<TicTacToeMove> = Vec::new();
        let mut p: usize = 0;
        while p < 9
            invariant
                p <= 9,
                v@ == actions_prefix(self.grid(), p as int),
            decreases 9 - p,
        {
            if matches!(self.cells[p], BoardEntry::Blank) {
                let m = TicTacToeMove { x: p / 3, y: p % 3 };
                v.push(m);
            }
            p = p + 1;
        }
        proof {
            lemma_actions_prefix_len(self.grid(), 9);
            lemma_actions_prefix_elems(self.grid(), 9);
        }
        v
    }

    fn num_available_actions(&self) -> (n: usize) {
        self.available_actions().len()
    }

    /// One full reward for the transition that ends the game with the
    /// moving player's win; everything else — an ongoing game, a draw, or
    /// the opponent having completed a line — is worth nothing.
    fn get_reward(state: &Self, action: &TicTacToeMove, next: &Self) -> (r: i64) {
        if !next.is_terminal() {
            return 0;
        }
        match next.has_someone_won() {
            Some(entry) => {
                if entry == state.current_player {
                    VALUE_SCALE
                } else {
                    0
                }
            },
            None => 0,
        }
    }

    /// The board's compact numeric encoding: one base-3 digit per cell plus
    /// one bit for the turn.
    fn state_key(&self) -> (k: u32) {
        proof {
            assert(pow3(9) == 19683) by {
                reveal_with_fuel(pow3, 10);
            }
        }
        let mut k: u32 = 0;
        let mut p: usize = 0;
        while p < 9
            invariant
                p <= 9,
                k == encode_prefix(self.grid(), p as int),
                k < 19683,
            decreases 9 - p,
        {
            proof {
                lemma_encode_prefix_bound(self.grid(), p as int + 1);
                lemma_pow3_mono((p + 1) as nat, 9);
                assert(pow3(9) == 19683) by {
                    reveal_with_fuel(pow3, 10);
                }
            }
            let code: u32 = match self.cells[p] {
                BoardEntry::Blank => 0,
                BoardEntry::O => 1,
                BoardEntry::X => 2,
            };
            k = k * 3 + code;
            p = p + 1;
        }
        let turn_bit: u32 = if matches!(self.current_player, BoardEntry::O) {
            1
        } else {
            0
        };
        k * 2 + turn_bit
    }
}

} // verus!
