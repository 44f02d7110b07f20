//! The turns of a game between a person, who plays red, and the machine,
//! which plays yellow: what a turn does to the board, and what the person is
//! to be told.

use vstd::prelude::*;
use crate::board::{lemma_drop_wf, Board, BoardView};
use crate::bot::{
    evaluation_of, get_computer_move, is_best_move, lemma_sole_safe_move_is_played,
    lemma_win_is_taken, rival_wins_at, Evaluation,
};
use crate::coin::Coin;
use crate::game_state::GameState;
use crate::grid::{
    drop_into, landing_row, lemma_drop_keeps_gravity, lemma_landing, lemma_only_new_coin_wins,
    winner, BOARD_WIDTH,
};

verus! {

/// What came of a person's entry.
#[derive(Clone, Copy, PartialEq, Eq, Debug, Structural)]
pub enum Reply {
    /// The coin was dropped: the turn passes to the machine.
    Played,
    /// The entry is no number from 1 to 7: the person enters again.
    NotAColumn,
    /// The column is full: the person enters again.
    ColumnFull,
}

/// The column that an entry names: the person counts the columns from 1.
pub open spec fn entry_column(entry: Option<u8>) -> Option<int> {
    match entry {
        Some(number) => if 0 < number < 8 {
            Some(number - 1)
        } else {
            None
        },
        None => None,
    }
}

/// The column that the number `number` names, if it names one.
pub fn column_of_entry(number: u8) -> (col: Option<usize>)
    ensures
        match entry_column(Some(number)) {
            Some(named) => col == Some(named as usize),
            None => col is None,
        },
{
    if number > 0 && number < 8 {
        Some((number - 1) as usize)
    } else {
        None
    }
}

/// The person's turn. `entry` is the number that was entered, `None` when
/// what was entered is no number. A number from 1 to 7 drops a red coin into
/// that column, unless the column is full; any other entry changes nothing.
pub fn person_turn(board: &mut Board, entry: Option<u8>) -> (reply: Reply)
    requires
        old(board).wf(),
    ensures
        final(board).wf(),
        match entry_column(entry) {
            Some(col) => final(board)@ == old(board)@.drop(col, true) && (if old(
                board,
            )@.column_open(col) {
                reply == Reply::Played
            } else {
                reply == Reply::ColumnFull && *final(board) == *old(board)
            }),
            None => reply == Reply::NotAColumn && *final(board) == *old(board),
        },
{
    let column_number = match entry {
        Some(i) => i,
        None => {
            return Reply::NotAColumn;
        },
    };
    match column_of_entry(column_number) {
        Some(col) => match board.drop(col, true) {
            Ok(_) => Reply::Played,
            Err(_) => Reply::ColumnFull,
        },
        None => Reply::NotAColumn,
    }
}

/// The machine's turn in a game that is on: it drops a yellow coin into the
/// column that the evaluator picks. The drop is never refused.
pub fn machine_turn(board: &mut Board) -> (col: usize)
    requires
        old(board).wf(),
        old(board)@.state == GameState::OnGoing,
    ensures
        final(board).wf(),
        is_best_move(old(board)@.cells, Coin::Yellow, col as int),
        old(board)@.column_open(col as int),
        final(board)@ == old(board)@.drop(col as int, false),
{
    let col = get_computer_move(&board.get_board());
    board.drop(col, false).unwrap();
    col
}

/// While a game is on, a move that the evaluator scores `NegInfinity` is a
/// move that wins the game for yellow, and no other move is.
pub proof fn lemma_best_score_is_a_win(v: BoardView, col: int)
    requires
        v.wf(),
        v.state == GameState::OnGoing,
        0 <= col < BOARD_WIDTH,
        v.column_open(col),
    ensures
        evaluation_of(v.cells, col, Coin::Yellow) == Evaluation::NegInfinity <==> v.drop(
            col,
            false,
        ).state == GameState::YellowWon,
{
}

/// While a game is on, the machine wins at once whenever some move wins.
pub proof fn lemma_machine_takes_its_win(v: BoardView, chosen: int, winning: int)
    requires
        v.wf(),
        v.state == GameState::OnGoing,
        is_best_move(v.cells, Coin::Yellow, chosen),
        0 <= winning < BOARD_WIDTH,
        v.drop(winning, false).state == GameState::YellowWon,
    ensures
        v.drop(chosen, false).state == GameState::YellowWon,
{
    lemma_win_is_taken(v.cells, Coin::Yellow, chosen, winning);
}

/// A drop of yellow on a board without a line leaves the game on or drawn
/// unless it completes a yellow line.
proof fn lemma_after_yellow(v: BoardView, col: int)
    requires
        v.wf(),
        v.state == GameState::OnGoing,
        0 <= col < BOARD_WIDTH,
        v.column_open(col),
    ensures
        v.drop(col, false).cells == drop_into(v.cells, col, Coin::Yellow),
        v.drop(col, false).wf(),
        winner(drop_into(v.cells, col, Coin::Yellow)) == Coin::Empty || winner(
            drop_into(v.cells, col, Coin::Yellow),
        ) == Coin::Yellow,
{
    lemma_landing(v.cells, col);
    lemma_drop_keeps_gravity(v.cells, col, Coin::Yellow);
    lemma_only_new_coin_wins(v.cells, landing_row(v.cells, col), col, Coin::Yellow);
    lemma_drop_wf(v, col, false);
}

/// While a game is on, a move that the evaluator scores with a number leaves
/// the person no drop that wins at once.
pub proof fn lemma_scored_move_is_safe(v: BoardView, col: int, m: int)
    requires
        v.wf(),
        v.state == GameState::OnGoing,
        0 <= col < BOARD_WIDTH,
        v.column_open(col),
        evaluation_of(v.cells, col, Coin::Yellow) is Finite,
        0 <= m < BOARD_WIDTH,
    ensures
        v.drop(col, false).drop(m, true).state != GameState::RedWon,
{
    lemma_after_yellow(v, col);
    let next = v.drop(col, false);
    if next.state == GameState::OnGoing && next.column_open(m) {
        assert(!rival_wins_at(v.cells, col, Coin::Yellow, m));
    }
}

/// While a game is on, a move that the evaluator scores `PosInfinity` lets
/// the person win at once.
pub proof fn lemma_flagged_move_loses(v: BoardView, col: int)
    requires
        v.wf(),
        v.state == GameState::OnGoing,
        0 <= col < BOARD_WIDTH,
        v.column_open(col),
        evaluation_of(v.cells, col, Coin::Yellow) == Evaluation::PosInfinity,
    ensures
        exists|m: int|
            0 <= m < BOARD_WIDTH && #[trigger] v.drop(col, false).drop(m, true).state
                == GameState::RedWon,
{
    lemma_after_yellow(v, col);
    let m = choose|m: int| #[trigger] rival_wins_at(v.cells, col, Coin::Yellow, m);
    assert(v.drop(col, false).cells[0][m] == Coin::Empty);
    assert(v.drop(col, false).drop(m, true).state == GameState::RedWon);
}

/// While a game is on, the evaluator scores a move `PosInfinity` exactly when
/// the person can win the game with the next drop.
pub proof fn lemma_flag_means_loss(v: BoardView, col: int)
    requires
        v.wf(),
        v.state == GameState::OnGoing,
        0 <= col < BOARD_WIDTH,
        v.column_open(col),
    ensures
        evaluation_of(v.cells, col, Coin::Yellow) == Evaluation::PosInfinity <==> exists|m: int|
            0 <= m < BOARD_WIDTH && #[trigger] v.drop(col, false).drop(m, true).state
                == GameState::RedWon,
{
    if evaluation_of(v.cells, col, Coin::Yellow) == Evaluation::PosInfinity {
        lemma_flagged_move_loses(v, col);
    } else {
        assert forall|m: int| 0 <= m < BOARD_WIDTH implies #[trigger] v.drop(col, false).drop(
            m,
            true,
        ).state != GameState::RedWon by {
            if evaluation_of(v.cells, col, Coin::Yellow) is Finite {
                lemma_scored_move_is_safe(v, col, m);
            } else {
                lemma_best_score_is_a_win(v, col);
            }
        }
    }
}

/// While a game is on: if every column but one lets the person win with the
/// next drop, the machine plays that one column.
pub proof fn lemma_only_safe_column_is_played(v: BoardView, chosen: int, safe: int)
    requires
        v.wf(),
        v.state == GameState::OnGoing,
        is_best_move(v.cells, Coin::Yellow, chosen),
        0 <= safe < BOARD_WIDTH,
        v.column_open(safe),
        forall|m: int|
            0 <= m < BOARD_WIDTH ==> #[trigger] v.drop(safe, false).drop(m, true).state
                != GameState::RedWon,
        forall|o: int|
            0 <= o < BOARD_WIDTH && o != safe && v.column_open(o) ==> exists|m: int|
                0 <= m < BOARD_WIDTH && #[trigger] v.drop(o, false).drop(m, true).state
                    == GameState::RedWon,
    ensures
        chosen == safe,
{
    lemma_flag_means_loss(v, safe);
    assert forall|o: int|
        0 <= o < BOARD_WIDTH && o != safe && v.cells[0][o] == Coin::Empty implies #[trigger] evaluation_of(
        v.cells,
        o,
        Coin::Yellow,
    ) == Evaluation::PosInfinity by {
        assert(v.column_open(o));
        lemma_flag_means_loss(v, o);
    }
    lemma_sole_safe_move_is_played(v.cells, Coin::Yellow, chosen, safe);
}

} // verus!
