//! The plain evaluator of the machine's move. It looks one coin ahead like
//! the evaluator of `bot`, but scores a quiet move by the coins around the
//! landing cell alone. The machine plays yellow and the person red.

use vstd::prelude::*;
use crate::bot::{Evaluation, neighbor_entry, neighbors_view};
use crate::coin::Coin;
use crate::score::{lemma_multiples_are_fractions, plus, sum_of, HALF};
use crate::grid::{
    BOARD_HEIGHT, BOARD_WIDTH, any_line, cell_at, cells_of, coin_of, drop_into,
    has_line, is_grid, landing, landing_row, lemma_landing, lemma_place,
    lemma_trial_undone, set_cell, top_full, top_row_full,
};

verus! {

/// The columns that can take a coin, from left to right.
pub open spec fn is_legal_moves(g: Seq<Seq<Coin>>, moves: Seq<u8>) -> bool {
    &&& forall|i: int|
        0 <= i < moves.len() ==> (#[trigger] moves[i]) < BOARD_WIDTH && g[0][moves[i] as int]
            == Coin::Empty
    &&& forall|i: int, j: int| 0 <= i < j < moves.len() ==> #[trigger] moves[i] < #[trigger] moves[j]
    &&& forall|c: int|
        0 <= c < BOARD_WIDTH && (#[trigger] g[0][c]) == Coin::Empty ==> exists|i: int|
            0 <= i < moves.len() && #[trigger] moves[i] == c
}

/// The neighbours of (`r`, `c`) that lie on the board, each with its own
/// place, in this order: upper left, upper right, left, right, lower left,
/// lower, lower right. The cell straight above is not among them.
pub open spec fn neighbors(g: Seq<Seq<Coin>>, r: int, c: int) -> Seq<(Coin, int, int)> {
    neighbor_entry(g, r, c, -1, -1, -1, -1) + neighbor_entry(g, r, c, -1, 1, -1, 1)
        + neighbor_entry(g, r, c, 0, -1, 0, -1) + neighbor_entry(g, r, c, 0, 1, 0, 1)
        + neighbor_entry(g, r, c, 1, -1, 1, -1) + neighbor_entry(g, r, c, 1, 0, 1, 0)
        + neighbor_entry(g, r, c, 1, 1, 1, 1)
}

/// What one neighbouring coin adds to a score: a red coin a half, a yellow
/// coin minus a half.
pub open spec fn bonus_of(coin: Coin) -> int {
    match coin {
        Coin::Empty => 0,
        Coin::Red => HALF as int,
        Coin::Yellow => -HALF,
    }
}

/// What the listed neighbours add up to, one after the other.
pub open spec fn neighbor_bonus(list: Seq<(Coin, int, int)>) -> int
    decreases list.len(),
{
    if list.len() == 0 {
        0
    } else {
        sum_of(neighbor_bonus(list.drop_last()), bonus_of(list.last().0))
    }
}

/// How many red coins a list holds more than yellow ones.
pub open spec fn red_surplus(list: Seq<(Coin, int, int)>) -> int
    decreases list.len(),
{
    if list.len() == 0 {
        0
    } else {
        red_surplus(list.drop_last()) + match list.last().0 {
            Coin::Empty => 0int,
            Coin::Red => 1int,
            Coin::Yellow => -1int,
        }
    }
}

/// After `coin` has been dropped into `col`, a red coin dropped into column
/// `m` completes a red line of four. Only a column whose top cell is still
/// empty after the first drop takes the red coin.
pub open spec fn red_wins_at(g: Seq<Seq<Coin>>, col: int, coin: Coin, m: int) -> bool {
    &&& 0 <= m < BOARD_WIDTH
    &&& drop_into(g, col, coin)[0][m] == Coin::Empty
    &&& has_line(drop_into(drop_into(g, col, coin), m, Coin::Red), Coin::Red)
}

/// After a coin has been dropped into `col`, some answer of red wins at once.
pub open spec fn leaves_win(g: Seq<Seq<Coin>>, col: int, coin: Coin) -> bool {
    exists|m: int| #[trigger] red_wins_at(g, col, coin, m)
}

/// What dropping `coin` into `col` is worth to the machine; less is better.
/// A grid that then holds a yellow line of four is worth `NegInfinity`; else
/// one in which red can complete a line of four at once `PosInfinity`; else
/// the neighbours of the landing cell decide.
pub open spec fn evaluation_of(g: Seq<Seq<Coin>>, col: int, coin: Coin) -> Evaluation {
    if has_line(drop_into(g, col, coin), Coin::Yellow) {
        Evaluation::NegInfinity
    } else if leaves_win(g, col, coin) {
        Evaluation::PosInfinity
    } else {
        Evaluation::Finite(
            neighbor_bonus(neighbors(drop_into(g, col, coin), landing_row(g, col), col)) as i64,
        )
    }
}

/// `c` is the column for the machine to play: it can take a coin, no column
/// that can is worth less, and every such column left of it is worth more.
pub open spec fn is_best_move(g: Seq<Seq<Coin>>, c: int) -> bool {
    &&& 0 <= c < BOARD_WIDTH
    &&& g[0][c] == Coin::Empty
    &&& forall|o: int|
        0 <= o < BOARD_WIDTH && g[0][o] == Coin::Empty ==> !(#[trigger] evaluation_of(
            g,
            o,
            Coin::Yellow,
        )).precedes(evaluation_of(g, c, Coin::Yellow))
    &&& forall|o: int|
        0 <= o < c && g[0][o] == Coin::Empty ==> evaluation_of(g, c, Coin::Yellow).precedes(
            #[trigger] evaluation_of(g, o, Coin::Yellow),
        )
}

/// The column that the machine drops its coin into.
pub fn get_computer_move(board: Vec<Vec<Coin>>) -> (col: u8)
    requires
        is_grid(cells_of(&board)),
        !top_full(cells_of(&board)),
    ensures
        is_best_move(cells_of(&board), col as int),
{
    get_best_move(&board).0
}

/// The column whose move is worth least to the machine, the leftmost of them
/// when several are worth the same, and what it is worth.
pub fn get_best_move(board: &Vec<Vec<Coin>>) -> (best: (u8, Evaluation))
    requires
        is_grid(cells_of(board)),
        !top_full(cells_of(board)),
    ensures
        is_best_move(cells_of(board), best.0 as int),
        best.1 == evaluation_of(cells_of(board), best.0 as int, Coin::Yellow),
{
    let ghost g = cells_of(board);
    let moves = get_legal_moves(board);
    assert(moves@.len() > 0) by {
        let c = choose|c: int| 0 <= c < BOARD_WIDTH && #[trigger] g[0][c] == Coin::Empty;
    }
    let mut moves_rating: Vec<(u8, Evaluation)> = Vec::new();
    let mut idx: usize = 0;
    while idx < moves.len()
        invariant
            is_grid(cells_of(board)),
            g == cells_of(board),
            is_legal_moves(g, moves@),
            idx <= moves@.len(),
            moves_rating@.len() == idx,
            forall|j: int|
                0 <= j < idx ==> (#[trigger] moves_rating@[j]).0 == moves@[j]
                    && moves_rating@[j].1 == evaluation_of(g, moves@[j] as int, Coin::Yellow),
        decreases moves@.len() - idx,
    {
        let i = moves[idx];
        moves_rating.push((i, evaluate_for_move(board, i, false)));
        idx += 1;
    }
    let mut best: usize = 0;
    let mut k: usize = 1;
    while k < moves_rating.len()
        invariant
            best < k <= moves_rating@.len(),
            forall|j: int|
                0 <= j < k ==> !(#[trigger] moves_rating@[j]).1.precedes(moves_rating@[best as int].1),
            forall|j: int|
                0 <= j < best ==> moves_rating@[best as int].1.precedes(
                    (#[trigger] moves_rating@[j]).1,
                ),
        decreases moves_rating@.len() - k,
    {
        if moves_rating[k].1.less_than(&moves_rating[best].1) {
            best = k;
        }
        k += 1;
    }
    proof {
        let c = moves@[best as int] as int;
        assert forall|o: int| 0 <= o < BOARD_WIDTH && g[0][o] == Coin::Empty implies !(
        #[trigger] evaluation_of(g, o, Coin::Yellow)).precedes(
            evaluation_of(g, c, Coin::Yellow),
        ) by {
            let j = choose|j: int| 0 <= j < moves@.len() && #[trigger] moves@[j] == o;
            assert(moves_rating@[j].1 == evaluation_of(g, o, Coin::Yellow));
        }
        assert forall|o: int| 0 <= o < c && g[0][o] == Coin::Empty implies evaluation_of(
            g,
            c,
            Coin::Yellow,
        ).precedes(#[trigger] evaluation_of(g, o, Coin::Yellow)) by {
            let j = choose|j: int| 0 <= j < moves@.len() && #[trigger] moves@[j] == o;
            assert(moves_rating@[j].1 == evaluation_of(g, o, Coin::Yellow));
        }
    }
    moves_rating[best]
}

/// Tries every column that could take a coin on `board` as red's answer to
/// the drop that made `scratch` out of it, and says whether one of them
/// completes a red line of four. A column that the drop has filled takes no
/// answer. Each trial coin is taken off again, so that `scratch` is left as
/// it was if no answer wins.
fn answer_wins(board: &Vec<Vec<Coin>>, scratch: &mut Vec<Vec<Coin>>, after_move: u8, turn: bool) -> (found:
    bool)
    requires
        is_grid(cells_of(board)),
        after_move < BOARD_WIDTH,
        cells_of(board)[0][after_move as int] == Coin::Empty,
        cells_of(old(scratch)) == drop_into(cells_of(board), after_move as int, coin_of(turn)),
    ensures
        found == leaves_win(cells_of(board), after_move as int, coin_of(turn)),
        !found ==> cells_of(final(scratch)) == cells_of(old(scratch)),
        is_grid(cells_of(final(scratch))),
{
    let ghost g = cells_of(board);
    let ghost col = after_move as int;
    let ghost coin = coin_of(turn);
    let ghost post = cells_of(scratch);
    proof {
        lemma_landing(g, col);
        lemma_place(g, landing_row(g, col), col, coin);
    }
    let opponent_moves = get_legal_moves(board);
    let mut idx: usize = 0;
    while idx < opponent_moves.len()
        invariant
            is_grid(g),
            g == cells_of(board),
            0 <= col < BOARD_WIDTH,
            col == after_move,
            coin == coin_of(turn),
            post == drop_into(g, col, coin),
            is_grid(post),
            is_legal_moves(g, opponent_moves@),
            idx <= opponent_moves@.len(),
            cells_of(scratch) == post,
            forall|j: int|
                0 <= j < idx ==> !red_wins_at(g, col, coin, #[trigger] opponent_moves@[j] as int),
        decreases opponent_moves@.len() - idx,
    {
        let i = opponent_moves[idx];
        if cell_at(scratch, 0, i as usize) == Coin::Empty {
            let (placed_row, placed_col) = drop(scratch, i as usize, true);
            if player_won(scratch) {
                assert(red_wins_at(g, col, coin, i as int));
                return true;
            }
            set_cell(scratch, placed_row, placed_col, Coin::Empty);
            proof {
                lemma_trial_undone(post, i as int, Coin::Red);
            }
        }
        idx += 1;
    }
    false
}

/// Scores the drop of a red coin (`turn`) or a yellow one into the column
/// `after_move`, for the machine.
pub fn evaluate_for_move(board: &Vec<Vec<Coin>>, after_move: u8, turn: bool) -> (evaluation:
    Evaluation)
    requires
        is_grid(cells_of(board)),
        after_move < BOARD_WIDTH,
        cells_of(board)[0][after_move as int] == Coin::Empty,
    ensures
        evaluation == evaluation_of(cells_of(board), after_move as int, coin_of(turn)),
{
    let mut board_copy = board.clone();
    assert(cells_of(&board_copy) =~= cells_of(board));
    let (comp_choice_row, comp_choice_col) = drop(&mut board_copy, after_move as usize, turn);
    let mut count: i64 = 0;
    if computer_won(&board_copy) {
        return Evaluation::NegInfinity;
    }
    if answer_wins(board, &mut board_copy, after_move, turn) {
        return Evaluation::PosInfinity;
    }
    // A full board has nothing to score; with room in `after_move` it is not full.
    if is_full(board) {
        return Evaluation::Finite(0);
    }
    let neighbors = get_neighboring_cells(&board_copy, comp_choice_row, comp_choice_col);
    let ghost listed = neighbors_view(neighbors@);
    proof {
        lemma_neighbors_len(cells_of(&board_copy), comp_choice_row as int, comp_choice_col as int);
    }
    let mut n: usize = 0;
    while n < neighbors.len()
        invariant
            n <= neighbors@.len(),
            listed == neighbors_view(neighbors@),
            listed.len() <= 7,
            count == neighbor_bonus(listed.take(n as int)),
        decreases neighbors@.len() - n,
    {
        proof {
            assert(listed.take(n + 1).drop_last() =~= listed.take(n as int));
            lemma_halves_add_exactly(listed.take(n as int));
        }
        count = plus(
            count,
            match *neighbors[n].0 {
                Coin::Empty => 0,
                Coin::Red => HALF,
                Coin::Yellow => -HALF,
            },
        );
        n += 1;
    }
    assert(listed.take(n as int) =~= listed);
    Evaluation::Finite(count)
}

/// A cell has at most seven neighbours.
pub proof fn lemma_neighbors_len(g: Seq<Seq<Coin>>, r: int, c: int)
    ensures
        neighbors(g, r, c).len() <= 7,
{
}

/// Halves add up without rounding: the neighbours of a cell add up to half
/// of what the red coins among them are more than the yellow ones.
pub proof fn lemma_halves_add_exactly(list: Seq<(Coin, int, int)>)
    requires
        list.len() <= 7,
    ensures
        neighbor_bonus(list) == red_surplus(list) * HALF,
        -list.len() <= red_surplus(list) <= list.len(),
    decreases list.len(),
{
    if list.len() > 0 {
        let before = list.drop_last();
        lemma_halves_add_exactly(before);
        let exact = red_surplus(list) * HALF;
        lemma_multiples_are_fractions(exact);
    }
}

/// The columns whose top cell is empty, from left to right.
pub fn get_legal_moves(board: &Vec<Vec<Coin>>) -> (moves: Vec<u8>)
    requires
        is_grid(cells_of(board)),
    ensures
        is_legal_moves(cells_of(board), moves@),
{
    let mut moves: Vec<u8> = Vec::new();
    let mut i: usize = 0;
    while i < BOARD_WIDTH
        invariant
            is_grid(cells_of(board)),
            i <= BOARD_WIDTH,
            forall|k: int|
                0 <= k < moves@.len() ==> (#[trigger] moves@[k]) < i && cells_of(board)[0][moves@[k] as int]
                    == Coin::Empty,
            forall|k: int, j: int|
                0 <= k < j < moves@.len() ==> #[trigger] moves@[k] < #[trigger] moves@[j],
            forall|c: int|
                0 <= c < i && (#[trigger] cells_of(board)[0][c]) == Coin::Empty ==> exists|k: int|
                    0 <= k < moves@.len() && #[trigger] moves@[k] == c,
        decreases BOARD_WIDTH - i,
    {
        if cell_at(board, 0, i) == Coin::Empty {
            let ghost before = moves@;
            moves.push(i as u8);
            assert forall|c: int|
                0 <= c < i + 1 && (#[trigger] cells_of(board)[0][c]) == Coin::Empty implies exists|
                k: int,
            | 0 <= k < moves@.len() && #[trigger] moves@[k] == c by {
                if c < i {
                    let k = choose|k: int| 0 <= k < before.len() && #[trigger] before[k] == c;
                    assert(moves@[k] == c);
                } else {
                    assert(moves@[before.len() as int] == c);
                }
            }
        }
        i += 1;
    }
    moves
}

/// Drops a red coin (`turn`) or a yellow one into `col` of a scratch grid and
/// returns the cell where it landed. The top cell is not looked at first: on
/// a full column the coin takes the place of the top one.
pub fn drop(board: &mut Vec<Vec<Coin>>, col: usize, turn: bool) -> (cell: (usize, usize))
    requires
        is_grid(cells_of(old(board))),
        col < BOARD_WIDTH,
    ensures
        is_grid(cells_of(final(board))),
        cells_of(final(board)) == drop_into(cells_of(old(board)), col as int, coin_of(turn)),
        cell.0 == landing_row(cells_of(old(board)), col as int),
        cell.0 < BOARD_HEIGHT,
        cell.1 == col,
{
    let row = landing(board, col);
    set_cell(
        board,
        row,
        col,
        if turn {
            Coin::Red
        } else {
            Coin::Yellow
        },
    );
    (row, col)
}

/// Notes the cell at (`at_row`, `at_col`), a neighbour of (`row`, `col`).
fn note_cell<'a>(
    list: &mut Vec<(&'a Coin, usize, usize)>,
    board: &'a Vec<Vec<Coin>>,
    at_row: usize,
    at_col: usize,
)
    requires
        is_grid(cells_of(board)),
        at_row < BOARD_HEIGHT,
        at_col < BOARD_WIDTH,
    ensures
        neighbors_view(final(list)@) == neighbors_view(old(list)@) + seq![
            (cells_of(board)[at_row as int][at_col as int], at_row as int, at_col as int),
        ],
{
    list.push((&board[at_row][at_col], at_row, at_col));
    assert(neighbors_view(list@) =~= neighbors_view(old(list)@) + seq![
        (cells_of(board)[at_row as int][at_col as int], at_row as int, at_col as int),
    ]);
}

/// The neighbours of (`row`, `col`), each with its place.
pub fn get_neighboring_cells(board: &Vec<Vec<Coin>>, row: usize, col: usize) -> (list: Vec<
    (&Coin, usize, usize),
>)
    requires
        is_grid(cells_of(board)),
        row < BOARD_HEIGHT,
        col < BOARD_WIDTH,
    ensures
        neighbors_view(list@) == neighbors(cells_of(board), row as int, col as int),
{
    let mut neighbors: Vec<(&Coin, usize, usize)> = Vec::new();
    if (row as isize) - 1 >= 0 && (col as isize) - 1 >= 0 {
        note_cell(&mut neighbors, board, row - 1, col - 1);
    }
    if (row as isize) - 1 >= 0 && (col as isize) + 1 < 7 {
        note_cell(&mut neighbors, board, row - 1, col + 1);
    }
    if (col as isize) - 1 >= 0 {
        note_cell(&mut neighbors, board, row, col - 1);
    }
    if (col as isize) + 1 < 7 {
        note_cell(&mut neighbors, board, row, col + 1);
    }
    if (row as isize) + 1 < 6 && (col as isize) - 1 >= 0 {
        note_cell(&mut neighbors, board, row + 1, col - 1);
    }
    if (row as isize) + 1 < 6 {
        note_cell(&mut neighbors, board, row + 1, col);
    }
    if (row as isize) + 1 < 6 && (col as isize) + 1 < 7 {
        note_cell(&mut neighbors, board, row + 1, col + 1);
    }
    neighbors
}

/// Whether the grid holds a red line of four.
pub fn player_won(board: &Vec<Vec<Coin>>) -> (won: bool)
    requires
        is_grid(cells_of(board)),
    ensures
        won == has_line(cells_of(board), Coin::Red),
{
    any_line(board, Coin::Red)
}

/// Whether the grid holds a yellow line of four.
pub fn computer_won(board: &Vec<Vec<Coin>>) -> (won: bool)
    requires
        is_grid(cells_of(board)),
    ensures
        won == has_line(cells_of(board), Coin::Yellow),
{
    any_line(board, Coin::Yellow)
}

/// Whether every column is full.
pub fn is_full(board: &Vec<Vec<Coin>>) -> (full: bool)
    requires
        is_grid(cells_of(board)),
    ensures
        full == top_full(cells_of(board)),
{
    top_row_full(board)
}

/// The choice is a function of the grid alone: two columns that both meet
/// `is_best_move` are the same column.
pub proof fn lemma_best_move_unique(g: Seq<Seq<Coin>>, a: int, b: int)
    requires
        is_best_move(g, a),
        is_best_move(g, b),
    ensures
        a == b,
{
}

} // verus!
