//! The evaluator that picks the automated player's column. Each column that
//! can take a coin is tried on a scratch copy of the grid: a move that wins
//! at once is best, a move after which the other player can win at once is
//! worst, and every other move is scored by the open lines through the
//! landing cell and by the coins around it. The lowest score is played; among
//! equal scores the leftmost column.

use vstd::prelude::*;
use crate::coin::Coin;
use crate::score::{
    lemma_rounded_is_near, plus, product_of, sum_of, times, FOUR_TENTHS, LIMIT, ONE, SIX_TENTHS,
    TENTH, THREE_TENTHS, TWO_TENTHS,
};
use crate::grid::{
    BOARD_HEIGHT, BOARD_WIDTH, cell_at, cells_of, coin_of, drop_into, find_winner, is_grid,
    landing, landing_row, lemma_landing, lemma_place, lemma_trial_undone, rival, set_cell,
    top_full, top_row_full, winner,
};

verus! {

/// What a grid shows, as the evaluator names it: the person plays red and
/// the machine yellow.
#[derive(Clone, Copy, PartialEq, Eq, Debug, Structural)]
pub enum State {
    ComputerWon,
    PlayerWon,
    Draw,
    Undecided,
}

/// What `who_won` reports of a grid: the side whose coin fills the first
/// line of four in scan order, else a draw when the top row is full.
pub open spec fn state_of(g: Seq<Seq<Coin>>) -> State {
    match winner(g) {
        Coin::Red => State::PlayerWon,
        Coin::Yellow => State::ComputerWon,
        Coin::Empty => if top_full(g) {
            State::Draw
        } else {
            State::Undecided
        },
    }
}

/// The cell that lies `dr` rows below and `dc` columns right of (`r`, `c`),
/// if that place is on the board.
pub open spec fn relative_cell(g: Seq<Seq<Coin>>, r: int, c: int, dr: int, dc: int) -> Option<Coin> {
    if 0 <= r + dr < BOARD_HEIGHT && 0 <= c + dc < BOARD_WIDTH {
        Some(g[r + dr][c + dc])
    } else {
        None
    }
}

/// The columns that can take a coin, from left to right.
pub open spec fn is_legal_moves(g: Seq<Seq<Coin>>, moves: Seq<usize>) -> bool {
    &&& forall|i: int|
        0 <= i < moves.len() ==> (#[trigger] moves[i]) < BOARD_WIDTH && g[0][moves[i] as int]
            == Coin::Empty
    &&& forall|i: int, j: int| 0 <= i < j < moves.len() ==> #[trigger] moves[i] < #[trigger] moves[j]
    &&& forall|c: int|
        0 <= c < BOARD_WIDTH && (#[trigger] g[0][c]) == Coin::Empty ==> exists|i: int|
            0 <= i < moves.len() && #[trigger] moves[i] == c
}

/// One neighbour of a cell: the coin found there and the place noted for it.
pub open spec fn neighbor_entry(
    g: Seq<Seq<Coin>>,
    r: int,
    c: int,
    dr: int,
    dc: int,
    noted_dr: int,
    noted_dc: int,
) -> Seq<(Coin, int, int)> {
    match relative_cell(g, r, c, dr, dc) {
        Some(coin) => seq![(coin, r + noted_dr, c + noted_dc)],
        None => Seq::empty(),
    }
}

/// The neighbours of (`r`, `c`) that lie on the board, in this order: upper
/// left, upper right, left, right, lower left, lower, lower right. The cell
/// straight above is not among them. The three lower neighbours are noted
/// under the row of the cell itself, so the lower left one is noted at the
/// place of the left one.
pub open spec fn neighbors(g: Seq<Seq<Coin>>, r: int, c: int) -> Seq<(Coin, int, int)> {
    neighbor_entry(g, r, c, -1, -1, -1, -1) + neighbor_entry(g, r, c, -1, 1, -1, 1)
        + neighbor_entry(g, r, c, 0, -1, 0, -1) + neighbor_entry(g, r, c, 0, 1, 0, 1)
        + neighbor_entry(g, r, c, 1, -1, 0, -1) + neighbor_entry(g, r, c, 1, 0, 0, 0)
        + neighbor_entry(g, r, c, 1, 1, 0, 1)
}

/// What a list of neighbours holds, with the coins and places as numbers.
pub open spec fn neighbors_view(list: Seq<(&Coin, usize, usize)>) -> Seq<(Coin, int, int)> {
    Seq::new(list.len(), |i: int| (*list[i].0, list[i].1 as int, list[i].2 as int))
}

/// Drops a coin of the first player (`turn`) or the second into `col` of a
/// scratch grid and returns the cell where it landed. The top cell is not
/// looked at first: on a full column the coin takes the place of the top one.
pub fn drop(board: &mut Vec<Vec<Coin>>, col: usize, turn: bool) -> (cell: (usize, usize))
    requires
        is_grid(cells_of(old(board))),
        col < BOARD_WIDTH,
    ensures
        is_grid(cells_of(final(board))),
        cells_of(final(board)) == drop_into(cells_of(old(board)), col as int, coin_of(turn)),
        cell.0 == landing_row(cells_of(old(board)), col as int),
        cell.0 < BOARD_HEIGHT,
        cell.1 == col,
{
    let row = landing(board, col);
    set_cell(
        board,
        row,
        col,
        if turn {
            Coin::Red
        } else {
            Coin::Yellow
        },
    );
    (row, col)
}

/// The cell at an offset from (`row`, `col`), `None` off the board.
pub fn get_relative_cell(
    board: &Vec<Vec<Coin>>,
    row: usize,
    col: usize,
    row_shift: isize,
    col_shift: isize,
) -> (cell: Option<&Coin>)
    requires
        is_grid(cells_of(board)),
        row <= isize::MAX,
        col <= isize::MAX,
        row + row_shift <= isize::MAX,
        col + col_shift <= isize::MAX,
    ensures
        cell == match relative_cell(
            cells_of(board),
            row as int,
            col as int,
            row_shift as int,
            col_shift as int,
        ) {
            Some(coin) => Some(&coin),
            None => None,
        },
{
    let new_row = (row as isize) + row_shift;
    let new_col = (col as isize) + col_shift;
    if new_row < 0 || new_row > 5 || new_col < 0 || new_col > 6 {
        None
    } else {
        Some(&board[new_row as usize][new_col as usize])
    }
}

/// Notes one neighbour: its coin and the place noted for it.
fn note<'a>(list: &mut Vec<(&'a Coin, usize, usize)>, coin: &'a Coin, row: usize, col: usize)
    ensures
        neighbors_view(final(list)@) == neighbors_view(old(list)@) + seq![
            (*coin, row as int, col as int),
        ],
{
    list.push((coin, row, col));
    assert(neighbors_view(list@) =~= neighbors_view(old(list)@) + seq![
        (*coin, row as int, col as int),
    ]);
}

/// The neighbours of (`row`, `col`) with the places noted for them.
pub fn get_neighboring_cells(board: &Vec<Vec<Coin>>, row: usize, col: usize) -> (list: Vec<
    (&Coin, usize, usize),
>)
    requires
        is_grid(cells_of(board)),
        row < BOARD_HEIGHT,
        col < BOARD_WIDTH,
    ensures
        neighbors_view(list@) == neighbors(cells_of(board), row as int, col as int),
{
    let mut neighbors: Vec<(&Coin, usize, usize)> = Vec::new();
    match get_relative_cell(board, row, col, -1, -1) {
        Some(i) => note(&mut neighbors, i, row - 1, col - 1),
        None => (),
    }
    match get_relative_cell(board, row, col, -1, 1) {
        Some(i) => note(&mut neighbors, i, row - 1, col + 1),
        None => (),
    }
    match get_relative_cell(board, row, col, 0, -1) {
        Some(i) => note(&mut neighbors, i, row, col - 1),
        None => (),
    }
    match get_relative_cell(board, row, col, 0, 1) {
        Some(i) => note(&mut neighbors, i, row, col + 1),
        None => (),
    }
    match get_relative_cell(board, row, col, 1, -1) {
        Some(i) => note(&mut neighbors, i, row, col - 1),
        None => (),
    }
    match get_relative_cell(board, row, col, 1, 0) {
        Some(i) => note(&mut neighbors, i, row, col),
        None => (),
    }
    match get_relative_cell(board, row, col, 1, 1) {
        Some(i) => note(&mut neighbors, i, row, col + 1),
        None => (),
    }
    neighbors
}

/// The columns whose top cell is empty, from left to right.
pub fn get_legal_moves(board: &Vec<Vec<Coin>>) -> (moves: Vec<usize>)
    requires
        is_grid(cells_of(board)),
    ensures
        is_legal_moves(cells_of(board), moves@),
{
    let mut moves: Vec<usize> = Vec::new();
    let mut i: usize = 0;
    while i < BOARD_WIDTH
        invariant
            is_grid(cells_of(board)),
            i <= BOARD_WIDTH,
            forall|k: int|
                0 <= k < moves@.len() ==> (#[trigger] moves@[k]) < i && cells_of(board)[0][moves@[k] as int]
                    == Coin::Empty,
            forall|k: int, j: int|
                0 <= k < j < moves@.len() ==> #[trigger] moves@[k] < #[trigger] moves@[j],
            forall|c: int|
                0 <= c < i && (#[trigger] cells_of(board)[0][c]) == Coin::Empty ==> exists|k: int|
                    0 <= k < moves@.len() && #[trigger] moves@[k] == c,
        decreases BOARD_WIDTH - i,
    {
        if cell_at(board, 0, i) == Coin::Empty {
            let ghost before = moves@;
            moves.push(i);
            assert forall|c: int|
                0 <= c < i + 1 && (#[trigger] cells_of(board)[0][c]) == Coin::Empty implies exists|
                k: int,
            | 0 <= k < moves@.len() && #[trigger] moves@[k] == c by {
                if c < i {
                    let k = choose|k: int| 0 <= k < before.len() && #[trigger] before[k] == c;
                    assert(moves@[k] == c);
                } else {
                    assert(moves@[before.len() as int] == c);
                }
            }
        }
        i += 1;
    }
    moves
}

/// Whether every column is full.
pub fn is_full(board: &Vec<Vec<Coin>>) -> (full: bool)
    requires
        is_grid(cells_of(board)),
    ensures
        full == top_full(cells_of(board)),
{
    top_row_full(board)
}

/// What the grid shows: a win of the side whose coin fills the first line of
/// four in scan order, else a draw when every column is full.
pub fn who_won(board: &Vec<Vec<Coin>>) -> (state: State)
    requires
        is_grid(cells_of(board)),
    ensures
        state == state_of(cells_of(board)),
{
    match find_winner(board) {
        Coin::Red => State::PlayerWon,
        Coin::Yellow => State::ComputerWon,
        Coin::Empty => {
            if is_full(board) {
                State::Draw
            } else {
                State::Undecided
            }
        },
    }
}

// ---------------------------------------------------------------------------
// Open lines through a cell
// ---------------------------------------------------------------------------

/// How many open lines of each kind pass through a cell.
#[derive(Clone, Copy, PartialEq, Eq, Debug, Structural)]
pub struct ContinuousType {
    pub diagonal: usize,
    pub horizontal: usize,
    pub vertical: usize,
}

/// The coin at an offset from (`r`, `c`); a place off the board counts as
/// empty.
pub open spec fn cell_or_empty(g: Seq<Seq<Coin>>, r: int, c: int, dr: int, dc: int) -> Coin {
    match relative_cell(g, r, c, dr, dc) {
        Some(coin) => coin,
        None => Coin::Empty,
    }
}

/// The place at an offset from (`r`, `c`) lies on the board and holds nothing
/// that blocks a line of `coin`.
pub open spec fn open_at(g: Seq<Seq<Coin>>, r: int, c: int, dr: int, dc: int, coin: Coin) -> bool {
    match relative_cell(g, r, c, dr, dc) {
        Some(found) => found.compatible(coin),
        None => false,
    }
}

/// One if `hit`, else none.
pub open spec fn count_if(hit: bool) -> nat {
    if hit {
        1
    } else {
        0
    }
}

/// The open lines that the pair made of (`r`, `c`) and its neighbour in the
/// direction (`dr`, `dc`) can grow into. Nothing counts unless that neighbour
/// holds the same coin as the cell (off the board it counts as empty). If the
/// second place in the direction is on the board, it must be open: then the
/// third place in the direction counts if open, and so does the first place
/// the other way. If the second place is off the board, the two places the
/// other way count as one line when both are open.
pub open spec fn pairs_toward(g: Seq<Seq<Coin>>, r: int, c: int, dr: int, dc: int) -> nat {
    let coin = g[r][c];
    if cell_or_empty(g, r, c, dr, dc) != coin {
        0
    } else if relative_cell(g, r, c, 2 * dr, 2 * dc) is Some {
        if open_at(g, r, c, 2 * dr, 2 * dc, coin) {
            count_if(open_at(g, r, c, 3 * dr, 3 * dc, coin)) + count_if(
                open_at(g, r, c, -dr, -dc, coin),
            )
        } else {
            0
        }
    } else {
        count_if(open_at(g, r, c, -dr, -dc, coin) && open_at(g, r, c, -(2 * dr), -(2 * dc), coin))
    }
}

/// Open lines through pairs along the two diagonals, in all four directions.
pub open spec fn twos_diagonal(g: Seq<Seq<Coin>>, r: int, c: int) -> nat {
    pairs_toward(g, r, c, -1, -1) + pairs_toward(g, r, c, -1, 1) + pairs_toward(g, r, c, 1, -1)
        + pairs_toward(g, r, c, 1, 1)
}

/// Open lines through pairs along the row, to the left and to the right.
pub open spec fn twos_horizontal(g: Seq<Seq<Coin>>, r: int, c: int) -> nat {
    pairs_toward(g, r, c, 0, -1) + pairs_toward(g, r, c, 0, 1)
}

/// A pair down the column counts when the cell below holds the same coin and
/// the pair lies in the lower half of the board, whatever stands above it.
pub open spec fn twos_vertical(g: Seq<Seq<Coin>>, r: int, c: int) -> nat {
    count_if(cell_or_empty(g, r, c, 1, 0) == g[r][c] && r > 2)
}

/// One if the places at the offsets `a` and `b` both hold the coin of
/// (`r`, `c`), a place off the board counting as empty, and the place at the
/// offset `end` is open.
pub open spec fn triple_hit(
    g: Seq<Seq<Coin>>,
    r: int,
    c: int,
    a: (int, int),
    b: (int, int),
    end: (int, int),
) -> nat {
    let coin = g[r][c];
    count_if(
        cell_or_empty(g, r, c, a.0, a.1) == coin && cell_or_empty(g, r, c, b.0, b.1) == coin
            && open_at(g, r, c, end.0, end.1, coin),
    )
}

/// Open lines through three coins along the diagonals. On each diagonal two
/// shapes count: two coins upward with the third place upward open, and one
/// coin upward and one downward with the second place downward open. The two
/// diagonals are told alike, the one that rises to the left and the one that
/// rises to the right.
pub open spec fn threes_diagonal(g: Seq<Seq<Coin>>, r: int, c: int) -> nat {
    triple_hit(g, r, c, (-1, -1), (-2, -2), (-3, -3)) + triple_hit(
        g,
        r,
        c,
        (-1, -1),
        (1, 1),
        (2, 2),
    ) + triple_hit(g, r, c, (-1, 1), (-2, 2), (-3, 3)) + triple_hit(
        g,
        r,
        c,
        (-1, 1),
        (1, -1),
        (2, -2),
    )
}

/// Open lines through three coins along the row: two coins to the left with
/// the third place to the left open, or one coin on each side with the
/// second place to the right open.
pub open spec fn threes_horizontal(g: Seq<Seq<Coin>>, r: int, c: int) -> nat {
    triple_hit(g, r, c, (0, -1), (0, -2), (0, -3)) + triple_hit(g, r, c, (0, -1), (0, 1), (0, 2))
}

/// Three coins down the column: the two cells below hold the same coin.
pub open spec fn threes_vertical(g: Seq<Seq<Coin>>, r: int, c: int) -> nat {
    count_if(cell_or_empty(g, r, c, 1, 0) == g[r][c] && cell_or_empty(g, r, c, 2, 0) == g[r][c])
}

/// The coin at an offset, a place off the board counting as empty.
fn coin_or_empty(board: &Vec<Vec<Coin>>, row: usize, col: usize, row_shift: isize, col_shift: isize) -> (coin:
    Coin)
    requires
        is_grid(cells_of(board)),
        row < BOARD_HEIGHT,
        col < BOARD_WIDTH,
        row + row_shift <= isize::MAX,
        col + col_shift <= isize::MAX,
    ensures
        coin == cell_or_empty(
            cells_of(board),
            row as int,
            col as int,
            row_shift as int,
            col_shift as int,
        ),
{
    *get_relative_cell(board, row, col, row_shift, col_shift).unwrap_or(&Coin::Empty)
}

/// Whether the place at an offset is on the board and open to `coin_type`.
fn is_open(
    board: &Vec<Vec<Coin>>,
    row: usize,
    col: usize,
    row_shift: isize,
    col_shift: isize,
    coin_type: &Coin,
) -> (open: bool)
    requires
        is_grid(cells_of(board)),
        row < BOARD_HEIGHT,
        col < BOARD_WIDTH,
        row + row_shift <= isize::MAX,
        col + col_shift <= isize::MAX,
    ensures
        open == open_at(
            cells_of(board),
            row as int,
            col as int,
            row_shift as int,
            col_shift as int,
            *coin_type,
        ),
{
    match get_relative_cell(board, row, col, row_shift, col_shift) {
        Some(i) => i.equals_or_empty(coin_type),
        None => false,
    }
}

/// Counts the open lines that the pair in one direction can grow into.
fn count_pairs(board: &Vec<Vec<Coin>>, row: usize, col: usize, row_step: isize, col_step: isize) -> (count:
    usize)
    requires
        is_grid(cells_of(board)),
        row < BOARD_HEIGHT,
        col < BOARD_WIDTH,
        -1 <= row_step <= 1,
        -1 <= col_step <= 1,
    ensures
        count == pairs_toward(
            cells_of(board),
            row as int,
            col as int,
            row_step as int,
            col_step as int,
        ),
        count <= 2,
{
    let coin_type = cell_at(board, row, col);
    let mut count: usize = 0;
    if coin_or_empty(board, row, col, row_step, col_step) == coin_type {
        let toward_2 = get_relative_cell(board, row, col, 2 * row_step, 2 * col_step);
        let toward_3 = get_relative_cell(board, row, col, 3 * row_step, 3 * col_step);
        let back_1 = get_relative_cell(board, row, col, -row_step, -col_step);
        let back_2 = get_relative_cell(board, row, col, -(2 * row_step), -(2 * col_step));
        if let Some(i) = toward_2 {
            if i.equals_or_empty(&coin_type) {
                if let Some(j) = toward_3 {
                    if j.equals_or_empty(&coin_type) {
                        count += 1;
                    }
                }
                if let Some(j) = back_1 {
                    if j.equals_or_empty(&coin_type) {
                        count += 1;
                    }
                }
            }
        } else if let (Some(i), Some(j)) = (back_1, back_2) {
            if i.equals_or_empty(&coin_type) && j.equals_or_empty(&coin_type) {
                count += 1;
            }
        }
    }
    count
}

/// The open lines through pairs that hold the cell (`row`, `col`).
pub fn twos_count(board: &Vec<Vec<Coin>>, row: usize, col: usize) -> (types: ContinuousType)
    requires
        is_grid(cells_of(board)),
        row < BOARD_HEIGHT,
        col < BOARD_WIDTH,
    ensures
        types.diagonal == twos_diagonal(cells_of(board), row as int, col as int),
        types.horizontal == twos_horizontal(cells_of(board), row as int, col as int),
        types.vertical == twos_vertical(cells_of(board), row as int, col as int),
        types.diagonal <= 8,
        types.horizontal <= 4,
        types.vertical <= 1,
{
    let coin_type = cell_at(board, row, col);
    let mut types = ContinuousType { diagonal: 0, horizontal: 0, vertical: 0 };
    types.diagonal += count_pairs(board, row, col, -1, -1);
    types.diagonal += count_pairs(board, row, col, -1, 1);
    types.diagonal += count_pairs(board, row, col, 1, -1);
    types.diagonal += count_pairs(board, row, col, 1, 1);
    types.horizontal += count_pairs(board, row, col, 0, -1);
    types.horizontal += count_pairs(board, row, col, 0, 1);
    if coin_or_empty(board, row, col, 1, 0) == coin_type {
        if row > 2 {
            types.vertical += 1;
        }
    }
    types
}

/// Counts one shape of three: coins at two offsets and an open end.
fn count_triple(
    board: &Vec<Vec<Coin>>,
    row: usize,
    col: usize,
    first: (isize, isize),
    second: (isize, isize),
    end: (isize, isize),
) -> (count: usize)
    requires
        is_grid(cells_of(board)),
        row < BOARD_HEIGHT,
        col < BOARD_WIDTH,
        -3 <= first.0 <= 3 && -3 <= first.1 <= 3,
        -3 <= second.0 <= 3 && -3 <= second.1 <= 3,
        -3 <= end.0 <= 3 && -3 <= end.1 <= 3,
    ensures
        count == triple_hit(
            cells_of(board),
            row as int,
            col as int,
            (first.0 as int, first.1 as int),
            (second.0 as int, second.1 as int),
            (end.0 as int, end.1 as int),
        ),
        count <= 1,
{
    let coin_type = cell_at(board, row, col);
    if coin_or_empty(board, row, col, first.0, first.1) == coin_type && coin_or_empty(
        board,
        row,
        col,
        second.0,
        second.1,
    ) == coin_type {
        if is_open(board, row, col, end.0, end.1, &coin_type) {
            return 1;
        }
    }
    0
}

/// The open lines through three coins that hold the cell (`row`, `col`).
pub fn threes_count(board: &Vec<Vec<Coin>>, row: usize, col: usize) -> (types: ContinuousType)
    requires
        is_grid(cells_of(board)),
        row < BOARD_HEIGHT,
        col < BOARD_WIDTH,
    ensures
        types.diagonal == threes_diagonal(cells_of(board), row as int, col as int),
        types.horizontal == threes_horizontal(cells_of(board), row as int, col as int),
        types.vertical == threes_vertical(cells_of(board), row as int, col as int),
        types.diagonal <= 4,
        types.horizontal <= 2,
        types.vertical <= 1,
{
    let coin_type = cell_at(board, row, col);
    let mut types = ContinuousType { diagonal: 0, horizontal: 0, vertical: 0 };
    types.diagonal += count_triple(board, row, col, (-1, -1), (-2, -2), (-3, -3));
    types.diagonal += count_triple(board, row, col, (-1, -1), (1, 1), (2, 2));
    types.diagonal += count_triple(board, row, col, (-1, 1), (-2, 2), (-3, 3));
    types.diagonal += count_triple(board, row, col, (-1, 1), (1, -1), (2, -2));
    types.horizontal += count_triple(board, row, col, (0, -1), (0, -2), (0, -3));
    types.horizontal += count_triple(board, row, col, (0, -1), (0, 1), (0, 2));
    if coin_or_empty(board, row, col, 1, 0) == coin_type && coin_or_empty(board, row, col, 2, 0)
        == coin_type {
        types.vertical += 1;
    }
    types
}

// ---------------------------------------------------------------------------
// Scoring one move
// ---------------------------------------------------------------------------

/// What a move is worth to the player who makes it; less is better. A move
/// that wins at once is worth `NegInfinity`, one that lets the other player
/// win at once `PosInfinity`, any other a finite score, held in units of
/// 2^-56.
#[derive(Clone, Copy, PartialEq, Eq, Debug, Structural)]
pub enum Evaluation {
    NegInfinity,
    Finite(i64),
    PosInfinity,
}

impl Evaluation {
    /// `self` is strictly less than `other`.
    pub open spec fn precedes(self, other: Evaluation) -> bool {
        match (self, other) {
            (Evaluation::NegInfinity, Evaluation::NegInfinity) => false,
            (Evaluation::NegInfinity, _) => true,
            (Evaluation::Finite(a), Evaluation::Finite(b)) => a < b,
            (Evaluation::Finite(_), Evaluation::PosInfinity) => true,
            _ => false,
        }
    }

    /// Whether `self` is strictly less than `other`.
    pub fn less_than(&self, other: &Evaluation) -> (less: bool)
        ensures
            less == self.precedes(*other),
    {
        match (*self, *other) {
            (Evaluation::NegInfinity, Evaluation::NegInfinity) => false,
            (Evaluation::NegInfinity, _) => true,
            (Evaluation::Finite(a), Evaluation::Finite(b)) => a < b,
            (Evaluation::Finite(_), Evaluation::PosInfinity) => true,
            _ => false,
        }
    }
}

/// What one neighbouring coin adds to a score: a coin of the other player a
/// tenth, a coin of the mover minus a tenth, an empty cell nothing.
pub open spec fn bonus_of(coin: Coin, mover: Coin) -> int {
    if coin == Coin::Empty {
        0
    } else if coin == mover {
        -TENTH
    } else {
        TENTH as int
    }
}

/// The score `start` with the bonus of every listed neighbour added to it,
/// one after the other.
pub open spec fn with_neighbors(start: int, list: Seq<(Coin, int, int)>, mover: Coin) -> int
    decreases list.len(),
{
    if list.len() == 0 {
        start
    } else {
        sum_of(with_neighbors(start, list.drop_last(), mover), bonus_of(list.last().0, mover))
    }
}

/// What open lines weigh, given how many there are of each kind. Starting
/// from nothing, six products are taken off in this order, each sum rounded:
/// six tenths times the open lines through three coins along a diagonal,
/// four tenths times those along the row, two tenths times the one down the
/// column; then three tenths, two tenths and one tenth times the lines
/// through pairs.
pub open spec fn weigh(d3: int, h3: int, v3: int, d2: int, h2: int, v2: int) -> int {
    let first = sum_of(0, -product_of(SIX_TENTHS as int, d3));
    let second = sum_of(first, -product_of(FOUR_TENTHS as int, h3));
    let third = sum_of(second, -product_of(TWO_TENTHS as int, v3));
    let fourth = sum_of(third, -product_of(THREE_TENTHS as int, d2));
    let fifth = sum_of(fourth, -product_of(TWO_TENTHS as int, h2));
    sum_of(fifth, -product_of(TENTH as int, v2))
}

/// What the open lines through the cell (`r`, `c`) weigh.
pub open spec fn lines_score(g: Seq<Seq<Coin>>, r: int, c: int) -> int {
    weigh(
        threes_diagonal(g, r, c) as int,
        threes_horizontal(g, r, c) as int,
        threes_vertical(g, r, c) as int,
        twos_diagonal(g, r, c) as int,
        twos_horizontal(g, r, c) as int,
        twos_vertical(g, r, c) as int,
    )
}

/// The score of the cell (`r`, `c`) on the grid `g` for `mover`: what its
/// open lines weigh, and the bonus of its neighbours added to that.
pub open spec fn heuristic(g: Seq<Seq<Coin>>, r: int, c: int, mover: Coin) -> int {
    with_neighbors(lines_score(g, r, c), neighbors(g, r, c), mover)
}

/// After `mover` has dropped into `col`, the other player completes a line of
/// four by answering in column `m`. Only a column whose top cell is still
/// empty after the mover's drop takes an answer.
pub open spec fn rival_wins_at(g: Seq<Seq<Coin>>, col: int, mover: Coin, m: int) -> bool {
    &&& 0 <= m < BOARD_WIDTH
    &&& drop_into(g, col, mover)[0][m] == Coin::Empty
    &&& winner(drop_into(drop_into(g, col, mover), m, rival(mover))) == rival(mover)
}

/// After `mover` has dropped into `col`, the other player has an answer that
/// wins at once.
pub open spec fn leaves_win(g: Seq<Seq<Coin>>, col: int, mover: Coin) -> bool {
    exists|m: int| #[trigger] rival_wins_at(g, col, mover, m)
}

/// What the move of `mover` into `col` is worth: `NegInfinity` if it
/// completes the first line of four for the mover, else `PosInfinity` if the
/// other player has an answer that wins at once, else the score of the
/// landing cell on the grid after the move.
pub open spec fn evaluation_of(g: Seq<Seq<Coin>>, col: int, mover: Coin) -> Evaluation {
    if winner(drop_into(g, col, mover)) == mover {
        Evaluation::NegInfinity
    } else if leaves_win(g, col, mover) {
        Evaluation::PosInfinity
    } else {
        Evaluation::Finite(
            heuristic(drop_into(g, col, mover), landing_row(g, col), col, mover) as i64,
        )
    }
}

/// A cell has at most seven neighbours.
pub proof fn lemma_neighbors_len(g: Seq<Seq<Coin>>, r: int, c: int)
    ensures
        neighbors(g, r, c).len() <= 7,
{
}

/// No pair grows into more than two open lines.
pub proof fn lemma_pairs_bound(g: Seq<Seq<Coin>>, r: int, c: int, dr: int, dc: int)
    ensures
        pairs_toward(g, r, c, dr, dc) <= 2,
{
}

/// A weight of `k` tenths taken a few times is `k` tenths that many times, up
/// to the rounding of the weight and of the product.
proof fn lemma_product_near_tenths(weight: int, k: int, count: int, most: int)
    requires
        0 <= weight <= SIX_TENTHS,
        -16 <= 10 * weight - k * ONE <= 16,
        0 <= count <= most <= 8,
    ensures
        0 <= product_of(weight, count) <= weight * most + 32,
        -(16 * most + 320) <= 10 * product_of(weight, count) - k * ONE * count <= 16 * most + 320,
{
    let slip = 10 * weight - k * ONE;
    assert(10 * (weight * count) - k * ONE * count == slip * count) by (nonlinear_arith)
        requires
            slip == 10 * weight - k * ONE,
    ;
    assert(-16 * most <= slip * count <= 16 * most) by (nonlinear_arith)
        requires
            -16 <= slip <= 16,
            0 <= count <= most,
    ;
    assert(0 <= weight * count <= weight * most <= 8 * SIX_TENTHS) by (nonlinear_arith)
        requires
            0 <= weight <= SIX_TENTHS,
            0 <= count <= most <= 8,
    ;
    lemma_rounded_is_near(weight * count);
}

/// A cell lies on no more open lines than these.
pub proof fn lemma_counts_bounds(g: Seq<Seq<Coin>>, r: int, c: int)
    ensures
        threes_diagonal(g, r, c) <= 4,
        threes_horizontal(g, r, c) <= 2,
        threes_vertical(g, r, c) <= 1,
        twos_diagonal(g, r, c) <= 8,
        twos_horizontal(g, r, c) <= 4,
        twos_vertical(g, r, c) <= 1,
{
    lemma_pairs_bound(g, r, c, -1, -1);
    lemma_pairs_bound(g, r, c, -1, 1);
    lemma_pairs_bound(g, r, c, 1, -1);
    lemma_pairs_bound(g, r, c, 1, 1);
    lemma_pairs_bound(g, r, c, 0, -1);
    lemma_pairs_bound(g, r, c, 0, 1);
}

/// Open lines weigh between minus seven and nothing, and what they weigh is
/// their number of tenths up to rounding.
pub proof fn lemma_weigh(d3: int, h3: int, v3: int, d2: int, h2: int, v2: int)
    requires
        0 <= d3 <= 4,
        0 <= h3 <= 2,
        0 <= v3 <= 1,
        0 <= d2 <= 8,
        0 <= h2 <= 4,
        0 <= v2 <= 1,
    ensures
        -7 * ONE <= weigh(d3, h3, v3, d2, h2, v2) <= 0,
        -4160 <= 10 * weigh(d3, h3, v3, d2, h2, v2) + ONE * (6 * d3 + 4 * h3 + 2 * v3 + 3 * d2 + 2
            * h2 + v2) <= 4160,
{
    let by_d3 = product_of(SIX_TENTHS as int, d3);
    let by_h3 = product_of(FOUR_TENTHS as int, h3);
    let by_v3 = product_of(TWO_TENTHS as int, v3);
    let by_d2 = product_of(THREE_TENTHS as int, d2);
    let by_h2 = product_of(TWO_TENTHS as int, h2);
    let by_v2 = product_of(TENTH as int, v2);
    lemma_product_near_tenths(SIX_TENTHS as int, 6, d3, 4);
    lemma_product_near_tenths(FOUR_TENTHS as int, 4, h3, 2);
    lemma_product_near_tenths(TWO_TENTHS as int, 2, v3, 1);
    lemma_product_near_tenths(THREE_TENTHS as int, 3, d2, 8);
    lemma_product_near_tenths(TWO_TENTHS as int, 2, h2, 4);
    lemma_product_near_tenths(TENTH as int, 1, v2, 1);
    let first = sum_of(0, -by_d3);
    lemma_rounded_is_near(-by_d3);
    let second = sum_of(first, -by_h3);
    lemma_rounded_is_near(first - by_h3);
    let third = sum_of(second, -by_v3);
    lemma_rounded_is_near(second - by_v3);
    let fourth = sum_of(third, -by_d2);
    lemma_rounded_is_near(third - by_d2);
    let fifth = sum_of(fourth, -by_h2);
    lemma_rounded_is_near(fourth - by_h2);
    lemma_rounded_is_near(fifth - by_v2);
    assert(6 * ONE * d3 + 4 * ONE * h3 + 2 * ONE * v3 + 3 * ONE * d2 + 2 * ONE * h2 + 1 * ONE * v2
        == ONE * (6 * d3 + 4 * h3 + 2 * v3 + 3 * d2 + 2 * h2 + v2)) by (nonlinear_arith);
}

/// The open lines through a cell weigh between minus seven and nothing.
pub proof fn lemma_lines_score_bounds(g: Seq<Seq<Coin>>, r: int, c: int)
    ensures
        -7 * ONE <= lines_score(g, r, c) <= 0,
{
    lemma_counts_bounds(g, r, c);
    lemma_weigh(
        threes_diagonal(g, r, c) as int,
        threes_horizontal(g, r, c) as int,
        threes_vertical(g, r, c) as int,
        twos_diagonal(g, r, c) as int,
        twos_horizontal(g, r, c) as int,
        twos_vertical(g, r, c) as int,
    );
}

/// Adding the bonus of neighbours moves a score by little more than a tenth
/// for each of them.
pub proof fn lemma_with_neighbors_bounds(start: int, list: Seq<(Coin, int, int)>, mover: Coin)
    requires
        -7 * ONE <= start <= 0,
        list.len() <= 7,
    ensures
        start - list.len() * (TENTH + 32) <= with_neighbors(start, list, mover) <= start
            + list.len() * (TENTH + 32),
        -LIMIT < with_neighbors(start, list, mover) < LIMIT,
    decreases list.len(),
{
    if list.len() > 0 {
        lemma_with_neighbors_bounds(start, list.drop_last(), mover);
        lemma_rounded_is_near(
            with_neighbors(start, list.drop_last(), mover) + bonus_of(list.last().0, mover),
        );
    }
}

/// Every score lies between minus eight and one.
pub proof fn lemma_heuristic_bounds(g: Seq<Seq<Coin>>, r: int, c: int, mover: Coin)
    ensures
        -LIMIT < heuristic(g, r, c, mover) < ONE,
{
    lemma_neighbors_len(g, r, c);
    lemma_lines_score_bounds(g, r, c);
    lemma_with_neighbors_bounds(lines_score(g, r, c), neighbors(g, r, c), mover);
}

/// What one neighbouring coin adds to a score, counted in whole tenths.
pub open spec fn bonus_tenths(coin: Coin, mover: Coin) -> int {
    if coin == Coin::Empty {
        0
    } else if coin == mover {
        -1
    } else {
        1
    }
}

/// What the listed neighbours add to a score, counted in whole tenths.
pub open spec fn neighbors_tenths(list: Seq<(Coin, int, int)>, mover: Coin) -> int
    decreases list.len(),
{
    if list.len() == 0 {
        0
    } else {
        neighbors_tenths(list.drop_last(), mover) + bonus_tenths(list.last().0, mover)
    }
}

/// What the open lines through a cell weigh, counted in whole tenths.
pub open spec fn lines_tenths(g: Seq<Seq<Coin>>, r: int, c: int) -> int {
    (6 * threes_diagonal(g, r, c) + 4 * threes_horizontal(g, r, c) + 2 * threes_vertical(g, r, c) + 3
        * twos_diagonal(g, r, c) + 2 * twos_horizontal(g, r, c) + twos_vertical(g, r, c)) as int
}

/// The score of a cell if nothing were rounded, counted in whole tenths.
pub open spec fn tenths(g: Seq<Seq<Coin>>, r: int, c: int, mover: Coin) -> int {
    neighbors_tenths(neighbors(g, r, c), mover) - lines_tenths(g, r, c)
}

/// What the open lines weigh is their tenths up to rounding.
proof fn lemma_lines_score_near_tenths(g: Seq<Seq<Coin>>, r: int, c: int)
    ensures
        -4160 <= 10 * lines_score(g, r, c) + ONE * lines_tenths(g, r, c) <= 4160,
{
    lemma_counts_bounds(g, r, c);
    lemma_weigh(
        threes_diagonal(g, r, c) as int,
        threes_horizontal(g, r, c) as int,
        threes_vertical(g, r, c) as int,
        twos_diagonal(g, r, c) as int,
        twos_horizontal(g, r, c) as int,
        twos_vertical(g, r, c) as int,
    );
}

/// Adding the neighbours adds their tenths up to rounding.
proof fn lemma_with_neighbors_near_tenths(start: int, list: Seq<(Coin, int, int)>, mover: Coin)
    requires
        -7 * ONE <= start <= 0,
        list.len() <= 7,
    ensures
        -324 * list.len() <= 10 * with_neighbors(start, list, mover) - 10 * start - ONE
            * neighbors_tenths(list, mover) <= 324 * list.len(),
    decreases list.len(),
{
    if list.len() > 0 {
        let before = list.drop_last();
        lemma_with_neighbors_near_tenths(start, before, mover);
        lemma_with_neighbors_bounds(start, before, mover);
        lemma_rounded_is_near(with_neighbors(start, before, mover) + bonus_of(list.last().0, mover));
        assert(ONE * neighbors_tenths(list, mover) == ONE * neighbors_tenths(before, mover) + ONE
            * bonus_tenths(list.last().0, mover)) by (nonlinear_arith)
            requires
                neighbors_tenths(list, mover) == neighbors_tenths(before, mover) + bonus_tenths(
                    list.last().0,
                    mover,
                ),
        ;
    }
}

/// A score is the sum of its weights in tenths, but for what rounding adds or
/// takes: ten times the score differs from the tenths by less than a
/// ten-thousandth of a billionth.
pub proof fn lemma_score_is_near_tenths(g: Seq<Seq<Coin>>, r: int, c: int, mover: Coin)
    ensures
        -8192 <= 10 * heuristic(g, r, c, mover) - ONE * tenths(g, r, c, mover) <= 8192,
{
    lemma_neighbors_len(g, r, c);
    lemma_lines_score_bounds(g, r, c);
    lemma_lines_score_near_tenths(g, r, c);
    lemma_with_neighbors_near_tenths(lines_score(g, r, c), neighbors(g, r, c), mover);
    assert(ONE * tenths(g, r, c, mover) == ONE * neighbors_tenths(neighbors(g, r, c), mover) - ONE
        * lines_tenths(g, r, c)) by (nonlinear_arith)
        requires
            tenths(g, r, c, mover) == neighbors_tenths(neighbors(g, r, c), mover) - lines_tenths(
                g,
                r,
                c,
            ),
    ;
}

/// Scores are in the order of their tenths: rounding decides only between
/// cells whose weights add up to the same number of tenths.
pub proof fn lemma_order_follows_tenths(
    g: Seq<Seq<Coin>>,
    r: int,
    c: int,
    h: Seq<Seq<Coin>>,
    s: int,
    d: int,
    mover: Coin,
)
    requires
        tenths(g, r, c, mover) < tenths(h, s, d, mover),
    ensures
        heuristic(g, r, c, mover) < heuristic(h, s, d, mover),
{
    lemma_score_is_near_tenths(g, r, c, mover);
    lemma_score_is_near_tenths(h, s, d, mover);
    assert(ONE * tenths(g, r, c, mover) + ONE <= ONE * tenths(h, s, d, mover)) by (nonlinear_arith)
        requires
            tenths(g, r, c, mover) + 1 <= tenths(h, s, d, mover),
            ONE > 0,
    ;
}

/// Tries every column that could take a coin on `board` as the answer of
/// the other player to the move that made `scratch` out of it, and says
/// whether one of them completes a line of four for that player. A column
/// that the move has filled takes no answer. Each trial coin is taken off
/// again, so that `scratch` is left as it was if no answer wins.
fn answer_wins(board: &Vec<Vec<Coin>>, scratch: &mut Vec<Vec<Coin>>, after_move: usize, turn: bool) -> (found:
    bool)
    requires
        is_grid(cells_of(board)),
        after_move < BOARD_WIDTH,
        cells_of(board)[0][after_move as int] == Coin::Empty,
        cells_of(old(scratch)) == drop_into(cells_of(board), after_move as int, coin_of(turn)),
    ensures
        found == leaves_win(cells_of(board), after_move as int, coin_of(turn)),
        !found ==> cells_of(final(scratch)) == cells_of(old(scratch)),
        is_grid(cells_of(final(scratch))),
{
    let ghost g = cells_of(board);
    let ghost col = after_move as int;
    let ghost mover = coin_of(turn);
    let ghost post = cells_of(scratch);
    let lost = if turn {
        State::ComputerWon
    } else {
        State::PlayerWon
    };
    proof {
        lemma_landing(g, col);
        lemma_place(g, landing_row(g, col), col, mover);
    }
    let moves = get_legal_moves(board);
    let mut idx: usize = 0;
    while idx < moves.len()
        invariant
            is_grid(g),
            g == cells_of(board),
            0 <= col < BOARD_WIDTH,
            col == after_move,
            mover == coin_of(turn),
            post == drop_into(g, col, mover),
            is_grid(post),
            lost == (if turn {
                State::ComputerWon
            } else {
                State::PlayerWon
            }),
            is_legal_moves(g, moves@),
            idx <= moves@.len(),
            cells_of(scratch) == post,
            forall|j: int| 0 <= j < idx ==> !rival_wins_at(g, col, mover, #[trigger] moves@[j] as int),
        decreases moves@.len() - idx,
    {
        let i = moves[idx];
        if cell_at(scratch, 0, i) == Coin::Empty {
            let (placed_row, placed_col) = drop(scratch, i, !turn);
            if who_won(scratch) == lost {
                assert(rival_wins_at(g, col, mover, i as int));
                return true;
            }
            set_cell(scratch, placed_row, placed_col, Coin::Empty);
            proof {
                lemma_trial_undone(post, i as int, rival(mover));
            }
        }
        idx += 1;
    }
    false
}

/// The score of the cell (`row`, `col`) for the first player (`turn`) or the
/// second.
pub fn score_cell(board: &Vec<Vec<Coin>>, row: usize, col: usize, turn: bool) -> (score: i64)
    requires
        is_grid(cells_of(board)),
        row < BOARD_HEIGHT,
        col < BOARD_WIDTH,
    ensures
        score == heuristic(cells_of(board), row as int, col as int, coin_of(turn)),
{
    let ghost g = cells_of(board);
    let ghost mover = coin_of(turn);
    let two_count = twos_count(board, row, col);
    let three_count = threes_count(board, row, col);
    let mut evaluation: i64 = 0;
    evaluation = plus(evaluation, -times(SIX_TENTHS, three_count.diagonal));
    evaluation = plus(evaluation, -times(FOUR_TENTHS, three_count.horizontal));
    evaluation = plus(evaluation, -times(TWO_TENTHS, three_count.vertical));
    evaluation = plus(evaluation, -times(THREE_TENTHS, two_count.diagonal));
    evaluation = plus(evaluation, -times(TWO_TENTHS, two_count.horizontal));
    evaluation = plus(evaluation, -times(TENTH, two_count.vertical));
    let ghost lines = evaluation as int;
    proof {
        lemma_lines_score_bounds(g, row as int, col as int);
        lemma_neighbors_len(g, row as int, col as int);
    }
    let own = if turn {
        Coin::Red
    } else {
        Coin::Yellow
    };
    let neighbors = get_neighboring_cells(board, row, col);
    let ghost listed = neighbors_view(neighbors@);
    let mut n: usize = 0;
    while n < neighbors.len()
        invariant
            n <= neighbors@.len(),
            listed == neighbors_view(neighbors@),
            listed.len() <= 7,
            own == mover,
            -7 * ONE <= lines <= 0,
            evaluation == with_neighbors(lines, listed.take(n as int), mover),
        decreases neighbors@.len() - n,
    {
        proof {
            assert(listed.take(n + 1).drop_last() =~= listed.take(n as int));
            lemma_with_neighbors_bounds(lines, listed.take(n as int), mover);
        }
        let coin = *neighbors[n].0;
        evaluation = plus(
            evaluation,
            if coin == Coin::Empty {
                0
            } else if coin == own {
                -TENTH
            } else {
                TENTH
            },
        );
        n += 1;
    }
    assert(listed.take(n as int) =~= listed);
    evaluation
}

/// Scores the move of the first player (`turn`) or the second into the column
/// `after_move`. The coin is dropped on a scratch copy. If it completes the
/// first line of four, the move is worth `NegInfinity`. Else every column
/// that could take a coin before the drop, and still can after it, is tried
/// as the other player's answer; if one of them completes a line of four for
/// the other player, the move is worth `PosInfinity`. Else the landing cell
/// is scored, on the grid after the move, by its open lines and its
/// neighbours.
pub fn evaluate_for_move(board: &Vec<Vec<Coin>>, after_move: usize, turn: bool) -> (evaluation:
    Evaluation)
    requires
        is_grid(cells_of(board)),
        after_move < BOARD_WIDTH,
        cells_of(board)[0][after_move as int] == Coin::Empty,
    ensures
        evaluation == evaluation_of(cells_of(board), after_move as int, coin_of(turn)),
{
    let mut board_copy = board.clone();
    assert(cells_of(&board_copy) =~= cells_of(board));
    let (comp_choice_row, comp_choice_col) = drop(&mut board_copy, after_move, turn);
    let won = if turn {
        State::PlayerWon
    } else {
        State::ComputerWon
    };
    if who_won(&board_copy) == won {
        return Evaluation::NegInfinity;
    }
    if answer_wins(board, &mut board_copy, after_move, turn) {
        return Evaluation::PosInfinity;
    }
    Evaluation::Finite(score_cell(&board_copy, comp_choice_row, comp_choice_col, turn))
}

// ---------------------------------------------------------------------------
// Choosing the move
// ---------------------------------------------------------------------------

/// `c` is the column to play for `mover`: it can take a coin, no column that
/// can is worth less, and every such column left of it is worth more.
pub open spec fn is_best_move(g: Seq<Seq<Coin>>, mover: Coin, c: int) -> bool {
    &&& 0 <= c < BOARD_WIDTH
    &&& g[0][c] == Coin::Empty
    &&& forall|o: int|
        0 <= o < BOARD_WIDTH && g[0][o] == Coin::Empty ==> !(#[trigger] evaluation_of(
            g,
            o,
            mover,
        )).precedes(evaluation_of(g, c, mover))
    &&& forall|o: int|
        0 <= o < c && g[0][o] == Coin::Empty ==> evaluation_of(g, c, mover).precedes(
            #[trigger] evaluation_of(g, o, mover),
        )
}

/// The column for the first player (`turn`) or the second to play: the one
/// whose move is worth least, the leftmost of them when several are worth
/// the same. Some column must be able to take a coin.
pub fn get_best_move(board: &Vec<Vec<Coin>>, turn: bool) -> (col: usize)
    requires
        is_grid(cells_of(board)),
        !top_full(cells_of(board)),
    ensures
        is_best_move(cells_of(board), coin_of(turn), col as int),
{
    let ghost g = cells_of(board);
    let ghost mover = coin_of(turn);
    let moves = get_legal_moves(board);
    assert(moves@.len() > 0) by {
        let c = choose|c: int| 0 <= c < BOARD_WIDTH && #[trigger] g[0][c] == Coin::Empty;
    }
    let mut move_evaluations: Vec<(usize, Evaluation)> = Vec::new();
    let mut idx: usize = 0;
    while idx < moves.len()
        invariant
            is_grid(cells_of(board)),
            g == cells_of(board),
            mover == coin_of(turn),
            is_legal_moves(g, moves@),
            idx <= moves@.len(),
            move_evaluations@.len() == idx,
            forall|j: int|
                0 <= j < idx ==> (#[trigger] move_evaluations@[j]).0 == moves@[j]
                    && move_evaluations@[j].1 == evaluation_of(g, moves@[j] as int, mover),
        decreases moves@.len() - idx,
    {
        let i = moves[idx];
        move_evaluations.push((i, evaluate_for_move(board, i, turn)));
        idx += 1;
    }
    let mut best: usize = 0;
    let mut k: usize = 1;
    while k < move_evaluations.len()
        invariant
            best < k <= move_evaluations@.len(),
            forall|j: int|
                0 <= j < k ==> !(#[trigger] move_evaluations@[j]).1.precedes(
                    move_evaluations@[best as int].1,
                ),
            forall|j: int|
                0 <= j < best ==> move_evaluations@[best as int].1.precedes(
                    (#[trigger] move_evaluations@[j]).1,
                ),
        decreases move_evaluations@.len() - k,
    {
        if move_evaluations[k].1.less_than(&move_evaluations[best].1) {
            best = k;
        }
        k += 1;
    }
    proof {
        let c = moves@[best as int] as int;
        assert forall|o: int| 0 <= o < BOARD_WIDTH && g[0][o] == Coin::Empty implies !(
        #[trigger] evaluation_of(g, o, mover)).precedes(evaluation_of(g, c, mover)) by {
            let j = choose|j: int| 0 <= j < moves@.len() && #[trigger] moves@[j] == o;
            assert(move_evaluations@[j].1 == evaluation_of(g, o, mover));
        }
        assert forall|o: int| 0 <= o < c && g[0][o] == Coin::Empty implies evaluation_of(
            g,
            c,
            mover,
        ).precedes(#[trigger] evaluation_of(g, o, mover)) by {
            let j = choose|j: int| 0 <= j < moves@.len() && #[trigger] moves@[j] == o;
            assert(move_evaluations@[j].1 == evaluation_of(g, o, mover));
        }
    }
    move_evaluations[best].0
}

/// The column that the machine, which plays yellow, drops its coin into.
pub fn get_computer_move(board: &Vec<Vec<Coin>>) -> (col: usize)
    requires
        is_grid(cells_of(board)),
        !top_full(cells_of(board)),
    ensures
        is_best_move(cells_of(board), Coin::Yellow, col as int),
        col < BOARD_WIDTH,
        cells_of(board)[0][col as int] == Coin::Empty,
{
    get_best_move(board, false)
}

/// The choice is a function of the grid and the mover alone: two columns that
/// both meet `is_best_move` are the same column.
pub proof fn lemma_best_move_unique(g: Seq<Seq<Coin>>, mover: Coin, a: int, b: int)
    requires
        is_best_move(g, mover, a),
        is_best_move(g, mover, b),
    ensures
        a == b,
{
}

/// A move that wins at once is played whenever there is one.
pub proof fn lemma_win_is_taken(g: Seq<Seq<Coin>>, mover: Coin, chosen: int, winning: int)
    requires
        is_best_move(g, mover, chosen),
        0 <= winning < BOARD_WIDTH,
        g[0][winning] == Coin::Empty,
        winner(drop_into(g, winning, mover)) == mover,
    ensures
        winner(drop_into(g, chosen, mover)) == mover,
{
    assert(evaluation_of(g, winning, mover) == Evaluation::NegInfinity);
}

/// A move after which the other player can win at once is played only when
/// every move is such a move.
pub proof fn lemma_loss_is_avoided(g: Seq<Seq<Coin>>, mover: Coin, chosen: int, safe: int)
    requires
        is_best_move(g, mover, chosen),
        0 <= safe < BOARD_WIDTH,
        g[0][safe] == Coin::Empty,
        evaluation_of(g, safe, mover) != Evaluation::PosInfinity,
    ensures
        evaluation_of(g, chosen, mover) != Evaluation::PosInfinity,
{
}

/// When every move but one lets the other player win at once, that one move
/// is played.
pub proof fn lemma_sole_safe_move_is_played(g: Seq<Seq<Coin>>, mover: Coin, chosen: int, safe: int)
    requires
        is_best_move(g, mover, chosen),
        0 <= safe < BOARD_WIDTH,
        g[0][safe] == Coin::Empty,
        evaluation_of(g, safe, mover) != Evaluation::PosInfinity,
        forall|o: int|
            0 <= o < BOARD_WIDTH && o != safe && g[0][o] == Coin::Empty ==> #[trigger] evaluation_of(
                g,
                o,
                mover,
            ) == Evaluation::PosInfinity,
    ensures
        chosen == safe,
{
    lemma_loss_is_avoided(g, mover, chosen, safe);
}

} // verus!
