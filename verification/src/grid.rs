//! The mathematical model of the playing grid: its shape, the four-cell
//! lines on it and their scan order, gravity, and where a dropped coin lands,
//! together with the executable primitives that compute them.

use vstd::prelude::*;
use crate::coin::Coin;
use crate::game_state::GameState;

verus! {

pub const BOARD_WIDTH: usize = 7;

pub const BOARD_HEIGHT: usize = 6;

/// Lines of four cells that run across a row: four starts in each of six rows.
pub const ACROSS_LINES: usize = 24;

/// Lines of four cells that run down a column: three starts in each of seven columns.
pub const DOWN_LINES: usize = 21;

/// Lines of four cells along one diagonal sense: three start rows, four start columns.
pub const DIAGONAL_LINES: usize = 12;

/// All lines of four cells on the board.
pub const LINE_COUNT: usize = 69;

/// The cells of a board as a sequence of rows, the top row first.
pub open spec fn cells_of(board: &Vec<Vec<Coin>>) -> Seq<Seq<Coin>> {
    Seq::new(board@.len(), |r: int| board@[r]@)
}

/// A grid has six rows of seven cells.
pub open spec fn is_grid(g: Seq<Seq<Coin>>) -> bool {
    &&& g.len() == BOARD_HEIGHT
    &&& forall|r: int| 0 <= r < BOARD_HEIGHT ==> (#[trigger] g[r]).len() == BOARD_WIDTH
}

/// The grid with no coin on it.
pub open spec fn empty_grid() -> Seq<Seq<Coin>> {
    Seq::new(BOARD_HEIGHT as nat, |r: int| Seq::new(BOARD_WIDTH as nat, |c: int| Coin::Empty))
}

/// The grid `g` with the cell at (`r`, `c`) replaced by `coin`.
pub open spec fn place(g: Seq<Seq<Coin>>, r: int, c: int, coin: Coin) -> Seq<Seq<Coin>> {
    g.update(r, g[r].update(c, coin))
}

/// The coin a player drops: red for the first player (`turn`), yellow for the second.
pub open spec fn coin_of(turn: bool) -> Coin {
    if turn {
        Coin::Red
    } else {
        Coin::Yellow
    }
}

/// The coin of the other player; an empty cell has no other side.
pub open spec fn rival(coin: Coin) -> Coin {
    match coin {
        Coin::Red => Coin::Yellow,
        Coin::Yellow => Coin::Red,
        Coin::Empty => Coin::Empty,
    }
}

// ---------------------------------------------------------------------------
// Lines of four, in scan order
// ---------------------------------------------------------------------------

/// Row of the first cell of line `k`. Lines are numbered in scan order: first
/// those across (row by row, left to right), then those down (start row by
/// start row, left to right), then the diagonals that descend to the right,
/// then the diagonals that descend to the left.
pub open spec fn line_row(k: int) -> int {
    if k < ACROSS_LINES {
        k / 4
    } else if k < ACROSS_LINES + DOWN_LINES {
        (k - ACROSS_LINES) / 7
    } else if k < ACROSS_LINES + DOWN_LINES + DIAGONAL_LINES {
        (k - ACROSS_LINES - DOWN_LINES) / 4
    } else {
        (k - ACROSS_LINES - DOWN_LINES - DIAGONAL_LINES) / 4
    }
}

/// Column of the first cell of line `k`.
pub open spec fn line_col(k: int) -> int {
    if k < ACROSS_LINES {
        k % 4
    } else if k < ACROSS_LINES + DOWN_LINES {
        (k - ACROSS_LINES) % 7
    } else if k < ACROSS_LINES + DOWN_LINES + DIAGONAL_LINES {
        (k - ACROSS_LINES - DOWN_LINES) % 4
    } else {
        3 + (k - ACROSS_LINES - DOWN_LINES - DIAGONAL_LINES) % 4
    }
}

/// Row of the `i`-th cell of line `k`: lines across stay in their row, all
/// others descend one row per cell.
pub open spec fn line_cell_row(k: int, i: int) -> int {
    if k < ACROSS_LINES {
        line_row(k)
    } else {
        line_row(k) + i
    }
}

/// Column of the `i`-th cell of line `k`.
pub open spec fn line_cell_col(k: int, i: int) -> int {
    if k < ACROSS_LINES {
        line_col(k) + i
    } else if k < ACROSS_LINES + DOWN_LINES {
        line_col(k)
    } else if k < ACROSS_LINES + DOWN_LINES + DIAGONAL_LINES {
        line_col(k) + i
    } else {
        line_col(k) - i
    }
}

/// What the `i`-th cell of line `k` holds.
pub open spec fn line_cell(g: Seq<Seq<Coin>>, k: int, i: int) -> Coin {
    g[line_cell_row(k, i)][line_cell_col(k, i)]
}

/// The coin that fills line `k`, or `Empty` when its four cells are not all
/// the same coin.
#[verifier::opaque]
pub open spec fn line_mark(g: Seq<Seq<Coin>>, k: int) -> Coin {
    let first = line_cell(g, k, 0);
    if line_cell(g, k, 1) == first && line_cell(g, k, 2) == first && line_cell(g, k, 3) == first {
        first
    } else {
        Coin::Empty
    }
}

/// The number of the first filled line at or after `k` in scan order,
/// `LINE_COUNT` when there is none.
pub open spec fn earliest_line_from(g: Seq<Seq<Coin>>, k: int) -> int
    decreases LINE_COUNT - k,
{
    if k < 0 || k >= LINE_COUNT {
        LINE_COUNT as int
    } else if line_mark(g, k) != Coin::Empty {
        k
    } else {
        earliest_line_from(g, k + 1)
    }
}

/// The number of the first filled line in scan order, `LINE_COUNT` when no
/// line is filled.
pub open spec fn earliest_line(g: Seq<Seq<Coin>>) -> int {
    earliest_line_from(g, 0)
}

/// The coin of the first four-in-a-row in scan order, `Empty` when the grid
/// has none.
pub open spec fn winner(g: Seq<Seq<Coin>>) -> Coin {
    if earliest_line(g) < LINE_COUNT {
        line_mark(g, earliest_line(g))
    } else {
        Coin::Empty
    }
}

/// Some line of the grid is filled with `coin`.
pub open spec fn has_line(g: Seq<Seq<Coin>>, coin: Coin) -> bool {
    exists|k: int| 0 <= k < LINE_COUNT && #[trigger] line_mark(g, k) == coin
}

/// Every cell of the top row is occupied.
pub open spec fn top_full(g: Seq<Seq<Coin>>) -> bool {
    forall|c: int| 0 <= c < BOARD_WIDTH ==> #[trigger] g[0][c] != Coin::Empty
}

/// The state that a grid shows: the win of the first four-in-a-row in scan
/// order, else a draw when the top row is full, else a game still on.
pub open spec fn outcome_of(g: Seq<Seq<Coin>>) -> GameState {
    match winner(g) {
        Coin::Red => GameState::RedWon,
        Coin::Yellow => GameState::YellowWon,
        Coin::Empty => if top_full(g) {
            GameState::Draw
        } else {
            GameState::OnGoing
        },
    }
}

// ---------------------------------------------------------------------------
// Gravity
// ---------------------------------------------------------------------------

/// Every occupied cell has only occupied cells below it in its column.
#[verifier::opaque]
pub open spec fn gravity(g: Seq<Seq<Coin>>) -> bool {
    forall|r: int, below: int, c: int|
        #![trigger g[r][c], g[below][c]]
        0 <= r < below < BOARD_HEIGHT && 0 <= c < BOARD_WIDTH && g[r][c] != Coin::Empty
            ==> g[below][c] != Coin::Empty
}

/// Where a coin that is at row `r` of column `c` comes to rest: it falls while
/// the cell below it is empty.
pub open spec fn fall_from(g: Seq<Seq<Coin>>, r: int, c: int) -> int
    decreases BOARD_HEIGHT - r,
{
    if 0 <= r && r + 1 < BOARD_HEIGHT && g[r + 1][c] == Coin::Empty {
        fall_from(g, r + 1, c)
    } else {
        r
    }
}

/// The row in which a coin dropped into column `c` lands. The top cell itself
/// is not looked at: a coin dropped on a full column stays in the top row.
pub open spec fn landing_row(g: Seq<Seq<Coin>>, c: int) -> int {
    fall_from(g, 0, c)
}

/// `r` is the row reached from the top of column `c` through empty cells only,
/// with the floor or an occupied cell right below it.
pub open spec fn is_landing(g: Seq<Seq<Coin>>, c: int, r: int) -> bool {
    &&& 0 <= r < BOARD_HEIGHT
    &&& forall|i: int| 0 < i <= r ==> (#[trigger] g[i])[c] == Coin::Empty
    &&& r + 1 < BOARD_HEIGHT ==> g[r + 1][c] != Coin::Empty
}

/// The grid after a coin has been dropped into column `c`.
pub open spec fn drop_into(g: Seq<Seq<Coin>>, c: int, coin: Coin) -> Seq<Seq<Coin>> {
    place(g, landing_row(g, c), c, coin)
}

// ---------------------------------------------------------------------------
// Executable primitives
// ---------------------------------------------------------------------------

/// Whether the rows and cells of `board` are those of a grid: six rows of
/// seven cells.
pub fn has_grid_shape(board: &Vec<Vec<Coin>>) -> (ok: bool)
    ensures
        ok == is_grid(cells_of(board)),
{
    if board.len() != BOARD_HEIGHT {
        return false;
    }
    let mut r: usize = 0;
    while r < BOARD_HEIGHT
        invariant
            board@.len() == BOARD_HEIGHT,
            r <= BOARD_HEIGHT,
            forall|i: int| 0 <= i < r ==> (#[trigger] cells_of(board)[i]).len() == BOARD_WIDTH,
        decreases BOARD_HEIGHT - r,
    {
        if board[r].len() != BOARD_WIDTH {
            assert(cells_of(board)[r as int].len() != BOARD_WIDTH);
            return false;
        }
        r += 1;
    }
    true
}

/// Reads the cell at (`r`, `c`).
pub fn cell_at(board: &Vec<Vec<Coin>>, r: usize, c: usize) -> (coin: Coin)
    requires
        is_grid(cells_of(board)),
        r < BOARD_HEIGHT,
        c < BOARD_WIDTH,
    ensures
        coin == cells_of(board)[r as int][c as int],
{
    board[r][c]
}

/// Writes `coin` into the cell at (`r`, `c`).
pub fn set_cell(board: &mut Vec<Vec<Coin>>, r: usize, c: usize, coin: Coin)
    requires
        is_grid(cells_of(old(board))),
        r < BOARD_HEIGHT,
        c < BOARD_WIDTH,
    ensures
        cells_of(final(board)) == place(cells_of(old(board)), r as int, c as int, coin),
        is_grid(cells_of(final(board))),
{
    assert(cells_of(board)[r as int] == board@[r as int]@);
    board[r][c] = coin;
}

/// The coin that four cells share, `Empty` when they differ.
fn shared_mark(a: Coin, b: Coin, c: Coin, d: Coin) -> (m: Coin)
    ensures
        m == (if b == a && c == a && d == a {
            a
        } else {
            Coin::Empty
        }),
{
    if b == a && c == a && d == a {
        a
    } else {
        Coin::Empty
    }
}

/// The coin that fills line `k`, `Empty` when the line is not filled by one coin.
pub fn line_mark_at(board: &Vec<Vec<Coin>>, k: usize) -> (m: Coin)
    requires
        is_grid(cells_of(board)),
        k < LINE_COUNT,
    ensures
        m == line_mark(cells_of(board), k as int),
{
    reveal(line_mark);
    if k < ACROSS_LINES {
        let r: usize = k / 4;
        let c: usize = k % 4;
        shared_mark(
            cell_at(board, r, c),
            cell_at(board, r, c + 1),
            cell_at(board, r, c + 2),
            cell_at(board, r, c + 3),
        )
    } else if k < ACROSS_LINES + DOWN_LINES {
        let r: usize = (k - ACROSS_LINES) / 7;
        let c: usize = (k - ACROSS_LINES) % 7;
        shared_mark(
            cell_at(board, r, c),
            cell_at(board, r + 1, c),
            cell_at(board, r + 2, c),
            cell_at(board, r + 3, c),
        )
    } else if k < ACROSS_LINES + DOWN_LINES + DIAGONAL_LINES {
        let r: usize = (k - ACROSS_LINES - DOWN_LINES) / 4;
        let c: usize = (k - ACROSS_LINES - DOWN_LINES) % 4;
        shared_mark(
            cell_at(board, r, c),
            cell_at(board, r + 1, c + 1),
            cell_at(board, r + 2, c + 2),
            cell_at(board, r + 3, c + 3),
        )
    } else {
        let r: usize = (k - ACROSS_LINES - DOWN_LINES - DIAGONAL_LINES) / 4;
        let c: usize = 3 + (k - ACROSS_LINES - DOWN_LINES - DIAGONAL_LINES) % 4;
        shared_mark(
            cell_at(board, r, c),
            cell_at(board, r + 1, c - 1),
            cell_at(board, r + 2, c - 2),
            cell_at(board, r + 3, c - 3),
        )
    }
}

/// Scans every line in order and returns the coin of the first filled one.
pub fn find_winner(board: &Vec<Vec<Coin>>) -> (w: Coin)
    requires
        is_grid(cells_of(board)),
    ensures
        w == winner(cells_of(board)),
{
    let mut k: usize = 0;
    while k < LINE_COUNT
        invariant
            is_grid(cells_of(board)),
            k <= LINE_COUNT,
            earliest_line(cells_of(board)) == earliest_line_from(cells_of(board), k as int),
        decreases LINE_COUNT - k,
    {
        let m = line_mark_at(board, k);
        if m != Coin::Empty {
            return m;
        }
        k += 1;
    }
    Coin::Empty
}

/// Whether some line is filled with `coin`.
pub fn any_line(board: &Vec<Vec<Coin>>, coin: Coin) -> (found: bool)
    requires
        is_grid(cells_of(board)),
    ensures
        found == has_line(cells_of(board), coin),
{
    let mut k: usize = 0;
    while k < LINE_COUNT
        invariant
            is_grid(cells_of(board)),
            k <= LINE_COUNT,
            forall|j: int| 0 <= j < k ==> #[trigger] line_mark(cells_of(board), j) != coin,
        decreases LINE_COUNT - k,
    {
        if line_mark_at(board, k) == coin {
            return true;
        }
        k += 1;
    }
    false
}

/// Whether every cell of the top row is occupied.
pub fn top_row_full(board: &Vec<Vec<Coin>>) -> (full: bool)
    requires
        is_grid(cells_of(board)),
    ensures
        full == top_full(cells_of(board)),
{
    let mut c: usize = 0;
    while c < BOARD_WIDTH
        invariant
            is_grid(cells_of(board)),
            c <= BOARD_WIDTH,
            forall|j: int| 0 <= j < c ==> #[trigger] cells_of(board)[0][j] != Coin::Empty,
        decreases BOARD_WIDTH - c,
    {
        if cell_at(board, 0, c) == Coin::Empty {
            return false;
        }
        c += 1;
    }
    true
}

/// The row in which a coin dropped into column `col` lands.
pub fn landing(board: &Vec<Vec<Coin>>, col: usize) -> (row: usize)
    requires
        is_grid(cells_of(board)),
        col < BOARD_WIDTH,
    ensures
        row == landing_row(cells_of(board), col as int),
        row < BOARD_HEIGHT,
{
    let mut row: usize = 0;
    while row + 1 < BOARD_HEIGHT
        invariant_except_break
            row < BOARD_HEIGHT,
        invariant
            is_grid(cells_of(board)),
            col < BOARD_WIDTH,
            landing_row(cells_of(board), col as int) == fall_from(
                cells_of(board),
                row as int,
                col as int,
            ),
        ensures
            row < BOARD_HEIGHT,
            row == landing_row(cells_of(board), col as int),
        decreases BOARD_HEIGHT - row,
    {
        if cell_at(board, row + 1, col) == Coin::Empty {
            row += 1;
        } else {
            break;
        }
    }
    row
}

// ---------------------------------------------------------------------------
// Facts about lines, landing and gravity
// ---------------------------------------------------------------------------

/// Every cell of every line lies on the board.
pub proof fn lemma_line_cells_on_board(k: int, i: int)
    requires
        0 <= k < LINE_COUNT,
        0 <= i < 4,
    ensures
        0 <= line_cell_row(k, i) < BOARD_HEIGHT,
        0 <= line_cell_col(k, i) < BOARD_WIDTH,
{
}

/// What `earliest_line_from` finds: a line at or after `k` that is filled,
/// with no filled line between `k` and it, or `LINE_COUNT` when no line from
/// `k` on is filled.
pub proof fn lemma_earliest_line_from(g: Seq<Seq<Coin>>, k: int)
    requires
        0 <= k <= LINE_COUNT,
    ensures
        k <= earliest_line_from(g, k) <= LINE_COUNT,
        earliest_line_from(g, k) < LINE_COUNT ==> line_mark(g, earliest_line_from(g, k))
            != Coin::Empty,
        forall|i: int|
            k <= i < earliest_line_from(g, k) ==> #[trigger] line_mark(g, i) == Coin::Empty,
    decreases LINE_COUNT - k,
{
    if k < LINE_COUNT && line_mark(g, k) == Coin::Empty {
        lemma_earliest_line_from(g, k + 1);
    }
}

/// A grid has no winner exactly when no line is filled; otherwise the winner
/// is the coin of the earliest filled line.
pub proof fn lemma_winner_is_earliest(g: Seq<Seq<Coin>>)
    ensures
        0 <= earliest_line(g) <= LINE_COUNT,
        winner(g) == Coin::Empty <==> earliest_line(g) == LINE_COUNT,
        winner(g) == Coin::Empty <==> forall|j: int|
            0 <= j < LINE_COUNT ==> #[trigger] line_mark(g, j) == Coin::Empty,
        forall|i: int| 0 <= i < earliest_line(g) ==> #[trigger] line_mark(g, i) == Coin::Empty,
{
    lemma_earliest_line_from(g, 0);
}

/// A grid that shows a winner holds a line filled with the winner's coin, and
/// a grid that holds a filled line shows a winner.
pub proof fn lemma_winner_has_line(g: Seq<Seq<Coin>>)
    ensures
        winner(g) != Coin::Empty ==> has_line(g, winner(g)),
        winner(g) == Coin::Empty ==> !has_line(g, Coin::Red) && !has_line(g, Coin::Yellow),
{
    lemma_winner_is_earliest(g);
}

/// The landing row is reached through empty cells and rests on the floor or
/// on an occupied cell, and it is the only such row.
pub proof fn lemma_landing(g: Seq<Seq<Coin>>, c: int)
    ensures
        is_landing(g, c, landing_row(g, c)),
        forall|r: int| is_landing(g, c, r) ==> r == landing_row(g, c),
{
    lemma_fall(g, 0, c);
}

/// A fall that starts at row `r` ends at or below `r`, passes empty cells
/// only, and stops on the floor or on an occupied cell.
proof fn lemma_fall(g: Seq<Seq<Coin>>, r: int, c: int)
    requires
        0 <= r < BOARD_HEIGHT,
    ensures
        r <= fall_from(g, r, c) < BOARD_HEIGHT,
        forall|i: int| r < i <= fall_from(g, r, c) ==> (#[trigger] g[i])[c] == Coin::Empty,
        fall_from(g, r, c) + 1 < BOARD_HEIGHT ==> g[fall_from(g, r, c) + 1][c] != Coin::Empty,
    decreases BOARD_HEIGHT - r,
{
    if r + 1 < BOARD_HEIGHT && g[r + 1][c] == Coin::Empty {
        lemma_fall(g, r + 1, c);
    }
}

/// Placing a coin on the board keeps the board's shape and changes one cell.
pub proof fn lemma_place(g: Seq<Seq<Coin>>, r: int, c: int, coin: Coin)
    requires
        is_grid(g),
        0 <= r < BOARD_HEIGHT,
        0 <= c < BOARD_WIDTH,
    ensures
        is_grid(place(g, r, c, coin)),
        place(g, r, c, coin)[r][c] == coin,
        forall|i: int, j: int|
            0 <= i < BOARD_HEIGHT && 0 <= j < BOARD_WIDTH && (i != r || j != c) ==> #[trigger] place(
                g,
                r,
                c,
                coin,
            )[i][j] == g[i][j],
{
}

/// In a grid that obeys gravity, a coin dropped into a column whose top cell
/// is empty lands on the lowest empty cell, and the grid obeys gravity
/// afterwards.
pub proof fn lemma_drop_keeps_gravity(g: Seq<Seq<Coin>>, c: int, coin: Coin)
    requires
        is_grid(g),
        gravity(g),
        0 <= c < BOARD_WIDTH,
        g[0][c] == Coin::Empty,
        coin != Coin::Empty,
    ensures
        is_grid(drop_into(g, c, coin)),
        gravity(drop_into(g, c, coin)),
        g[landing_row(g, c)][c] == Coin::Empty,
        forall|i: int| landing_row(g, c) < i < BOARD_HEIGHT ==> (#[trigger] g[i])[c] != Coin::Empty,
{
    reveal(gravity);
    lemma_landing(g, c);
    lemma_place(g, landing_row(g, c), c, coin);
}

/// A coin placed on an empty cell leaves every filled line as it was, and a
/// line that it changes is filled with that coin or not at all.
pub proof fn lemma_place_on_empty(g: Seq<Seq<Coin>>, r: int, c: int, coin: Coin)
    requires
        is_grid(g),
        0 <= r < BOARD_HEIGHT,
        0 <= c < BOARD_WIDTH,
        g[r][c] == Coin::Empty,
    ensures
        forall|k: int|
            0 <= k < LINE_COUNT && #[trigger] line_mark(g, k) != Coin::Empty ==> line_mark(
                place(g, r, c, coin),
                k,
            ) == line_mark(g, k),
        forall|k: int|
            0 <= k < LINE_COUNT ==> #[trigger] line_mark(place(g, r, c, coin), k) == line_mark(g, k)
                || line_mark(place(g, r, c, coin), k) == coin || line_mark(
                place(g, r, c, coin),
                k,
            ) == Coin::Empty,
{
    let h = place(g, r, c, coin);
    lemma_place(g, r, c, coin);
    reveal(line_mark);
    assert forall|k: int| 0 <= k < LINE_COUNT implies (line_mark(g, k) != Coin::Empty
        ==> #[trigger] line_mark(h, k) == line_mark(g, k)) && (line_mark(h, k) == line_mark(g, k)
        || line_mark(h, k) == coin || line_mark(h, k) == Coin::Empty) by {
        lemma_line_cells_on_board(k, 0);
        lemma_line_cells_on_board(k, 1);
        lemma_line_cells_on_board(k, 2);
        lemma_line_cells_on_board(k, 3);
    }
}

/// A line filled with coins stays filled when a coin is placed on an empty
/// cell.
pub proof fn lemma_line_survives(g: Seq<Seq<Coin>>, r: int, c: int, coin: Coin, filled: Coin)
    requires
        is_grid(g),
        0 <= r < BOARD_HEIGHT,
        0 <= c < BOARD_WIDTH,
        g[r][c] == Coin::Empty,
        filled != Coin::Empty,
        has_line(g, filled),
    ensures
        has_line(place(g, r, c, coin), filled),
{
    lemma_place_on_empty(g, r, c, coin);
}

/// When no line is filled, a coin placed on an empty cell can only bring a
/// line of its own kind.
pub proof fn lemma_only_new_coin_wins(g: Seq<Seq<Coin>>, r: int, c: int, coin: Coin)
    requires
        is_grid(g),
        0 <= r < BOARD_HEIGHT,
        0 <= c < BOARD_WIDTH,
        g[r][c] == Coin::Empty,
        winner(g) == Coin::Empty,
    ensures
        winner(place(g, r, c, coin)) == Coin::Empty || winner(place(g, r, c, coin)) == coin,
{
    let h = place(g, r, c, coin);
    lemma_winner_is_earliest(g);
    lemma_winner_is_earliest(h);
    lemma_place_on_empty(g, r, c, coin);
    if winner(h) != Coin::Empty {
        let e = earliest_line(h);
        assert(line_mark(h, e) == line_mark(g, e) || line_mark(h, e) == coin || line_mark(h, e)
            == Coin::Empty);
    }
}

/// Taking a trial coin off the cell where it landed gives the grid back, if
/// that cell was empty before the trial.
pub proof fn lemma_trial_undone(s: Seq<Seq<Coin>>, m: int, coin: Coin)
    requires
        is_grid(s),
        0 <= m < BOARD_WIDTH,
        s[0][m] == Coin::Empty,
    ensures
        s[landing_row(s, m)][m] == Coin::Empty,
        place(drop_into(s, m, coin), landing_row(s, m), m, Coin::Empty) == s,
{
    let l = landing_row(s, m);
    lemma_landing(s, m);
    lemma_place(s, l, m, coin);
    assert(place(drop_into(s, m, coin), l, m, Coin::Empty) =~~= s);
}

} // verus!
