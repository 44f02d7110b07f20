//! The live board: a grid that only grows by gravity drops, and the state of
//! the game that is worked out anew after every drop.

use vstd::prelude::*;
use vstd::string::StringExecFns;
use crate::coin::Coin;
use crate::game_state::GameState;
use crate::grid::{
    BOARD_HEIGHT, BOARD_WIDTH, cell_at, cells_of, coin_of, drop_into, empty_grid, find_winner,
    gravity, has_line, is_grid, landing, landing_row, lemma_drop_keeps_gravity, lemma_landing,
    lemma_line_survives, lemma_only_new_coin_wins, lemma_place, lemma_winner_has_line,
    lemma_winner_is_earliest, line_mark, outcome_of, set_cell, top_full, top_row_full, winner,
    LINE_COUNT,
};

verus! {

/// What a board is, mathematically: its cells, top row first, and the state
/// of the game.
pub struct BoardView {
    pub cells: Seq<Seq<Coin>>,
    pub state: GameState,
}

impl BoardView {
    /// The board before the first drop.
    pub open spec fn fresh() -> BoardView {
        BoardView { cells: empty_grid(), state: GameState::OnGoing }
    }

    /// A coin can be dropped into `col`: its top cell is empty.
    pub open spec fn column_open(self, col: int) -> bool {
        self.cells[0][col] == Coin::Empty
    }

    /// The state after the grid has become `cells`: a game that is over stays
    /// as it ended, a game that is on takes the state that the grid shows.
    pub open spec fn next_state(self, cells: Seq<Seq<Coin>>) -> GameState {
        if self.state != GameState::OnGoing {
            self.state
        } else {
            outcome_of(cells)
        }
    }

    /// The board after a drop into `col` by the first player (`turn`) or the
    /// second. A drop on a full column changes nothing.
    pub open spec fn drop(self, col: int, turn: bool) -> BoardView {
        if self.column_open(col) {
            let cells = drop_into(self.cells, col, coin_of(turn));
            BoardView { cells, state: self.next_state(cells) }
        } else {
            self
        }
    }

    /// The board after the drops of `moves`, made in order; each is a column
    /// and the player who drops.
    pub open spec fn after(self, moves: Seq<(int, bool)>) -> BoardView
        decreases moves.len(),
    {
        if moves.len() == 0 {
            self
        } else {
            self.after(moves.drop_last()).drop(moves.last().0, moves.last().1)
        }
    }

    /// What holds of every board that play can reach: the grid has its shape
    /// and obeys gravity, and the state agrees with the grid. A game is on
    /// only while the grid shows no line of four and has room; a win is
    /// backed by a line of the winner's coins; a draw by a full grid without
    /// a line.
    pub open spec fn wf(self) -> bool {
        &&& is_grid(self.cells)
        &&& gravity(self.cells)
        &&& self.state == GameState::OnGoing ==> outcome_of(self.cells) == GameState::OnGoing
        &&& self.state == GameState::Draw ==> outcome_of(self.cells) == GameState::Draw
        &&& self.state == GameState::RedWon ==> has_line(self.cells, Coin::Red)
        &&& self.state == GameState::YellowWon ==> has_line(self.cells, Coin::Yellow)
    }
}

/// The line of column numbers above the drawing.
pub open spec fn numbers_line() -> Seq<char> {
    "  1   2   3   4   5   6   7\n"@
}

/// The upper edge of the drawing.
pub open spec fn top_line() -> Seq<char> {
    "┌───┬───┬───┬───┬───┬───┬───┐\n"@
}

/// The line between two rows of the drawing.
pub open spec fn middle_line() -> Seq<char> {
    "├───┼───┼───┼───┼───┼───┼───┤\n"@
}

/// The lower edge of the drawing.
pub open spec fn bottom_line() -> Seq<char> {
    "└───┴───┴───┴───┴───┴───┴───┘\n"@
}

/// How one cell is drawn: its left edge and the letter of its coin.
pub open spec fn cell_text(coin: Coin) -> Seq<char> {
    match coin {
        Coin::Empty => "│   "@,
        Coin::Red => "│ R "@,
        Coin::Yellow => "│ Y "@,
    }
}

/// The first `n` cells of a row, drawn side by side.
pub open spec fn cells_text(row: Seq<Coin>, n: int) -> Seq<char>
    decreases n,
{
    if n <= 0 {
        Seq::empty()
    } else {
        cells_text(row, n - 1) + cell_text(row[n - 1])
    }
}

/// A row of the drawing: its cells and the right edge.
pub open spec fn row_text(row: Seq<Coin>) -> Seq<char> {
    cells_text(row, BOARD_WIDTH as int) + "│\n"@
}

/// The first `n` rows of the drawing, with a line between every two.
pub open spec fn rows_text(g: Seq<Seq<Coin>>, n: int) -> Seq<char>
    decreases n,
{
    if n <= 0 {
        Seq::empty()
    } else if n == 1 {
        row_text(g[0])
    } else {
        rows_text(g, n - 1) + middle_line() + row_text(g[n - 1])
    }
}

/// The drawing of a grid: column numbers, upper edge, the six rows from the
/// top one down, lower edge.
pub open spec fn board_text(g: Seq<Seq<Coin>>) -> Seq<char> {
    numbers_line() + top_line() + rows_text(g, BOARD_HEIGHT as int) + bottom_line()
}

/// The board of a game in progress.
#[derive(Clone)]
pub struct Board {
    board: Vec<Vec<Coin>>,
    game_state: GameState,
}

impl View for Board {
    type V = BoardView;

    closed spec fn view(&self) -> BoardView {
        BoardView { cells: cells_of(&self.board), state: self.game_state }
    }
}

impl Board {
    /// The board is one that play can reach.
    pub open spec fn wf(&self) -> bool {
        self@.wf()
    }

    /// An empty board with the game on.
    pub fn new() -> (fresh: Self)
        ensures
            fresh@ == BoardView::fresh(),
            fresh.wf(),
    {
        let mut board_vec: Vec<Vec<Coin>> = Vec::with_capacity(BOARD_HEIGHT);
        let mut r: usize = 0;
        while r < BOARD_HEIGHT
            invariant
                r <= BOARD_HEIGHT,
                board_vec@.len() == r,
                forall|i: int| 0 <= i < r ==> (#[trigger] board_vec@[i])@ == empty_grid()[i],
            decreases BOARD_HEIGHT - r,
        {
            let row = vec![Coin::Empty; BOARD_WIDTH];
            board_vec.push(row);
            r += 1;
        }
        assert(cells_of(&board_vec) =~= empty_grid());
        proof {
            lemma_fresh_wf();
        }
        Self { board: board_vec, game_state: GameState::OnGoing }
    }

    /// Drops a coin of the first player (`turn`) or the second into `col`.
    /// The coin falls to the lowest empty cell of the column, and the state
    /// of the game is worked out anew. `Err(())` says that the column is full:
    /// then nothing has changed. A game that is over still takes the coin,
    /// but keeps its state.
    pub fn drop(&mut self, col: usize, turn: bool) -> (res: Result<(), ()>)
        requires
            old(self).wf(),
            col < BOARD_WIDTH,
        ensures
            final(self).wf(),
            res is Ok <==> old(self)@.column_open(col as int),
            res is Err ==> *final(self) == *old(self),
            final(self)@ == old(self)@.drop(col as int, turn),
            old(self)@.state != GameState::OnGoing ==> final(self)@.state == old(self)@.state,
    {
        if self.board[0][col] != Coin::Empty {
            return Err(());
        }
        let row = landing(&self.board, col);
        let coin = if turn {
            Coin::Red
        } else {
            Coin::Yellow
        };
        set_cell(&mut self.board, row, col, coin);
        self.update_state();
        proof {
            lemma_drop_wf(old(self)@, col as int, turn);
        }
        Ok(())
    }

    /// A copy of the grid, for those who show it or choose a move on it.
    pub fn get_board(&self) -> (grid: Vec<Vec<Coin>>)
        ensures
            cells_of(&grid) == self@.cells,
    {
        let grid = self.board.clone();
        grid
    }

    /// The state of the game.
    pub fn game_state(&self) -> (state: &GameState)
        ensures
            *state == self@.state,
    {
        &self.game_state
    }

    /// Whether the game has ended, in a win or in a draw.
    pub fn game_over(&self) -> (over: bool)
        ensures
            over == (self@.state != GameState::OnGoing),
    {
        self.game_state != GameState::OnGoing
    }

    /// The drawing of the board as text.
    pub fn to_string(&self) -> (text: String)
        requires
            self.wf(),
        ensures
            text@ == board_text(self@.cells),
    {
        let ghost g = self@.cells;
        let numbers = "  1   2   3   4   5   6   7\n";
        let sep_line_top = "┌───┬───┬───┬───┬───┬───┬───┐\n";
        let sep_line = "├───┼───┼───┼───┼───┼───┼───┤\n";
        let sep_line_bottom = "└───┴───┴───┴───┴───┴───┴───┘\n";
        let mut board_str = String::from_str(numbers);
        board_str.append(sep_line_top);
        let ghost head = numbers_line() + top_line();
        let mut r: usize = 0;
        while r < BOARD_HEIGHT
            invariant
                is_grid(g),
                g == cells_of(&self.board),
                r <= BOARD_HEIGHT,
                head == numbers_line() + top_line(),
                sep_line@ == middle_line(),
                board_str@ == head + rows_text(g, r as int),
            decreases BOARD_HEIGHT - r,
        {
            if r > 0 {
                board_str.append(sep_line);
            }
            let ghost start = board_str@;
            let mut c: usize = 0;
            while c < BOARD_WIDTH
                invariant
                    is_grid(g),
                    g == cells_of(&self.board),
                    r < BOARD_HEIGHT,
                    c <= BOARD_WIDTH,
                    board_str@ == start + cells_text(g[r as int], c as int),
                decreases BOARD_WIDTH - c,
            {
                board_str.append(
                    match cell_at(&self.board, r, c) {
                        Coin::Empty => "│   ",
                        Coin::Red => "│ R ",
                        Coin::Yellow => "│ Y ",
                    },
                );
                c += 1;
            }
            board_str.append("│\n");
            r += 1;
        }
        board_str.append(sep_line_bottom);
        board_str
    }

    /// Works the state out from the grid: the whole grid is scanned for lines
    /// of four, and the first one in scan order decides; without one a full
    /// top row makes a draw. A game that is over keeps its state, whatever
    /// the scan finds.
    fn update_state(&mut self)
        requires
            is_grid(old(self)@.cells),
        ensures
            final(self)@.cells == old(self)@.cells,
            final(self)@.state == old(self)@.next_state(old(self)@.cells),
    {
        let found = find_winner(&self.board);
        if self.game_state != GameState::OnGoing {
            return ;
        }
        match found {
            Coin::Red => {
                self.game_state = GameState::RedWon;
            },
            Coin::Yellow => {
                self.game_state = GameState::YellowWon;
            },
            Coin::Empty => {},
        }
        if self.is_full() && self.game_state == GameState::OnGoing {
            self.game_state = GameState::Draw;
        }
    }

    /// Whether no coin can be dropped any more.
    fn is_full(&self) -> (full: bool)
        requires
            is_grid(self@.cells),
        ensures
            full == top_full(self@.cells),
    {
        top_row_full(&self.board)
    }
}

/// The state that a grid shows, whatever way its coins came there: the win
/// of the first line of four in scan order, else a draw when the top row is
/// full, else a game still on.
pub fn grid_state(grid: &Vec<Vec<Coin>>) -> (state: GameState)
    requires
        is_grid(cells_of(grid)),
    ensures
        state == outcome_of(cells_of(grid)),
{
    match find_winner(grid) {
        Coin::Red => GameState::RedWon,
        Coin::Yellow => GameState::YellowWon,
        Coin::Empty => {
            if top_row_full(grid) {
                GameState::Draw
            } else {
                GameState::OnGoing
            }
        },
    }
}

/// The empty board is one that play can reach.
pub proof fn lemma_fresh_wf()
    ensures
        BoardView::fresh().wf(),
{
    let g = empty_grid();
    assert(gravity(g)) by {
        reveal(gravity);
    }
    assert(g[0][0] == Coin::Empty);
    assert forall|k: int| 0 <= k < LINE_COUNT implies #[trigger] line_mark(g, k) == Coin::Empty by {
        reveal(line_mark);
    }
    lemma_winner_is_earliest(g);
}

/// A drop takes a board that play can reach to another such board: the shape
/// and gravity of the grid are kept, and the state still agrees with it.
pub proof fn lemma_drop_wf(v: BoardView, col: int, turn: bool)
    requires
        v.wf(),
        0 <= col < BOARD_WIDTH,
    ensures
        v.drop(col, turn).wf(),
{
    if v.column_open(col) {
        let coin = coin_of(turn);
        let l = landing_row(v.cells, col);
        let cells = drop_into(v.cells, col, coin);
        lemma_drop_keeps_gravity(v.cells, col, coin);
        lemma_landing(v.cells, col);
        match v.state {
            GameState::OnGoing => {
                lemma_winner_has_line(cells);
            },
            GameState::Draw => {},
            GameState::RedWon => {
                lemma_line_survives(v.cells, l, col, coin, Coin::Red);
            },
            GameState::YellowWon => {
                lemma_line_survives(v.cells, l, col, coin, Coin::Yellow);
            },
        }
    }
}

/// Gravity holds after every drop of every sequence of drops, from any board
/// that play can reach; so does the rest of what such a board obeys.
pub proof fn lemma_drops_keep_gravity(v: BoardView, moves: Seq<(int, bool)>)
    requires
        v.wf(),
        forall|i: int| 0 <= i < moves.len() ==> 0 <= (#[trigger] moves[i]).0 < BOARD_WIDTH,
    ensures
        v.after(moves).wf(),
        gravity(v.after(moves).cells),
    decreases moves.len(),
{
    if moves.len() > 0 {
        let firsts = moves.drop_last();
        lemma_drops_keep_gravity(v, firsts);
        lemma_drop_wf(v.after(firsts), moves.last().0, moves.last().1);
    }
}

/// While a game is on, the grid holds no line of four and some column can
/// take a coin; a game is over as soon as the grid holds a line or is full.
pub proof fn lemma_game_on_has_room(v: BoardView)
    requires
        v.wf(),
    ensures
        v.state == GameState::OnGoing ==> winner(v.cells) == Coin::Empty && exists|c: int|
            0 <= c < BOARD_WIDTH && #[trigger] v.column_open(c),
        winner(v.cells) != Coin::Empty || top_full(v.cells) ==> v.state != GameState::OnGoing,
{
    if v.state == GameState::OnGoing {
        let c = choose|c: int| 0 <= c < BOARD_WIDTH && #[trigger] v.cells[0][c] == Coin::Empty;
        assert(v.column_open(c));
    }
}

/// A drop on a column whose top cell is occupied leaves the board as it was.
pub proof fn lemma_full_column_unchanged(v: BoardView, col: int, turn: bool)
    requires
        !v.column_open(col),
    ensures
        v.drop(col, turn) == v,
{
}

/// Once a game is over, no drop changes its state, however many follow.
pub proof fn lemma_finished_state_is_final(v: BoardView, moves: Seq<(int, bool)>)
    requires
        v.state != GameState::OnGoing,
    ensures
        v.after(moves).state == v.state,
    decreases moves.len(),
{
    if moves.len() > 0 {
        lemma_finished_state_is_final(v, moves.drop_last());
    }
}

/// The state never returns to a game that is on: along any sequence of drops,
/// a game that is over after the first `n` of them is over, in the same
/// state, after all of them.
pub proof fn lemma_state_monotonic(v: BoardView, moves: Seq<(int, bool)>, n: int)
    requires
        0 <= n <= moves.len(),
        v.after(moves.take(n)).state != GameState::OnGoing,
    ensures
        v.after(moves).state == v.after(moves.take(n)).state,
    decreases moves.len() - n,
{
    if n < moves.len() {
        let firsts = moves.drop_last();
        assert(firsts.take(n) =~= moves.take(n));
        lemma_state_monotonic(v, firsts, n);
    } else {
        assert(moves.take(n) =~= moves);
    }
}

/// A drop that ends a game which was on ends it in a draw or in a win of the
/// player who dropped, never of the other player.
pub proof fn lemma_only_the_mover_wins(v: BoardView, col: int, turn: bool)
    requires
        v.wf(),
        0 <= col < BOARD_WIDTH,
        v.state == GameState::OnGoing,
    ensures
        turn ==> v.drop(col, turn).state != GameState::YellowWon,
        !turn ==> v.drop(col, turn).state != GameState::RedWon,
{
    if v.column_open(col) {
        lemma_landing(v.cells, col);
        lemma_drop_keeps_gravity(v.cells, col, coin_of(turn));
        lemma_only_new_coin_wins(v.cells, landing_row(v.cells, col), col, coin_of(turn));
    }
}

/// A coin that is dropped comes to rest in the lowest empty cell of its
/// column, and no other cell changes: the cells above it are empty, the cells
/// below it are occupied, and every coin that was on the board is still there.
pub proof fn lemma_coin_lands_lowest(v: BoardView, col: int, turn: bool)
    requires
        v.wf(),
        0 <= col < BOARD_WIDTH,
        v.column_open(col),
    ensures
        0 <= landing_row(v.cells, col) < BOARD_HEIGHT,
        v.cells[landing_row(v.cells, col)][col] == Coin::Empty,
        v.drop(col, turn).cells[landing_row(v.cells, col)][col] == coin_of(turn),
        forall|r: int| 0 <= r < landing_row(v.cells, col) ==> (#[trigger] v.cells[r])[col] == Coin::Empty,
        forall|r: int|
            landing_row(v.cells, col) < r < BOARD_HEIGHT ==> (#[trigger] v.cells[r])[col]
                != Coin::Empty,
        forall|r: int, c: int|
            0 <= r < BOARD_HEIGHT && 0 <= c < BOARD_WIDTH && (r != landing_row(v.cells, col) || c
                != col) ==> #[trigger] v.drop(col, turn).cells[r][c] == v.cells[r][c],
{
    let l = landing_row(v.cells, col);
    lemma_landing(v.cells, col);
    lemma_drop_keeps_gravity(v.cells, col, coin_of(turn));
    lemma_place(v.cells, l, col, coin_of(turn));
}

} // verus!
