use connect_four::board::{grid_state, Board};
use connect_four::coin::Coin;
use connect_four::game_state::GameState;

fn board_rows(rows: [&str; 6]) -> Vec<Vec<Coin>> {
    let mut grid = Vec::new();
    for row in rows {
        let mut cells = Vec::new();
        for ch in row.chars() {
            cells.push(match ch {
                'R' => Coin::Red,
                'Y' => Coin::Yellow,
                _ => Coin::Empty,
            });
        }
        assert_eq!(cells.len(), 7);
        grid.push(cells);
    }
    grid
}

fn obeys_gravity(grid: &Vec<Vec<Coin>>) -> bool {
    for col in 0..7 {
        for row in 0..5 {
            if grid[row][col] != Coin::Empty && grid[row + 1][col] == Coin::Empty {
                return false;
            }
        }
    }
    true
}

#[test]
fn new_board_is_empty_and_on() {
    let board = Board::new();
    assert_eq!(
        board.get_board(),
        board_rows([".......", ".......", ".......", ".......", ".......", "......."])
    );
    assert_eq!(*board.game_state(), GameState::OnGoing);
    assert!(!board.game_over());
}

#[test]
fn first_coin_falls_to_the_bottom_row() {
    let mut board = Board::new();
    assert_eq!(board.drop(3, true), Ok(()));
    assert_eq!(
        board.get_board(),
        board_rows([".......", ".......", ".......", ".......", ".......", "...R..."])
    );
    assert_eq!(board.drop(3, false), Ok(()));
    assert_eq!(
        board.get_board(),
        board_rows([".......", ".......", ".......", ".......", "...Y...", "...R..."])
    );
    assert_eq!(board.drop(0, false), Ok(()));
    assert_eq!(board.drop(6, true), Ok(()));
    assert_eq!(
        board.get_board(),
        board_rows([".......", ".......", ".......", ".......", "...Y...", "Y..R..R"])
    );
}

#[test]
fn turn_picks_the_coin() {
    let mut board = Board::new();
    board.drop(0, true).unwrap();
    board.drop(1, false).unwrap();
    let grid = board.get_board();
    assert_eq!(grid[5][0], Coin::Red);
    assert_eq!(grid[5][1], Coin::Yellow);
}

#[test]
fn snapshot_is_a_copy() {
    let mut board = Board::new();
    board.drop(2, true).unwrap();
    let mut grid = board.get_board();
    grid[5][2] = Coin::Yellow;
    grid[0][0] = Coin::Red;
    assert_eq!(
        board.get_board(),
        board_rows([".......", ".......", ".......", ".......", ".......", "..R...."])
    );
}

#[test]
fn gravity_holds_after_every_drop() {
    let mut board = Board::new();
    let columns = [3, 3, 4, 2, 3, 3, 0, 6, 6, 1, 3, 3, 5, 0, 0, 2, 4, 4, 6, 1];
    let mut turn = true;
    for col in columns {
        if board.drop(col, turn).is_ok() {
            turn = !turn;
        }
        assert!(obeys_gravity(&board.get_board()));
    }
}

#[test]
fn full_column_rejects_the_drop_and_changes_nothing() {
    let mut board = Board::new();
    let mut turn = true;
    for _ in 0..6 {
        assert_eq!(board.drop(4, turn), Ok(()));
        turn = !turn;
    }
    let before = board.get_board();
    assert_eq!(
        before,
        board_rows(["....Y..", "....R..", "....Y..", "....R..", "....Y..", "....R.."])
    );
    assert_eq!(board.drop(4, true), Err(()));
    assert_eq!(board.get_board(), before);
    assert_eq!(*board.game_state(), GameState::OnGoing);
    assert_eq!(board.drop(4, false), Err(()));
    assert_eq!(board.get_board(), before);
    assert_eq!(*board.game_state(), GameState::OnGoing);
    // The other columns still take coins.
    assert_eq!(board.drop(3, true), Ok(()));
}

#[test]
fn three_coins_side_by_side_leave_the_game_on() {
    let mut board = Board::new();
    board.drop(0, true).unwrap();
    assert_eq!(*board.game_state(), GameState::OnGoing);
    board.drop(1, true).unwrap();
    assert_eq!(*board.game_state(), GameState::OnGoing);
    board.drop(2, true).unwrap();
    assert_eq!(*board.game_state(), GameState::OnGoing);
    assert!(!board.game_over());
    assert_eq!(
        board.get_board(),
        board_rows([".......", ".......", ".......", ".......", ".......", "RRR...."])
    );
}

#[test]
fn four_across_the_bottom_row_win() {
    let red = board_rows([".......", ".......", ".......", ".......", ".......", "RRRR..."]);
    assert_eq!(grid_state(&red), GameState::RedWon);
    let yellow = board_rows([".......", ".......", ".......", ".......", ".......", "YYYY..."]);
    assert_eq!(grid_state(&yellow), GameState::YellowWon);
}

#[test]
fn four_across_win_by_drops() {
    let mut board = Board::new();
    for col in 0..3 {
        board.drop(col, true).unwrap();
        board.drop(col, false).unwrap();
        assert_eq!(*board.game_state(), GameState::OnGoing);
    }
    board.drop(3, true).unwrap();
    assert_eq!(*board.game_state(), GameState::RedWon);
    assert!(board.game_over());
}

#[test]
fn four_on_a_diagonal_win() {
    let rising = board_rows([".......", ".......", "...R...", "..R....", ".R.....", "R......"]);
    assert_eq!(grid_state(&rising), GameState::RedWon);
    let rising = board_rows([".......", ".......", "...Y...", "..Y....", ".Y.....", "Y......"]);
    assert_eq!(grid_state(&rising), GameState::YellowWon);
    let falling = board_rows([".......", ".......", "...Y...", "....Y..", ".....Y.", "......Y"]);
    assert_eq!(grid_state(&falling), GameState::YellowWon);
}

#[test]
fn four_in_each_direction_win() {
    let across = board_rows([".......", ".......", ".......", "...RRRR", ".......", "......."]);
    assert_eq!(grid_state(&across), GameState::RedWon);
    let down = board_rows([".......", ".......", "......Y", "......Y", "......Y", "......Y"]);
    assert_eq!(grid_state(&down), GameState::YellowWon);
    let falling = board_rows(["R......", ".R.....", "..R....", "...R...", ".......", "......."]);
    assert_eq!(grid_state(&falling), GameState::RedWon);
    let rising = board_rows(["......Y", ".....Y.", "....Y..", "...Y...", ".......", "......."]);
    assert_eq!(grid_state(&rising), GameState::YellowWon);
}

#[test]
fn diagonal_win_by_drops() {
    let mut board = Board::new();
    // Yellow builds the stairs, red climbs them.
    board.drop(0, true).unwrap();
    board.drop(1, false).unwrap();
    board.drop(1, true).unwrap();
    board.drop(2, false).unwrap();
    board.drop(2, false).unwrap();
    board.drop(2, true).unwrap();
    board.drop(3, false).unwrap();
    board.drop(3, false).unwrap();
    board.drop(3, false).unwrap();
    assert_eq!(*board.game_state(), GameState::OnGoing);
    board.drop(3, true).unwrap();
    assert_eq!(
        board.get_board(),
        board_rows([".......", ".......", "...R...", "..RY...", ".RYY...", "RYYY..."])
    );
    assert_eq!(*board.game_state(), GameState::RedWon);
}

#[test]
fn four_down_a_column_win_for_yellow() {
    let mut board = Board::new();
    for _ in 0..3 {
        board.drop(6, false).unwrap();
        board.drop(0, true).unwrap();
    }
    assert_eq!(*board.game_state(), GameState::OnGoing);
    board.drop(6, false).unwrap();
    assert_eq!(*board.game_state(), GameState::YellowWon);
    assert!(board.game_over());
}

#[test]
fn full_top_row_without_a_line_is_a_draw() {
    let grid = board_rows(["RYRYRYR", ".......", ".......", ".......", ".......", "......."]);
    assert_eq!(grid_state(&grid), GameState::Draw);
    let grid = board_rows(["RRYYRRY", "YYRRYYR", "RRYYRRY", "YYRRYYR", "RRYYRRY", "YYRRYYR"]);
    assert_eq!(grid_state(&grid), GameState::Draw);
}

#[test]
fn full_top_row_with_a_line_is_a_win() {
    let grid = board_rows(["RRRRYYR", ".......", ".......", ".......", ".......", "......."]);
    assert_eq!(grid_state(&grid), GameState::RedWon);
}

#[test]
fn grid_with_room_and_without_a_line_is_on() {
    let grid = board_rows(["RYRYRY.", ".......", ".......", ".......", ".......", "......."]);
    assert_eq!(grid_state(&grid), GameState::OnGoing);
    let grid = board_rows([".......", ".......", ".......", ".......", ".......", "......."]);
    assert_eq!(grid_state(&grid), GameState::OnGoing);
}

#[test]
fn filling_the_board_without_a_line_ends_in_a_draw() {
    let pattern =
        board_rows(["RRYYRRY", "YYRRYYR", "RRYYRRY", "YYRRYYR", "RRYYRRY", "YYRRYYR"]);
    let mut board = Board::new();
    let mut dropped = 0;
    for row in (0..6).rev() {
        for col in 0..7 {
            assert_eq!(*board.game_state(), GameState::OnGoing);
            assert!(!board.game_over());
            assert_eq!(board.drop(col, pattern[row][col] == Coin::Red), Ok(()));
            dropped += 1;
        }
    }
    assert_eq!(dropped, 42);
    assert_eq!(board.get_board(), pattern);
    assert_eq!(*board.game_state(), GameState::Draw);
    assert!(board.game_over());
    for col in 0..7 {
        assert_eq!(board.drop(col, true), Err(()));
        assert_eq!(*board.game_state(), GameState::Draw);
    }
}

#[test]
fn a_finished_game_keeps_its_state() {
    let mut board = Board::new();
    for _ in 0..3 {
        board.drop(0, true).unwrap();
        board.drop(1, false).unwrap();
    }
    board.drop(0, true).unwrap();
    assert_eq!(*board.game_state(), GameState::RedWon);
    // Yellow completes a line of its own afterwards: the coin is taken, the
    // state stays.
    assert_eq!(board.drop(1, false), Ok(()));
    assert_eq!(
        board.get_board(),
        board_rows([".......", ".......", "RY.....", "RY.....", "RY.....", "RY....."])
    );
    assert_eq!(*board.game_state(), GameState::RedWon);
    assert!(board.game_over());
    let columns = [2, 3, 4, 5, 6, 2, 3, 4, 5, 6, 0, 1];
    for col in columns {
        board.drop(col, false).unwrap();
        assert_eq!(*board.game_state(), GameState::RedWon);
    }
}

#[test]
fn a_clone_plays_on_by_itself() {
    let mut board = Board::new();
    board.drop(0, true).unwrap();
    let mut other = board.clone();
    other.drop(0, false).unwrap();
    assert_eq!(
        board.get_board(),
        board_rows([".......", ".......", ".......", ".......", ".......", "R......"])
    );
    assert_eq!(
        other.get_board(),
        board_rows([".......", ".......", ".......", ".......", "Y......", "R......"])
    );
}

#[test]
fn states_compare() {
    assert_eq!(GameState::OnGoing, GameState::OnGoing);
    assert_ne!(GameState::RedWon, GameState::YellowWon);
    assert_ne!(GameState::Draw, GameState::OnGoing);
}

#[test]
fn empty_board_is_drawn() {
    let board = Board::new();
    let expected = "  1   2   3   4   5   6   7\n\
┌───┬───┬───┬───┬───┬───┬───┐\n\
│   │   │   │   │   │   │   │\n\
├───┼───┼───┼───┼───┼───┼───┤\n\
│   │   │   │   │   │   │   │\n\
├───┼───┼───┼───┼───┼───┼───┤\n\
│   │   │   │   │   │   │   │\n\
├───┼───┼───┼───┼───┼───┼───┤\n\
│   │   │   │   │   │   │   │\n\
├───┼───┼───┼───┼───┼───┼───┤\n\
│   │   │   │   │   │   │   │\n\
├───┼───┼───┼───┼───┼───┼───┤\n\
│   │   │   │   │   │   │   │\n\
└───┴───┴───┴───┴───┴───┴───┘\n";
    assert_eq!(board.to_string(), expected);
}

#[test]
fn coins_are_drawn_by_their_letters() {
    let mut board = Board::new();
    board.drop(0, true).unwrap();
    board.drop(0, false).unwrap();
    board.drop(6, false).unwrap();
    board.drop(3, true).unwrap();
    let text = board.to_string();
    let lines: Vec<&str> = text.split('\n').collect();
    assert_eq!(lines.len(), 15);
    assert_eq!(lines[0], "  1   2   3   4   5   6   7");
    assert_eq!(lines[1], "┌───┬───┬───┬───┬───┬───┬───┐");
    assert_eq!(lines[2], "│   │   │   │   │   │   │   │");
    assert_eq!(lines[3], "├───┼───┼───┼───┼───┼───┼───┤");
    assert_eq!(lines[10], "│ Y │   │   │   │   │   │   │");
    assert_eq!(lines[11], "├───┼───┼───┼───┼───┼───┼───┤");
    assert_eq!(lines[12], "│ R │   │   │ R │   │   │ Y │");
    assert_eq!(lines[13], "└───┴───┴───┴───┴───┴───┴───┘");
    assert_eq!(lines[14], "");
}
