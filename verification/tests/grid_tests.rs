use connect_four::coin::Coin;
use connect_four::grid::{
    any_line, cell_at, find_winner, has_grid_shape, landing, line_mark_at, set_cell,
    top_row_full, ACROSS_LINES, BOARD_HEIGHT, BOARD_WIDTH, DIAGONAL_LINES, DOWN_LINES, LINE_COUNT,
};

fn grid_of(rows: [&str; 6]) -> Vec<Vec<Coin>> {
    let mut grid = Vec::new();
    for row in rows {
        let mut cells = Vec::new();
        for ch in row.chars() {
            cells.push(match ch {
                'R' => Coin::Red,
                'Y' => Coin::Yellow,
                _ => Coin::Empty,
            });
        }
        assert_eq!(cells.len(), 7);
        grid.push(cells);
    }
    grid
}

#[test]
fn board_measures() {
    assert_eq!(BOARD_WIDTH, 7);
    assert_eq!(BOARD_HEIGHT, 6);
    assert_eq!(ACROSS_LINES + DOWN_LINES + 2 * DIAGONAL_LINES, LINE_COUNT);
    assert_eq!(LINE_COUNT, 69);
}

#[test]
fn cells_are_read_and_written() {
    let mut grid = grid_of([".......", ".......", ".......", ".......", ".......", "R......"]);
    assert_eq!(cell_at(&grid, 5, 0), Coin::Red);
    assert_eq!(cell_at(&grid, 0, 6), Coin::Empty);
    set_cell(&mut grid, 2, 3, Coin::Yellow);
    assert_eq!(cell_at(&grid, 2, 3), Coin::Yellow);
    assert_eq!(
        grid,
        grid_of([".......", ".......", "...Y...", ".......", ".......", "R......"])
    );
    set_cell(&mut grid, 2, 3, Coin::Empty);
    assert_eq!(
        grid,
        grid_of([".......", ".......", ".......", ".......", ".......", "R......"])
    );
}

#[test]
fn coin_lands_on_floor_or_on_top_of_the_column() {
    let grid = grid_of([".....R.", ".....Y.", "...Y.R.", "...R.Y.", ".R.Y.R.", "RY.R.Y."]);
    assert_eq!(landing(&grid, 0), 4);
    assert_eq!(landing(&grid, 1), 3);
    assert_eq!(landing(&grid, 2), 5);
    assert_eq!(landing(&grid, 3), 1);
    assert_eq!(landing(&grid, 6), 5);
    // A full column: the coin stays in the top row.
    assert_eq!(landing(&grid, 5), 0);
}

#[test]
fn landing_does_not_look_at_the_top_cell() {
    let grid = grid_of(["R......", ".......", ".......", ".......", ".......", "......."]);
    assert_eq!(landing(&grid, 0), 5);
    let grid = grid_of(["R......", ".......", ".......", "Y......", ".......", "......."]);
    assert_eq!(landing(&grid, 0), 2);
}

#[test]
fn lines_are_numbered_in_scan_order() {
    // Line 0 starts at the top left and runs across.
    let grid = grid_of(["RRRR...", ".......", ".......", ".......", ".......", "......."]);
    assert_eq!(line_mark_at(&grid, 0), Coin::Red);
    assert_eq!(line_mark_at(&grid, 1), Coin::Empty);
    // Line 23 is the last one across: bottom row, columns 3 to 6.
    let grid = grid_of([".......", ".......", ".......", ".......", ".......", "...YYYY"]);
    assert_eq!(line_mark_at(&grid, 23), Coin::Yellow);
    assert_eq!(line_mark_at(&grid, 22), Coin::Empty);
    // Line 24 is the first one down: column 0 from the top row.
    let grid = grid_of(["Y......", "Y......", "Y......", "Y......", ".......", "......."]);
    assert_eq!(line_mark_at(&grid, 24), Coin::Yellow);
    // Line 44 is the last one down: column 6 from row 2.
    let grid = grid_of([".......", ".......", "......R", "......R", "......R", "......R"]);
    assert_eq!(line_mark_at(&grid, 44), Coin::Red);
    assert_eq!(line_mark_at(&grid, 37), Coin::Empty);
    // Line 45 is the first diagonal that descends to the right.
    let grid = grid_of(["R......", ".R.....", "..R....", "...R...", ".......", "......."]);
    assert_eq!(line_mark_at(&grid, 45), Coin::Red);
    // Line 56 is the last of them: from (2, 3) to (5, 6).
    let grid = grid_of([".......", ".......", "...Y...", "....Y..", ".....Y.", "......Y"]);
    assert_eq!(line_mark_at(&grid, 56), Coin::Yellow);
    // Line 57 is the first diagonal that descends to the left: from (0, 3) to (3, 0).
    let grid = grid_of(["...R...", "..R....", ".R.....", "R......", ".......", "......."]);
    assert_eq!(line_mark_at(&grid, 57), Coin::Red);
    // Line 68 is the last line: from (2, 6) to (5, 3).
    let grid = grid_of([".......", ".......", "......Y", ".....Y.", "....Y..", "...Y..."]);
    assert_eq!(line_mark_at(&grid, 68), Coin::Yellow);
}

#[test]
fn a_line_of_empty_cells_is_no_line() {
    let grid = grid_of([".......", ".......", ".......", ".......", ".......", "......."]);
    let mut k = 0;
    while k < LINE_COUNT {
        assert_eq!(line_mark_at(&grid, k), Coin::Empty);
        k += 1;
    }
    assert_eq!(find_winner(&grid), Coin::Empty);
    assert!(!any_line(&grid, Coin::Red));
    assert!(!any_line(&grid, Coin::Yellow));
}

#[test]
fn three_in_a_row_is_no_line() {
    let grid = grid_of([".......", ".......", ".......", "R......", "R..Y...", "R.YYY.R"]);
    assert_eq!(find_winner(&grid), Coin::Empty);
    let grid = grid_of([".......", ".......", ".......", "..R....", ".RY....", "RYY...."]);
    assert_eq!(find_winner(&grid), Coin::Empty);
}

#[test]
fn mixed_four_is_no_line() {
    let grid = grid_of([".......", ".......", ".......", ".......", ".......", "RRYRRYR"]);
    assert_eq!(find_winner(&grid), Coin::Empty);
    let grid = grid_of([".......", ".......", "R......", "R......", "Y......", "R......"]);
    assert_eq!(find_winner(&grid), Coin::Empty);
}

#[test]
fn line_down_the_last_column_is_found() {
    let grid = grid_of([".......", ".......", "......Y", "......Y", "......Y", "......Y"]);
    assert_eq!(find_winner(&grid), Coin::Yellow);
    assert!(any_line(&grid, Coin::Yellow));
    assert!(!any_line(&grid, Coin::Red));
    let grid = grid_of(["......R", "......R", "......R", "......R", "......Y", "......Y"]);
    assert_eq!(find_winner(&grid), Coin::Red);
}

#[test]
fn lines_in_every_direction_are_found() {
    let across = grid_of([".......", ".......", ".......", ".......", ".......", "..YYYY."]);
    assert_eq!(find_winner(&across), Coin::Yellow);
    let down = grid_of([".......", ".......", "...R...", "...R...", "...R...", "...R..."]);
    assert_eq!(find_winner(&down), Coin::Red);
    let falling = grid_of([".......", "..R....", "...R...", "....R..", ".....R.", "......."]);
    assert_eq!(find_winner(&falling), Coin::Red);
    let rising = grid_of([".......", ".......", ".....Y.", "....Y..", "...Y...", "..Y...."]);
    assert_eq!(find_winner(&rising), Coin::Yellow);
}

#[test]
fn the_first_line_in_scan_order_decides() {
    // A yellow line across in row 0 comes before a red line across in row 5.
    let grid = grid_of(["YYYY...", ".......", ".......", ".......", ".......", "RRRR..."]);
    assert_eq!(find_winner(&grid), Coin::Yellow);
    assert!(any_line(&grid, Coin::Red));
    assert!(any_line(&grid, Coin::Yellow));
    // Lines across come before lines down.
    let grid = grid_of(["Y......", "Y......", "Y......", "Y......", ".......", "...RRRR"]);
    assert_eq!(find_winner(&grid), Coin::Red);
    // Lines down come before diagonals.
    let grid = grid_of(["R......", ".R....Y", "..R...Y", "...R..Y", "......Y", "......."]);
    assert_eq!(find_winner(&grid), Coin::Yellow);
    // Diagonals that descend to the right come before those that descend to the left.
    let grid = grid_of(["...Y...", "..Y....", ".Y.R...", "Y...R..", ".....R.", "......R"]);
    assert_eq!(find_winner(&grid), Coin::Red);
}

#[test]
fn top_row_is_full_only_with_seven_coins() {
    let grid = grid_of(["RYRYRYR", ".......", ".......", ".......", ".......", "......."]);
    assert!(top_row_full(&grid));
    let grid = grid_of(["RYRY.YR", "RRRRRRR", "RRRRRRR", "RRRRRRR", "RRRRRRR", "RRRRRRR"]);
    assert!(!top_row_full(&grid));
    let grid = grid_of([".......", ".......", ".......", ".......", ".......", "......."]);
    assert!(!top_row_full(&grid));
}

#[test]
fn grid_shape_is_six_rows_of_seven() {
    let grid = grid_of([".......", ".......", ".......", ".......", ".......", "......."]);
    assert!(has_grid_shape(&grid));
    let mut short = grid.clone();
    short.pop();
    assert!(!has_grid_shape(&short));
    let mut long = grid.clone();
    long.push(vec![Coin::Empty; 7]);
    assert!(!has_grid_shape(&long));
    let mut narrow = grid.clone();
    narrow[3].pop();
    assert!(!has_grid_shape(&narrow));
    let mut wide = grid.clone();
    wide[5].push(Coin::Red);
    assert!(!has_grid_shape(&wide));
    assert!(!has_grid_shape(&Vec::new()));
}
