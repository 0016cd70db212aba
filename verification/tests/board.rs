use blackout::color::ColorId;
use blackout::error::GameError;
use blackout::grid::{GameGrid, Space, CELLS, COLS, ROWS, RUN_LENGTH};

#[test]
fn board_dimensions() {
    assert_eq!(ROWS, 20);
    assert_eq!(COLS, 10);
    assert_eq!(CELLS, ROWS * COLS);
    assert_eq!(RUN_LENGTH, 4);
}

#[test]
fn new_space_is_unfilled() {
    let space = Space::new(Some(ColorId::White));
    assert_eq!(space.color, Some(ColorId::White));
    assert!(!space.filled);
    assert_eq!(Space::new(None), Space { color: None, filled: false });
}

#[test]
fn new_board_is_empty() {
    let grid = GameGrid::new();
    for row in 0..ROWS {
        for column in 0..COLS {
            assert_eq!(grid.color_at(row, column), Ok(None));
            assert!(!grid.is_filled(row, column));
            assert!(!grid.color_is_black(row, column));
        }
    }
}

#[test]
fn fill_sets_color_and_flag() {
    let mut grid = GameGrid::new();
    grid.fill_space(3, 7, ColorId::DarkBlue);
    assert_eq!(grid.color_at(3, 7), Ok(Some(ColorId::DarkBlue)));
    assert!(grid.is_filled(3, 7));
    // (row, column), not (column, row)
    assert_eq!(grid.color_at(7, 3), Ok(None));
    assert!(!grid.is_filled(7, 3));
}

#[test]
fn fill_touches_one_cell_only() {
    let mut grid = GameGrid::new();
    grid.fill_space(19, 9, ColorId::WhiteOrange);
    let mut expected = GameGrid::new();
    for row in 0..ROWS {
        for column in 0..COLS {
            if (row, column) != (19, 9) {
                assert_eq!(grid.color_at(row, column), expected.color_at(row, column));
                assert_eq!(grid.is_filled(row, column), false);
            }
        }
    }
    expected.fill_space(19, 9, ColorId::WhiteOrange);
    assert_eq!(grid, expected);
}

#[test]
fn fill_overwrites() {
    let mut grid = GameGrid::new();
    grid.fill_space(0, 0, ColorId::White);
    grid.fill_space(0, 0, ColorId::LightOrange);
    assert_eq!(grid.color_at(0, 0), Ok(Some(ColorId::LightOrange)));
    assert!(grid.is_filled(0, 0));
}

#[test]
fn fill_off_board_is_ignored() {
    let mut grid = GameGrid::new();
    grid.fill_space(1, 1, ColorId::White);
    let before = grid;
    grid.fill_space(ROWS, 0, ColorId::DarkBlue);
    grid.fill_space(0, COLS, ColorId::DarkBlue);
    grid.fill_space(ROWS, COLS, ColorId::DarkBlue);
    grid.fill_space(usize::MAX, usize::MAX, ColorId::DarkBlue);
    // a column index that would be a valid row index
    grid.fill_space(5, 15, ColorId::DarkBlue);
    assert_eq!(grid, before);
}

#[test]
fn set_black_keeps_filled_flag() {
    let mut grid = GameGrid::new();
    grid.fill_space(4, 4, ColorId::White);
    grid.set_black(4, 4);
    assert_eq!(grid.color_at(4, 4), Ok(Some(ColorId::Black)));
    assert!(grid.is_filled(4, 4));
    assert!(grid.color_is_black(4, 4));

    grid.set_black(5, 5);
    assert_eq!(grid.color_at(5, 5), Ok(Some(ColorId::Black)));
    assert!(!grid.is_filled(5, 5));
    assert!(grid.color_is_black(5, 5));
}

#[test]
fn set_black_off_board_is_ignored() {
    let mut grid = GameGrid::new();
    grid.fill_space(0, 0, ColorId::White);
    let before = grid;
    grid.set_black(ROWS, 0);
    grid.set_black(0, COLS);
    grid.set_black(12, 12);
    grid.set_black(usize::MAX, 0);
    assert_eq!(grid, before);
}

#[test]
fn color_is_black_only_for_black() {
    let mut grid = GameGrid::new();
    grid.fill_space(0, 0, ColorId::White);
    grid.fill_space(0, 1, ColorId::Black);
    assert!(!grid.color_is_black(0, 0));
    assert!(grid.color_is_black(0, 1));
    assert!(!grid.color_is_black(0, 2));
}

#[test]
fn color_is_black_off_board_is_false() {
    let mut grid = GameGrid::new();
    for row in 0..ROWS {
        for column in 0..COLS {
            grid.set_black(row, column);
        }
    }
    assert!(grid.color_is_black(ROWS - 1, COLS - 1));
    assert!(!grid.color_is_black(ROWS, 0));
    assert!(!grid.color_is_black(0, COLS));
    assert!(!grid.color_is_black(usize::MAX, usize::MAX));
}

#[test]
fn color_at_off_board_is_out_of_range() {
    let grid = GameGrid::new();
    assert_eq!(grid.color_at(ROWS, 0), Err(GameError::OutOfRange));
    assert_eq!(grid.color_at(0, COLS), Err(GameError::OutOfRange));
    assert_eq!(grid.color_at(usize::MAX, 3), Err(GameError::OutOfRange));
    assert_eq!(grid.color_at(ROWS - 1, COLS - 1), Ok(None));
}

#[test]
fn is_filled_off_board_is_false() {
    let mut grid = GameGrid::new();
    grid.fill_space(ROWS - 1, COLS - 1, ColorId::White);
    assert!(grid.is_filled(ROWS - 1, COLS - 1));
    assert!(!grid.is_filled(ROWS, COLS - 1));
    assert!(!grid.is_filled(ROWS - 1, COLS));
}

#[test]
fn swap_exchanges_colors() {
    let mut grid = GameGrid::new();
    grid.fill_space(2, 3, ColorId::White);
    grid.fill_space(2, 4, ColorId::DarkOrange);
    grid.swap_colors((2, 3), (2, 4));
    assert_eq!(grid.color_at(2, 3), Ok(Some(ColorId::DarkOrange)));
    assert_eq!(grid.color_at(2, 4), Ok(Some(ColorId::White)));
}

#[test]
fn swap_leaves_filled_flags_in_place() {
    let mut grid = GameGrid::new();
    grid.fill_space(0, 0, ColorId::LightBlue);
    grid.swap_colors((0, 0), (10, 5));
    assert_eq!(grid.color_at(0, 0), Ok(None));
    assert!(grid.is_filled(0, 0));
    assert_eq!(grid.color_at(10, 5), Ok(Some(ColorId::LightBlue)));
    assert!(!grid.is_filled(10, 5));
}

#[test]
fn swap_asks_nothing_of_the_cells() {
    // far apart, and one of them black
    let mut grid = GameGrid::new();
    grid.fill_space(0, 0, ColorId::Black);
    grid.fill_space(19, 9, ColorId::White);
    grid.swap_colors((0, 0), (19, 9));
    assert_eq!(grid.color_at(0, 0), Ok(Some(ColorId::White)));
    assert_eq!(grid.color_at(19, 9), Ok(Some(ColorId::Black)));
}

#[test]
fn swap_twice_restores_the_board() {
    let mut grid = GameGrid::new();
    grid.fill_space(5, 5, ColorId::White);
    grid.fill_space(6, 5, ColorId::DarkBlue);
    grid.fill_space(7, 7, ColorId::LightOrange);
    let before = grid;
    grid.swap_colors((5, 5), (6, 5));
    assert_ne!(grid, before);
    grid.swap_colors((5, 5), (6, 5));
    assert_eq!(grid, before);

    grid.swap_colors((5, 5), (7, 7));
    grid.swap_colors((7, 7), (5, 5));
    assert_eq!(grid, before);
}

#[test]
fn swap_with_itself_changes_nothing() {
    let mut grid = GameGrid::new();
    grid.fill_space(5, 5, ColorId::White);
    let before = grid;
    grid.swap_colors((5, 5), (5, 5));
    assert_eq!(grid, before);
}

#[test]
fn swap_off_board_is_ignored() {
    let mut grid = GameGrid::new();
    grid.fill_space(0, 0, ColorId::White);
    grid.fill_space(0, 1, ColorId::DarkBlue);
    let before = grid;
    grid.swap_colors((0, 0), (ROWS, 0));
    grid.swap_colors((0, COLS), (0, 1));
    grid.swap_colors((usize::MAX, 0), (0, usize::MAX));
    assert_eq!(grid, before);
}
