use blackout::color::ColorId;
use blackout::grid::{GameGrid, COLS, ROWS};

fn fill_row(grid: &mut GameGrid, row: usize, colors: &[ColorId]) {
    for (column, color) in colors.iter().enumerate() {
        grid.fill_space(row, column, *color);
    }
}

fn fill_column(grid: &mut GameGrid, column: usize, colors: &[ColorId]) {
    for (row, color) in colors.iter().enumerate() {
        grid.fill_space(row, column, *color);
    }
}

const W: ColorId = ColorId::White;
const D: ColorId = ColorId::DarkBlue;
const L: ColorId = ColorId::LightBlue;

#[test]
fn empty_board_has_no_run() {
    let grid = GameGrid::new();
    assert_eq!(grid.check_blackout_horiz(), None);
    assert_eq!(grid.check_blackout_vert(), None);
}

#[test]
fn four_in_a_row_starts_at_column_zero() {
    let mut grid = GameGrid::new();
    fill_row(&mut grid, 6, &[W, W, W, W, D]);
    assert_eq!(grid.check_blackout_horiz(), Some((6, 0)));
    assert_eq!(grid.check_blackout_vert(), None);
}

#[test]
fn three_in_a_row_is_no_run() {
    let mut grid = GameGrid::new();
    fill_row(&mut grid, 0, &[W, W, W, D, W]);
    assert_eq!(grid.check_blackout_horiz(), None);
}

#[test]
fn run_in_mid_row_reports_its_first_cell() {
    let mut grid = GameGrid::new();
    fill_row(&mut grid, 3, &[D, W, D, L, L, L, L, W, W, W]);
    assert_eq!(grid.check_blackout_horiz(), Some((3, 3)));
}

#[test]
fn run_at_the_end_of_a_row() {
    let mut grid = GameGrid::new();
    fill_row(&mut grid, 19, &[D, W, D, W, D, W, L, L, L, L]);
    assert_eq!(grid.check_blackout_horiz(), Some((19, 6)));
}

#[test]
fn five_in_a_row_reports_the_first_four() {
    let mut grid = GameGrid::new();
    fill_row(&mut grid, 2, &[D, W, W, W, W, W, D]);
    assert_eq!(grid.check_blackout_horiz(), Some((2, 1)));
}

#[test]
fn horizontal_scan_reports_the_first_row() {
    let mut grid = GameGrid::new();
    fill_row(&mut grid, 9, &[W, W, W, W]);
    fill_row(&mut grid, 4, &[D, D, D, D, D, D, L, L, L, L]);
    // row 4 comes before row 9, and in row 4 the run that ends first
    assert_eq!(grid.check_blackout_horiz(), Some((4, 0)));
}

#[test]
fn horizontal_scan_reports_the_leftmost_run_of_a_row() {
    let mut grid = GameGrid::new();
    fill_row(&mut grid, 0, &[D, W, W, W, W, L, L, L, L, D]);
    assert_eq!(grid.check_blackout_horiz(), Some((0, 1)));
}

#[test]
fn unfilled_cell_breaks_a_run() {
    let mut grid = GameGrid::new();
    fill_row(&mut grid, 0, &[W, W, W, W]);
    // give an unfilled cell the colour of its neighbours
    fill_row(&mut grid, 1, &[D, W, W, W]);
    grid.swap_colors((1, 0), (1, 4));
    grid.swap_colors((1, 4), (0, 2));
    // row 0 is now W W D W with every cell filled; row 1 is (none) W W W
    // followed by an unfilled W
    assert_eq!(grid.color_at(1, 4), Ok(Some(W)));
    assert!(!grid.is_filled(1, 4));
    assert_eq!(grid.check_blackout_horiz(), None);
}

#[test]
fn unfilled_cell_does_not_start_a_run() {
    let mut grid = GameGrid::new();
    grid.fill_space(5, 1, W);
    grid.fill_space(5, 2, W);
    grid.fill_space(5, 3, W);
    grid.fill_space(9, 9, W);
    // hand the colour of (9, 9) to the unfilled cell (5, 0)
    grid.swap_colors((9, 9), (5, 0));
    assert_eq!(grid.color_at(5, 0), Ok(Some(W)));
    assert!(!grid.is_filled(5, 0));
    // row 5: an unfilled W, then three filled W
    assert_eq!(grid.check_blackout_horiz(), None);
    grid.fill_space(5, 0, W);
    assert_eq!(grid.check_blackout_horiz(), Some((5, 0)));
}

#[test]
fn filled_cells_without_a_color_make_no_run() {
    let mut grid = GameGrid::new();
    fill_row(&mut grid, 0, &[W, W, W, W]);
    for column in 0..4 {
        // hand each colour to an unfilled cell of another row
        grid.swap_colors((0, column), (10, column));
    }
    for column in 0..4 {
        assert!(grid.is_filled(0, column));
        assert_eq!(grid.color_at(0, column), Ok(None));
    }
    assert_eq!(grid.check_blackout_horiz(), None);
    assert_eq!(grid.check_blackout_vert(), None);
}

#[test]
fn black_cells_make_no_run() {
    let mut grid = GameGrid::new();
    fill_row(&mut grid, 0, &[ColorId::Black; 10]);
    fill_column(&mut grid, 0, &[ColorId::Black; 20]);
    assert_eq!(grid.check_blackout_horiz(), None);
    assert_eq!(grid.check_blackout_vert(), None);
}

#[test]
fn black_cell_breaks_a_run() {
    let mut grid = GameGrid::new();
    fill_row(&mut grid, 0, &[W, W, W, W, W, W, W]);
    grid.set_black(0, 3);
    assert_eq!(grid.check_blackout_horiz(), None);
    fill_column(&mut grid, 9, &[D, D, D, D, D, D, D]);
    grid.set_black(3, 9);
    assert_eq!(grid.check_blackout_vert(), None);
}

#[test]
fn four_in_a_column_reports_its_first_cell() {
    let mut grid = GameGrid::new();
    fill_column(&mut grid, 5, &[D, W, W, W, W, D]);
    assert_eq!(grid.check_blackout_vert(), Some((1, 5)));
    assert_eq!(grid.check_blackout_horiz(), None);
}

#[test]
fn three_in_a_column_is_no_run() {
    let mut grid = GameGrid::new();
    fill_column(&mut grid, 0, &[W, W, W, D, W, W, W, D]);
    assert_eq!(grid.check_blackout_vert(), None);
}

#[test]
fn run_at_the_end_of_a_column() {
    let mut grid = GameGrid::new();
    for row in 16..ROWS {
        grid.fill_space(row, COLS - 1, L);
    }
    assert_eq!(grid.check_blackout_vert(), Some((16, 9)));
}

#[test]
fn vertical_scan_reports_the_first_column() {
    let mut grid = GameGrid::new();
    // column 7 holds a run in rows 0..4, column 2 one in rows 10..14
    fill_column(&mut grid, 7, &[W, W, W, W]);
    for row in 10..14 {
        grid.fill_space(row, 2, D);
    }
    assert_eq!(grid.check_blackout_vert(), Some((10, 2)));
}

#[test]
fn vertical_scan_reports_the_first_run_of_a_column() {
    let mut grid = GameGrid::new();
    fill_column(&mut grid, 4, &[D, W, W, W, W, L, L, L, L, L]);
    assert_eq!(grid.check_blackout_vert(), Some((1, 4)));
}

#[test]
fn runs_do_not_wrap_around() {
    let mut grid = GameGrid::new();
    // end of row 0 and start of row 1
    grid.fill_space(0, 8, W);
    grid.fill_space(0, 9, W);
    grid.fill_space(1, 0, W);
    grid.fill_space(1, 1, W);
    // end of column 0 and start of column 1
    grid.fill_space(18, 0, D);
    grid.fill_space(19, 0, D);
    grid.fill_space(0, 1, D);
    grid.fill_space(1, 2, D);
    assert_eq!(grid.check_blackout_horiz(), None);
    assert_eq!(grid.check_blackout_vert(), None);
}

#[test]
fn scans_change_nothing() {
    let mut grid = GameGrid::new();
    fill_row(&mut grid, 0, &[W, W, W, W]);
    let before = grid;
    assert_eq!(grid.check_blackout_horiz(), Some((0, 0)));
    assert_eq!(grid.check_blackout_horiz(), Some((0, 0)));
    assert_eq!(grid, before);
}
