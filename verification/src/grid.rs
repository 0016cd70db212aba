//! The board: a fixed grid of cells, its accessors, the pixel mapping and the
//! scans for runs of four.

use vstd::prelude::*;
use crate::color::ColorId;
use crate::error::GameError;

verus! {

/// Number of rows of the board.
pub const ROWS: usize = 20;

/// Number of columns of the board.
pub const COLS: usize = 10;

/// Number of equal cells in a line that make a run.
pub const RUN_LENGTH: usize = 4;

/// Number of cells of the board.
pub const CELLS: usize = ROWS * COLS;

/// Edge length of a cell in pixels.
pub const CELL_SIZE: usize = 8;

/// Pixel column at which the board's first column starts.
pub const X_ORIGIN: usize = 80;

/// One cell of the board: a colour tag, or none, and whether the cell has
/// been filled.
#[derive(Clone, Copy, Debug, PartialEq, Eq)]
pub struct Space {
    pub color: Option<ColorId>,
    pub filled: bool,
}

/// The mathematical model of a board: `ROWS` rows of `COLS` cells each,
/// indexed `[row][column]`.
pub type Board = Seq<Seq<Space>>;

impl Space {
    /// An unfilled cell carrying `color`.
    pub fn new(color: Option<ColorId>) -> (space: Space)
        ensures
            space == (Space { color, filled: false }),
    {
        Space { color, filled: false }
    }

    /// The cell has been cleared.
    pub open spec fn is_black(self) -> bool {
        self.color == Some(ColorId::Black)
    }

    /// The cell can be part of a run: it is filled and carries a palette
    /// colour.
    pub open spec fn matchable(self) -> bool {
        self.filled && match self.color {
            Some(c) => c.is_palette(),
            None => false,
        }
    }

    /// The same cell with its colour replaced.
    pub open spec fn recolored(self, color: Option<ColorId>) -> Space {
        Space { color, filled: self.filled }
    }
}

/// `(row, column)` names a cell of the board.
pub open spec fn in_bounds(row: int, column: int) -> bool {
    0 <= row < ROWS && 0 <= column < COLS
}

/// The linear index of a cell: its place when the board is walked column by
/// column, each column from row 0 on.
pub open spec fn linear(row: int, column: int) -> int {
    column * ROWS + row
}

/// The cell with the linear index `index`.
pub open spec fn cell_at_linear(b: Board, index: int) -> Space {
    b[index % (ROWS as int)][index / (ROWS as int)]
}

/// `b` has the shape of a board.
pub open spec fn is_board(b: Board) -> bool {
    &&& b.len() == ROWS
    &&& forall|r: int| 0 <= r < ROWS ==> (#[trigger] b[r]).len() == COLS
}

/// The board `b` with the cell at `(row, column)` replaced by `cell`; `b`
/// itself where the position is off the board.
pub open spec fn with_cell(b: Board, row: int, column: int, cell: Space) -> Board {
    if in_bounds(row, column) {
        b.update(row, b[row].update(column, cell))
    } else {
        b
    }
}

/// The board `b` with the colours of the cells `first` and `second`
/// exchanged and their filled flags left in place; `b` itself where either
/// position is off the board.
pub open spec fn swap_cells(b: Board, first: (int, int), second: (int, int)) -> Board {
    if in_bounds(first.0, first.1) && in_bounds(second.0, second.1) {
        let one = b[first.0][first.1];
        let two = b[second.0][second.1];
        with_cell(
            with_cell(b, first.0, first.1, one.recolored(two.color)),
            second.0,
            second.1,
            two.recolored(one.color),
        )
    } else {
        b
    }
}

/// The position of a cell as the contracts speak of it.
pub open spec fn at(cell: (usize, usize)) -> (int, int) {
    (cell.0 as int, cell.1 as int)
}

/// The board `b` with the cell at `(row, column)` turned black and its
/// filled flag left in place; `b` itself where the position is off the board.
pub open spec fn blacked(b: Board, row: int, column: int) -> Board {
    with_cell(b, row, column, b[row][column].recolored(Some(ColorId::Black)))
}

/// Four filled cells of one palette colour lie side by side in row `row`,
/// the leftmost of them in column `column`.
pub open spec fn horizontal_run_at(b: Board, row: int, column: int) -> bool {
    &&& 0 <= row < ROWS
    &&& 0 <= column <= COLS - RUN_LENGTH
    &&& b[row][column].matchable()
    &&& forall|j: int|
        column <= j < column + RUN_LENGTH ==> (#[trigger] b[row][j]).filled && b[row][j].color
            == b[row][column].color
}

/// Four filled cells of one palette colour lie one above the other in
/// column `column`, the first of them in row `row`.
pub open spec fn vertical_run_at(b: Board, row: int, column: int) -> bool {
    &&& 0 <= column < COLS
    &&& 0 <= row <= ROWS - RUN_LENGTH
    &&& b[row][column].matchable()
    &&& forall|i: int|
        row <= i < row + RUN_LENGTH ==> (#[trigger] b[i][column]).filled && b[i][column].color
            == b[row][column].color
}

/// `found` is what the horizontal scan reports on `b`: the first run in
/// scanning order (rows from the first to the last, each from left to right),
/// or nothing where no row holds a run.
pub open spec fn first_horizontal_run(b: Board, found: Option<(usize, usize)>) -> bool {
    match found {
        Some((row, column)) => {
            &&& horizontal_run_at(b, row as int, column as int)
            &&& forall|r: int, c: int| #[trigger]
                horizontal_run_at(b, r, c) ==> r > row || (r == row && c >= column)
        },
        None => forall|r: int, c: int| !#[trigger] horizontal_run_at(b, r, c),
    }
}

/// `found` is what the vertical scan reports on `b`: the first run in
/// scanning order (columns from the first to the last, each from row 0 on),
/// or nothing where no column holds a run.
pub open spec fn first_vertical_run(b: Board, found: Option<(usize, usize)>) -> bool {
    match found {
        Some((row, column)) => {
            &&& vertical_run_at(b, row as int, column as int)
            &&& forall|r: int, c: int| #[trigger]
                vertical_run_at(b, r, c) ==> c > column || (c == column && r >= row)
        },
        None => forall|r: int, c: int| !#[trigger] vertical_run_at(b, r, c),
    }
}

/// The cell on which the pixel `(x, y)` falls, as `(row, column)`. Pixel
/// columns count from the left and the board's first column starts at
/// `X_ORIGIN`; pixel rows count from 0 at the board's last row, so the row is
/// flipped. Each cell covers `CELL_SIZE` pixels either way, and a pixel's
/// offset inside its cell is cut off.
///
/// A pixel left of the board's first column, or `ROWS` cells or more along
/// the pixel rows, lies before every cell and has none. A pixel right of the
/// last column has a column off the board.
pub open spec fn cell_of_pixel(x: int, y: int) -> Option<(int, int)> {
    if x < X_ORIGIN || y / (CELL_SIZE as int) >= ROWS {
        None
    } else {
        Some((ROWS - 1 - y / (CELL_SIZE as int), (x - X_ORIGIN) / (CELL_SIZE as int)))
    }
}

/// The pixel at which the cell `(row, column)` is drawn, as `(x, y)`.
pub open spec fn pixel_of_cell(row: int, column: int) -> (int, int) {
    (X_ORIGIN + column * CELL_SIZE, (ROWS - 1 - row) * CELL_SIZE)
}

/// Maps a pixel position to the cell drawn there, as `(row, column)`. The
/// column is not checked against `COLS`: a pixel right of the board maps to a
/// column off the board. A pixel that lies before every cell maps to none.
pub fn screen_to_grid(x: usize, y: usize) -> (cell: Option<(usize, usize)>)
    ensures
        match cell {
            Some(c) => cell_of_pixel(x as int, y as int) == Some(at(c)),
            None => cell_of_pixel(x as int, y as int) is None,
        },
{
    if x < X_ORIGIN || y / CELL_SIZE >= ROWS {
        None
    } else {
        Some((ROWS - 1 - y / CELL_SIZE, (x - X_ORIGIN) / CELL_SIZE))
    }
}

/// The pixel at which the cell `(row, column)` is drawn, as `(x, y)`: the
/// one with the least coordinates among those that `screen_to_grid` maps to
/// the cell. There is none for a position off the board.
pub fn grid_to_screen(row: usize, column: usize) -> (pixel: Option<(usize, usize)>)
    ensures
        match pixel {
            Some(p) => in_bounds(row as int, column as int) && at(p) == pixel_of_cell(
                row as int,
                column as int,
            ),
            None => !in_bounds(row as int, column as int),
        },
{
    if row < ROWS && column < COLS {
        Some((X_ORIGIN + column * CELL_SIZE, (ROWS - 1 - row) * CELL_SIZE))
    } else {
        None
    }
}

/// The pixels that map to a cell of the board are those of the square that
/// starts at the cell's own pixel and is `CELL_SIZE` wide and high.
pub proof fn lemma_pixels_of_cell(row: int, column: int, x: int, y: int)
    requires
        in_bounds(row, column),
        0 <= x,
        0 <= y,
    ensures
        cell_of_pixel(x, y) == Some((row, column)) <==> {
            let (left, top) = pixel_of_cell(row, column);
            left <= x < left + CELL_SIZE && top <= y < top + CELL_SIZE
        },
{
}

/// One step of a scan along a line. `count` cells just before `cell` formed
/// a streak of the colour `last` (`count` is 0 where there was none); the
/// result is the streak that ends with `cell`: one longer where `cell`
/// continues it, of length 1 where `cell` starts a new one, and of length 0
/// where `cell` cannot be part of a run.
fn extend_streak(cell: Space, count: usize, last: ColorId) -> (next: (usize, ColorId))
    requires
        count < RUN_LENGTH,
    ensures
        !cell.matchable() ==> next.0 == 0,
        cell.matchable() ==> cell.color == Some(next.1) && next.0 == if count > 0 && cell.color
            == Some(last) {
            count + 1
        } else {
            1
        },
{
    if cell.filled {
        if let Some(color) = cell.color {
            if !color.is_black() {
                if count > 0 && color == last {
                    return (count + 1, last);
                }
                return (1, color);
            }
        }
    }
    (0, last)
}

/// The board of the game: `ROWS` rows of `COLS` cells.
#[derive(Clone, Copy, Debug, PartialEq, Eq)]
pub struct GameGrid {
    grid: [[Space; COLS]; ROWS],
}

impl View for GameGrid {
    type V = Board;

    closed spec fn view(&self) -> Board {
        Seq::new(ROWS as nat, |r: int| self.grid[r]@)
    }
}

impl GameGrid {
    /// Every grid has the shape of a board.
    pub proof fn lemma_shape(&self)
        ensures
            is_board(self@),
    {
    }

    /// A board on which no cell is filled or coloured.
    pub fn new() -> (g: GameGrid)
        ensures
            is_board(g@),
            forall|r: int, c: int|
                in_bounds(r, c) ==> (#[trigger] g@[r][c]) == (Space { color: None, filled: false }),
    {
        GameGrid { grid: [[Space::new(None); COLS]; ROWS] }
    }

    /// Gives the cell at `(row, column)` the colour `color` and marks it
    /// filled. A position off the board is ignored.
    pub fn fill_space(&mut self, row: usize, column: usize, color: ColorId)
        ensures
            final(self)@ == with_cell(
                old(self)@,
                row as int,
                column as int,
                Space { color: Some(color), filled: true },
            ),
    {
        if row < ROWS && column < COLS {
            self.grid[row][column].filled = true;
            self.grid[row][column].color = Some(color);
            assert(self@ =~~= with_cell(
                old(self)@,
                row as int,
                column as int,
                Space { color: Some(color), filled: true },
            ));
        }
    }

    /// Turns the cell at `(row, column)` black; whether it is filled stays as
    /// it was. A position off the board is ignored.
    pub fn set_black(&mut self, row: usize, column: usize)
        ensures
            final(self)@ == blacked(old(self)@, row as int, column as int),
    {
        if row < ROWS && column < COLS {
            self.grid[row][column].color = Some(ColorId::Black);
        }
    }

    /// Whether the cell at `(row, column)` is black. No cell off the board is.
    pub fn color_is_black(&self, row: usize, column: usize) -> (black: bool)
        ensures
            black == (in_bounds(row as int, column as int)
                && self@[row as int][column as int].is_black()),
    {
        if row < ROWS && column < COLS {
            match self.grid[row][column].color {
                Some(color) => color.is_black(),
                None => false,
            }
        } else {
            false
        }
    }

    /// The colour of the cell at `(row, column)`, `None` for a cell without
    /// one.
    pub fn color_at(&self, row: usize, column: usize) -> (color: Result<
        Option<ColorId>,
        GameError,
    >)
        ensures
            color == if in_bounds(row as int, column as int) {
                Ok::<Option<ColorId>, GameError>(self@[row as int][column as int].color)
            } else {
                Err::<Option<ColorId>, GameError>(GameError::OutOfRange)
            },
    {
        if row < ROWS && column < COLS {
            Ok(self.grid[row][column].color)
        } else {
            Err(GameError::OutOfRange)
        }
    }

    /// Whether the cell at `(row, column)` has been filled. No cell off the
    /// board has.
    pub fn is_filled(&self, row: usize, column: usize) -> (filled: bool)
        ensures
            filled == (in_bounds(row as int, column as int)
                && self@[row as int][column as int].filled),
    {
        row < ROWS && column < COLS && self.grid[row][column].filled
    }

    /// Exchanges the colours of the cells `first` and `second`, each given as
    /// `(row, column)`. The filled flags stay where they are, and nothing is
    /// asked of the two cells but that they lie on the board: where one does
    /// not, nothing is changed.
    pub fn swap_colors(&mut self, first: (usize, usize), second: (usize, usize))
        ensures
            final(self)@ == swap_cells(old(self)@, at(first), at(second)),
    {
        if first.0 < ROWS && first.1 < COLS && second.0 < ROWS && second.1 < COLS {
            let one = self.grid[first.0][first.1].color;
            let two = self.grid[second.0][second.1].color;
            self.grid[first.0][first.1].color = two;
            self.grid[second.0][second.1].color = one;
        }
    }

    /// Scans the rows for four equal cells side by side and reports where
    /// the first such run starts, as `(row, column)` of its leftmost cell.
    pub fn check_blackout_horiz(&self) -> (found: Option<(usize, usize)>)
        ensures
            first_horizontal_run(self@, found),
    {
        let mut row: usize = 0;
        while row < ROWS
            invariant
                row <= ROWS,
                forall|r: int, c: int| 0 <= r < row ==> !#[trigger] horizontal_run_at(self@, r, c),
            decreases ROWS - row,
        {
            let mut count: usize = 0;
            let mut last: ColorId = ColorId::Black;
            let mut column: usize = 0;
            while column < COLS
                invariant
                    row < ROWS,
                    column <= COLS,
                    count < RUN_LENGTH,
                    count <= column,
                    forall|r: int, c: int|
                        0 <= r < row ==> !#[trigger] horizontal_run_at(self@, r, c),
                    forall|c: int|
                        c + RUN_LENGTH <= column ==> !#[trigger] horizontal_run_at(
                            self@,
                            row as int,
                            c,
                        ),
                    forall|j: int|
                        column - count <= j < column ==> (
                        #[trigger] self@[row as int][j]).matchable() && self@[row as int][j].color
                            == Some(last),
                    count < column ==> {
                        let before = self@[row as int][column - count - 1];
                        !before.matchable() || (count > 0 && before.color != Some(last))
                    },
                decreases COLS - column,
            {
                let cell = self.grid[row][column];
                let (next_count, next_last) = extend_streak(cell, count, last);
                count = next_count;
                last = next_last;
                if count == RUN_LENGTH {
                    let start = column + 1 - RUN_LENGTH;
                    return Some((row, start));
                }
                column += 1;
            }
            row += 1;
        }
        None
    }

    /// Scans the columns for four equal cells one above the other and reports
    /// where the first such run starts, as `(row, column)` of its first cell.
    pub fn check_blackout_vert(&self) -> (found: Option<(usize, usize)>)
        ensures
            first_vertical_run(self@, found),
    {
        let mut column: usize = 0;
        while column < COLS
            invariant
                column <= COLS,
                forall|r: int, c: int| 0 <= c < column ==> !#[trigger] vertical_run_at(self@, r, c),
            decreases COLS - column,
        {
            let mut count: usize = 0;
            let mut last: ColorId = ColorId::Black;
            let mut row: usize = 0;
            while row < ROWS
                invariant
                    column < COLS,
                    row <= ROWS,
                    count < RUN_LENGTH,
                    count <= row,
                    forall|r: int, c: int|
                        0 <= c < column ==> !#[trigger] vertical_run_at(self@, r, c),
                    forall|r: int|
                        r + RUN_LENGTH <= row ==> !#[trigger] vertical_run_at(
                            self@,
                            r,
                            column as int,
                        ),
                    forall|i: int|
                        row - count <= i < row ==> (#[trigger] self@[i][column as int]).matchable()
                            && self@[i][column as int].color == Some(last),
                    count < row ==> {
                        let before = self@[row - count - 1][column as int];
                        !before.matchable() || (count > 0 && before.color != Some(last))
                    },
                decreases ROWS - row,
            {
                let cell = self.grid[row][column];
                assert(cell == self@[row as int][column as int]);
                let (next_count, next_last) = extend_streak(cell, count, last);
                count = next_count;
                last = next_last;
                if count == RUN_LENGTH {
                    let start = row + 1 - RUN_LENGTH;
                    return Some((start, column));
                }
                row += 1;
            }
            column += 1;
        }
        None
    }
}

/// Exchanging two cells gives each the other's colour and changes no other
/// cell and no filled flag.
pub proof fn lemma_swap_exchanges(b: Board, first: (int, int), second: (int, int))
    requires
        is_board(b),
        in_bounds(first.0, first.1),
        in_bounds(second.0, second.1),
    ensures
        is_board(swap_cells(b, first, second)),
        swap_cells(b, first, second)[first.0][first.1] == b[first.0][first.1].recolored(
            b[second.0][second.1].color,
        ),
        swap_cells(b, first, second)[second.0][second.1] == b[second.0][second.1].recolored(
            b[first.0][first.1].color,
        ),
        forall|r: int, c: int|
            in_bounds(r, c) && (r, c) != first && (r, c) != second ==> #[trigger] swap_cells(
                b,
                first,
                second,
            )[r][c] == b[r][c],
{
}

/// Exchanging the same two cells twice gives back the board as it was.
pub proof fn lemma_swap_twice(b: Board, first: (int, int), second: (int, int))
    requires
        is_board(b),
    ensures
        swap_cells(swap_cells(b, first, second), first, second) == b,
{
    assert(swap_cells(swap_cells(b, first, second), first, second) =~~= b);
}

/// A black cell lies in no run: not in one along its row and not in one
/// along its column.
pub proof fn lemma_black_breaks_runs(b: Board, row: int, column: int)
    requires
        in_bounds(row, column),
        b[row][column].is_black(),
    ensures
        forall|start: int|
            start <= column < start + RUN_LENGTH ==> !#[trigger] horizontal_run_at(b, row, start),
        forall|start: int|
            start <= row < start + RUN_LENGTH ==> !#[trigger] vertical_run_at(b, start, column),
{
}

/// The horizontal scan can report one thing only.
pub proof fn lemma_one_horizontal_report(
    b: Board,
    one: Option<(usize, usize)>,
    other: Option<(usize, usize)>,
)
    requires
        first_horizontal_run(b, one),
        first_horizontal_run(b, other),
    ensures
        one == other,
{
}

/// The vertical scan can report one thing only.
pub proof fn lemma_one_vertical_report(
    b: Board,
    one: Option<(usize, usize)>,
    other: Option<(usize, usize)>,
)
    requires
        first_vertical_run(b, one),
        first_vertical_run(b, other),
    ensures
        one == other,
{
}

/// What is asked of a position off the board changes nothing: a cell put
/// there, a cell turned black there and an exchange with a cell there all
/// leave the board as it was.
pub proof fn lemma_off_board_is_ignored(
    b: Board,
    row: int,
    column: int,
    cell: Space,
    other: (int, int),
)
    requires
        !in_bounds(row, column),
    ensures
        with_cell(b, row, column, cell) == b,
        blacked(b, row, column) == b,
        swap_cells(b, (row, column), other) == b,
        swap_cells(b, other, (row, column)) == b,
{
}

/// A cell that was turned black is black, whatever it was before.
pub proof fn lemma_blacked_is_black(b: Board, row: int, column: int)
    requires
        is_board(b),
        in_bounds(row, column),
    ensures
        is_board(blacked(b, row, column)),
        blacked(b, row, column)[row][column].is_black(),
        blacked(b, row, column)[row][column].filled == b[row][column].filled,
        forall|r: int, c: int|
            in_bounds(r, c) && (r, c) != (row, column) ==> #[trigger] blacked(b, row, column)[r][c]
                == b[r][c],
{
}

/// A scan reports a run exactly where the board holds one, and what it
/// reports is a run: four cells that are filled and of one palette colour.
pub proof fn lemma_report_means_run(
    b: Board,
    horizontal: Option<(usize, usize)>,
    vertical: Option<(usize, usize)>,
)
    requires
        first_horizontal_run(b, horizontal),
        first_vertical_run(b, vertical),
    ensures
        horizontal is Some <==> exists|r: int, c: int| horizontal_run_at(b, r, c),
        vertical is Some <==> exists|r: int, c: int| vertical_run_at(b, r, c),
        horizontal matches Some(start) ==> horizontal_run_at(b, start.0 as int, start.1 as int),
        vertical matches Some(start) ==> vertical_run_at(b, start.0 as int, start.1 as int),
{
}

} // verus!
