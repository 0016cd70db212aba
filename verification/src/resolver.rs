//! Clearing the runs that the scans report, and the score that earns.

use vstd::prelude::*;
use crate::color::ColorId;
use crate::grid::{
    at, first_horizontal_run, first_vertical_run, in_bounds, is_board, Board, GameGrid, COLS,
    ROWS, RUN_LENGTH,
};

verus! {

/// Score earned by each run that is cleared.
pub const RUN_SCORE: u32 = 4;

/// The board `b` with the `len` cells of row `row` from column `column` on
/// turned black, and every other cell as it was.
pub open spec fn row_span_blacked(b: Board, row: int, column: int, len: int) -> Board {
    Seq::new(
        ROWS as nat,
        |r: int|
            Seq::new(
                COLS as nat,
                |c: int|
                    if r == row && column <= c < column + len {
                        b[r][c].recolored(Some(ColorId::Black))
                    } else {
                        b[r][c]
                    },
            ),
    )
}

/// The board `b` with the `len` cells of column `column` from row `row` on
/// turned black, and every other cell as it was.
pub open spec fn column_span_blacked(b: Board, row: int, column: int, len: int) -> Board {
    Seq::new(
        ROWS as nat,
        |r: int|
            Seq::new(
                COLS as nat,
                |c: int|
                    if c == column && row <= r < row + len {
                        b[r][c].recolored(Some(ColorId::Black))
                    } else {
                        b[r][c]
                    },
            ),
    )
}

/// The board after the horizontal scan's report has been acted on: the four
/// cells of the reported run are black; without a report nothing changes.
pub open spec fn clear_horizontal(b: Board, found: Option<(usize, usize)>) -> Board {
    match found {
        Some(start) => row_span_blacked(b, at(start).0, at(start).1, RUN_LENGTH as int),
        None => b,
    }
}

/// The board after the vertical scan's report has been acted on: the four
/// cells of the reported run are black; without a report nothing changes.
pub open spec fn clear_vertical(b: Board, found: Option<(usize, usize)>) -> Board {
    match found {
        Some(start) => column_span_blacked(b, at(start).0, at(start).1, RUN_LENGTH as int),
        None => b,
    }
}

/// What one round of match resolution found: the start of the horizontal run
/// that it cleared and the start of the vertical run that it cleared, each as
/// `(row, column)`.
#[derive(Clone, Copy, Debug, PartialEq, Eq)]
pub struct Resolution {
    pub horizontal: Option<(usize, usize)>,
    pub vertical: Option<(usize, usize)>,
}

impl Resolution {
    /// Number of runs cleared.
    pub open spec fn runs(self) -> int {
        (if self.horizontal is Some {
            1int
        } else {
            0int
        }) + (if self.vertical is Some {
            1int
        } else {
            0int
        })
    }

    /// The score that the cleared runs earn.
    pub fn score_gain(&self) -> (gain: u32)
        ensures
            gain == RUN_SCORE * self.runs(),
    {
        let mut gain: u32 = 0;
        if self.horizontal.is_some() {
            gain += RUN_SCORE;
        }
        if self.vertical.is_some() {
            gain += RUN_SCORE;
        }
        gain
    }
}

/// One round of match resolution takes the board `before` to `after` and
/// reports `found`: the first horizontal run of `before` is cleared, then the
/// first vertical run of what that left, and no more.
pub open spec fn resolves(before: Board, found: Resolution, after: Board) -> bool {
    let between = clear_horizontal(before, found.horizontal);
    &&& first_horizontal_run(before, found.horizontal)
    &&& first_vertical_run(between, found.vertical)
    &&& after == clear_vertical(between, found.vertical)
}

/// Turns the four cells of a horizontal run black.
fn clear_row_run(grid: &mut GameGrid, row: usize, column: usize)
    requires
        row < ROWS,
        column + RUN_LENGTH <= COLS,
    ensures
        final(grid)@ == row_span_blacked(old(grid)@, row as int, column as int, RUN_LENGTH as int),
{
    let ghost before = grid@;
    proof {
        grid.lemma_shape();
        assert(grid@ =~~= row_span_blacked(before, row as int, column as int, 0));
    }
    let mut done: usize = 0;
    while done < RUN_LENGTH
        invariant
            row < ROWS,
            column + RUN_LENGTH <= COLS,
            done <= RUN_LENGTH,
            is_board(before),
            grid@ == row_span_blacked(before, row as int, column as int, done as int),
        decreases RUN_LENGTH - done,
    {
        grid.set_black(row, column + done);
        assert(grid@ =~~= row_span_blacked(before, row as int, column as int, done + 1));
        done += 1;
    }
}

/// Turns the four cells of a vertical run black.
fn clear_column_run(grid: &mut GameGrid, row: usize, column: usize)
    requires
        row + RUN_LENGTH <= ROWS,
        column < COLS,
    ensures
        final(grid)@ == column_span_blacked(
            old(grid)@,
            row as int,
            column as int,
            RUN_LENGTH as int,
        ),
{
    let ghost before = grid@;
    proof {
        grid.lemma_shape();
        assert(grid@ =~~= column_span_blacked(before, row as int, column as int, 0));
    }
    let mut done: usize = 0;
    while done < RUN_LENGTH
        invariant
            row + RUN_LENGTH <= ROWS,
            column < COLS,
            done <= RUN_LENGTH,
            is_board(before),
            grid@ == column_span_blacked(before, row as int, column as int, done as int),
        decreases RUN_LENGTH - done,
    {
        grid.set_black(row + done, column);
        assert(grid@ =~~= column_span_blacked(before, row as int, column as int, done + 1));
        done += 1;
    }
}

/// Runs the horizontal scan and clears the run it reports, then runs the
/// vertical scan on the result and clears the run it reports. Each scan is
/// run once: runs that remain, or that the clearing leaves, stay.
pub fn resolve_matches(grid: &mut GameGrid) -> (found: Resolution)
    ensures
        resolves(old(grid)@, found, final(grid)@),
{
    let horizontal = grid.check_blackout_horiz();
    if let Some((row, column)) = horizontal {
        clear_row_run(grid, row, column);
    }
    let vertical = grid.check_blackout_vert();
    if let Some((row, column)) = vertical {
        clear_column_run(grid, row, column);
    }
    Resolution { horizontal, vertical }
}

/// After a round of match resolution the cells of the runs that it reports
/// are black, and every other cell is as it was.
pub proof fn lemma_cleared_runs_are_black(before: Board, found: Resolution, after: Board)
    requires
        is_board(before),
        resolves(before, found, after),
    ensures
        is_board(after),
        found.horizontal matches Some(start) ==> forall|c: int|
            start.1 <= c < start.1 + RUN_LENGTH ==> (
            #[trigger] after[start.0 as int][c]).is_black(),
        found.vertical matches Some(start) ==> forall|r: int|
            start.0 <= r < start.0 + RUN_LENGTH ==> (
            #[trigger] after[r][start.1 as int]).is_black(),
        forall|r: int, c: int|
            in_bounds(r, c) && !(found.horizontal matches Some(start) && r == start.0 && start.1
                <= c < start.1 + RUN_LENGTH) && !(found.vertical matches Some(start) && c
                == start.1 && start.0 <= r < start.0 + RUN_LENGTH) ==> #[trigger] after[r][c]
                == before[r][c],
        forall|r: int, c: int|
            in_bounds(r, c) ==> (#[trigger] after[r][c]).filled == before[r][c].filled,
{
}

/// A round of match resolution on a given board can end in one way only.
pub proof fn lemma_one_resolution(
    before: Board,
    found: Resolution,
    after: Board,
    other_found: Resolution,
    other_after: Board,
)
    requires
        resolves(before, found, after),
        resolves(before, other_found, other_after),
    ensures
        found == other_found,
        after == other_after,
{
}

} // verus!
