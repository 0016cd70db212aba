//! Counting the cells that have not been cleared. Every run that is cleared
//! takes four of them and earns a score of four, which bounds the score of a
//! session by the size of the board.

use vstd::prelude::*;
use crate::controller::swap_verdict;
use crate::grid::{
    blacked, cell_at_linear, horizontal_run_at, in_bounds, is_board, linear, swap_cells,
    vertical_run_at, Board, CELLS, RUN_LENGTH,
};
use crate::resolver::{
    clear_horizontal, column_span_blacked, resolves, row_span_blacked, Resolution,
};

verus! {

/// Number of cells that are not black among those with a linear index below
/// `bound`.
pub open spec fn live_before(b: Board, bound: int) -> int
    decreases bound,
{
    if bound <= 0 {
        0
    } else {
        live_before(b, bound - 1) + if cell_at_linear(b, bound - 1).is_black() {
            0int
        } else {
            1int
        }
    }
}

/// Number of cells of the board that are not black.
pub open spec fn live_cells(b: Board) -> int {
    live_before(b, CELLS as int)
}

/// No more cells are counted than there are.
pub proof fn lemma_live_bounds(b: Board, bound: int)
    requires
        0 <= bound,
    ensures
        0 <= live_before(b, bound) <= bound,
    decreases bound,
{
    if bound > 0 {
        lemma_live_bounds(b, bound - 1);
    }
}

/// Two boards with the same black cells count alike.
pub proof fn lemma_live_same(b1: Board, b2: Board, bound: int)
    requires
        bound <= CELLS,
        forall|r: int, c: int|
            in_bounds(r, c) ==> (#[trigger] b1[r][c]).is_black() == b2[r][c].is_black(),
    ensures
        live_before(b1, bound) == live_before(b2, bound),
    decreases bound,
{
    if bound > 0 {
        lemma_live_same(b1, b2, bound - 1);
    }
}

/// Turning one cell black that was not takes one off the count, from that
/// cell's linear index on.
pub proof fn lemma_live_blacked(b: Board, row: int, column: int, bound: int)
    requires
        is_board(b),
        in_bounds(row, column),
        !b[row][column].is_black(),
        bound <= CELLS,
    ensures
        live_before(blacked(b, row, column), bound) == live_before(b, bound) - if linear(
            row,
            column,
        ) < bound {
            1int
        } else {
            0int
        },
    decreases bound,
{
    if bound > 0 {
        lemma_live_blacked(b, row, column, bound - 1);
    }
}

/// Clearing a horizontal run takes four cells off the count.
pub proof fn lemma_row_run_cleared(b: Board, row: int, column: int)
    requires
        is_board(b),
        horizontal_run_at(b, row, column),
    ensures
        live_cells(row_span_blacked(b, row, column, RUN_LENGTH as int)) == live_cells(b)
            - RUN_LENGTH,
{
    let b1 = blacked(b, row, column);
    let b2 = blacked(b1, row, column + 1);
    let b3 = blacked(b2, row, column + 2);
    let b4 = blacked(b3, row, column + 3);
    lemma_live_blacked(b, row, column, CELLS as int);
    lemma_live_blacked(b1, row, column + 1, CELLS as int);
    lemma_live_blacked(b2, row, column + 2, CELLS as int);
    lemma_live_blacked(b3, row, column + 3, CELLS as int);
    assert(b4 =~~= row_span_blacked(b, row, column, RUN_LENGTH as int));
}

/// Clearing a vertical run takes four cells off the count.
pub proof fn lemma_column_run_cleared(b: Board, row: int, column: int)
    requires
        is_board(b),
        vertical_run_at(b, row, column),
    ensures
        live_cells(column_span_blacked(b, row, column, RUN_LENGTH as int)) == live_cells(b)
            - RUN_LENGTH,
{
    let b1 = blacked(b, row, column);
    let b2 = blacked(b1, row + 1, column);
    let b3 = blacked(b2, row + 2, column);
    let b4 = blacked(b3, row + 3, column);
    lemma_live_blacked(b, row, column, CELLS as int);
    lemma_live_blacked(b1, row + 1, column, CELLS as int);
    lemma_live_blacked(b2, row + 2, column, CELLS as int);
    lemma_live_blacked(b3, row + 3, column, CELLS as int);
    assert(b4 =~~= column_span_blacked(b, row, column, RUN_LENGTH as int));
}

/// A round of match resolution takes four cells off the count for each run
/// that it clears.
pub proof fn lemma_resolution_census(before: Board, found: Resolution, after: Board)
    requires
        is_board(before),
        resolves(before, found, after),
    ensures
        is_board(after),
        live_cells(after) == live_cells(before) - RUN_LENGTH * found.runs(),
{
    if let Some(start) = found.horizontal {
        lemma_row_run_cleared(before, start.0 as int, start.1 as int);
    }
    if let Some(start) = found.vertical {
        let between = clear_horizontal(before, found.horizontal);
        lemma_column_run_cleared(between, start.0 as int, start.1 as int);
    }
}

/// A swap that the rules allow leaves the count as it was.
pub proof fn lemma_swap_census(b: Board, first: (int, int), second: (int, int))
    requires
        is_board(b),
        swap_verdict(b, first, second) is Ok,
    ensures
        is_board(swap_cells(b, first, second)),
        live_cells(swap_cells(b, first, second)) == live_cells(b),
{
    lemma_live_same(b, swap_cells(b, first, second), CELLS as int);
}

} // verus!
