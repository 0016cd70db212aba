//! The swap gesture: which cell is waiting for its partner, which pairs of
//! cells may be exchanged, and the exchange itself.

use vstd::prelude::*;
use crate::error::{GameError, SwapRule};
use crate::grid::{
    at, blacked, in_bounds, is_board, linear, swap_cells, Board, GameGrid, COLS, ROWS,
};

verus! {

/// The state of the two-click gesture.
#[derive(Clone, Copy, Debug, PartialEq, Eq, Structural)]
pub enum Selection {
    /// No cell is waiting for a partner.
    Idle,
    /// The cell at `(row, column)` was clicked first and waits for the second
    /// click.
    Pending(usize, usize),
}

/// The linear indices of the two cells differ by one or by the number of
/// rows.
pub open spec fn linear_adjacent(first: (int, int), second: (int, int)) -> bool {
    let distance = linear(second.0, second.1) - linear(first.0, first.1);
    distance == 1 || distance == -1 || distance == ROWS || distance == -(ROWS as int)
}

/// What the rules say of exchanging the cells `first` and `second` of `b`:
/// both must lie on the board, neither may be black, and their linear indices
/// must be adjacent. Where more than one of these fails, the first is named.
pub open spec fn swap_verdict(b: Board, first: (int, int), second: (int, int)) -> Result<
    (),
    GameError,
> {
    if !in_bounds(first.0, first.1) || !in_bounds(second.0, second.1) {
        Err(GameError::OutOfRange)
    } else if b[first.0][first.1].is_black() || b[second.0][second.1].is_black() {
        Err(GameError::IllegalSwap(SwapRule::Inert))
    } else if !linear_adjacent(first, second) {
        Err(GameError::IllegalSwap(SwapRule::Adjacency))
    } else {
        Ok(())
    }
}

/// The linear index of the cell at `(row, column)`; none for a position off
/// the board.
pub fn linear_index(row: usize, column: usize) -> (index: Option<usize>)
    ensures
        match index {
            Some(i) => in_bounds(row as int, column as int) && i == linear(
                row as int,
                column as int,
            ),
            None => !in_bounds(row as int, column as int),
        },
{
    if row < ROWS && column < COLS {
        Some(column * ROWS + row)
    } else {
        None
    }
}

/// The absolute value of `value`, from `num::abs`. The least `i64` has none
/// of its own type and is left out; of every other number the result is the
/// number without its sign.
#[verifier::external_body]
fn absolute(value: i64) -> (magnitude: i64)
    requires
        value > i64::MIN,
    ensures
        magnitude == if value < 0 {
            -value
        } else {
            value as int
        },
{
    num::abs(value)
}

/// Whether two cells of the board have adjacent linear indices. A position
/// off the board is adjacent to nothing.
pub fn is_adjacent(first: (usize, usize), second: (usize, usize)) -> (adjacent: bool)
    ensures
        adjacent == (in_bounds(at(first).0, at(first).1) && in_bounds(at(second).0, at(second).1)
            && linear_adjacent(at(first), at(second))),
{
    match (linear_index(first.0, first.1), linear_index(second.0, second.1)) {
        (Some(one), Some(two)) => {
            let distance = absolute(two as i64 - one as i64);
            distance == 1 || distance == ROWS as i64
        },
        _ => false,
    }
}

/// Exchanges the colours of `first` and `second` where the rules allow it,
/// and says why not where they do not; the board is then left as it was.
pub fn attempt_swap(grid: &mut GameGrid, first: (usize, usize), second: (usize, usize)) -> (verdict:
    Result<(), GameError>)
    ensures
        verdict == swap_verdict(old(grid)@, at(first), at(second)),
        final(grid)@ == if verdict is Ok {
            swap_cells(old(grid)@, at(first), at(second))
        } else {
            old(grid)@
        },
{
    if first.0 >= ROWS || first.1 >= COLS || second.0 >= ROWS || second.1 >= COLS {
        return Err(GameError::OutOfRange);
    }
    if grid.color_is_black(first.0, first.1) || grid.color_is_black(second.0, second.1) {
        return Err(GameError::IllegalSwap(SwapRule::Inert));
    }
    if !is_adjacent(first, second) {
        return Err(GameError::IllegalSwap(SwapRule::Adjacency));
    }
    grid.swap_colors(first, second);
    Ok(())
}

/// On the board, two cells have adjacent linear indices exactly when they
/// are neighbours in a column, neighbours in a row, or the last cell of one
/// column and the first cell of the next.
pub proof fn lemma_linear_adjacency(first: (int, int), second: (int, int))
    requires
        in_bounds(first.0, first.1),
        in_bounds(second.0, second.1),
    ensures
        linear_adjacent(first, second) <==> {
            ||| first.1 == second.1 && (first.0 - second.0 == 1 || second.0 - first.0 == 1)
            ||| first.0 == second.0 && (first.1 - second.1 == 1 || second.1 - first.1 == 1)
            ||| first.0 == ROWS - 1 && second.0 == 0 && second.1 == first.1 + 1
            ||| second.0 == ROWS - 1 && first.0 == 0 && first.1 == second.1 + 1
        },
{
}

/// A cell that was turned black takes part in no swap: whatever the other
/// cell of the board, the rules turn the exchange down as one with a black
/// cell.
pub proof fn lemma_black_cell_stays_put(b: Board, row: int, column: int, other: (int, int))
    requires
        is_board(b),
        in_bounds(row, column),
    ensures
        swap_verdict(blacked(b, row, column), (row, column), other) is Err,
        swap_verdict(blacked(b, row, column), other, (row, column)) is Err,
        in_bounds(other.0, other.1) ==> swap_verdict(blacked(b, row, column), (row, column), other)
            == Err::<(), GameError>(GameError::IllegalSwap(SwapRule::Inert)) && swap_verdict(
            blacked(b, row, column),
            other,
            (row, column),
        ) == Err::<(), GameError>(GameError::IllegalSwap(SwapRule::Inert)),
{
}

/// Two cells whose linear indices are not adjacent are not exchanged.
pub proof fn lemma_far_cells_stay_put(b: Board, first: (int, int), second: (int, int))
    requires
        !linear_adjacent(first, second),
    ensures
        swap_verdict(b, first, second) is Err,
        in_bounds(first.0, first.1) && in_bounds(second.0, second.1)
            && !b[first.0][first.1].is_black() && !b[second.0][second.1].is_black()
            ==> swap_verdict(b, first, second) == Err::<(), GameError>(
            GameError::IllegalSwap(SwapRule::Adjacency),
        ),
{
}

} // verus!
