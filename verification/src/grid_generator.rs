//! Filling a board at random, with a check on how often one colour may come
//! up in a row.

use rand::Rng;
use vstd::prelude::*;
use crate::color::{palette_color, ColorId, PALETTE_SIZE};
use crate::grid::{
    cell_at_linear, in_bounds, is_board, linear, vertical_run_at, with_cell, Board, GameGrid,
    Space, CELLS, COLS, ROWS, RUN_LENGTH,
};

verus! {

/// How many times in a row the generator lets one colour come up.
pub const STREAK_LIMIT: u32 = 3;

/// How many times the generator draws again for one cell before it settles
/// the matter with a single draw among the other colours. No run of the
/// program gets there; the bound is what makes the redrawing end.
pub const REDRAW_ROUNDS: u64 = u64::MAX;

/// What the generator makes of the draws for one cell. `draw` is the first
/// draw, `redraw` the latest one. The first draw stands unless its colour has
/// come up `STREAK_LIMIT` times in a row; then the latest draw is taken as it
/// is if it names another colour, and nothing is picked yet if it names the
/// same colour again.
pub open spec fn picked(counts: Seq<int>, draw: int, redraw: int) -> Option<int> {
    if counts[draw] < STREAK_LIMIT {
        Some(draw)
    } else if redraw != draw {
        Some(redraw)
    } else {
        None
    }
}

/// The palette index that stands at place `choice` when the palette is
/// counted through with `excluded` left out.
pub open spec fn other_than(excluded: int, choice: int) -> int {
    if choice < excluded {
        choice
    } else {
        choice + 1
    }
}

/// The counters after the colour `index` was picked: its counter is one up,
/// every other counter is back at 0.
pub open spec fn recorded(counts: Seq<int>, index: int) -> Seq<int> {
    Seq::new(
        PALETTE_SIZE as nat,
        |i: int|
            if i == index {
                counts[i] + 1
            } else {
                0
            },
    )
}

/// One counter for each palette colour: how many times the colour has just
/// come up in a row.
pub struct ColorCounters {
    counts: [u32; 6],
}

impl View for ColorCounters {
    type V = Seq<int>;

    closed spec fn view(&self) -> Seq<int> {
        Seq::new(PALETTE_SIZE as nat, |i: int| self.counts[i] as int)
    }
}

impl ColorCounters {
    /// No counter is above the limit, and at most one of them is above 0.
    #[verifier::type_invariant]
    spec fn well_formed(self) -> bool {
        &&& forall|i: int| 0 <= i < PALETTE_SIZE ==> (#[trigger] self.counts[i]) <= STREAK_LIMIT
        &&& forall|i: int, j: int|
            0 <= i < PALETTE_SIZE && 0 <= j < PALETTE_SIZE && i != j ==> (#[trigger] self.counts[i])
                == 0 || (#[trigger] self.counts[j]) == 0
    }

    /// Counters that are all at 0.
    pub fn new() -> (counters: ColorCounters)
        ensures
            counters@ == Seq::new(PALETTE_SIZE as nat, |i: int| 0int),
    {
        ColorCounters { counts: [0; 6] }
    }

    /// Whether the colour `index` has come up as often in a row as the
    /// generator lets it. An index outside the palette names no colour.
    pub fn is_saturated(&self, index: u32) -> (saturated: bool)
        ensures
            saturated == (index < PALETTE_SIZE && self@[index as int] >= STREAK_LIMIT),
    {
        index < PALETTE_SIZE && self.counts[index as usize] >= STREAK_LIMIT
    }

    /// Decides on the colour of the next cell and records it. `draw` is the
    /// first draw for the cell and `redraw` the latest one, which is `draw`
    /// itself as long as no other has followed. Where the colour `draw` is
    /// saturated and `redraw` names it again, nothing is picked and nothing
    /// recorded: another draw is needed.
    pub fn pick(&mut self, draw: u32, redraw: u32) -> (index: Option<u32>)
        requires
            draw < PALETTE_SIZE,
            redraw < PALETTE_SIZE,
        ensures
            match index {
                Some(i) => {
                    &&& picked(old(self)@, draw as int, redraw as int) == Some(i as int)
                    &&& i < PALETTE_SIZE
                    &&& old(self)@[i as int] < STREAK_LIMIT
                    &&& final(self)@ == recorded(old(self)@, i as int)
                },
                None => {
                    &&& picked(old(self)@, draw as int, redraw as int) is None
                    &&& final(self)@ == old(self)@
                },
            },
    {
        proof {
            use_type_invariant(&*self);
        }
        let index = if self.counts[draw as usize] < STREAK_LIMIT {
            draw
        } else if redraw != draw {
            redraw
        } else {
            return None;
        };
        let mut counts: [u32; 6] = [0; 6];
        counts[index as usize] = self.counts[index as usize] + 1;
        self.counts = counts;
        Some(index)
    }
}

/// The palette index at place `choice` among the five that are not
/// `excluded`.
pub fn other_color(excluded: u32, choice: u32) -> (index: u32)
    requires
        excluded < PALETTE_SIZE,
        choice < PALETTE_SIZE - 1,
    ensures
        index == other_than(excluded as int, choice as int),
        index < PALETTE_SIZE,
        index != excluded,
{
    if choice < excluded {
        choice
    } else {
        choice + 1
    }
}

/// The `length` cells just before the linear index `bound` carry `color`,
/// and the cell before them, if there is one, does not.
spec fn streak_before(b: Board, bound: int, color: Option<ColorId>, length: int) -> bool {
    &&& 0 <= length <= bound
    &&& forall|k: int|
        bound - length <= k < bound ==> (#[trigger] cell_at_linear(b, k)).color == color
    &&& length < bound ==> cell_at_linear(b, bound - length - 1).color != color
}

/// Four cells that follow one another in generation order, the first of them
/// with the linear index `index`, carry one colour.
pub open spec fn linear_run_at(b: Board, index: int) -> bool {
    &&& 0 <= index
    &&& index + RUN_LENGTH <= CELLS
    &&& forall|k: int|
        index <= k < index + RUN_LENGTH ==> (#[trigger] cell_at_linear(b, k)).color
            == cell_at_linear(b, index).color
}

/// What holds of every board that the generator has filled: each cell is
/// filled and carries a palette colour, and no colour comes up four times in
/// a row in generation order.
pub open spec fn generated(b: Board) -> bool {
    &&& forall|r: int, c: int| in_bounds(r, c) ==> (#[trigger] b[r][c]).matchable()
    &&& forall|index: int| !#[trigger] linear_run_at(b, index)
}

/// The board after the cell with the linear index `index` was given the
/// palette colour `pick`.
spec fn placed(b: Board, index: int, pick: int) -> Board {
    match palette_color(pick) {
        Some(color) => with_cell(
            b,
            index % (ROWS as int),
            index / (ROWS as int),
            Space { color: Some(color), filled: true },
        ),
        None => b,
    }
}

/// The counters describe the board's first `bound` cells in generation
/// order: each colour's counter is the length of the streak of that colour
/// that ends there, and no four of those cells in a row carry one colour.
spec fn tracks(counts: Seq<int>, b: Board, bound: int) -> bool {
    &&& forall|i: int|
        0 <= i < PALETTE_SIZE ==> streak_before(b, bound, #[trigger] palette_color(i), counts[i])
    &&& forall|index: int| index + RUN_LENGTH <= bound ==> !#[trigger] linear_run_at(b, index)
}

/// Placing a colour whose counter is below the limit and recording it keeps
/// the counters in step with the board.
proof fn lemma_placing_tracks(counts: Seq<int>, b: Board, bound: int, pick: int)
    requires
        is_board(b),
        0 <= bound < CELLS,
        0 <= pick < PALETTE_SIZE,
        counts[pick] < STREAK_LIMIT,
        tracks(counts, b, bound),
    ensures
        tracks(recorded(counts, pick), placed(b, bound, pick), bound + 1),
{
    let after = placed(b, bound, pick);
    assert forall|i: int| 0 <= i < PALETTE_SIZE implies streak_before(
        after,
        bound + 1,
        #[trigger] palette_color(i),
        recorded(counts, pick)[i],
    ) by {
        if i == pick {
            assert forall|k: int| bound - counts[i] <= k < bound + 1 implies (
            #[trigger] cell_at_linear(after, k)).color == palette_color(i) by {
                if k < bound {
                    assert(cell_at_linear(after, k) == cell_at_linear(b, k));
                }
            }
        }
    }
    assert forall|index: int| index + RUN_LENGTH <= bound + 1 implies !#[trigger] linear_run_at(
        after,
        index,
    ) by {
        if linear_run_at(after, index) {
            if index + RUN_LENGTH <= bound {
                // the four cells were there before, and were no run then
                assert forall|k: int| index <= k < index + RUN_LENGTH implies (
                #[trigger] cell_at_linear(b, k)).color == cell_at_linear(b, index).color by {
                    assert(cell_at_linear(after, k) == cell_at_linear(b, k));
                }
                assert(linear_run_at(b, index));
            } else {
                // the four cells end with the new one, whose streak is shorter
                assert(cell_at_linear(after, bound).color == cell_at_linear(after, index).color);
            }
        }
    }
}

/// A board on which no colour comes up four times in a row in generation
/// order has no run in any column.
pub proof fn lemma_no_vertical_run(b: Board)
    requires
        is_board(b),
        forall|index: int| !#[trigger] linear_run_at(b, index),
    ensures
        forall|r: int, c: int| !#[trigger] vertical_run_at(b, r, c),
{
    assert forall|r: int, c: int| !#[trigger] vertical_run_at(b, r, c) by {
        if vertical_run_at(b, r, c) {
            assert(linear_run_at(b, linear(r, c)));
        }
    }
}

/// A random number from 0 to `highest`, both included, from
/// `rand::thread_rng().gen_range(0..=highest)`. Nothing is claimed of it but
/// that it lies in that range.
#[verifier::external_body]
fn random_up_to(highest: u32) -> (value: u32)
    ensures
        value <= highest,
{
    rand::thread_rng().gen_range(0..=highest)
}

/// Draws the colour of the next cell and records it. The first draw stands
/// unless its colour is saturated; then the generator draws again from the
/// whole palette until another colour comes up. Should that not happen in
/// `REDRAW_ROUNDS` rounds, one draw among the other colours settles it.
fn draw_color(counters: &mut ColorCounters) -> (pick: u32)
    ensures
        pick < PALETTE_SIZE,
        old(counters)@[pick as int] < STREAK_LIMIT,
        final(counters)@ == recorded(old(counters)@, pick as int),
{
    let ghost counts = counters@;
    let draw = random_up_to(PALETTE_SIZE - 1);
    let mut settled = counters.pick(draw, draw);
    let mut rounds: u64 = 0;
    while settled.is_none() && rounds < REDRAW_ROUNDS
        invariant
            draw < PALETTE_SIZE,
            match settled {
                Some(i) => i < PALETTE_SIZE && counts[i as int] < STREAK_LIMIT && counters@
                    == recorded(counts, i as int),
                None => counters@ == counts,
            },
        decreases REDRAW_ROUNDS - rounds,
    {
        let redraw = random_up_to(PALETTE_SIZE - 1);
        settled = counters.pick(draw, redraw);
        rounds += 1;
    }
    match settled {
        Some(pick) => pick,
        None => {
            let other = other_color(draw, random_up_to(PALETTE_SIZE - 2));
            counters.pick(draw, other).unwrap()
        },
    }
}

/// Fills every cell of the board with a palette colour drawn at random. The
/// cells are visited column by column, each column from row 0 on. A colour
/// that has just come up `STREAK_LIMIT` times in a row is not taken again:
/// the generator then draws again until another colour comes up. What the
/// cells held before is overwritten.
pub fn generate_grid(game_grid: &mut GameGrid)
    ensures
        generated(final(game_grid)@),
{
    let mut counters = ColorCounters::new();
    proof {
        game_grid.lemma_shape();
    }
    let mut column: usize = 0;
    while column < COLS
        invariant
            column <= COLS,
            is_board(game_grid@),
            tracks(counters@, game_grid@, linear(0, column as int)),
            forall|k: int|
                0 <= k < linear(0, column as int) ==> (#[trigger] cell_at_linear(
                    game_grid@,
                    k,
                )).matchable(),
        decreases COLS - column,
    {
        let mut row: usize = 0;
        while row < ROWS
            invariant
                column < COLS,
                row <= ROWS,
                is_board(game_grid@),
                tracks(counters@, game_grid@, linear(row as int, column as int)),
                forall|k: int|
                    0 <= k < linear(row as int, column as int) ==> (#[trigger] cell_at_linear(
                        game_grid@,
                        k,
                    )).matchable(),
            decreases ROWS - row,
        {
            let ghost before = game_grid@;
            let ghost counts = counters@;
            let ghost index = linear(row as int, column as int);
            let pick = draw_color(&mut counters);
            if let Some(color) = ColorId::from_index(pick) {
                game_grid.fill_space(row, column, color);
            }
            proof {
                lemma_placing_tracks(counts, before, index, pick as int);
                assert forall|k: int| 0 <= k < index + 1 implies (#[trigger] cell_at_linear(
                    game_grid@,
                    k,
                )).matchable() by {
                    if k < index {
                        assert(cell_at_linear(game_grid@, k) == cell_at_linear(before, k));
                    }
                }
            }
            row += 1;
        }
        column += 1;
    }
    proof {
        let b = game_grid@;
        assert forall|r: int, c: int| in_bounds(r, c) implies (#[trigger] b[r][c]).matchable() by {
            assert(cell_at_linear(b, linear(r, c)).matchable());
        }
    }
}

} // verus!
