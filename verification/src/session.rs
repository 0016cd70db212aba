//! One play-through: the board, the pending selection, the score and the
//! timer's verdict, and what a click does to them.

use vstd::prelude::*;
use crate::census::{lemma_live_bounds, lemma_resolution_census, lemma_swap_census, live_cells};
use crate::controller::{attempt_swap, swap_verdict, Selection};
use crate::error::GameError;
use crate::grid::{
    at, cell_of_pixel, horizontal_run_at, in_bounds, is_board, screen_to_grid, swap_cells,
    vertical_run_at, Board, GameGrid, CELLS, COLS, ROWS,
};
use crate::grid_generator::{generate_grid, generated};
use crate::resolver::{resolve_matches, resolves, Resolution, RUN_SCORE};

verus! {

/// Length of a session in seconds.
pub const SESSION_SECONDS: u64 = 45;

/// The timer has run out once `elapsed_secs` seconds have passed since the
/// session began.
pub open spec fn timer_expired(elapsed_secs: int) -> bool {
    elapsed_secs >= SESSION_SECONDS
}

/// Whether the timer has run out after `elapsed_secs` seconds. Asking
/// changes nothing.
pub fn session_expired(elapsed_secs: u64) -> (expired: bool)
    ensures
        expired == timer_expired(elapsed_secs as int),
{
    elapsed_secs >= SESSION_SECONDS
}

/// What a click that the session took did.
#[derive(Clone, Copy, Debug, PartialEq, Eq)]
pub enum ClickOutcome {
    /// The click was the first of a gesture: its cell now waits for a
    /// partner.
    Selected,
    /// The click was the second of a gesture. `swap` says whether the two
    /// cells were exchanged, or why they were not: the click fell off the
    /// board, or the swap broke a rule. `found` holds the runs that the match
    /// resolution after it cleared.
    Played { swap: Result<(), GameError>, found: Resolution },
}

/// The mathematical model of a session.
pub struct SessionView {
    pub board: Board,
    pub selection: Selection,
    pub score: int,
    pub game_over: bool,
}

/// What the rules say of exchanging the waiting cell `first` with the
/// target of the second click: a click that falls on no cell is off the
/// board.
pub open spec fn gesture_verdict(b: Board, first: (int, int), target: Option<(int, int)>) -> Result<
    (),
    GameError,
> {
    match target {
        Some(second) => swap_verdict(b, first, second),
        None => Err(GameError::OutOfRange),
    }
}

/// What a click on `target` after `elapsed_secs` seconds does to a session:
/// it takes `pre` to `post` and reports `outcome`. `target` is the clicked
/// cell as `(row, column)`, or nothing for a click that falls on no cell.
///
/// - Once the session is over, or the timer has run out, the click is turned
///   down and the session is over; board, score and selection stay.
/// - Else, while no cell is waiting, a click on the board selects its cell,
///   and a click off the board is turned down and changes nothing.
/// - Else the click is the second of a gesture: the swap is made if the rules
///   allow it, then one round of match resolution runs whether or not it was
///   made, each cleared run earns `RUN_SCORE`, and the selection is dropped.
pub open spec fn click_step(
    pre: SessionView,
    elapsed_secs: int,
    target: Option<(int, int)>,
    outcome: Result<ClickOutcome, GameError>,
    post: SessionView,
) -> bool {
    if pre.game_over || timer_expired(elapsed_secs) {
        &&& outcome == Err::<ClickOutcome, GameError>(GameError::SessionExpired)
        &&& post == SessionView { game_over: true, ..pre }
    } else {
        match pre.selection {
            Selection::Idle => {
                if target matches Some(cell) && in_bounds(cell.0, cell.1) {
                    &&& outcome == Ok::<ClickOutcome, GameError>(ClickOutcome::Selected)
                    &&& post.selection matches Selection::Pending(row, column) && Some(
                        (row as int, column as int),
                    ) == target
                    &&& post.board == pre.board
                    &&& post.score == pre.score
                    &&& !post.game_over
                } else {
                    &&& outcome == Err::<ClickOutcome, GameError>(GameError::OutOfRange)
                    &&& post == pre
                }
            },
            Selection::Pending(row, column) => {
                let first = (row as int, column as int);
                let swapped = if gesture_verdict(pre.board, first, target) is Ok {
                    swap_cells(pre.board, first, target->0)
                } else {
                    pre.board
                };
                &&& outcome matches Ok(ClickOutcome::Played { swap, found })
                &&& swap == gesture_verdict(pre.board, first, target)
                &&& resolves(swapped, found, post.board)
                &&& post.score == pre.score + RUN_SCORE * found.runs()
                &&& post.selection == Selection::Idle
                &&& !post.game_over
            },
        }
    }
}

/// A session of the game. It owns its board: the board changes by clicks
/// only.
pub struct Session {
    grid: GameGrid,
    selection: Selection,
    score: u32,
    game_over: bool,
}

impl View for Session {
    type V = SessionView;

    closed spec fn view(&self) -> SessionView {
        SessionView {
            board: self.grid@,
            selection: self.selection,
            score: self.score as int,
            game_over: self.game_over,
        }
    }
}

impl Session {
    /// Score and cells that are not black never add up to more than the
    /// board holds, the score is a multiple of `RUN_SCORE`, and a pending cell
    /// lies on the board.
    #[verifier::type_invariant]
    spec fn well_formed(self) -> bool {
        &&& self.score + live_cells(self.grid@) <= CELLS
        &&& self.score % RUN_SCORE == 0
        &&& self.selection matches Selection::Pending(row, column) ==> in_bounds(
            row as int,
            column as int,
        )
    }

    /// A fresh session on a board that the generator has filled.
    pub fn new() -> (session: Session)
        ensures
            generated(session@.board),
            session@.selection == Selection::Idle,
            session@.score == 0,
            !session@.game_over,
    {
        let mut grid = GameGrid::new();
        generate_grid(&mut grid);
        Session::with_grid(grid)
    }

    /// A fresh session on the board `grid`.
    pub fn with_grid(grid: GameGrid) -> (session: Session)
        ensures
            session@ == (SessionView {
                board: grid@,
                selection: Selection::Idle,
                score: 0,
                game_over: false,
            }),
    {
        proof {
            lemma_live_bounds(grid@, CELLS as int);
        }
        Session { grid, selection: Selection::Idle, score: 0, game_over: false }
    }

    /// The board.
    pub fn grid(&self) -> (grid: &GameGrid)
        ensures
            grid@ == self@.board,
    {
        &self.grid
    }

    /// The state of the swap gesture.
    pub fn selection(&self) -> (selection: Selection)
        ensures
            selection == self@.selection,
            selection matches Selection::Pending(row, column) ==> in_bounds(
                row as int,
                column as int,
            ),
    {
        proof {
            use_type_invariant(self);
        }
        self.selection
    }

    /// The score: `RUN_SCORE` for each run that was cleared. Together with
    /// the cells that are not black it never exceeds the number of cells.
    pub fn score(&self) -> (score: u32)
        ensures
            score == self@.score,
            score % RUN_SCORE == 0,
            score + live_cells(self@.board) <= CELLS,
    {
        proof {
            use_type_invariant(self);
        }
        self.score
    }

    /// Whether the session is over.
    pub fn is_game_over(&self) -> (over: bool)
        ensures
            over == self@.game_over,
    {
        self.game_over
    }

    /// Tells the session how long it has run. Once the timer has run out the
    /// session is over, and stays so; nothing else changes.
    pub fn tick(&mut self, elapsed_secs: u64) -> (over: bool)
        ensures
            over == (old(self)@.game_over || timer_expired(elapsed_secs as int)),
            final(self)@ == (SessionView { game_over: over, ..old(self)@ }),
    {
        proof {
            use_type_invariant(&*self);
        }
        if session_expired(elapsed_secs) {
            self.game_over = true;
        }
        self.game_over
    }

    /// Handles a click on `target`: a cell as `(row, column)`, or nothing.
    fn click_target(&mut self, elapsed_secs: u64, target: Option<(usize, usize)>) -> (outcome:
        Result<ClickOutcome, GameError>)
        ensures
            click_step(
                old(self)@,
                elapsed_secs as int,
                match target {
                    Some(cell) => Some(at(cell)),
                    None => None,
                },
                outcome,
                final(self)@,
            ),
    {
        proof {
            use_type_invariant(&*self);
        }
        if self.game_over || session_expired(elapsed_secs) {
            self.game_over = true;
            return Err(GameError::SessionExpired);
        }
        match self.selection {
            Selection::Idle => {
                if let Some((row, column)) = target {
                    if row < ROWS && column < COLS {
                        self.selection = Selection::Pending(row, column);
                        return Ok(ClickOutcome::Selected);
                    }
                }
                Err(GameError::OutOfRange)
            },
            Selection::Pending(first_row, first_column) => {
                let mut grid = self.grid;
                let ghost before = grid@;
                let swap = match target {
                    Some(second) => attempt_swap(&mut grid, (first_row, first_column), second),
                    None => Err(GameError::OutOfRange),
                };
                let ghost swapped = grid@;
                let found = resolve_matches(&mut grid);
                proof {
                    self.grid.lemma_shape();
                    if swap is Ok {
                        lemma_swap_census(
                            before,
                            (first_row as int, first_column as int),
                            at(target->0),
                        );
                    }
                    lemma_resolution_census(swapped, found, grid@);
                    lemma_live_bounds(grid@, CELLS as int);
                }
                self.selection = Selection::Idle;
                self.grid = grid;
                self.score = self.score + found.score_gain();
                Ok(ClickOutcome::Played { swap, found })
            },
        }
    }

    /// Handles a click on the cell at `(row, column)`, `elapsed_secs` seconds
    /// into the session.
    pub fn click(&mut self, elapsed_secs: u64, row: usize, column: usize) -> (outcome: Result<
        ClickOutcome,
        GameError,
    >)
        ensures
            click_step(
                old(self)@,
                elapsed_secs as int,
                Some((row as int, column as int)),
                outcome,
                final(self)@,
            ),
    {
        self.click_target(elapsed_secs, Some((row, column)))
    }

    /// Handles a click on the pixel `(x, y)`, `elapsed_secs` seconds into the
    /// session: a click on the cell that is drawn there.
    pub fn click_at(&mut self, elapsed_secs: u64, x: usize, y: usize) -> (outcome: Result<
        ClickOutcome,
        GameError,
    >)
        ensures
            click_step(
                old(self)@,
                elapsed_secs as int,
                cell_of_pixel(x as int, y as int),
                outcome,
                final(self)@,
            ),
    {
        self.click_target(elapsed_secs, screen_to_grid(x, y))
    }
}

/// One click of a play-through: when it came, where it fell, and what was
/// reported of it.
pub struct Click {
    pub elapsed_secs: int,
    pub target: Option<(int, int)>,
    pub outcome: Result<ClickOutcome, GameError>,
}

/// `states` are the states that a session went through under `clicks`: each
/// click takes the state of its own index to the next one.
pub open spec fn play(states: Seq<SessionView>, clicks: Seq<Click>) -> bool {
    &&& states.len() == clicks.len() + 1
    &&& forall|i: int|
        0 <= i < clicks.len() ==> click_step(
            states[i],
            (#[trigger] clicks[i]).elapsed_secs,
            clicks[i].target,
            clicks[i].outcome,
            states[i + 1],
        )
}

/// The earlier the timer is asked, the less it has run out.
pub proof fn lemma_expiry_is_monotonic(earlier: int, later: int)
    requires
        earlier <= later,
        timer_expired(earlier),
    ensures
        timer_expired(later),
{
}

/// A click that comes when the timer has run out is turned down, ends the
/// session, and leaves board, score and selection as they were.
pub proof fn lemma_expiry_ends_session(
    pre: SessionView,
    elapsed_secs: int,
    target: Option<(int, int)>,
    outcome: Result<ClickOutcome, GameError>,
    post: SessionView,
)
    requires
        click_step(pre, elapsed_secs, target, outcome, post),
        timer_expired(elapsed_secs),
    ensures
        outcome == Err::<ClickOutcome, GameError>(GameError::SessionExpired),
        post.game_over,
        post.board == pre.board,
        post.score == pre.score,
        post.selection == pre.selection,
{
}

/// Once a session is over, every later click is turned down and none
/// changes the session: board and score stay as they were when it ended.
pub proof fn lemma_over_stays_over(states: Seq<SessionView>, clicks: Seq<Click>, from: int, to: int)
    requires
        play(states, clicks),
        0 <= from <= to < states.len(),
        states[from].game_over,
    ensures
        states[to] == states[from],
        from < to ==> clicks[to - 1].outcome == Err::<ClickOutcome, GameError>(
            GameError::SessionExpired,
        ),
    decreases to - from,
{
    if from < to {
        lemma_over_stays_over(states, clicks, from, to - 1);
    }
}

/// A click never lowers the score: it leaves it, or raises it by
/// `RUN_SCORE` for each run that was cleared.
pub proof fn lemma_score_grows(
    pre: SessionView,
    elapsed_secs: int,
    target: Option<(int, int)>,
    outcome: Result<ClickOutcome, GameError>,
    post: SessionView,
)
    requires
        click_step(pre, elapsed_secs, target, outcome, post),
    ensures
        post.score == pre.score || post.score == pre.score + RUN_SCORE || post.score == pre.score
            + 2 * RUN_SCORE,
        post.score > pre.score ==> (outcome matches Ok(ClickOutcome::Played { found, .. })
            && found.runs() > 0),
{
}

/// A cell that is black stays black whatever is clicked.
pub proof fn lemma_black_stays_black(
    pre: SessionView,
    elapsed_secs: int,
    target: Option<(int, int)>,
    outcome: Result<ClickOutcome, GameError>,
    post: SessionView,
    row: int,
    column: int,
)
    requires
        is_board(pre.board),
        click_step(pre, elapsed_secs, target, outcome, post),
        in_bounds(row, column),
        pre.board[row][column].is_black(),
    ensures
        post.board[row][column].is_black(),
{
}

/// A swap that the rules turn down leaves the board untouched. The round of
/// match resolution that follows it finds nothing to clear on a board that
/// held no run, so the click as a whole then changes neither board nor score.
pub proof fn lemma_rejected_swap_changes_nothing(
    pre: SessionView,
    elapsed_secs: int,
    target: Option<(int, int)>,
    outcome: Result<ClickOutcome, GameError>,
    post: SessionView,
)
    requires
        click_step(pre, elapsed_secs, target, outcome, post),
        outcome matches Ok(ClickOutcome::Played { swap, .. }) && swap is Err,
        forall|r: int, c: int| !#[trigger] horizontal_run_at(pre.board, r, c),
        forall|r: int, c: int| !#[trigger] vertical_run_at(pre.board, r, c),
    ensures
        post.board == pre.board,
        post.score == pre.score,
{
}

/// A click on a given session at a given time and place can end in one way
/// only.
pub proof fn lemma_one_outcome(
    pre: SessionView,
    elapsed_secs: int,
    target: Option<(int, int)>,
    outcome: Result<ClickOutcome, GameError>,
    post: SessionView,
    other_outcome: Result<ClickOutcome, GameError>,
    other_post: SessionView,
)
    requires
        click_step(pre, elapsed_secs, target, outcome, post),
        click_step(pre, elapsed_secs, target, other_outcome, other_post),
    ensures
        outcome == other_outcome,
        post == other_post,
{
}

} // verus!
