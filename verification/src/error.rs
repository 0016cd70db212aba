//! The ways a request to the game can be turned down.

use vstd::prelude::*;

verus! {

/// The rule that a swap broke.
#[derive(Clone, Copy, Debug, PartialEq, Eq, Structural)]
pub enum SwapRule {
    /// Neither cell of a swap may be black.
    Inert,
    /// The linear indices of the two cells must be adjacent.
    Adjacency,
}

/// Why a request was not carried out. None of these ends the program: the
/// first two leave the session running, the last one reports that it is over.
#[derive(Clone, Copy, Debug, PartialEq, Eq, Structural)]
pub enum GameError {
    /// A coordinate lies outside the board.
    OutOfRange,
    /// A swap broke the rule that is named.
    IllegalSwap(SwapRule),
    /// The session timer has run out; nothing is changed any more.
    SessionExpired,
}

} // verus!
