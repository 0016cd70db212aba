//! Board model and match-resolution engine of a tile-matching puzzle.
//!
//! A fixed 10 x 20 board of coloured cells is generated at random, the player
//! swaps two neighbouring cells with a two-click gesture, and runs of four
//! equal cells in a row or a column are blacked out for score until the
//! session timer expires.

pub mod census;
pub mod color;
pub mod controller;
pub mod error;
pub mod grid;
pub mod grid_generator;
pub mod resolver;
pub mod session;
