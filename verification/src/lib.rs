//! Rule engine for a two-player dots-and-boxes style grid game.
//!
//! Players alternately claim the edges ("walls") of a fixed grid of cells
//! ("squares"); claiming the fourth wall of a square awards that square to
//! the claiming player and grants an extra turn; the game ends when every
//! square is claimed, and the player with more squares wins.
//!
//! The crate holds the game-state model and turn-resolution logic: mapping a
//! player's spatial input (a point) to the wall it targets, validating and
//! applying that claim, detecting square completion, the extra-turn rule,
//! and detecting game end and the winner. Rendering and event delivery are
//! left to a host program, which reads ownership through the getters here.

pub mod player;
pub mod grid;
pub mod geometry;
pub mod resolve;
pub mod state;
pub mod laws;
