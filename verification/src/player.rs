//! The two players, and the errors the engine can report.

use vstd::prelude::*;

verus! {

/// One of the two players of the game.
#[derive(Clone, Copy, PartialEq, Eq, Structural, Debug)]
pub enum Player {
    One,
    Two,
}

impl Player {
    /// The opponent of this player.
    pub open spec fn spec_other(self) -> Player {
        match self {
            Player::One => Player::Two,
            Player::Two => Player::One,
        }
    }

    /// The opponent of this player.
    pub fn other(self) -> (r: Player)
        ensures
            r == self.spec_other(),
    {
        match self {
            Player::One => Player::Two,
            Player::Two => Player::One,
        }
    }
}

/// The ways an operation of the engine can fail.
#[derive(Clone, Copy, PartialEq, Eq, Structural, Debug)]
pub enum GameError {
    /// A grid configuration with non-positive or oversized dimensions.
    ConfigurationError,
    /// A move on a wall that already has an owner; the state is unchanged.
    AlreadyClaimedError,
    /// A move on a finished game, or asking for the outcome of a game
    /// still in progress.
    InvalidStateError,
}

} // verus!
