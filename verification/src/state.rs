//! The tags a game is described with: its phase, the role behind a seat, and
//! the reasons for which a move is refused.

use vstd::prelude::*;

verus! {

/// The stage of a match. A match only ever moves down this list.
#[derive(Clone, Copy, Debug, PartialEq, Eq, Structural)]
pub enum GameState {
    WaitingForPlayers,
    InProgress,
    Finished,
}

/// What a seat secretly is.
#[derive(Clone, Copy, Debug, PartialEq, Eq, Structural)]
pub enum Role {
    Citizen,
    Culprit,
}

/// Why a move was refused. A refused move leaves the game as it was.
#[derive(Clone, Copy, Debug, PartialEq, Eq, Structural)]
pub enum CustomError {
    GameFull,
    NotEnoughPlayers,
    GameNotInProgress,
    InvalidVote,
}

impl CustomError {
    /// The sentence that goes with a refusal.
    pub open spec fn text(self) -> Seq<char> {
        match self {
            CustomError::GameFull => "The game is already full."@,
            CustomError::NotEnoughPlayers => "Not enough players to start the game."@,
            CustomError::GameNotInProgress => "The game is not in progress."@,
            CustomError::InvalidVote => "Invalid vote."@,
        }
    }

    /// Says in words why the move was refused.
    pub fn message(&self) -> (msg: &'static str)
        ensures
            msg@ == self.text(),
    {
        match self {
            CustomError::GameFull => "The game is already full.",
            CustomError::NotEnoughPlayers => "Not enough players to start the game.",
            CustomError::GameNotInProgress => "The game is not in progress.",
            CustomError::InvalidVote => "Invalid vote.",
        }
    }
}

impl GameState {
    /// How far along a match is: 0 while it waits, 1 while it runs, 2 once
    /// it is over.
    pub open spec fn rank(self) -> nat {
        match self {
            GameState::WaitingForPlayers => 0,
            GameState::InProgress => 1,
            GameState::Finished => 2,
        }
    }
}

} // verus!
