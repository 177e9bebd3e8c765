//! The validation errors a player action can meet.
use vstd::prelude::*;
use vstd::string::StringExecFns;

verus! {

/// Why an action was refused. No state is changed when one is returned.
#[derive(Clone, Copy, Debug, PartialEq, Eq, Structural)]
pub enum GameError {
    NoCardRevealed,
    PlayerNotFound,
    LineFull,
    LineNotFound,
    StationNotFound,
    NotTransferCard,
    NotFreeRideCard,
    StationAlreadyMarked,
}

/// The description given to the player for each error.
pub open spec fn error_text(e: GameError) -> Seq<char> {
    match e {
        GameError::NoCardRevealed => "No card revealed"@,
        GameError::PlayerNotFound => "Player not found"@,
        GameError::LineFull => "No empty windows available for this line"@,
        GameError::LineNotFound => "Line not found"@,
        GameError::StationNotFound => "Station not found"@,
        GameError::NotTransferCard => "Can only mark transfer station with transfer card"@,
        GameError::NotFreeRideCard => "Can only mark free ride station with free ride card"@,
        GameError::StationAlreadyMarked => "Station already marked"@,
    }
}

impl GameError {
    /// A description of the error for the player who caused it.
    pub fn message(&self) -> (r: String)
        ensures
            r@ == error_text(*self),
    {
        match self {
            GameError::NoCardRevealed => String::from_str("No card revealed"),
            GameError::PlayerNotFound => String::from_str("Player not found"),
            GameError::LineFull => String::from_str("No empty windows available for this line"),
            GameError::LineNotFound => String::from_str("Line not found"),
            GameError::StationNotFound => String::from_str("Station not found"),
            GameError::NotTransferCard => String::from_str(
                "Can only mark transfer station with transfer card",
            ),
            GameError::NotFreeRideCard => String::from_str(
                "Can only mark free ride station with free ride card",
            ),
            GameError::StationAlreadyMarked => String::from_str("Station already marked"),
        }
    }
}

} // verus!
