//! Player actions and the messages exchanged with the players.
use vstd::prelude::*;
use crate::board::{City, LineId};
use crate::card::Card;
use crate::game::GameState;

verus! {

/// What a player can do while a card is revealed.
#[derive(Clone, Debug)]
pub enum PlayerAction {
    /// Use the revealed card on a line; the window index is not used for placement.
    ChooseLine { line_id: LineId, car_window_index: usize },
    MarkTransferStation { station_id: String },
    MarkFreeRideStation { station_id: String },
    CompleteLineAnnouncement { line_id: LineId },
}

/// Messages between players and the game.
#[derive(Clone, Debug)]
pub enum GameMessage {
    JoinGame { player_name: String, city: City },
    PlayerAction(PlayerAction),
    StartGame,
    GameJoined { player_id: u128, game_id: u128 },
    GameState(GameState),
    CardRevealed(Card),
    PlayerActionResult { success: bool, message: String },
    LineCompleted { player_id: u128, line_id: LineId },
    GameEnded { scores: Vec<(u128, i32)> },
    Error(String),
}

/// `m` reports a successful action with text `text`.
pub open spec fn is_action_result(m: GameMessage, text: Seq<char>) -> bool {
    m matches GameMessage::PlayerActionResult { success, message } && success && message@ == text
}

/// `m` announces that player `pid` completed line `line`.
pub open spec fn is_line_completed(m: GameMessage, pid: u128, line: Seq<char>) -> bool {
    m matches GameMessage::LineCompleted { player_id, line_id } && player_id == pid && line_id@ == line
}

} // verus!
