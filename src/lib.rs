//! Rules engine and session bookkeeping for a multiplayer subway-map card game.

pub mod board;
pub mod card;
pub mod error;
pub mod game;
pub mod keyed;
pub mod message;
pub mod registry;
pub mod session;
pub mod sheet;

pub use board::{City, LineId, Station, SubwayLine, SubwayMap, create_subway_map};
pub use card::Card;
pub use error::GameError;
pub use game::GameState;
pub use message::{GameMessage, PlayerAction};
pub use registry::{SessionEntry, SessionRegistry};
pub use session::Delivery;
pub use sheet::{CompletionStatus, LineStatus, MarkedStation, PlayerSheet, StationMark, TrainCar};
