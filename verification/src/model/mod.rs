//! The game model: what a game, a state, a team and a result are.

pub mod action;
pub mod error;
pub mod game;
pub mod game_result;
pub mod serialization;
pub mod state;
pub mod team;

pub use action::GwAction;
pub use error::{BuilderError, Error, MatchError};
pub use game::Game;
pub use game_result::{GameResult, GwGameResult, TwoPlayerGameResult};
pub use serialization::{DeserializeAlias, SerializeAlias};
pub use state::{GwState, SubStateIter};
pub use team::{GwTeam, Polarity, Team, TwoPlayerTeam};
