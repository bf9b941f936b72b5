//! Matches between two agents: who moves, what is recorded, and when a
//! match stops.

pub mod clock;
pub mod contest;
pub mod history;
pub mod managed_contest;
pub mod match_runner;
pub mod pit;
pub mod player;

pub use contest::Contest;
pub use history::{GameHistory, Turn};
pub use managed_contest::ManagedContest;
pub use match_runner::Match;
pub use pit::Pit;
pub use player::{Bridge, Player, PlayerBuilder};
