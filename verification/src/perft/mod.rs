//! Perft: counting the states that a game reaches in a given number of
//! plies, with and without a transposition cache.

pub mod counting;
pub mod report;
pub mod transposition;

pub use counting::{perft, perft_recursive, perft_with_cache};
pub use report::{perft_timed, PerftResult};
