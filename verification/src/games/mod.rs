//! Games to search: their rules, and evaluators that score them.

pub mod connect4;
pub mod counting_game;
pub mod nxn_tictactoe;
pub mod random_counting;
pub mod tic_tac_toe;
pub mod tictactoe;
