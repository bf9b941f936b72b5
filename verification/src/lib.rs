//! Search and enumeration over two-player turn-based games, with a
//! fixed-capacity transposition cache.

pub mod agents;
pub mod cache;
pub mod contest;
pub mod games;
pub mod model;
pub mod perft;
