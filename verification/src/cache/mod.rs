//! A fixed-capacity transposition cache with bounded quadratic probing.

pub mod laws;
pub mod probing;
pub mod quadratic_probing;
pub mod traits;

pub use quadratic_probing::{
    QuadraticProbingTable, QuadraticProbingTable64, QuadraticProbingTableBase,
};
pub use traits::{
    AlwaysReplacePolicy, Entry, Entry64, EntryBasedTranspositionTable, TranspositionHash,
    TranspositionTable,
};
