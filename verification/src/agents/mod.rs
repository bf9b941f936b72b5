//! Agents that choose moves, and the searches that they choose by.

pub mod agent;
pub mod bounds;
pub mod evaluator;
pub mod expectiminimax;
pub mod functional_agent;
pub mod laws;
pub mod minimax;
pub mod minimax_agent;
pub mod negamax;
pub mod negamax_agent;
pub mod ordering;
pub mod random_agent;
pub mod simple_agent;

pub use agent::{Agent, MaximisingAgent};
pub use evaluator::Evaluator;
pub use expectiminimax::{ExpectiMiniMaxAgent, ProbabilisticState};
pub use functional_agent::FunctionalAgent;
pub use minimax::MiniMax;
pub use minimax_agent::MiniMaxAgent;
pub use negamax::NegaMax;
pub use negamax_agent::NegaMaxAgent;
pub use random_agent::RandomAgent;
pub use simple_agent::{MonkeAgent, SimpleAgent};
