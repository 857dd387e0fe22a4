//! Strategies: what is tracked of each position and when it is exited.
pub mod generic;
pub mod monitor;
