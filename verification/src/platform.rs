//! The trading platform: positions, market data, orders and account events.
pub mod account;
pub mod mktdata;
pub mod orders;
pub mod positions;
