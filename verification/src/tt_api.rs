//! The broker API's message shapes.
pub mod account;
pub mod mktdata;
pub mod orders;
pub mod positions;
pub mod sessions;
