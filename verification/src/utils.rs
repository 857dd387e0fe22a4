//! Test support.
pub mod mock_db;
