//! The broker connection: API errors, endpoints and the streaming sessions.
pub mod errors;
pub mod web_client;
pub mod sessions;
