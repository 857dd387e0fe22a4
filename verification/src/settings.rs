//! The application's settings.
use vstd::prelude::*;

use crate::connectivity::web_client::EndPoint;

verus! {

/// The settings file's content.
pub struct Settings {
    pub database: DatabaseConfig,
    pub log_level: String,
    pub endpoint: EndPoint,
}

/// Where the credentials database is.
pub struct DatabaseConfig {
    pub name: String,
    pub port: u16,
    pub host: String,
    pub user: String,
}

/// Reads the settings file.
pub struct Config {}

} // verus!
