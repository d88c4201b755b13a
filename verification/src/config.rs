//! Service configuration: server address, database connection and
//! log filter. Loading the file is the runtime's business; the
//! records themselves live here.

use vstd::prelude::*;

verus! {

#[derive(Debug, Clone)]
pub struct ServerConfig {
    pub host: String,
    pub port: u16,
}

#[derive(Debug, Clone)]
pub struct DatabaseConfig {
    pub url: String,
    pub max_connections: u32,
}

#[derive(Debug, Clone)]
pub struct Config {
    pub server: ServerConfig,
    pub database: DatabaseConfig,
    pub log_level: String,
}

} // verus!
