use vstd::prelude::*;

use crate::models::message::views_of;

verus! {

/// Where the gateway listens.
#[derive(Debug)]
pub struct ServerConfig {
    pub host: String,
    pub port: u16,
}

/// One upstream inference replica.
#[derive(Debug)]
pub struct UpstreamConfig {
    pub id: String,
    pub url: String,
    pub weight: u32,
}

/// Where episodes are stored.
#[derive(Debug)]
pub struct StorageConfig {
    pub storage_type: String,
    pub database_path: String,
}

/// The gateway's configuration.
#[derive(Debug)]
pub struct EpisodConfig {
    pub server: ServerConfig,
    pub upstreams: Vec<UpstreamConfig>,
    pub storage: StorageConfig,
}

/// The host listened on unless configured: all interfaces.
pub fn default_host() -> (r: String)
    ensures
        r@ == "0.0.0.0"@,
{
    "0.0.0.0".to_owned()
}

/// The port listened on unless configured.
pub fn default_port() -> (r: u16)
    ensures
        r == 8080,
{
    8080
}

/// The weight of an upstream unless configured.
pub fn default_weight() -> (r: u32)
    ensures
        r == 1,
{
    1
}

/// The storage used unless configured.
pub fn default_storage_type() -> (r: String)
    ensures
        r@ == "sqlite"@,
{
    "sqlite".to_owned()
}

/// The SQLite database file used unless configured.
pub fn default_database_path() -> (r: String)
    ensures
        r@ == "episod.db"@,
{
    "episod.db".to_owned()
}

impl Default for StorageConfig {
    /// SQLite storage in `episod.db`.
    fn default() -> (r: Self)
        ensures
            r.storage_type@ == "sqlite"@,
            r.database_path@ == "episod.db"@,
    {
        StorageConfig { storage_type: default_storage_type(), database_path: default_database_path() }
    }
}

impl Default for EpisodConfig {
    /// Listening on `0.0.0.0:8080`, one upstream `default-openai` at
    /// `http://127.0.0.1:8000/v1` with weight 1, and SQLite storage in `episod.db`.
    fn default() -> (r: Self)
        ensures
            r.server.host@ == "0.0.0.0"@,
            r.server.port == 8080,
            r.upstreams@.len() == 1,
            r.upstreams@[0].id@ == "default-openai"@,
            r.upstreams@[0].url@ == "http://127.0.0.1:8000/v1"@,
            r.upstreams@[0].weight == 1,
            r.storage.storage_type@ == "sqlite"@,
            r.storage.database_path@ == "episod.db"@,
    {
        let mut upstreams: Vec<UpstreamConfig> = Vec::new();
        upstreams.push(UpstreamConfig {
            id: "default-openai".to_owned(),
            url: "http://127.0.0.1:8000/v1".to_owned(),
            weight: 1,
        });
        EpisodConfig {
            server: ServerConfig { host: default_host(), port: default_port() },
            upstreams,
            storage: StorageConfig::default(),
        }
    }
}

} // verus!
