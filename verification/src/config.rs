//! Application settings, kept in `~/.rxiu/config/config.toml`.

use vstd::prelude::*;
use crate::text::{path_join, path_join_spec};

verus! {

/// The settings of the RS subsystem and of automatic updates.
#[derive(Debug, Clone, Copy, PartialEq, Eq)]
pub struct AppConfig {
    /// Parallel block downloads of an `rsget`.
    pub rs_concurrency: usize,
    /// Parallel block downloads of the background synchroniser.
    pub rs_sync_concurrency: usize,
    /// Block size of newly shared files, in MiB.
    pub rs_block_size_mb: u64,
    /// Whether the daemon synchronises in the background.
    pub rs_global_sync: bool,
    /// On how many nodes each block is kept.
    pub rs_replication_factor: usize,
    /// Whether automatic updates from peers are on.
    pub renew_enabled: bool,
    /// Seconds between update checks.
    pub renew_check_interval: u64,
}

impl Default for AppConfig {
    fn default() -> (c: Self)
        ensures
            c.rs_concurrency == 8,
            c.rs_sync_concurrency == 8,
            c.rs_block_size_mb == 16,
            c.rs_global_sync,
            c.rs_replication_factor == 2,
            c.renew_enabled,
            c.renew_check_interval == 300,
    {
        AppConfig {
            rs_concurrency: 8,
            rs_sync_concurrency: 8,
            rs_block_size_mb: 16,
            rs_global_sync: true,
            rs_replication_factor: 2,
            renew_enabled: true,
            renew_check_interval: 300,
        }
    }
}

/// `~/.rxiu/config/config.toml` under the given home directory.
pub open spec fn config_path_spec(home: Seq<char>) -> Seq<char> {
    path_join_spec(path_join_spec(path_join_spec(home, ".rxiu"@), "config"@), "config.toml"@)
}

impl AppConfig {
    /// The settings file under the given home directory.
    pub fn path(home: &str) -> (r: String)
        ensures
            r@ == config_path_spec(home@),
    {
        let rxiu = path_join(home, ".rxiu");
        let dir = path_join(rxiu.as_str(), "config");
        path_join(dir.as_str(), "config.toml")
    }
}

} // verus!
