//! The configuration of the package manager and its default locations.
use vstd::prelude::*;

use crate::ostree::OStreeConfig;
use crate::repository::RepositoryConfig;
use crate::sys::{path_from, path_of};
use std::path::PathBuf;

verus! {

/// How much the package manager logs.
#[derive(Debug, Clone, Copy, PartialEq, Eq, Structural)]
pub enum LogLevel {
    Trace,
    Debug,
    Info,
    Warn,
    Error,
}

/// Where things are, how much is logged, the repositories and snapshots.
pub struct Config {
    pub config_path: PathBuf,
    pub data_dir: PathBuf,
    pub cache_dir: PathBuf,
    pub lock_file: PathBuf,
    pub log_level: LogLevel,
    pub repository: RepositoryConfig,
    pub ostree: OStreeConfig,
}

impl Config {
    /// `/var/lib/upm`, where the package manager keeps its data.
    pub fn default_data_dir() -> (r: PathBuf)
        ensures
            r == path_of("/var/lib/upm"@),
    {
        path_from("/var/lib/upm".to_owned())
    }

    /// `/var/cache/upm`, where downloads are kept.
    pub fn default_cache_dir() -> (r: PathBuf)
        ensures
            r == path_of("/var/cache/upm"@),
    {
        path_from("/var/cache/upm".to_owned())
    }

    /// `/etc/upm/config.toml`, where the configuration is read from.
    pub fn default_config_path() -> (r: PathBuf)
        ensures
            r == path_of("/etc/upm/config.toml"@),
    {
        path_from("/etc/upm/config.toml".to_owned())
    }
}

} // verus!
