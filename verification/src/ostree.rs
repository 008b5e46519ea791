//! Snapshots of the system in an OSTree repository, taken around package
//! operations so that a failed one can be rolled back.
use vstd::prelude::*;

use crate::errors::{Error, Result};
use std::path::PathBuf;
use std::time::SystemTime;

verus! {

/// Where the OSTree repository is, whether snapshots are taken, and how
/// many deployments are kept.
pub struct OStreeConfig {
    pub repo_path: PathBuf,
    pub enabled: bool,
    pub max_deployments: u32,
}

/// A commit of the repository.
pub struct CommitInfo {
    pub hash: String,
    pub timestamp: SystemTime,
    pub message: String,
    pub parent: Option<String>,
}

/// A deployment of a commit.
pub struct DeploymentInfo {
    pub commit: String,
    pub timestamp: SystemTime,
    pub is_current: bool,
}

/// The repository snapshots are taken in.
pub struct OStreeManager {
    repo_path: PathBuf,
    enabled: bool,
}

impl OStreeManager {
    /// Where the repository is.
    pub closed spec fn repo(&self) -> PathBuf {
        self.repo_path
    }

    /// Whether snapshots are taken.
    pub closed spec fn is_enabled(&self) -> bool {
        self.enabled
    }

    /// A manager for the repository the configuration names.
    pub fn new(config: OStreeConfig) -> (r: Result<Self>)
        ensures
            r matches Ok(m) && m.repo() == config.repo_path && m.is_enabled() == config.enabled,
    {
        Ok(OStreeManager { repo_path: config.repo_path, enabled: config.enabled })
    }

    /// Snapshot operations are refused while snapshots are disabled.
    pub fn verify_enabled(&self) -> (r: Result<()>)
        ensures
            self.is_enabled() <==> r is Ok,
            !self.is_enabled() ==> (r matches Err(Error::OperationFailed(m)) && m@ == "OSTree is disabled"@),
    {
        if self.enabled {
            Ok(())
        } else {
            Err(Error::OperationFailed("OSTree is disabled".to_owned()))
        }
    }
}

} // verus!
