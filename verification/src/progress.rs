//! How far a running operation has come, as other processes read it.
use vstd::prelude::*;

use std::path::PathBuf;
use std::time::SystemTime;

verus! {

/// The stage an operation is in.
#[derive(Debug, Clone, Copy, PartialEq, Eq, Structural)]
pub enum ProgressStage {
    Initializing,
    ResolvingDependencies,
    DownloadingPackages,
    ExtractingPackages,
    RunningPreInstall,
    InstallingFiles,
    RunningPostInstall,
    CreatingOSTreeCommit,
    Finalizing,
    Complete,
}

/// The progress of the operation of one process.
pub struct Progress {
    pub pid: u32,
    pub percentage: u8,
    pub stage: ProgressStage,
    pub message: String,
    pub current_file: Option<PathBuf>,
    pub bytes_processed: u64,
    pub total_bytes: u64,
    pub updated_at: SystemTime,
}

} // verus!
