//! The parts an installation is carried out with: the filesystem, file
//! ownership and modes, and package scripts.
use vstd::prelude::*;

use crate::sys::{duration_from_secs, path_from, path_of, seconds};
use std::path::PathBuf;
use std::time::Duration;

verus! {

/// What comes next in a run of items handled one after another, where the
/// first failure ends the run.
pub enum BatchStep {
    /// Handle the item at this index.
    Handle(usize),
    /// Every item was handled.
    Finished,
}

/// The next step of a run over `count` items of which the first `done` were
/// handled, the last handling having ended with `last`: a failure ends the
/// run with that error; otherwise the next item is handled, until none is
/// left.
pub fn next_in_batch<E>(count: usize, done: usize, last: Result<(), E>) -> (r: Result<BatchStep, E>)
    requires
        done <= count,
    ensures
        last matches Err(e) ==> (r matches Err(f) && f == e),
        last is Ok && done < count ==> (r matches Ok(BatchStep::Handle(i)) && i == done),
        last is Ok && done == count ==> r matches Ok(BatchStep::Finished),
{
    match last {
        Err(e) => Err(e),
        Ok(()) => {
            if done < count {
                Ok(BatchStep::Handle(done))
            } else {
                Ok(BatchStep::Finished)
            }
        },
    }
}

/// The files a package owns as a listing: none when it owns no file.
pub fn files_listing<T>(files: Vec<T>) -> (r: Option<Vec<T>>)
    ensures
        files@.len() == 0 ==> r is None,
        files@.len() > 0 ==> r == Some(files),
{
    if files.len() == 0 {
        None
    } else {
        Some(files)
    }
}

/// How many seconds a package script may run unless told otherwise.
pub const DEFAULT_SCRIPT_TIMEOUT_SECS: u64 = 300;

/// Files and directories, with a directory for temporary files.
pub struct FileSystemManager {
    temp_dir: PathBuf,
}

impl FileSystemManager {
    /// The directory for temporary files.
    pub closed spec fn temp(&self) -> PathBuf {
        self.temp_dir
    }

    pub fn new(temp_dir: PathBuf) -> (r: Self)
        ensures
            r.temp() == temp_dir,
    {
        FileSystemManager { temp_dir }
    }
}

/// Ownership and modes of files.
pub struct PermissionsManager;

impl PermissionsManager {
    pub fn new() -> (r: Self) {
        PermissionsManager
    }
}

/// The user that owns a file.
pub struct Owner {
    pub uid: u32,
    pub username: String,
}

/// The group of a file.
pub struct Group {
    pub gid: u32,
    pub groupname: String,
}

/// Runs package scripts, for a limited time, optionally in a sandbox.
pub struct ScriptRunner {
    timeout: Duration,
    sandbox_enabled: bool,
}

impl ScriptRunner {
    /// How long a script may run.
    pub closed spec fn limit(&self) -> Duration {
        self.timeout
    }

    /// Whether scripts run in a sandbox.
    pub closed spec fn sandboxed(&self) -> bool {
        self.sandbox_enabled
    }

    /// A runner with the default time limit and no sandbox.
    pub fn new() -> (r: Self)
        ensures
            r.limit() == seconds(DEFAULT_SCRIPT_TIMEOUT_SECS),
            !r.sandboxed(),
    {
        ScriptRunner { timeout: duration_from_secs(DEFAULT_SCRIPT_TIMEOUT_SECS), sandbox_enabled: false }
    }

    /// A runner with the given time limit and no sandbox.
    pub fn with_timeout(timeout: Duration) -> (r: Self)
        ensures
            r.limit() == timeout,
            !r.sandboxed(),
    {
        ScriptRunner { timeout, sandbox_enabled: false }
    }

    /// A runner with the default time limit, in a sandbox or not.
    pub fn with_sandbox(sandbox: bool) -> (r: Self)
        ensures
            r.limit() == seconds(DEFAULT_SCRIPT_TIMEOUT_SECS),
            r.sandboxed() == sandbox,
    {
        ScriptRunner { timeout: duration_from_secs(DEFAULT_SCRIPT_TIMEOUT_SECS), sandbox_enabled: sandbox }
    }
}

/// What a package script is told about the package it runs for.
pub struct ScriptContext {
    pub package_name: String,
    pub package_version: String,
    pub install_dir: PathBuf,
    pub temp_dir: PathBuf,
}

/// What a package script gave back.
pub struct ScriptOutput {
    pub exit_code: i32,
    pub stdout: String,
    pub stderr: String,
    pub duration: Duration,
}

/// Installs and removes package files.
pub struct Installer {
    fs_manager: FileSystemManager,
    permissions_manager: PermissionsManager,
    script_runner: ScriptRunner,
}

impl Installer {
    /// The filesystem part.
    pub closed spec fn filesystem(&self) -> FileSystemManager {
        self.fs_manager
    }

    /// The script part.
    pub closed spec fn scripts(&self) -> ScriptRunner {
        self.script_runner
    }

    /// An installer that unpacks into `/tmp/upm` and
    /// runs scripts with the default time limit and no sandbox.
    pub fn new() -> (r: Self)
        ensures
            r.filesystem().temp() == path_of("/tmp/upm"@),
            r.scripts().limit() == seconds(DEFAULT_SCRIPT_TIMEOUT_SECS),
            !r.scripts().sandboxed(),
    {
        let temp = path_from("/tmp/upm".to_owned());
        Installer {
            fs_manager: FileSystemManager::new(temp),
            permissions_manager: PermissionsManager::new(),
            script_runner: ScriptRunner::new(),
        }
    }
}

} // verus!
