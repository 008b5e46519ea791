//! File locks that keep package operations apart: what a probe of the lock
//! file tells, and what is shown while waiting for a lock.
//!
//! Opening the lock file and asking the kernel about its locks is left to
//! the caller, who hands in what the kernel answered.
use vstd::prelude::*;

use crate::errors::{Error, Result};
use crate::operations::{ActiveOperationsTracker, OperationInfo};
use crate::text::{concat2, concat4};
use std::path::PathBuf;
use std::time::SystemTime;

verus! {

/// Shared locks allow other readers; an exclusive lock allows nobody else.
#[derive(Debug, Clone, Copy, PartialEq, Eq, Structural)]
pub enum LockType {
    Shared,
    Exclusive,
}

/// A lock someone holds on the lock file.
pub struct LockInfo {
    pub pid: u32,
    pub lock_type: LockType,
    pub operation: String,
    pub package: Option<String>,
    pub started_at: SystemTime,
}

/// The kind of lock a probe found in the way.
#[derive(Debug, Clone, Copy, PartialEq, Eq, Structural)]
pub enum ProbedLock {
    /// No lock would block the one asked about.
    Unlocked,
    /// A read lock would block it.
    Read,
    /// A write lock would block it.
    Write,
}

/// What asking the kernel for the lock that would block a given one
/// (`fcntl` with `F_GETLK`) gave.
#[derive(Debug, Clone, Copy, PartialEq, Eq, Structural)]
pub enum LockProbe {
    /// The call failed.
    Failed,
    /// The call answered: the kind of lock in the way and its owner.
    Answered { found: ProbedLock, pid: i32 },
}

/// Coordinates package operations through a lock file.
pub struct LockManager {
    lock_file_path: PathBuf,
    operations_tracker: ActiveOperationsTracker,
}

impl LockManager {
    pub closed spec fn path_view(&self) -> PathBuf {
        self.lock_file_path
    }

    pub closed spec fn tracker_view(&self) -> ActiveOperationsTracker {
        self.operations_tracker
    }

    pub fn new(lock_file_path: PathBuf, tracker: ActiveOperationsTracker) -> (r: Self)
        ensures
            r.path_view() == lock_file_path,
            r.tracker_view() == tracker,
    {
        Self { lock_file_path, operations_tracker: tracker }
    }

    pub fn lock_file_path(&self) -> (r: &PathBuf)
        ensures
            *r == self.path_view(),
    {
        &self.lock_file_path
    }

    pub fn operations_tracker(&self) -> (r: &ActiveOperationsTracker)
        ensures
            *r == self.tracker_view(),
    {
        &self.operations_tracker
    }

    /// The answer to "is the lock file locked?" from a probe for a write
    /// lock: false when the probe failed; otherwise true exactly when the
    /// lock in the way is not a write lock.
    pub fn is_locked(write_probe: LockProbe) -> (r: bool)
        ensures
            r == match write_probe {
                LockProbe::Failed => false,
                LockProbe::Answered { found, pid } => found != ProbedLock::Write,
            },
    {
        match write_probe {
            LockProbe::Failed => false,
            LockProbe::Answered { found, pid: _ } => found != ProbedLock::Write,
        }
    }

    /// The locks held on the lock file, from a probe for a read lock and one
    /// for a write lock, each stamped with the clock reading taken when its
    /// probe answered: a shared lock when the first probe found a read lock,
    /// then an exclusive one when the second found a write lock.
    pub fn get_lock_info(
        read_probe: LockProbe,
        read_time: SystemTime,
        write_probe: LockProbe,
        write_time: SystemTime,
    ) -> (r: Vec<LockInfo>)
        ensures
            r@.len() == (if read_probe matches LockProbe::Answered { found: ProbedLock::Read, .. } {
                1int
            } else {
                0int
            }) + (if write_probe matches LockProbe::Answered { found: ProbedLock::Write, .. } {
                1int
            } else {
                0int
            }),
            forall|i: int| 0 <= i < r@.len() ==> (#[trigger] r@[i]).package is None,
            read_probe matches LockProbe::Answered { found: ProbedLock::Read, pid } ==> {
                &&& r@[0].started_at == read_time
                &&& r@[0].pid == pid as u32
                &&& r@[0].lock_type == LockType::Shared
                &&& r@[0].operation@ == "shared_lock"@
            },
            write_probe matches LockProbe::Answered { found: ProbedLock::Write, pid } ==> {
                &&& r@.last().started_at == write_time
                &&& r@.last().pid == pid as u32
                &&& r@.last().lock_type == LockType::Exclusive
                &&& r@.last().operation@ == "exclusive_lock"@
            },
    {
        let mut locks: Vec<LockInfo> = Vec::new();
        if let LockProbe::Answered { found: ProbedLock::Read, pid } = read_probe {
            locks.push(
                LockInfo {
                    pid: pid as u32,
                    lock_type: LockType::Shared,
                    operation: "shared_lock".to_owned(),
                    package: None,
                    started_at: read_time,
                },
            );
        }
        if let LockProbe::Answered { found: ProbedLock::Write, pid } = write_probe {
            locks.push(
                LockInfo {
                    pid: pid as u32,
                    lock_type: LockType::Exclusive,
                    operation: "exclusive_lock".to_owned(),
                    package: None,
                    started_at: write_time,
                },
            );
        }
        locks
    }
}

/// The package named by the first active operation, or nothing.
pub open spec fn first_package(ops: Seq<OperationInfo>) -> Seq<char> {
    match ops[0].package {
        Some(p) => p@,
        None => seq![],
    }
}

/// What is shown while waiting for a lock: one line per active operation,
/// giving its operation and the package of the first one, then a waiting
/// line. With no operation, or no package named, there is nothing to show
/// and the reason is an error.
pub fn waiting_message(ops: &Vec<OperationInfo>) -> (r: Result<Vec<String>>)
    ensures
        ops@.len() == 0 ==> (r matches Err(Error::LockError(m)) && m@ == "Lock file is empty"@),
        ops@.len() > 0 && first_package(ops@).len() == 0 ==> (r matches Err(
            Error::TransactionError(m),
        ) && m@ == "No package specified: "@),
        ops@.len() > 0 && first_package(ops@).len() > 0 ==> (r matches Ok(lines) && lines@.len()
            == ops@.len() + 1 && (forall|i: int|
            0 <= i < ops@.len() ==> (#[trigger] lines@[i])@ == "   "@ + ops@[i].operation@ + " "@
                + first_package(ops@)) && lines@.last()@ == "   Waiting for lock..."@),
{
    if ops.len() == 0 {
        return Err(Error::LockError("Lock file is empty".to_owned()));
    }
    let package: String = match &ops[0].package {
        Some(p) => p.clone(),
        None => String::new(),
    };
    if package.as_str().is_empty() {
        return Err(Error::TransactionError(concat2("No package specified: ", package.as_str())));
    }
    let mut lines: Vec<String> = Vec::new();
    let mut i: usize = 0;
    while i < ops.len()
        invariant
            i <= ops@.len(),
            ops@.len() > 0,
            package@ == first_package(ops@),
            lines@.len() == i,
            forall|k: int|
                0 <= k < i ==> (#[trigger] lines@[k])@ == "   "@ + ops@[k].operation@ + " "@ + package@,
        decreases ops@.len() - i,
    {
        let line = concat4("   ", ops[i].operation.as_str(), " ", package.as_str());
        lines.push(line);
        i = i + 1;
    }
    lines.push("   Waiting for lock...".to_owned());
    Ok(lines)
}

} // verus!
