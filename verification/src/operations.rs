//! Package operations that are running, as other processes see them.
use vstd::prelude::*;

use crate::errors::Result;
use crate::lock::LockType;
use crate::sys::copy_path;
use std::path::PathBuf;
use std::time::SystemTime;

verus! {

/// A running operation: who runs it, under which lock, on what.
pub struct OperationInfo {
    pub pid: u32,
    pub lock_type: LockType,
    pub operation: String,
    pub package: Option<String>,
    pub user: String,
    pub started_at: SystemTime,
    pub progress_file: PathBuf,
}

/// The operation is not run by process `pid`.
pub open spec fn not_of(pid: u32) -> spec_fn(OperationInfo) -> bool {
    |o: OperationInfo| o.pid != pid
}

/// The operations, in order, whose process is still alive.
pub open spec fn alive_only(ops: Seq<OperationInfo>, alive: Seq<bool>) -> Seq<OperationInfo>
    decreases ops.len(),
{
    if ops.len() == 0 {
        seq![]
    } else {
        let rest = alive_only(ops.drop_last(), alive.drop_last());
        if alive.last() {
            rest.push(ops.last())
        } else {
            rest
        }
    }
}

impl OperationInfo {
    /// A copy of the record.
    pub fn duplicate(&self) -> (r: Self)
        ensures
            r == *self,
    {
        OperationInfo {
            pid: self.pid,
            lock_type: self.lock_type,
            operation: self.operation.clone(),
            package: match &self.package {
                Some(p) => Some(p.clone()),
                None => None,
            },
            user: self.user.clone(),
            started_at: self.started_at,
            progress_file: copy_path(&self.progress_file),
        }
    }

    /// The same operation, on the given package.
    pub fn with_package(self, package: &str) -> (r: Self)
        ensures
            r.package matches Some(p) && p@ == package@,
            r.pid == self.pid,
            r.lock_type == self.lock_type,
            r.operation == self.operation,
            r.user == self.user,
            r.started_at == self.started_at,
            r.progress_file == self.progress_file,
    {
        let mut r = self;
        r.package = Some(package.to_owned());
        r
    }
}

/// Where the running operations are recorded.
pub struct ActiveOperationsTracker {
    file_path: PathBuf,
}

impl ActiveOperationsTracker {
    pub closed spec fn path_view(&self) -> PathBuf {
        self.file_path
    }

    pub fn new(file_path: PathBuf) -> (r: Self)
        ensures
            r.path_view() == file_path,
    {
        Self { file_path }
    }

    pub fn file_path(&self) -> (r: &PathBuf)
        ensures
            *r == self.path_view(),
    {
        &self.file_path
    }

    /// The recorded operations with `info` as the one of its process: an
    /// earlier record of that process is dropped, and `info` comes last.
    pub fn register_operation(&self, operations: &mut Vec<OperationInfo>, info: OperationInfo) -> (r: Result<()>)
        ensures
            r is Ok,
            final(operations)@ == old(operations)@.filter(not_of(info.pid)).push(info),
    {
        self.drop_process(operations, info.pid);
        operations.push(info);
        Ok(())
    }

    /// The recorded operations without those of process `pid`.
    pub fn unregister_operation(&self, operations: &mut Vec<OperationInfo>, pid: u32) -> (r: Result<()>)
        ensures
            r is Ok,
            final(operations)@ == old(operations)@.filter(not_of(pid)),
    {
        self.drop_process(operations, pid);
        Ok(())
    }

    fn drop_process(&self, operations: &mut Vec<OperationInfo>, pid: u32)
        ensures
            final(operations)@ == old(operations)@.filter(not_of(pid)),
    {
        let ghost all = operations@;
        let ghost pred = not_of(pid);
        let mut kept: Vec<OperationInfo> = Vec::new();
        let mut i: usize = 0;
        proof {
            reveal(Seq::filter);
            assert(all.take(0) =~= Seq::<OperationInfo>::empty());
        }
        while i < operations.len()
            invariant
                i <= operations@.len(),
                operations@ == all,
                pred == not_of(pid),
                kept@ == all.take(i as int).filter(pred),
            decreases operations@.len() - i,
        {
            assert(all.take(i + 1).drop_last() =~= all.take(i as int));
            proof {
                reveal(Seq::filter);
            }
            if operations[i].pid != pid {
                let copy = operations[i].duplicate();
                kept.push(copy);
            }
            i = i + 1;
        }
        assert(all.take(i as int) =~= all);
        *operations = kept;
    }

    /// A copy of the first recorded operation of process `pid`, if any.
    pub fn get_operation(&self, operations: &[OperationInfo], pid: u32) -> (r: Result<Option<OperationInfo>>)
        ensures
            r matches Ok(found) && match found {
                Some(o) => exists|i: int|
                    0 <= i < operations@.len() && operations@[i] == o && o.pid == pid && forall|j: int|
                        0 <= j < i ==> (#[trigger] operations@[j]).pid != pid,
                None => forall|i: int| 0 <= i < operations@.len() ==> (#[trigger] operations@[i]).pid != pid,
            },
    {
        let mut i: usize = 0;
        while i < operations.len()
            invariant
                i <= operations@.len(),
                forall|j: int| 0 <= j < i ==> (#[trigger] operations@[j]).pid != pid,
            decreases operations@.len() - i,
        {
            if operations[i].pid == pid {
                return Ok(Some(operations[i].duplicate()));
            }
            i = i + 1;
        }
        Ok(None)
    }

    /// The recorded operations whose process is still alive; `alive` tells,
    /// for each operation in order, whether its process is.
    pub fn cleanup_dead_operations(&self, operations: &mut Vec<OperationInfo>, alive: &[bool]) -> (r: Result<()>)
        requires
            alive@.len() == old(operations)@.len(),
        ensures
            r is Ok,
            final(operations)@ == alive_only(old(operations)@, alive@),
    {
        let ghost all = operations@;
        let mut kept: Vec<OperationInfo> = Vec::new();
        let mut i: usize = 0;
        assert(all.take(0) =~= Seq::<OperationInfo>::empty());
        while i < operations.len()
            invariant
                i <= operations@.len(),
                operations@ == all,
                alive@.len() == all.len(),
                kept@ == alive_only(all.take(i as int), alive@.take(i as int)),
            decreases operations@.len() - i,
        {
            assert(all.take(i + 1).drop_last() =~= all.take(i as int));
            assert(alive@.take(i + 1).drop_last() =~= alive@.take(i as int));
            if alive[i] {
                let copy = operations[i].duplicate();
                kept.push(copy);
            }
            i = i + 1;
        }
        assert(all.take(i as int) =~= all);
        assert(alive@.take(i as int) =~= alive@);
        *operations = kept;
        Ok(())
    }
}

} // verus!
