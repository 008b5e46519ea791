use std::path::PathBuf;
use std::time::SystemTime;
use upm::errors::Error;
use upm::lock::{waiting_message, LockManager, LockProbe, LockType, ProbedLock};
use upm::operations::{ActiveOperationsTracker, OperationInfo};

fn op(operation: &str, package: Option<&str>) -> OperationInfo {
    OperationInfo {
        pid: 42,
        lock_type: LockType::Exclusive,
        operation: operation.to_string(),
        package: package.map(|p| p.to_string()),
        user: "root".to_string(),
        started_at: SystemTime::UNIX_EPOCH,
        progress_file: PathBuf::from("/tmp/p"),
    }
}

#[test]
fn locked_unless_a_write_lock_is_in_the_way() {
    assert!(!LockManager::is_locked(LockProbe::Failed));
    assert!(!LockManager::is_locked(LockProbe::Answered { found: ProbedLock::Write, pid: 5 }));
    assert!(LockManager::is_locked(LockProbe::Answered { found: ProbedLock::Unlocked, pid: 0 }));
    assert!(LockManager::is_locked(LockProbe::Answered { found: ProbedLock::Read, pid: 5 }));
}

#[test]
fn lock_info_from_probes() {
    let now = SystemTime::UNIX_EPOCH;
    let later = now + std::time::Duration::from_secs(1);
    let both = LockManager::get_lock_info(
        LockProbe::Answered { found: ProbedLock::Read, pid: 10 },
        now,
        LockProbe::Answered { found: ProbedLock::Write, pid: 20 },
        later,
    );
    assert_eq!(both.len(), 2);
    assert_eq!(both[0].started_at, now);
    assert_eq!(both[1].started_at, later);
    assert_eq!(both[0].pid, 10);
    assert_eq!(both[0].lock_type, LockType::Shared);
    assert_eq!(both[0].operation, "shared_lock");
    assert_eq!(both[1].pid, 20);
    assert_eq!(both[1].lock_type, LockType::Exclusive);
    assert_eq!(both[1].operation, "exclusive_lock");
    let none = LockManager::get_lock_info(LockProbe::Failed, now, LockProbe::Answered { found: ProbedLock::Unlocked, pid: 0 }, now);
    assert!(none.is_empty());
}

#[test]
fn waiting_lines() {
    let lines = waiting_message(&vec![op("install", Some("vim")), op("remove", None)]).unwrap();
    assert_eq!(lines, vec!["   install vim", "   remove vim", "   Waiting for lock..."]);
    match waiting_message(&vec![]) {
        Err(Error::LockError(m)) => assert_eq!(m, "Lock file is empty"),
        other => panic!("unexpected {:?}", other.err()),
    }
    match waiting_message(&vec![op("install", None)]) {
        Err(Error::TransactionError(m)) => assert_eq!(m, "No package specified: "),
        other => panic!("unexpected {:?}", other.err()),
    }
}

#[test]
fn lock_manager_keeps_its_parts() {
    let m = LockManager::new(PathBuf::from("/run/upm.lock"), ActiveOperationsTracker::new(PathBuf::from("/run/ops")));
    assert_eq!(m.lock_file_path(), &PathBuf::from("/run/upm.lock"));
    assert_eq!(m.operations_tracker().file_path(), &PathBuf::from("/run/ops"));
}

#[test]
fn operation_on_a_package() {
    let o = op("install", None).with_package("git");
    assert_eq!(o.package.as_deref(), Some("git"));
    assert_eq!(o.operation, "install");
}

fn op_of(pid: u32, operation: &str) -> OperationInfo {
    let mut o = op(operation, Some("vim"));
    o.pid = pid;
    o
}

#[test]
fn tracker_keeps_one_record_per_process() {
    let tracker = ActiveOperationsTracker::new(PathBuf::from("/run/ops"));
    let mut ops = vec![op_of(1, "install"), op_of(2, "remove"), op_of(1, "upgrade")];
    tracker.register_operation(&mut ops, op_of(1, "search")).unwrap();
    let seen: Vec<(u32, String)> = ops.iter().map(|o| (o.pid, o.operation.clone())).collect();
    assert_eq!(seen, vec![(2, "remove".to_string()), (1, "search".to_string())]);
    tracker.unregister_operation(&mut ops, 2).unwrap();
    assert_eq!(ops.len(), 1);
    let found = tracker.get_operation(&ops, 1).unwrap().unwrap();
    assert_eq!(found.operation, "search");
    assert_eq!(found.progress_file, PathBuf::from("/tmp/p"));
    assert!(tracker.get_operation(&ops, 2).unwrap().is_none());
}

#[test]
fn tracker_drops_dead_processes() {
    let tracker = ActiveOperationsTracker::new(PathBuf::from("/run/ops"));
    let mut ops = vec![op_of(1, "a"), op_of(2, "b"), op_of(3, "c")];
    tracker.cleanup_dead_operations(&mut ops, &[true, false, true]).unwrap();
    let pids: Vec<u32> = ops.iter().map(|o| o.pid).collect();
    assert_eq!(pids, vec![1, 3]);
}
