use std::path::PathBuf;
use upm::errors::Error;
use upm::package_manager::Package;
use upm::transaction::{
    lookup_directories, rollback_plan, status_directory, transaction_file_name, transaction_location, RollbackAction,
    StepStatus, Transaction, TransactionManager, TransactionStatus, TransactionStep,
};
use std::time::{Duration, SystemTime};

fn record(name: &str) -> Package {
    Package {
        id: format!("{}-1", name),
        name: name.to_string(),
        version: "1".to_string(),
        repository: "main".to_string(),
        state_of_instalation: false,
        description: None,
        license: None,
    }
}

#[test]
fn new_transaction_is_in_progress() {
    let t = Transaction::new("install", record("vim"));
    assert_eq!(t.operation(), "install");
    assert_eq!(t.status(), TransactionStatus::InProgress);
    assert!(t.steps().is_empty());
    assert!(t.completed_at().is_none());
    assert!(t.ostree_previous_commit().is_none());
    assert_eq!(t.id().len(), 36);
}

#[test]
fn steps_are_added_and_updated() {
    let mut t = Transaction::new("install", record("vim"));
    t.add_step(TransactionStep::new("download"));
    t.add_step(TransactionStep::new("install_file"));
    t.add_step(TransactionStep::new("download"));
    t.update_step("download", StepStatus::Completed).unwrap();
    assert_eq!(*t.steps()[0].status(), StepStatus::Completed);
    assert_eq!(*t.steps()[2].status(), StepStatus::Pending);
    match t.update_step("nothing", StepStatus::Failed) {
        Err(Error::StepNotFound(n)) => assert_eq!(n, "nothing"),
        other => panic!("unexpected {:?}", other.err()),
    }
}

#[test]
fn completing_and_failing() {
    let mut t = Transaction::new("remove", record("git"));
    t.mark_completed();
    assert_eq!(t.status(), TransactionStatus::Completed);
    assert!(t.completed_at().is_some());
    let mut u = Transaction::new("remove", record("git"));
    u.mark_failed();
    assert_eq!(u.status(), TransactionStatus::Failed);
}

#[test]
fn step_details() {
    let s = TransactionStep::with_details(
        "install_file",
        vec![("file_path".to_string(), "/usr/bin/vim".to_string())],
    );
    assert_eq!(s.name(), "install_file");
    assert_eq!(s.detail("file_path").map(|s| s.as_str()), Some("/usr/bin/vim"));
    assert!(s.detail("dir_path").is_none());
}

#[test]
fn rollback_undoes_completed_steps_last_first() {
    let mut t = Transaction::new("install", record("vim"));
    let mut a = TransactionStep::with_details("create_directory", vec![("dir_path".to_string(), "/opt/vim".to_string())]);
    a.mark_completed();
    let mut b = TransactionStep::with_details("install_file", vec![("file_path".to_string(), "/opt/vim/vim".to_string())]);
    b.mark_completed();
    let c = TransactionStep::with_details("install_file", vec![("file_path".to_string(), "/opt/vim/pending".to_string())]);
    let mut d = TransactionStep::new("run_pre_install");
    d.mark_completed();
    let mut e = TransactionStep::new("something_else");
    e.mark_completed();
    let mut f = TransactionStep::new("install_file");
    f.mark_completed();
    for s in [a, b, c, d, e, f] {
        t.add_step(s);
    }
    let plan = rollback_plan(&t);
    assert_eq!(plan.len(), 4);
    assert!(matches!(&plan[0], RollbackAction::Unknown(n) if n == "something_else"));
    assert!(matches!(&plan[1], RollbackAction::RunPreRemove));
    assert!(matches!(&plan[2], RollbackAction::RemoveFile(p) if p == "/opt/vim/vim"));
    assert!(matches!(&plan[3], RollbackAction::RemoveDirectory(p) if p == "/opt/vim"));
}

#[test]
fn manager_tracks_current_transaction() {
    let mut m = TransactionManager::new(PathBuf::from("/var/lib/upm/transactions"));
    assert!(m.current_transaction().is_none());
    match m.add_step(TransactionStep::new("x")) {
        Err(Error::AddStepError(msg)) => assert_eq!(msg, "No active transaction"),
        other => panic!("unexpected {:?}", other.err()),
    }
    match m.update_step_status("x", StepStatus::Completed) {
        Err(Error::UpdateStepError(msg)) => assert_eq!(msg, "No active transaction"),
        other => panic!("unexpected {:?}", other.err()),
    }
    let t = m.begin_transaction("install", &record("vim"));
    m.add_step(TransactionStep::new("download")).unwrap();
    m.update_step_status("download", StepStatus::Completed).unwrap();
    assert_eq!(*m.current_transaction().unwrap().steps()[0].status(), StepStatus::Completed);
    m.commit_transaction(&t, Ok(())).unwrap();
    assert!(m.current_transaction().is_none());
}

#[test]
fn failed_move_keeps_transaction() {
    let mut m = TransactionManager::new(PathBuf::from("/var/lib/upm/transactions"));
    let t = m.begin_transaction("install", &record("vim"));
    assert!(m.commit_transaction(&t, Err(Error::TransactionError("disk full".to_string()))).is_err());
    assert!(m.current_transaction().is_some());
    m.finish_rollback(Ok(())).unwrap();
    assert!(m.current_transaction().is_none());
}

#[test]
fn storage_names() {
    assert_eq!(status_directory(TransactionStatus::InProgress), "active");
    assert_eq!(status_directory(TransactionStatus::Completed), "completed");
    assert_eq!(status_directory(TransactionStatus::Failed), "failed");
    assert_eq!(status_directory(TransactionStatus::RolledBack), "failed");
    assert_eq!(transaction_file_name("abc"), "abc.toml");
    assert_eq!(lookup_directories(), vec!["active", "completed", "failed"]);
}

#[test]
fn step_duration_counts_from_its_stamp() {
    let mut step = TransactionStep::new("download");
    step.set_timestamp(SystemTime::UNIX_EPOCH + Duration::from_secs(100));
    let d = step.duration_until(SystemTime::UNIX_EPOCH + Duration::from_secs(250)).unwrap();
    assert_eq!(d, Duration::from_secs(150));
    match step.duration_until(SystemTime::UNIX_EPOCH + Duration::from_secs(50)) {
        Err(Error::TimeStampError(_)) => {}
        other => panic!("unexpected {:?}", other),
    }
}

#[test]
fn transaction_duration_counts_from_its_start() {
    let t = Transaction::new("install", record("vim"));
    let later = t.started_at() + Duration::from_secs(7);
    assert_eq!(t.duration_at(later), Some(Duration::from_secs(7)));
    assert_eq!(t.duration_at(SystemTime::UNIX_EPOCH), None);
}

#[test]
fn transaction_found_in_first_directory_holding_it() {
    assert_eq!(transaction_location(true, true, true), Some("active"));
    assert_eq!(transaction_location(false, true, true), Some("completed"));
    assert_eq!(transaction_location(false, false, true), Some("failed"));
    assert_eq!(transaction_location(false, false, false), None);
}

#[test]
fn repeated_detail_key_keeps_last_value() {
    let s = TransactionStep::with_details(
        "install_file",
        vec![
            ("file_path".to_string(), "/usr/bin/old".to_string()),
            ("mode".to_string(), "755".to_string()),
            ("file_path".to_string(), "/usr/bin/new".to_string()),
        ],
    );
    assert_eq!(s.details().len(), 2);
    assert_eq!(s.details()[0], ("file_path".to_string(), "/usr/bin/new".to_string()));
    assert_eq!(s.details()[1], ("mode".to_string(), "755".to_string()));
    assert_eq!(s.detail("file_path").map(|v| v.as_str()), Some("/usr/bin/new"));
}
