use upm::errors::PackageError;
use upm::package_manager::{
    check_config_dirs, check_copied, check_destination, check_installed_ownership, check_mode,
    check_new_directory, check_owner_and_group, check_root_uid, check_source_exists, finish_operation,
    installed_answer, plan_install, plan_remove, DirProbe, InstallAction, InstallOptions, ManagerConfig,
    OperationStatus, RemoveAction, RemoveOptions,
};

fn msg(e: &PackageError) -> String {
    e.message()
}

#[test]
fn root_is_required() {
    assert!(check_root_uid(0).is_ok());
    match check_root_uid(1000) {
        Err(PackageError::PermissionError(m)) => assert_eq!(m, "This operation requires root privileges"),
        other => panic!("unexpected {:?}", other),
    }
}

#[test]
fn defaults() {
    let i = InstallOptions::default();
    assert!(i.backend.is_none());
    assert!(i.create_ostree_snapshot);
    let r = RemoveOptions::default();
    assert!(!r.purge);
    assert!(r.remove_dependencies);
    let c = ManagerConfig::default();
    assert!(c.auto_snapshot);
    assert_eq!(c.max_parallel_installs, 4);
    assert_eq!(c.operation_timeout, 300);
}

#[test]
fn install_plans() {
    let opts = InstallOptions::default();
    match plan_install("vim", true, true, &opts) {
        Err(e) => assert_eq!(msg(&e), "Package 'vim' is already installed"),
        Ok(_) => panic!("installed package accepted"),
    }
    assert!(matches!(plan_install("vim", true, false, &opts), Ok(InstallAction::MarkInstalled)));
    match plan_install("vim", false, false, &opts) {
        Ok(InstallAction::AddRecord(p)) => {
            assert_eq!(p.id, "vim-unknown");
            assert_eq!(p.name, "vim");
            assert_eq!(p.version, "unknown");
            assert_eq!(p.repository, "default");
            assert!(p.state_of_instalation);
        }
        _ => panic!("expected a new record"),
    }
}

#[test]
fn remove_plans() {
    let opts = RemoveOptions::default();
    assert!(plan_remove("vim", false, false, &opts).is_err());
    assert!(plan_remove("vim", true, false, &opts).is_err());
    assert!(matches!(plan_remove("vim", true, true, &opts), Ok(RemoveAction::MarkUninstalled)));
    let purge = RemoveOptions { purge: true, remove_dependencies: false };
    assert!(matches!(plan_remove("vim", true, true, &purge), Ok(RemoveAction::DeleteRecord)));
    assert!(installed_answer(true, true));
    assert!(!installed_answer(false, true));
}

#[test]
fn outcome_of_requests() {
    let all_ok = finish_operation("install", &vec![("a".to_string(), Ok(())), ("b".to_string(), Ok(()))]).unwrap();
    assert!(matches!(all_ok.status, OperationStatus::Completed { installed: 2, failed: 0 }));
    let id: Vec<char> = all_ok.operation_id.chars().collect();
    assert_eq!(id.len(), 36);
    assert_eq!((id[8], id[13], id[14], id[18], id[23]), ('-', '-', '4', '-', '-'));
    assert!("89ab".contains(id[19]));
    let empty = finish_operation("install", &vec![]).unwrap();
    assert!(matches!(empty.status, OperationStatus::Completed { installed: 0, failed: 0 }));
    let none_ok = finish_operation(
        "remove",
        &vec![
            ("a".to_string(), Err(PackageError::PackageNotFound("a".to_string()))),
            ("b".to_string(), Err(PackageError::OperationFailed("busy".to_string()))),
        ],
    );
    match none_ok {
        Err(PackageError::OperationFailed(error)) => assert_eq!(error, "Failed to remove a: a; Failed to remove b: busy"),
        _ => panic!("expected failure"),
    }
    let some_ok = finish_operation(
        "install",
        &vec![("a".to_string(), Ok(())), ("b".to_string(), Err(PackageError::IoError("x".to_string())))],
    );
    assert!(matches!(some_ok.unwrap().status, OperationStatus::Completed { installed: 1, failed: 1 }));
}

#[test]
fn working_directories_checked() {
    let dir = |d: &str, exists: bool, is_dir: bool| DirProbe { display: d.to_string(), exists, is_dir };
    assert!(check_config_dirs(&[dir("/tmp", true, true), dir("/var", true, true)]).is_ok());
    match check_config_dirs(&[dir("/a", true, false), dir("/b", false, false), dir("/c", false, true)]) {
        Err(PackageError::IoError(m)) => assert_eq!(m, "Directory /b does not exist"),
        other => panic!("unexpected {:?}", other),
    }
    match check_config_dirs(&[dir("/a", true, true), dir("/b", true, false)]) {
        Err(PackageError::ConfigError(m)) => assert_eq!(m, "Not a directory: /b"),
        other => panic!("unexpected {:?}", other),
    }
}

#[test]
fn file_installation_checks() {
    match check_source_exists(false, "/src/a") {
        Err(PackageError::FileNotFound(m)) => assert_eq!(m, "Source file not found: /src/a"),
        other => panic!("unexpected {:?}", other),
    }
    assert!(check_source_exists(true, "/src/a").is_ok());
    match check_copied(0, "/src/a") {
        Err(PackageError::IoError(m)) => assert_eq!(m, "File /src/a copy failed"),
        other => panic!("unexpected {:?}", other),
    }
    assert!(check_copied(12, "/src/a").is_ok());
    match check_installed_ownership(0, 1, 0, 0, "/usr/bin/a") {
        Err(PackageError::PermissionError(m)) => assert_eq!(m, "Failed to set ownership /usr/bin/a"),
        other => panic!("unexpected {:?}", other),
    }
    assert!(check_installed_ownership(5, 6, 5, 6, "/usr/bin/a").is_ok());
    match check_owner_and_group(1000, 100, 0, 0, "/x") {
        Err(PackageError::IoError(m)) => {
            assert_eq!(m, "Failed to set ownership for /x: expected UID:0, GID:0, got UID:1000, GID:100")
        }
        other => panic!("unexpected {:?}", other),
    }
    match check_mode(0o100644, 0o755, "/x") {
        Err(PackageError::IoError(m)) => {
            assert_eq!(m, "Failed to set permissions for /x: expected mode: 100644, got mode: 755")
        }
        other => panic!("unexpected {:?}", other),
    }
    assert!(check_mode(0o644, 0o644, "/x").is_ok());
}

#[test]
fn destination_checks() {
    match check_destination(true, "/opt/a", true) {
        Err(PackageError::PackageAlreadyExists(m)) => assert_eq!(m, "Directory already exists: /opt/a"),
        other => panic!("unexpected {:?}", other),
    }
    match check_destination(false, "/", false) {
        Err(PackageError::ConfigError(m)) => assert_eq!(m, "Invalid destination path"),
        other => panic!("unexpected {:?}", other),
    }
    assert!(check_destination(false, "/opt/a", true).is_ok());
    match check_new_directory(true, "/opt") {
        Err(PackageError::IoError(m)) => assert_eq!(m, "Failed to create directory: /opt"),
        other => panic!("unexpected {:?}", other),
    }
    assert!(check_new_directory(false, "/opt").is_ok());
}
