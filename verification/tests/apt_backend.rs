use upm::apt::AptBackend;

#[test]
fn test_backend_creation() {
    let backend = AptBackend::new();
    assert_eq!(backend.name(), "apt");
}

use upm::apt::{parse_installed_list, parse_upgradable_list, BackendError, BackendOperationResult, CommandOutput};

fn out(success: bool, stdout: &str, stderr: &str) -> CommandOutput {
    CommandOutput { success, exit_code: Some(if success { 0 } else { 100 }), stdout: stdout.to_string(), stderr: stderr.to_string() }
}

#[test]
fn apt_show_is_read() {
    let mut backend = AptBackend::new();
    backend.init(true);
    let text = "Package: vim\nVersion: 2:9.0.1378-2\nInstalled-Size: 3,000\nInstalled-Size: 4096\nDepends: vim-common (= 2:9.0), vim-runtime, libc6 (>= 2.34)\nSection: editors\nDescription: Vi IMproved\n";
    let info = backend.parse_apt_show(text).unwrap();
    assert_eq!(info.name, "vim");
    assert_eq!(info.version, "2:9.0.1378-2");
    assert_eq!(info.repository, "apt");
    assert_eq!(info.size, Some(4096 * 1024));
    assert_eq!(info.dependencies, vec!["vim-common", "vim-runtime", "libc6"]);
    assert_eq!(info.description.as_deref(), Some("Vi IMproved"));
    assert_eq!(info.metadata, vec![("section".to_string(), "editors".to_string())]);
    assert!(info.license.is_none());
}

#[test]
fn apt_show_without_package_line_is_not_found() {
    let backend = AptBackend::new();
    assert!(matches!(backend.parse_apt_show("Version: 1\n"), Err(BackendError::PackageNotFound(_))));
}

#[test]
fn unavailable_backend_is_refused() {
    let mut backend = AptBackend::new();
    match backend.ensure_available() {
        Err(BackendError::NotAvailable(m)) => assert_eq!(m, "APT is not available on this system"),
        _ => panic!("expected NotAvailable"),
    }
    backend.init(true);
    assert!(backend.ensure_available().is_ok());
}

#[test]
fn installed_and_upgradable_lists() {
    let installed = parse_installed_list("vim\t9.0\nbroken line\ngit\t2.40\n");
    let pairs: Vec<(String, String)> = installed.into_iter().map(|i| (i.name, i.version)).collect();
    assert_eq!(pairs, vec![("vim".to_string(), "9.0".to_string()), ("git".to_string(), "2.40".to_string())]);
    let upgradable = parse_upgradable_list(
        "Listing... Done\nvim/stable 2:9.1 amd64 [upgradable from: 2:9.0]\nlonely\n",
    );
    let pairs: Vec<(String, String)> = upgradable.into_iter().map(|i| (i.name, i.version)).collect();
    assert_eq!(pairs, vec![("vim".to_string(), "2:9.1".to_string())]);
}

#[test]
fn apt_arguments() {
    assert_eq!(AptBackend::install_args("vim", None), vec!["install", "-y", "vim"]);
    assert_eq!(AptBackend::install_args("vim", Some("9.0")), vec!["install", "-y", "vim=9.0"]);
    assert_eq!(AptBackend::remove_args("vim", false), vec!["remove", "-y", "vim"]);
    assert_eq!(AptBackend::remove_args("vim", true), vec!["purge", "-y", "vim"]);
    assert_eq!(AptBackend::upgrade_args("vim"), vec!["install", "--only-upgrade", "-y", "vim"]);
    assert_eq!(AptBackend::update_args(), vec!["update"]);
    assert_eq!(AptBackend::package_spec("vim", Some("1")), "vim=1");
}

#[test]
fn apt_version_is_captured() {
    assert_eq!(
        AptBackend::version_from_output(&out(true, "apt 2.6.1 (amd64)\n", "")).as_deref(),
        Some("2.6.1")
    );
    assert_eq!(AptBackend::version_from_output(&out(true, "no version here", "")), None);
    assert_eq!(AptBackend::version_from_output(&out(false, "apt 2.6.1", "")), None);
}

#[test]
fn command_results() {
    let r = AptBackend::operation_result(out(false, "o", "E: boom"));
    assert!(!r.success);
    assert_eq!(r.error.as_deref(), Some("E: boom"));
    assert_eq!(r.exit_code, Some(100));
    match AptBackend::check_install_result(r) {
        Err(BackendError::InstallationFailed(m)) => assert_eq!(m, "E: boom"),
        _ => panic!("expected failure"),
    }
    let none = BackendOperationResult { success: false, error: None, stdout: None, stderr: None, exit_code: None };
    match AptBackend::check_remove_result(none) {
        Err(BackendError::RemovalFailed(m)) => assert_eq!(m, "Unknown error"),
        _ => panic!("expected failure"),
    }
    let none = BackendOperationResult { success: false, error: None, stdout: None, stderr: None, exit_code: None };
    match AptBackend::check_upgrade_result(none) {
        Err(BackendError::Unknown(m)) => assert_eq!(m, "Failed to upgrade package"),
        _ => panic!("expected failure"),
    }
    let ok = AptBackend::operation_result(out(true, "done", ""));
    assert!(AptBackend::check_install_result(ok).is_ok());
}

#[test]
fn status_queries() {
    assert!(AptBackend::installed_from_status(&out(true, "Package: vim\nStatus: install ok installed\n", "")));
    assert!(!AptBackend::installed_from_status(&out(true, "Status: deinstall ok config-files", "")));
    assert!(AptBackend::search_found(&out(true, "vim - editor\n", "")));
    assert!(!AptBackend::search_found(&out(true, "  \n", "")));
    assert!(AptBackend::dependency_check(&out(true, "", "")).is_ok());
    match AptBackend::dependency_check(&out(false, "", "broken deps")) {
        Err(BackendError::DependencyConflict(m)) => assert_eq!(m, "broken deps"),
        _ => panic!("expected conflict"),
    }
    let s = AptBackend::status(true, Some("2.6.1".to_string()));
    assert_eq!(s.info.as_deref(), Some("APT package manager for Debian/Ubuntu"));
}

#[test]
fn installed_sizes_must_fit() {
    assert!(upm::apt::installed_sizes_fit("Package: a\nInstalled-Size: 10\n"));
    assert!(upm::apt::installed_sizes_fit("Installed-Size: not a number\n"));
    assert!(upm::apt::installed_sizes_fit(&format!("Installed-Size: {}\n", u64::MAX / 1024)));
    assert!(!upm::apt::installed_sizes_fit(&format!("Installed-Size: {}\n", u64::MAX / 1024 + 1)));
}
