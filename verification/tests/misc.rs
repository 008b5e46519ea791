use std::path::PathBuf;
use std::time::Duration;
use upm::config::Config;
use upm::database::{check_database_creation, check_database_dir, check_database_path_is_valid, check_database_valid, check_rows_affected, DbError};
use upm::errors::{DataBaseError, Error};
use upm::installer::{FileSystemManager, Installer, PermissionsManager, ScriptRunner};
use upm::ostree::{OStreeConfig, OStreeManager};
use upm::repository::{CacheManager, PackageCategory, Repository, RepositoryConfig, RepositoryType};
use upm::text::{decimal_text, octal_text};
use upm::types::PackageDiff;

#[test]
fn diff_descriptions() {
    let d = PackageDiff { added: vec!["a".into(), "b".into()], removed: vec![], updated: vec!["c".into()] };
    assert_eq!(d.to_description(), "added: a, b; updated: c");
    let empty = PackageDiff { added: vec![], removed: vec![], updated: vec![] };
    assert_eq!(empty.to_description(), "");
    let one = PackageDiff::installation_of("vim");
    assert_eq!(one.to_description(), "added: vim");
}

#[test]
fn numbers_in_text() {
    assert_eq!(decimal_text(0), "0");
    assert_eq!(decimal_text(1234567890), "1234567890");
    assert_eq!(decimal_text(u64::MAX), u64::MAX.to_string());
    assert_eq!(octal_text(0o755), "755");
    assert_eq!(octal_text(0), "0");
    assert_eq!(octal_text(u32::MAX), format!("{:o}", u32::MAX));
}

#[test]
fn default_locations() {
    assert_eq!(Config::default_data_dir(), PathBuf::from("/var/lib/upm"));
    assert_eq!(Config::default_cache_dir(), PathBuf::from("/var/cache/upm"));
    assert_eq!(Config::default_config_path(), PathBuf::from("/etc/upm/config.toml"));
}

#[test]
fn installer_parts() {
    let _i = Installer::new();
    let _f = FileSystemManager::new(PathBuf::from("/tmp/x"));
    let _p = PermissionsManager::new();
    let _s = ScriptRunner::new();
    let _t = ScriptRunner::with_timeout(Duration::from_secs(5));
    let _b = ScriptRunner::with_sandbox(true);
    let _c = CacheManager::new(PathBuf::from("/var/cache/upm"), 1 << 30);
}

#[test]
fn ostree_enabled_or_not() {
    let on = OStreeManager::new(OStreeConfig { repo_path: PathBuf::from("/ostree/repo"), enabled: true, max_deployments: 3 }).unwrap();
    assert!(on.verify_enabled().is_ok());
    let off = OStreeManager::new(OStreeConfig { repo_path: PathBuf::from("/ostree/repo"), enabled: false, max_deployments: 3 }).unwrap();
    match off.verify_enabled() {
        Err(Error::OperationFailed(m)) => assert_eq!(m, "OSTree is disabled"),
        other => panic!("unexpected {:?}", other.err()),
    }
}

fn repo_config() -> RepositoryConfig {
    RepositoryConfig {
        config_path: PathBuf::from("/etc/upm/repos.toml"),
        repositories: vec![],
        native_priority: vec![RepositoryType::APT],
        universal_priority: vec![],
        auto_update: true,
        interactive_mode: false,
        cache_dir: PathBuf::from("/var/cache/upm"),
        max_cache_size: 10,
    }
}

#[test]
fn repositories_are_added_and_removed_by_name() {
    let mut c = repo_config();
    c.add_repository(Repository::new("main", "https://deb.example.org", RepositoryType::APT)).unwrap();
    match c.add_repository(Repository::new("main", "https://other", RepositoryType::RPM)) {
        Err(Error::ConfigError(m)) => assert_eq!(m, "Repository already exists: main"),
        other => panic!("unexpected {:?}", other.err()),
    }
    assert_eq!(c.repositories.len(), 1);
    c.remove_repository("main").unwrap();
    assert!(c.repositories.is_empty());
    match c.remove_repository("main") {
        Err(Error::ConfigError(m)) => assert_eq!(m, "Repository not found: main"),
        other => panic!("unexpected {:?}", other.err()),
    }
}

#[test]
fn priorities_of_repository_kinds() {
    let mut c = repo_config();
    c.set_universal_priority(vec![RepositoryType::Flatpak, RepositoryType::Snap]).unwrap();
    assert_eq!(c.get_priority(RepositoryType::Flatpak, PackageCategory::Universal), 2);
    assert_eq!(c.get_priority(RepositoryType::Snap, PackageCategory::Universal), 1);
    assert_eq!(c.get_priority(RepositoryType::APT, PackageCategory::Universal), 0);
    c.set_native_priority(vec![RepositoryType::RPM, RepositoryType::APT, RepositoryType::APT]).unwrap();
    assert_eq!(c.get_priority(RepositoryType::APT, PackageCategory::Native), 2);
}

#[test]
fn repository_builders() {
    let r = Repository::new("flathub", "https://flathub.org", RepositoryType::Flatpak)
        .with_category(PackageCategory::Universal)
        .with_priority(10);
    assert_eq!(r.category, PackageCategory::Universal);
    assert_eq!(r.priority, 10);
    assert!(r.is_enabled());
    assert!(r.gpg_check);
}

#[test]
fn database_checks() {
    match check_database_dir(1000, true, "/var/lib/upm") {
        Err(DataBaseError::InvalidPermissions(u)) => assert_eq!(u, 1000),
        other => panic!("unexpected {:?}", other),
    }
    match check_database_dir(0, false, "/var/lib/upm") {
        Err(DataBaseError::PathNotAccessible(p)) => assert_eq!(p, "/var/lib/upm"),
        other => panic!("unexpected {:?}", other),
    }
    assert!(check_database_dir(0, true, "/var/lib/upm").is_ok());
    assert!(check_database_path_is_valid("/d/p.db", true, Some("db"), 0o100600).is_ok());
    assert!(matches!(check_database_path_is_valid("/d/p.db", true, Some("db"), 0o644), Err(DataBaseError::IncorrectFilePermissions(_))));
    assert!(matches!(check_database_path_is_valid("/d/p.sqlite", true, Some("sqlite"), 0o600), Err(DataBaseError::InvalidDatabaseExtension(_))));
    assert!(matches!(check_database_path_is_valid("/d/p.db", false, Some("db"), 0o600), Err(DataBaseError::PathNotAccessible(_))));
    assert!(check_database_valid(true, Some("db"), 0o644).is_ok());
    assert!(matches!(check_database_valid(true, Some("db"), 0o400), Err(DbError::InvalidPermissions(_))));
    match check_database_creation(1000, "p.db", false) {
        Err(DbError::InvalidPermissions(m)) => assert_eq!(m, "Недостаточно прав. Текущий UID: 1000. Требуется root (UID 0)"),
        other => panic!("unexpected {:?}", other),
    }
    match check_database_creation(0, "p.db", true) {
        Err(DbError::DatabaseExists(m)) => assert_eq!(m, "Database p.db aalready exists\n"),
        other => panic!("unexpected {:?}", other),
    }
    assert!(check_database_creation(0, "p.db", false).is_ok());
    match check_rows_affected(0, "vim") {
        Err(DataBaseError::PackageNotFound(p)) => assert_eq!(p, "vim"),
        other => panic!("unexpected {:?}", other),
    }
    assert!(check_rows_affected(1, "vim").is_ok());
}
