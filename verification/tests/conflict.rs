use std::path::PathBuf;
use upm::conflict::{ConflictDetector, ConflictType};
use upm::database_manager::DatabaseManager;
use upm::types::{Package, PackageInfo, PackageMetadata};

fn info(name: &str, version: &str, format: &str) -> PackageInfo {
    PackageInfo { name: name.to_string(), version: version.to_string(), format: format.to_string() }
}

fn package(name: &str, version: &str) -> Package {
    Package {
        info: info(name, version, "deb"),
        metadata: PackageMetadata { description: String::new(), maintainer: String::new(), homepage: None, license: None },
        dependencies: vec![],
    }
}

fn detector() -> ConflictDetector {
    let mut db = DatabaseManager::new(PathBuf::from("/tmp/db")).unwrap();
    db.add_package(&package("vim", "9.0")).unwrap();
    db.add_package(&package("git", "2.40")).unwrap();
    db.register_file("vim", "/usr/bin/vim").unwrap();
    db.register_file("git", "/usr/bin/git").unwrap();
    ConflictDetector::new(db)
}

#[test]
fn coexistence() {
    let d = detector();
    assert!(d.can_coexist(&info("a", "1", "deb"), &info("b", "1", "deb")));
    assert!(d.can_coexist(&info("a", "1", "deb"), &info("a", "1", "deb")));
    assert!(!d.can_coexist(&info("a", "1", "deb"), &info("a", "2", "deb")));
    assert!(!d.can_coexist(&info("a", "1", "deb"), &info("a", "1", "rpm")));
}

#[test]
fn other_version_installed_conflicts() {
    let d = detector();
    let c = d.check_package_conflicts(&info("vim", "9.1", "deb")).unwrap();
    assert_eq!(c.len(), 1);
    assert_eq!(c[0].conflict_type, ConflictType::PackageConflict);
    assert_eq!(c[0].package1, "vim");
    assert_eq!(c[0].package2, "vim");
    assert_eq!(c[0].details, "installed version: 9.0");
    assert!(c[0].conflicting_files.is_empty());
    assert!(d.check_package_conflicts(&info("vim", "9.0", "deb")).unwrap().is_empty());
    assert!(d.check_package_conflicts(&info("emacs", "29", "deb")).unwrap().is_empty());
}

#[test]
fn files_of_other_packages_conflict() {
    let d = detector();
    let files = vec!["/usr/bin/vim".to_string(), "/usr/bin/new".to_string(), "/usr/bin/git".to_string()];
    let c = d.check_file_conflicts(&info("vim", "9.1", "deb"), &files).unwrap();
    assert_eq!(c.len(), 1);
    assert_eq!(c[0].conflict_type, ConflictType::FileConflict);
    assert_eq!(c[0].package2, "git");
    assert_eq!(c[0].details, "file /usr/bin/git is owned by git");
    assert_eq!(c[0].conflicting_files, vec![PathBuf::from("/usr/bin/git")]);
}

#[test]
fn coexistence_is_symmetric() {
    let d = detector();
    let pairs = [
        (info("a", "1", "deb"), info("a", "2", "deb")),
        (info("a", "1", "deb"), info("b", "1", "deb")),
        (info("a", "1", "rpm"), info("a", "1", "deb")),
    ];
    for (x, y) in pairs.iter() {
        assert_eq!(d.can_coexist(x, y), d.can_coexist(y, x));
    }
}
