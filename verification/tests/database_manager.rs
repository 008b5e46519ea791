use std::path::PathBuf;
use upm::database_manager::DatabaseManager;
use upm::errors::Error;
use upm::types::{Dependency, Package, PackageInfo, PackageMetadata};

fn package(name: &str, version: &str) -> Package {
    Package {
        info: PackageInfo { name: name.to_string(), version: version.to_string(), format: "deb".to_string() },
        metadata: PackageMetadata {
            description: format!("{} package", name),
            maintainer: "someone".to_string(),
            homepage: None,
            license: Some("MIT".to_string()),
        },
        dependencies: vec![Dependency { name: "libc".to_string(), version_req: Some(">= 2".to_string()) }],
    }
}

fn db() -> DatabaseManager {
    DatabaseManager::new(PathBuf::from("/tmp/upm-test-db")).unwrap()
}

#[test]
fn added_package_is_found() {
    let mut db = db();
    db.add_package(&package("vim", "9.0")).unwrap();
    let got = db.get_package("vim").unwrap().unwrap();
    assert_eq!(got.info.name, "vim");
    assert_eq!(got.info.version, "9.0");
    assert_eq!(got.metadata.description, "vim package");
    assert_eq!(got.dependencies.len(), 1);
    assert_eq!(got.dependencies[0].version_req.as_deref(), Some(">= 2"));
}

#[test]
fn unknown_package_is_none() {
    let db = db();
    assert!(db.get_package("nothing").unwrap().is_none());
}

#[test]
fn adding_twice_is_refused() {
    let mut db = db();
    db.add_package(&package("vim", "9.0")).unwrap();
    match db.add_package(&package("vim", "9.1")) {
        Err(Error::OperationFailed(m)) => assert_eq!(m, "Package already exists: vim"),
        other => panic!("unexpected {:?}", other.err()),
    }
    assert_eq!(db.get_package("vim").unwrap().unwrap().info.version, "9.0");
}

#[test]
fn removing_forgets_package_and_files() {
    let mut db = db();
    db.add_package(&package("vim", "9.0")).unwrap();
    db.add_package(&package("git", "2.40")).unwrap();
    db.register_file("vim", "/usr/bin/vim").unwrap();
    db.register_file("git", "/usr/bin/git").unwrap();
    db.register_file("vim", "/usr/share/vim/vimrc").unwrap();
    db.remove_package("vim").unwrap();
    assert!(db.get_package("vim").unwrap().is_none());
    assert_eq!(db.get_file_owner("/usr/bin/vim").unwrap(), None);
    assert_eq!(db.get_file_owner("/usr/bin/git").unwrap(), Some("git".to_string()));
    let names: Vec<String> = db.list_all_packages().unwrap().into_iter().map(|p| p.name).collect();
    assert_eq!(names, vec!["git".to_string()]);
}

#[test]
fn removing_unknown_is_refused() {
    let mut db = db();
    match db.remove_package("ghost") {
        Err(Error::PackageNotFound(m)) => assert_eq!(m, "ghost"),
        other => panic!("unexpected {:?}", other.err()),
    }
}

#[test]
fn update_keeps_id() {
    let mut db = db();
    db.add_package(&package("vim", "9.0")).unwrap();
    db.update_package("vim", &package("neovim", "0.9")).unwrap();
    let got = db.get_package("vim").unwrap().unwrap();
    assert_eq!(got.info.name, "neovim");
    assert!(db.get_package("neovim").unwrap().is_none());
    match db.update_package("emacs", &package("emacs", "29")) {
        Err(Error::PackageNotFound(m)) => assert_eq!(m, "emacs"),
        other => panic!("unexpected {:?}", other.err()),
    }
}

#[test]
fn list_keeps_order_of_addition() {
    let mut db = db();
    db.add_package(&package("b", "1")).unwrap();
    db.add_package(&package("a", "2")).unwrap();
    db.add_package(&package("c", "3")).unwrap();
    let list = db.list_all_packages().unwrap();
    let labels: Vec<String> = list.iter().map(|p| format!("{} {}", p.name, p.version)).collect();
    assert_eq!(labels, vec!["b 1", "a 2", "c 3"]);
}

#[test]
fn search_ignores_case() {
    let mut db = db();
    db.add_package(&package("LibFoo", "1")).unwrap();
    db.add_package(&package("bar", "1")).unwrap();
    db.add_package(&package("foolish", "1")).unwrap();
    let found: Vec<String> = db.search_packages("FOO").unwrap().into_iter().map(|p| p.name).collect();
    assert_eq!(found, vec!["LibFoo".to_string(), "foolish".to_string()]);
    assert!(db.search_packages("zzz").unwrap().is_empty());
}

#[test]
fn files_of_a_package_in_order() {
    let mut db = db();
    db.add_package(&package("vim", "9.0")).unwrap();
    db.add_package(&package("git", "2.40")).unwrap();
    db.register_file("vim", "/b").unwrap();
    db.register_file("git", "/x").unwrap();
    db.register_file("vim", "/a").unwrap();
    assert_eq!(db.get_installed_files("vim").unwrap(), vec!["/b".to_string(), "/a".to_string()]);
    assert!(db.get_installed_files("emacs").is_err());
}

#[test]
fn register_and_unregister_file() {
    let mut db = db();
    db.add_package(&package("vim", "9.0")).unwrap();
    db.add_package(&package("git", "2.40")).unwrap();
    db.register_file("vim", "/usr/bin/vim").unwrap();
    assert_eq!(db.find_package_by_file("/usr/bin/vim").unwrap(), Some("vim".to_string()));
    // registering again for the same owner changes nothing
    db.register_file("vim", "/usr/bin/vim").unwrap();
    assert_eq!(db.get_installed_files("vim").unwrap().len(), 1);
    match db.register_file("git", "/usr/bin/vim") {
        Err(Error::OperationFailed(m)) => assert_eq!(m, "File /usr/bin/vim is already owned by vim"),
        other => panic!("unexpected {:?}", other.err()),
    }
    match db.register_file("emacs", "/usr/bin/emacs") {
        Err(Error::PackageNotFound(m)) => assert_eq!(m, "emacs"),
        other => panic!("unexpected {:?}", other.err()),
    }
    db.unregister_file("/usr/bin/vim").unwrap();
    assert_eq!(db.get_file_owner("/usr/bin/vim").unwrap(), None);
    match db.unregister_file("/usr/bin/vim") {
        Err(Error::OperationFailed(m)) => assert_eq!(m, "File not registered: /usr/bin/vim"),
        other => panic!("unexpected {:?}", other.err()),
    }
}
