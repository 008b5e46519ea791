use std::path::PathBuf;
use std::time::SystemTime;
use upm::errors::Error;
use upm::index::{IndexedPackage, PackageIndex, PackageIndexEntry, StoredPackage};

fn entry(id: &str, name: &str) -> PackageIndexEntry {
    PackageIndexEntry::new(
        id.to_string(),
        name.to_string(),
        "1.0".to_string(),
        "deb".to_string(),
        SystemTime::UNIX_EPOCH,
        10,
    )
}

#[test]
fn entries_are_found_whatever_the_case() {
    let mut idx = PackageIndex::empty(PathBuf::from("/var/lib/upm/index.toml"));
    idx.add_entry("Vim", entry("Vim", "vim"));
    assert_eq!(idx.get_entry("VIM").unwrap().name, "vim");
    assert_eq!(idx.get_entry("vim").unwrap().id, "Vim");
    assert!(idx.get_entry("emacs").is_none());
}

#[test]
fn adding_under_same_key_replaces() {
    let mut idx = PackageIndex::empty(PathBuf::from("/i"));
    idx.add_entry("vim", entry("vim", "old"));
    idx.add_entry("VIM", entry("vim", "new"));
    assert_eq!(idx.list_all().len(), 1);
    assert_eq!(idx.get_entry("vim").unwrap().name, "new");
}

#[test]
fn remove_undoes_add() {
    let mut idx = PackageIndex::empty(PathBuf::from("/i"));
    idx.add_entry("git", entry("git", "git"));
    idx.add_entry("vim", entry("vim", "vim"));
    idx.remove_entry("VIM");
    assert!(idx.get_entry("vim").is_none());
    assert_eq!(idx.list_all().len(), 1);
    idx.remove_entry("nothing");
    assert_eq!(idx.list_all().len(), 1);
}

#[test]
fn search_by_name_or_id() {
    let mut idx = PackageIndex::empty(PathBuf::from("/i"));
    idx.add_entry("a1", entry("a1", "FireFox"));
    idx.add_entry("fox-2", entry("fox-2", "other"));
    idx.add_entry("b", entry("b", "bash"));
    let found: Vec<String> = idx.search("fox").iter().map(|e| e.id.clone()).collect();
    assert_eq!(found, vec!["a1".to_string(), "fox-2".to_string()]);
}

#[test]
fn load_gives_stored_or_empty() {
    let idx = PackageIndex::load(PathBuf::from("/i"), None).unwrap();
    assert!(idx.list_all().is_empty());
    assert_eq!(idx.index_path(), &PathBuf::from("/i"));
}

#[test]
fn rebuild_needs_timestamps() {
    let ok = PackageIndex::rebuild_from(
        PathBuf::from("/i"),
        vec![IndexedPackage {
            id: "vim".to_string(),
            name: "vim".to_string(),
            version: "9".to_string(),
            format: "deb".to_string(),
            installed_at: Some(SystemTime::UNIX_EPOCH),
            size: 1,
        }],
    )
    .unwrap();
    assert_eq!(ok.get_entry("vim").unwrap().version, "9");
    let bad = PackageIndex::rebuild_from(
        PathBuf::from("/i"),
        vec![IndexedPackage {
            id: "git".to_string(),
            name: "git".to_string(),
            version: "2".to_string(),
            format: "deb".to_string(),
            installed_at: None,
            size: 1,
        }],
    );
    match bad {
        Err(Error::PackageFilesDamaged(m)) => assert_eq!(m, "Invalid timestamp for package git"),
        other => panic!("unexpected {:?}", other.err()),
    }
}

fn stored(id: &str, name: &str, version: &str, secs: u64, size: u64) -> IndexedPackage {
    IndexedPackage {
        id: id.to_string(),
        name: name.to_string(),
        version: version.to_string(),
        format: "rpm".to_string(),
        installed_at: Some(SystemTime::UNIX_EPOCH + std::time::Duration::from_secs(secs)),
        size,
    }
}

#[test]
fn rebuild_keeps_last_package_of_an_id() {
    let idx = PackageIndex::rebuild_from(
        PathBuf::from("/db/index.toml"),
        vec![stored("vim", "vim", "8", 1, 10), stored("git", "git", "2", 2, 20), stored("vim", "vim-x", "9", 3, 30)],
    )
    .unwrap();
    assert_eq!(idx.list_all().len(), 2);
    let e = idx.get_entry("vim").unwrap();
    assert_eq!(e.id, "vim");
    assert_eq!(e.name, "vim-x");
    assert_eq!(e.version, "9");
    assert_eq!(e.format, "rpm");
    assert_eq!(e.installed_at, SystemTime::UNIX_EPOCH + std::time::Duration::from_secs(3));
    assert_eq!(e.size, 30);
    let g = idx.get_entry("git").unwrap();
    assert_eq!((g.name.as_str(), g.version.as_str(), g.size), ("git", "2", 20));
    assert_eq!(idx.index_path(), &PathBuf::from("/db/index.toml"));
}

#[test]
fn rebuild_from_dirs_stops_at_first_damaged_directory() {
    let missing = PackageIndex::rebuild_from_dirs(
        PathBuf::from("/i"),
        vec![
            StoredPackage::Found(stored("vim", "vim", "9", 1, 1)),
            StoredPackage::MissingMetadata("/db/packages/git/metadata.toml".to_string()),
            StoredPackage::Unreadable(Error::ConfigError("bad".to_string())),
        ],
    );
    match missing {
        Err(Error::PackageFilesDamaged(m)) => assert_eq!(m, "Not find metadata.toml in /db/packages/git/metadata.toml"),
        other => panic!("unexpected {:?}", other.err()),
    }
    let unreadable = PackageIndex::rebuild_from_dirs(
        PathBuf::from("/i"),
        vec![StoredPackage::Unreadable(Error::ConfigError("bad".to_string()))],
    );
    match unreadable {
        Err(Error::ConfigError(m)) => assert_eq!(m, "bad"),
        other => panic!("unexpected {:?}", other.err()),
    }
    let mut no_time = stored("git", "git", "2", 1, 1);
    no_time.installed_at = None;
    match PackageIndex::rebuild_from_dirs(PathBuf::from("/i"), vec![StoredPackage::Found(no_time)]) {
        Err(Error::PackageFilesDamaged(m)) => assert_eq!(m, "Invalid timestamp for package git"),
        other => panic!("unexpected {:?}", other.err()),
    }
    let ok = PackageIndex::rebuild_from_dirs(
        PathBuf::from("/i"),
        vec![StoredPackage::Found(stored("vim", "vim", "9", 1, 1)), StoredPackage::Found(stored("git", "git", "2", 2, 5))],
    )
    .unwrap();
    assert_eq!(ok.list_all().len(), 2);
    assert_eq!(ok.get_entry("git").unwrap().size, 5);
}

#[test]
fn list_all_gives_each_entry_once() {
    let mut idx = PackageIndex::empty(PathBuf::from("/i"));
    idx.add_entry("a", entry("a", "a"));
    idx.add_entry("b", entry("b", "b"));
    idx.add_entry("A", entry("a", "again"));
    let all = idx.list_all();
    assert_eq!(all.len(), 2);
    assert_eq!(all.iter().filter(|e| e.id == "a").count(), 1);
    assert_eq!(all.iter().filter(|e| e.name == "again").count(), 1);
}
