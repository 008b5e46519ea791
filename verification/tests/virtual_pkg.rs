use std::time::SystemTime;
use upm::errors::Error;
use upm::repository::{PackageCategory, Repository, RepositoryMetadata, RepositoryType};
use upm::types::PackageInfo;
use upm::virtual_pkg::VirtualPackageManager;

fn info(name: &str, version: &str) -> PackageInfo {
    PackageInfo { name: name.to_string(), version: version.to_string(), format: "deb".to_string() }
}

fn repo(name: &str, enabled: bool, packages: Option<Vec<PackageInfo>>) -> Repository {
    let mut r = Repository::new(name, "https://example.org", RepositoryType::APT).with_priority(7);
    r.enabled = enabled;
    r.metadata = packages.map(|p| RepositoryMetadata { packages: p, last_updated: SystemTime::UNIX_EPOCH, total_size: 0 });
    r
}

fn manager() -> VirtualPackageManager {
    let mut m = VirtualPackageManager::new(vec![]);
    m.update_mapping_from_repos(&[
        repo("main", true, Some(vec![info("postfix", "3.7"), info("exim", "4.96")])),
        repo("off", false, Some(vec![info("sendmail", "8")])),
        repo("unread", true, None),
        repo("extra", true, Some(vec![info("postfix", "3.8")])),
    ])
    .unwrap();
    m
}

#[test]
fn repositories_give_providers_of_each_package() {
    let m = manager();
    let ps = m.get_providers("postfix").unwrap();
    assert_eq!(ps.len(), 2);
    assert_eq!(ps[0].repo_name, "main");
    assert_eq!(ps[0].version, "3.7");
    assert_eq!(ps[0].priority, 7);
    assert_eq!(ps[0].category, PackageCategory::Native);
    assert_eq!(ps[0].provides, vec!["postfix".to_string()]);
    assert_eq!(ps[1].repo_name, "extra");
    assert!(m.get_providers("sendmail").is_none());
    assert!(!m.is_virtual("postfix"));
}

#[test]
fn registered_names_are_virtual() {
    let mut m = manager();
    m.register_provides("postfix", vec!["mail-transport-agent".to_string()]).unwrap();
    m.register_provides("exim", vec!["mail-transport-agent".to_string()]).unwrap();
    let ps = m.get_providers("mail-transport-agent").unwrap();
    let names: Vec<&str> = ps.iter().map(|p| p.package_name.as_str()).collect();
    assert_eq!(names, vec!["postfix", "postfix", "exim"]);
    assert!(m.is_virtual("mail-transport-agent"));
    assert!(!m.is_virtual("nothing"));
}

#[test]
fn unknown_package_cannot_provide() {
    let mut m = manager();
    match m.register_provides("qmail", vec!["mta".to_string()]) {
        Err(Error::PackageNotFound(n)) => assert_eq!(n, "qmail"),
        other => panic!("unexpected {:?}", other.err()),
    }
    assert!(m.get_providers("mta").is_none());
}

#[test]
fn update_drops_earlier_names() {
    let mut m = manager();
    m.register_provides("exim", vec!["mta".to_string()]).unwrap();
    m.update_mapping_from_repos(&[repo("main", true, Some(vec![info("exim", "4")]))]).unwrap();
    assert!(m.get_providers("mta").is_none());
    assert_eq!(m.get_providers("exim").unwrap().len(), 1);
}
