use std::path::PathBuf;
use upm::priority::PriorityManager;
use upm::repository::{PackageCategory, PackageProvider, RepositoryConfig, RepositoryType};

fn config() -> RepositoryConfig {
    RepositoryConfig {
        config_path: PathBuf::from("/etc/upm/repos.toml"),
        repositories: vec![],
        native_priority: vec![RepositoryType::APT, RepositoryType::RPM],
        universal_priority: vec![RepositoryType::Flatpak, RepositoryType::Snap, RepositoryType::AppImage],
        auto_update: false,
        interactive_mode: false,
        cache_dir: PathBuf::from("/var/cache/upm"),
        max_cache_size: 0,
    }
}

fn provider(repo: &str, t: RepositoryType, c: PackageCategory, priority: u32) -> PackageProvider {
    PackageProvider {
        package_name: "firefox".to_string(),
        repo_name: repo.to_string(),
        repo_type: t,
        category: c,
        version: "1".to_string(),
        priority,
        provides: vec![],
    }
}

#[test]
fn rank_of_a_provider() {
    let m = PriorityManager::new(config());
    assert_eq!(m.get_package_priority(&provider("a", RepositoryType::APT, PackageCategory::Native, 0)), 2);
    assert_eq!(m.get_package_priority(&provider("a", RepositoryType::RPM, PackageCategory::Native, 0)), 1);
    assert_eq!(m.get_package_priority(&provider("a", RepositoryType::Snap, PackageCategory::Universal, 0)), 2);
    // a kind absent from the list of its category ranks 0
    assert_eq!(m.get_package_priority(&provider("a", RepositoryType::Flatpak, PackageCategory::Native, 0)), 0);
}

#[test]
fn sort_by_rank_then_own_priority_stably() {
    let m = PriorityManager::new(config());
    let ps = vec![
        provider("snap", RepositoryType::Snap, PackageCategory::Universal, 1),
        provider("rpm", RepositoryType::RPM, PackageCategory::Native, 9),
        provider("flat1", RepositoryType::Flatpak, PackageCategory::Universal, 0),
        provider("apt", RepositoryType::APT, PackageCategory::Native, 0),
        provider("flat2", RepositoryType::Flatpak, PackageCategory::Universal, 5),
        provider("flat3", RepositoryType::Flatpak, PackageCategory::Universal, 0),
    ];
    let sorted = m.sort_by_priority(ps);
    let names: Vec<&str> = sorted.iter().map(|p| p.repo_name.as_str()).collect();
    assert_eq!(names, vec!["flat2", "flat1", "flat3", "snap", "apt", "rpm"]);
}

#[test]
fn best_provider() {
    let m = PriorityManager::new(config());
    assert!(m.select_best_provider(vec![]).is_none());
    let best = m
        .select_best_provider(vec![
            provider("rpm", RepositoryType::RPM, PackageCategory::Native, 100),
            provider("apt", RepositoryType::APT, PackageCategory::Native, 0),
        ])
        .unwrap();
    assert_eq!(best.repo_name, "apt");
}
