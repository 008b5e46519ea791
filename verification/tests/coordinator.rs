use upm::coordinator::{ThreadCoordinator, ThreadPoolConfig};

#[test]
fn pool_defaults_use_the_machine() {
    let c = ThreadPoolConfig::default();
    assert_eq!(c.packages_per_installer_thread, 5);
    assert!(c.max_installer_threads >= 1);
}

#[test]
fn coordinator_answers() {
    let mut co = ThreadCoordinator::new(ThreadPoolConfig { packages_per_installer_thread: 2, max_installer_threads: 3 });
    assert_eq!(co.config().max_installer_threads, 3);
    assert!(co.search_packages("vim").is_empty());
    assert!(co.list_installed().is_empty());
    let info = co.get_package_info("vim-1");
    assert_eq!(info.id, "vim-1");
    assert_eq!(info.name, "Test");
    assert_eq!(info.version, "1.0");
    co.shutdown();
    assert_eq!(co.config().packages_per_installer_thread, 2);
}
