use upm::conflict::{Conflict, ConflictType};
use upm::plan::InstallationPlan;
use upm::types::PackageInfo;

fn info(name: &str, version: &str) -> PackageInfo {
    PackageInfo { name: name.to_string(), version: version.to_string(), format: "deb".to_string() }
}

#[test]
fn plan_text_and_validity() {
    let plan = InstallationPlan {
        packages_to_install: vec![info("vim", "9.0"), info("vim-runtime", "9.0")],
        packages_to_remove: vec!["nano".to_string()],
        packages_to_upgrade: vec![],
        total_download_size: 1024,
        total_install_size: 0,
        conflicts: vec![],
    };
    assert!(plan.is_valid());
    assert_eq!(
        plan.display_plan(),
        "Install: vim 9.0, vim-runtime 9.0\nRemove: nano\nDownload size: 1024 bytes\nInstall size: 0 bytes"
    );
}

#[test]
fn plan_with_conflict_is_invalid() {
    let plan = InstallationPlan {
        packages_to_install: vec![],
        packages_to_remove: vec![],
        packages_to_upgrade: vec![info("git", "2.41")],
        total_download_size: 7,
        total_install_size: 1000000,
        conflicts: vec![Conflict {
            conflict_type: ConflictType::PackageConflict,
            package1: "git".to_string(),
            package2: "git".to_string(),
            details: "installed version: 2.40".to_string(),
            conflicting_files: vec![],
        }],
    };
    assert!(!plan.is_valid());
    assert_eq!(
        plan.display_plan(),
        "Upgrade: git 2.41\nDownload size: 7 bytes\nInstall size: 1000000 bytes\nConflict: installed version: 2.40"
    );
}
