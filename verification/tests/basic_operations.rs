//! The walk through installing and removing packages of the package
//! manager's example, with the database kept in memory.
use upm::package_manager::{
    finish_operation, installed_answer, plan_install, plan_remove, InstallAction, InstallOptions, OperationStatus,
    Package, RemoveAction, RemoveOptions,
};

struct Db {
    records: Vec<Package>,
}

impl Db {
    fn find(&self, name: &str) -> Option<usize> {
        self.records.iter().position(|p| p.name == name)
    }
    fn install(&mut self, name: &str, options: &InstallOptions) -> Result<(), upm::errors::PackageError> {
        let found = self.find(name);
        let installed = found.map(|i| self.records[i].state_of_instalation).unwrap_or(false);
        match plan_install(name, found.is_some(), installed, options)? {
            InstallAction::MarkInstalled => self.records[found.unwrap()].state_of_instalation = true,
            InstallAction::AddRecord(p) => self.records.push(p),
        }
        Ok(())
    }
    fn remove(&mut self, name: &str, options: &RemoveOptions) -> Result<(), upm::errors::PackageError> {
        let found = self.find(name);
        let installed = found.map(|i| self.records[i].state_of_instalation).unwrap_or(false);
        match plan_remove(name, found.is_some(), installed, options)? {
            RemoveAction::DeleteRecord => {
                self.records.remove(found.unwrap());
            }
            RemoveAction::MarkUninstalled => self.records[found.unwrap()].state_of_instalation = false,
        }
        Ok(())
    }
    fn installed(&self) -> Vec<String> {
        self.records.iter().filter(|p| p.state_of_instalation).map(|p| p.name.clone()).collect()
    }
}

#[test]
fn example_install_remove_purge() {
    let mut db = Db { records: vec![] };
    let options = InstallOptions::default();
    let names = ["nginx", "postgresql", "redis"];
    let outcomes: Vec<_> = names.iter().map(|n| (n.to_string(), db.install(n, &options))).collect();
    let result = finish_operation("install", &outcomes).unwrap();
    assert!(matches!(result.status, OperationStatus::Completed { installed: 3, failed: 0 }));
    assert_eq!(db.installed(), vec!["nginx", "postgresql", "redis"]);
    let nginx = db.find("nginx").unwrap();
    assert!(installed_answer(true, db.records[nginx].state_of_instalation));

    let outcomes = vec![("redis".to_string(), db.remove("redis", &RemoveOptions::default()))];
    let result = finish_operation("remove", &outcomes).unwrap();
    assert!(matches!(result.status, OperationStatus::Completed { installed: 1, failed: 0 }));
    assert_eq!(db.installed(), vec!["nginx", "postgresql"]);
    assert!(db.find("redis").is_some());

    let purge = RemoveOptions { purge: true, remove_dependencies: false };
    let outcomes = vec![("nginx".to_string(), db.remove("nginx", &purge))];
    let result = finish_operation("remove", &outcomes).unwrap();
    assert!(matches!(result.status, OperationStatus::Completed { installed: 1, failed: 0 }));
    assert!(db.find("nginx").is_none());

    // installing again what is installed fails, and the request fails with it
    let outcomes = vec![("postgresql".to_string(), db.install("postgresql", &options))];
    match finish_operation("install", &outcomes) {
        Err(upm::errors::PackageError::OperationFailed(error)) => {
            assert_eq!(error, "Failed to install postgresql: Package 'postgresql' is already installed")
        }
        _ => panic!("expected failure"),
    }
    // removing a package that is not recorded fails the request
    let outcomes = vec![("ghost".to_string(), db.remove("ghost", &RemoveOptions::default()))];
    match finish_operation("remove", &outcomes) {
        Err(upm::errors::PackageError::OperationFailed(error)) => {
            assert_eq!(error, "Failed to remove ghost: Package 'ghost' not found in database")
        }
        _ => panic!("expected failure"),
    }
    // a package that was removed but kept is installed again by marking it
    db.install("redis", &options).unwrap();
    assert_eq!(db.installed(), vec!["postgresql", "redis"]);
}
