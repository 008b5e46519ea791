//! The coordinator of parallel package work and its settings.
use vstd::prelude::*;

use crate::package_manager::Package;
use crate::sys::cpu_count;

verus! {

/// How installation work is spread over threads.
pub struct ThreadPoolConfig {
    pub packages_per_installer_thread: usize,
    pub max_installer_threads: usize,
}

impl Default for ThreadPoolConfig {
    /// Five packages per thread, as many threads as CPUs.
    fn default() -> (r: Self)
        ensures
            r.packages_per_installer_thread == 5,
            r.max_installer_threads >= 1,
    {
        Self { packages_per_installer_thread: 5, max_installer_threads: cpu_count() }
    }
}

/// A package as the coordinator describes it.
pub struct CatalogInfo {
    pub id: String,
    pub name: String,
    pub version: String,
    pub description: Option<String>,
    pub category: Vec<String>,
    pub size_bytes: u64,
    pub license: Option<String>,
    pub homepage: Option<String>,
}

/// Spreads package work over threads.
pub struct ThreadCoordinator {
    config: ThreadPoolConfig,
}

impl ThreadCoordinator {
    pub closed spec fn config_view(&self) -> ThreadPoolConfig {
        self.config
    }

    /// A coordinator with the given settings.
    pub fn new(config: ThreadPoolConfig) -> (r: Self)
        ensures
            r.config_view() == config,
    {
        Self { config }
    }

    pub fn config(&self) -> (r: &ThreadPoolConfig)
        ensures
            *r == self.config_view(),
    {
        &self.config
    }

    /// Searching through the coordinator finds nothing yet.
    pub fn search_packages(&self, query: &str) -> (r: Vec<Package>)
        ensures
            r@.len() == 0,
    {
        Vec::new()
    }

    /// The coordinator describes any package as `Test`, version `1.0`, with
    /// the id asked for and nothing else.
    pub fn get_package_info(&self, package_id: &str) -> (r: CatalogInfo)
        ensures
            r.id@ == package_id@ && r.name@ == "Test"@ && r.version@ == "1.0"@
                && r.description is None && r.category@.len() == 0 && r.size_bytes == 0
                && r.license is None && r.homepage is None,
    {
        CatalogInfo {
                id: package_id.to_owned(),
                name: "Test".to_owned(),
                version: "1.0".to_owned(),
                description: None,
                category: Vec::new(),
                size_bytes: 0,
                license: None,
                homepage: None,
            }
    }

    /// Listing through the coordinator finds nothing yet.
    pub fn list_installed(&self) -> (r: Vec<Package>)
        ensures
            r@.len() == 0,
    {
        Vec::new()
    }

    /// Stops the coordinator; nothing can fail.
    pub fn shutdown(&mut self)
        ensures
            final(self).config_view() == old(self).config_view(),
    {
    }
}

} // verus!
