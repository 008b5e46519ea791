//! Package repositories and the order of preference among their kinds.
use vstd::prelude::*;

use crate::errors::{Error, Result};
use crate::text::{concat2, str_eq, string_views};
use std::path::PathBuf;
use std::time::SystemTime;

verus! {

/// Whether a package belongs to the distribution or is distribution-neutral.
#[derive(Debug, Clone, Copy, PartialEq, Eq, Structural)]
pub enum PackageCategory {
    Native,
    Universal,
}

/// The kind of a repository.
#[derive(Debug, Clone, Copy, PartialEq, Eq, Structural)]
pub enum RepositoryType {
    APT,
    RPM,
    Arch,
    AUR,
    Flatpak,
    Snap,
    AppImage,
}

/// The packages a repository offered when it was last read.
pub struct RepositoryMetadata {
    pub packages: Vec<crate::types::PackageInfo>,
    pub last_updated: SystemTime,
    pub total_size: u64,
}

/// A source of packages.
pub struct Repository {
    pub name: String,
    pub url: String,
    pub repo_type: RepositoryType,
    pub category: PackageCategory,
    pub enabled: bool,
    pub priority: u32,
    pub gpg_check: bool,
    pub gpg_key_url: Option<String>,
    pub metadata: Option<RepositoryMetadata>,
}

impl Repository {
    /// An enabled repository of native packages, of priority 0, whose
    /// signatures are checked, with no key location and not read yet.
    pub fn new(name: &str, url: &str, repo_type: RepositoryType) -> (r: Self)
        ensures
            r.name@ == name@,
            r.url@ == url@,
            r.repo_type == repo_type,
            r.category == PackageCategory::Native,
            r.enabled,
            r.priority == 0,
            r.gpg_check,
            r.gpg_key_url is None,
            r.metadata is None,
    {
        Repository {
            name: name.to_owned(),
            url: url.to_owned(),
            repo_type,
            category: PackageCategory::Native,
            enabled: true,
            priority: 0,
            gpg_check: true,
            gpg_key_url: None,
            metadata: None,
        }
    }

    /// The same repository, of the given category.
    pub fn with_category(self, category: PackageCategory) -> (r: Self)
        ensures
            r == (Repository { category, ..self }),
    {
        let mut r = self;
        r.category = category;
        r
    }

    /// The same repository, of the given priority.
    pub fn with_priority(self, priority: u32) -> (r: Self)
        ensures
            r == (Repository { priority, ..self }),
    {
        let mut r = self;
        r.priority = priority;
        r
    }

    pub fn is_enabled(&self) -> (r: bool)
        ensures
            r == self.enabled,
    {
        self.enabled
    }
}

/// Downloaded metadata and packages, kept up to a size.
pub struct CacheManager {
    cache_dir: PathBuf,
    max_size: u64,
}

impl CacheManager {
    /// Where the cache is.
    pub closed spec fn dir(&self) -> PathBuf {
        self.cache_dir
    }

    /// The most bytes the cache may hold.
    pub closed spec fn limit(&self) -> u64 {
        self.max_size
    }

    pub fn new(cache_dir: PathBuf, max_size: u64) -> (r: Self)
        ensures
            r.dir() == cache_dir,
            r.limit() == max_size,
    {
        CacheManager { cache_dir, max_size }
    }
}

/// What the list of repositories tells of one of them.
pub struct RepositoryInfo {
    pub name: String,
    pub url: String,
    pub repo_type: RepositoryType,
    pub enabled: bool,
    pub package_count: usize,
    pub last_updated: Option<SystemTime>,
}

/// A package as one repository provides it.
pub struct PackageProvider {
    pub package_name: String,
    pub repo_name: String,
    pub repo_type: RepositoryType,
    pub category: PackageCategory,
    pub version: String,
    pub priority: u32,
    pub provides: Vec<String>,
}

/// A provider, its texts taken as character sequences.
pub struct ProviderView {
    pub package_name: Seq<char>,
    pub repo_name: Seq<char>,
    pub repo_type: RepositoryType,
    pub category: PackageCategory,
    pub version: Seq<char>,
    pub priority: u32,
    pub provides: Seq<Seq<char>>,
}

impl View for PackageProvider {
    type V = ProviderView;

    open spec fn view(&self) -> ProviderView {
        ProviderView {
            package_name: self.package_name@,
            repo_name: self.repo_name@,
            repo_type: self.repo_type,
            category: self.category,
            version: self.version@,
            priority: self.priority,
            provides: string_views(self.provides@),
        }
    }
}

impl PackageProvider {
    /// A copy of the provider.
    pub fn duplicate(&self) -> (r: PackageProvider)
        ensures
            r@ == self@,
    {
        let mut provides: Vec<String> = Vec::new();
        let mut i: usize = 0;
        while i < self.provides.len()
            invariant
                i <= self.provides@.len(),
                string_views(provides@) == string_views(self.provides@).take(i as int),
            decreases self.provides@.len() - i,
        {
            let ghost before = provides@;
            provides.push(self.provides[i].clone());
            assert(string_views(provides@) =~= string_views(before).push(self.provides@[i as int]@));
            assert(string_views(self.provides@).take(i + 1) =~= string_views(self.provides@).take(
                i as int,
            ).push(self.provides@[i as int]@));
            i = i + 1;
        }
        assert(string_views(self.provides@).take(i as int) =~= string_views(self.provides@));
        PackageProvider {
            package_name: self.package_name.clone(),
            repo_name: self.repo_name.clone(),
            repo_type: self.repo_type,
            category: self.category,
            version: self.version.clone(),
            priority: self.priority,
            provides,
        }
    }
}

pub open spec fn repo_names(repos: Seq<Repository>) -> Seq<Seq<char>> {
    repos.map_values(|r: Repository| r.name@)
}

/// The priority of a repository kind in a preference list: the first kind
/// gets the length of the list, each next one one less, and a kind not in
/// the list gets nothing (0).
pub open spec fn rank_in(order: Seq<RepositoryType>, t: RepositoryType) -> int {
    if exists|i: int| 0 <= i < order.len() && order[i] == t {
        order.len() - choose|i: int|
            0 <= i < order.len() && order[i] == t && forall|j: int| 0 <= j < i ==> order[j] != t
    } else {
        0
    }
}

/// The rank of a kind found first at index `i`.
proof fn lemma_rank_at(order: Seq<RepositoryType>, t: RepositoryType, i: int)
    requires
        0 <= i < order.len(),
        order[i] == t,
        forall|j: int| 0 <= j < i ==> order[j] != t,
    ensures
        rank_in(order, t) == order.len() - i,
{
    let c = choose|c: int|
        0 <= c < order.len() && order[c] == t && forall|j: int| 0 <= j < c ==> order[j] != t;
    assert(0 <= c < order.len() && order[c] == t && forall|j: int| 0 <= j < c ==> order[j] != t);
    if c < i {
        assert(order[c] != t);
    }
    if c > i {
        assert(order[i] != t);
    }
}

/// The repositories and the preference among their kinds.
pub struct RepositoryConfig {
    pub config_path: PathBuf,
    pub repositories: Vec<Repository>,
    pub native_priority: Vec<RepositoryType>,
    pub universal_priority: Vec<RepositoryType>,
    pub auto_update: bool,
    pub interactive_mode: bool,
    pub cache_dir: PathBuf,
    pub max_cache_size: u64,
}

impl RepositoryConfig {
    /// Adds a repository; a name already used is refused.
    pub fn add_repository(&mut self, repo: Repository) -> (r: Result<()>)
        ensures
            repo_names(old(self).repositories@).contains(repo.name@) ==> (r matches Err(
                Error::ConfigError(m),
            ) && m@ == "Repository already exists: "@ + repo.name@) && *final(self) == *old(self),
            !repo_names(old(self).repositories@).contains(repo.name@) ==> r is Ok && *final(self)
                == (RepositoryConfig {
                    repositories: final(self).repositories,
                    ..*old(self)
                }) && final(self).repositories@ == old(self).repositories@.push(repo),
    {
        let mut i: usize = 0;
        while i < self.repositories.len()
            invariant
                i <= self.repositories@.len(),
                *self == *old(self),
                forall|k: int| 0 <= k < i ==> self.repositories@[k].name@ != repo.name@,
            decreases self.repositories@.len() - i,
        {
            if str_eq(self.repositories[i].name.as_str(), repo.name.as_str()) {
                assert(repo_names(self.repositories@)[i as int] == repo.name@);
                return Err(Error::ConfigError(concat2("Repository already exists: ", repo.name.as_str())));
            }
            i = i + 1;
        }
        proof {
            if repo_names(self.repositories@).contains(repo.name@) {
                let k = repo_names(self.repositories@).index_of(repo.name@);
                assert(self.repositories@[k].name@ == repo.name@);
            }
        }
        self.repositories.push(repo);
        Ok(())
    }

    /// Removes the first repository of that name; an unknown name is refused.
    pub fn remove_repository(&mut self, name: &str) -> (r: Result<()>)
        ensures
            !repo_names(old(self).repositories@).contains(name@) ==> (r matches Err(
                Error::ConfigError(m),
            ) && m@ == "Repository not found: "@ + name@) && *final(self) == *old(self),
            repo_names(old(self).repositories@).contains(name@) ==> r is Ok && exists|i: int|
                0 <= i < old(self).repositories@.len() && old(self).repositories@[i].name@ == name@
                    && (forall|j: int| 0 <= j < i ==> old(self).repositories@[j].name@ != name@)
                    && final(self).repositories@ == old(self).repositories@.remove(i) && *final(self)
                    == (RepositoryConfig { repositories: final(self).repositories, ..*old(self) }),
    {
        let mut i: usize = 0;
        while i < self.repositories.len()
            invariant
                i <= self.repositories@.len(),
                *self == *old(self),
                forall|k: int| 0 <= k < i ==> self.repositories@[k].name@ != name@,
            decreases self.repositories@.len() - i,
        {
            if str_eq(self.repositories[i].name.as_str(), name) {
                assert(repo_names(self.repositories@)[i as int] == name@);
                self.repositories.remove(i);
                return Ok(());
            }
            i = i + 1;
        }
        proof {
            if repo_names(self.repositories@).contains(name@) {
                let k = repo_names(self.repositories@).index_of(name@);
                assert(self.repositories@[k].name@ == name@);
            }
        }
        Err(Error::ConfigError(concat2("Repository not found: ", name)))
    }

    /// Sets the preference among kinds of repositories for native packages.
    pub fn set_native_priority(&mut self, order: Vec<RepositoryType>) -> (r: Result<()>)
        ensures
            r is Ok,
            *final(self) == (RepositoryConfig { native_priority: order, ..*old(self) }),
    {
        self.native_priority = order;
        Ok(())
    }

    /// Sets the preference among kinds of repositories for universal packages.
    pub fn set_universal_priority(&mut self, order: Vec<RepositoryType>) -> (r: Result<()>)
        ensures
            r is Ok,
            *final(self) == (RepositoryConfig { universal_priority: order, ..*old(self) }),
    {
        self.universal_priority = order;
        Ok(())
    }

    /// The priority of a kind of repository for a category of package: its
    /// rank in the preference list of that category.
    pub fn get_priority(&self, repo_type: RepositoryType, category: PackageCategory) -> (r: u32)
        requires
            self.native_priority@.len() <= u32::MAX,
            self.universal_priority@.len() <= u32::MAX,
        ensures
            r == rank_in(
                match category {
                    PackageCategory::Native => self.native_priority@,
                    PackageCategory::Universal => self.universal_priority@,
                },
                repo_type,
            ),
    {
        let order = match category {
            PackageCategory::Native => &self.native_priority,
            PackageCategory::Universal => &self.universal_priority,
        };
        let ghost target = match category {
            PackageCategory::Native => self.native_priority@,
            PackageCategory::Universal => self.universal_priority@,
        };
        let mut i: usize = 0;
        while i < order.len()
            invariant
                order@ == target,
                target == match category {
                    PackageCategory::Native => self.native_priority@,
                    PackageCategory::Universal => self.universal_priority@,
                },
                target.len() <= u32::MAX,
                i <= order@.len(),
                forall|k: int| 0 <= k < i ==> order@[k] != repo_type,
            decreases order@.len() - i,
        {
            if order[i] == repo_type {
                proof {
                    lemma_rank_at(target, repo_type, i as int);
                }
                return (order.len() - i) as u32;
            }
            i = i + 1;
        }
        0
    }
}

} // verus!
