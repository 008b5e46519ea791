//! Conflicts between a package about to be installed and what is
//! installed: another version of the same package, or files that another
//! package owns.
use vstd::prelude::*;

use crate::database_manager::{DatabaseManager, infos_of, owner_in};
use crate::sys::{path_from, path_of};
use crate::text::{concat2, concat4, str_eq};
use crate::types::{PackageInfo, PackageView};
use std::path::PathBuf;

verus! {

/// What two packages conflict over.
#[derive(Debug, Clone, Copy, PartialEq, Eq, Structural)]
pub enum ConflictType {
    FileConflict,
    PackageConflict,
    DependencyConflict,
    CategoryConflict,
}

/// A conflict between two packages.
pub struct Conflict {
    pub conflict_type: ConflictType,
    pub package1: String,
    pub package2: String,
    pub details: String,
    pub conflicting_files: Vec<PathBuf>,
}

/// A conflict, its texts taken as character sequences.
pub struct ConflictView {
    pub conflict_type: ConflictType,
    pub package1: Seq<char>,
    pub package2: Seq<char>,
    pub details: Seq<char>,
    pub conflicting_files: Seq<PathBuf>,
}

impl View for Conflict {
    type V = ConflictView;

    open spec fn view(&self) -> ConflictView {
        ConflictView {
            conflict_type: self.conflict_type,
            package1: self.package1@,
            package2: self.package2@,
            details: self.details@,
            conflicting_files: self.conflicting_files@,
        }
    }
}

pub open spec fn conflict_views(v: Seq<Conflict>) -> Seq<ConflictView> {
    v.map_values(|c: Conflict| c@)
}

/// Two packages can be installed side by side unless they are different
/// builds of the same name: another version or another format.
pub open spec fn coexist(a: PackageInfo, b: PackageInfo) -> bool {
    a.name@ != b.name@ || (a.version@ == b.version@ && a.format@ == b.format@)
}

/// The conflict of `pkg` with the installed package `other` of the same
/// name.
pub open spec fn package_conflict(pkg: PackageInfo, other: PackageInfo) -> ConflictView {
    ConflictView {
        conflict_type: ConflictType::PackageConflict,
        package1: pkg.name@,
        package2: other.name@,
        details: "installed version: "@ + other.version@,
        conflicting_files: seq![],
    }
}

/// The conflicts of `pkg` with the installed packages, in their order.
pub open spec fn package_conflicts(installed: Seq<PackageInfo>, pkg: PackageInfo) -> Seq<ConflictView>
    decreases installed.len(),
{
    if installed.len() == 0 {
        seq![]
    } else {
        let rest = package_conflicts(installed.drop_last(), pkg);
        if coexist(pkg, installed.last()) {
            rest
        } else {
            rest.push(package_conflict(pkg, installed.last()))
        }
    }
}

/// The conflict of `pkg` over `file`, which `owner` owns.
pub open spec fn file_conflict(pkg: Seq<char>, file: Seq<char>, owner: Seq<char>) -> ConflictView {
    ConflictView {
        conflict_type: ConflictType::FileConflict,
        package1: pkg,
        package2: owner,
        details: "file "@ + file + " is owned by "@ + owner,
        conflicting_files: seq![path_of(file)],
    }
}

/// `file` is owned by a package other than `pkg`.
pub open spec fn owned_elsewhere(rows: Seq<(Seq<char>, Seq<char>)>, pkg: Seq<char>, file: Seq<char>) -> bool {
    owner_in(rows, file) matches Some(o) && o != pkg
}

/// One conflict for each of `files`, in order, that a package other than
/// `pkg` owns.
pub open spec fn file_conflicts(rows: Seq<(Seq<char>, Seq<char>)>, pkg: Seq<char>, files: Seq<Seq<char>>) -> Seq<ConflictView>
    decreases files.len(),
{
    if files.len() == 0 {
        seq![]
    } else {
        let rest = file_conflicts(rows, pkg, files.drop_last());
        match owner_in(rows, files.last()) {
            Some(o) => if o != pkg {
                rest.push(file_conflict(pkg, files.last(), o))
            } else {
                rest
            },
            None => rest,
        }
    }
}

/// Finds conflicts against the installed packages.
pub struct ConflictDetector {
    database_manager: DatabaseManager,
}

impl ConflictDetector {
    /// The database of installed packages.
    pub closed spec fn database(&self) -> DatabaseManager {
        self.database_manager
    }

    pub fn new(db_manager: DatabaseManager) -> (r: Self)
        ensures
            r.database() == db_manager,
    {
        ConflictDetector { database_manager: db_manager }
    }

    /// Whether the two packages can be installed side by side.
    pub fn can_coexist(&self, pkg1: &PackageInfo, pkg2: &PackageInfo) -> (r: bool)
        ensures
            r == coexist(*pkg1, *pkg2),
    {
        !str_eq(pkg1.name.as_str(), pkg2.name.as_str()) || (str_eq(
            pkg1.version.as_str(),
            pkg2.version.as_str(),
        ) && str_eq(pkg1.format.as_str(), pkg2.format.as_str()))
    }

    /// The installed packages that cannot stay beside `package`, one
    /// conflict each, in the order they were installed.
    pub fn check_package_conflicts(&self, package: &PackageInfo) -> (r: crate::errors::Result<Vec<Conflict>>)
        ensures
            r matches Ok(v) && conflict_views(v@) == package_conflicts(
                infos_of(
                    self.database().entries().map_values(|e: (Seq<char>, PackageView)| e.1),
                ),
                *package,
            ),
    {
        let installed = match self.database_manager.list_all_packages() {
            Ok(v) => v,
            Err(e) => {
                return Err(e);
            },
        };
        let mut out: Vec<Conflict> = Vec::new();
        let mut i: usize = 0;
        assert(installed@.take(0) =~= Seq::<PackageInfo>::empty());
        assert(conflict_views(out@) =~= Seq::<ConflictView>::empty());
        while i < installed.len()
            invariant
                i <= installed@.len(),
                conflict_views(out@) == package_conflicts(installed@.take(i as int), *package),
            decreases installed@.len() - i,
        {
            let other = &installed[i];
            assert(installed@.take(i + 1).drop_last() =~= installed@.take(i as int));
            if !self.can_coexist(package, other) {
                let c = Conflict {
                    conflict_type: ConflictType::PackageConflict,
                    package1: package.name.clone(),
                    package2: other.name.clone(),
                    details: concat2("installed version: ", other.version.as_str()),
                    conflicting_files: Vec::new(),
                };
                let ghost before = out@;
                out.push(c);
                assert(c@ == package_conflict(*package, *other));
                assert(conflict_views(out@) =~= conflict_views(before).push(c@));
            }
            i = i + 1;
        }
        assert(installed@.take(i as int) =~= installed@);
        Ok(out)
    }

    /// The files of `package` that another installed package owns, one
    /// conflict each, in the order of `files`.
    pub fn check_file_conflicts(&self, package: &PackageInfo, files: &[String]) -> (r: crate::errors::Result<Vec<Conflict>>)
        ensures
            r matches Ok(v) && conflict_views(v@) == file_conflicts(
                self.database().rows(),
                package.name@,
                files@.map_values(|f: String| f@),
            ),
            r matches Ok(v) && v@.len() == files@.map_values(|f: String| f@).filter(
                |f: Seq<char>| owned_elsewhere(self.database().rows(), package.name@, f),
            ).len(),
    {
        let ghost names = files@.map_values(|f: String| f@);
        let mut out: Vec<Conflict> = Vec::new();
        let mut i: usize = 0;
        assert(names.take(0) =~= Seq::<Seq<char>>::empty());
        assert(conflict_views(out@) =~= Seq::<ConflictView>::empty());
        while i < files.len()
            invariant
                i <= files@.len(),
                names == files@.map_values(|f: String| f@),
                conflict_views(out@) == file_conflicts(
                    self.database().rows(),
                    package.name@,
                    names.take(i as int),
                ),
            decreases files@.len() - i,
        {
            let f = &files[i];
            assert(names.take(i + 1).drop_last() =~= names.take(i as int));
            assert(names.take(i + 1).last() == f@);
            let owner = match self.database_manager.get_file_owner(f.as_str()) {
                Ok(o) => o,
                Err(e) => {
                    return Err(e);
                },
            };
            match owner {
                Some(o) => {
                    if !str_eq(o.as_str(), package.name.as_str()) {
                        let details = concat4("file ", f.as_str(), " is owned by ", o.as_str());
                        let path = path_from(f.clone());
                        let c = Conflict {
                            conflict_type: ConflictType::FileConflict,
                            package1: package.name.clone(),
                            package2: o,
                            details,
                            conflicting_files: vec![path],
                        };
                        let ghost before = out@;
                        out.push(c);
                        assert(c.conflicting_files@ =~= seq![path_of(f@)]);
                        assert(conflict_views(out@) =~= conflict_views(before).push(c@));
                    }
                },
                None => {},
            }
            i = i + 1;
        }
        assert(names.take(i as int) =~= names);
        proof {
            crate::laws::law_file_conflicts_one_per_file_owned_elsewhere(
                self.database().rows(),
                package.name@,
                names,
            );
        }
        Ok(out)
    }
}

} // verus!
