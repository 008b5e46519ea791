//! The record of installed packages and of the files each of them owns.
//! A package is kept under its id, a file under its path; a file has at
//! most one owner, and an owner is an installed package.
use vstd::prelude::*;

use crate::errors::{Error, Result};
use crate::text::{chars_of, concat2, concat4, contains, contains_spec, lemma_index_of_unique, lowercase, str_eq, string_views, to_lowercase};
use crate::types::{Dependency, Package, PackageInfo, PackageMetadata, PackageView};
use std::path::PathBuf;

verus! {

/// A file and the id of the package that owns it.
pub type FileRow = (Seq<char>, Seq<char>);

pub open spec fn entry_views(entries: Seq<(String, Package)>) -> Seq<(Seq<char>, PackageView)> {
    entries.map_values(|e: (String, Package)| (e.0@, e.1@))
}

pub open spec fn table_ids(table: Seq<(Seq<char>, PackageView)>) -> Seq<Seq<char>> {
    table.map_values(|e: (Seq<char>, PackageView)| e.0)
}

pub open spec fn entry_ids(entries: Seq<(String, Package)>) -> Seq<Seq<char>> {
    table_ids(entry_views(entries))
}

pub open spec fn row_views(rows: Seq<(String, String)>) -> Seq<FileRow> {
    rows.map_values(|e: (String, String)| (e.0@, e.1@))
}

pub open spec fn row_files(rows: Seq<FileRow>) -> Seq<Seq<char>> {
    rows.map_values(|e: FileRow| e.0)
}

/// The owner the table gives to `file`, if any.
pub open spec fn owner_in(rows: Seq<FileRow>, file: Seq<char>) -> Option<Seq<char>> {
    if row_files(rows).contains(file) {
        Some(rows[row_files(rows).index_of(file)].1)
    } else {
        None
    }
}

/// A row is owned by `id`.
pub open spec fn owned_by(id: Seq<char>) -> spec_fn(FileRow) -> bool {
    |e: FileRow| e.1 == id
}

/// A row is owned by a package other than `id`.
pub open spec fn not_owned_by(id: Seq<char>) -> spec_fn(FileRow) -> bool {
    |e: FileRow| e.1 != id
}

/// The rows whose owner is `id`, in order.
pub open spec fn rows_of(rows: Seq<FileRow>, id: Seq<char>) -> Seq<FileRow> {
    rows.filter(owned_by(id))
}

/// The rows whose owner is not `id`, in order.
pub open spec fn rows_without(rows: Seq<FileRow>, id: Seq<char>) -> Seq<FileRow> {
    rows.filter(not_owned_by(id))
}

/// A package is found by a query when its lowercase name holds the
/// lowercase query.
pub open spec fn name_matches(p: PackageView, lowered_query: Seq<char>) -> bool {
    contains_spec(lowercase(p.info.name@), lowered_query)
}

pub open spec fn infos_of(packages: Seq<PackageView>) -> Seq<PackageInfo> {
    packages.map_values(|p: PackageView| p.info)
}

/// The installed packages by id, and the owner of each registered file.
pub struct DatabaseManager {
    db_path: PathBuf,
    packages: Vec<(String, Package)>,
    files: Vec<(String, String)>,
}

fn copy_opt(o: &Option<String>) -> (r: Option<String>)
    ensures
        r == *o,
{
    match o {
        Some(s) => Some(s.clone()),
        None => None,
    }
}

impl Package {
    /// A copy of the package.
    pub fn duplicate(&self) -> (r: Package)
        ensures
            r@ == self@,
    {
        let mut deps: Vec<Dependency> = Vec::new();
        let mut i: usize = 0;
        while i < self.dependencies.len()
            invariant
                i <= self.dependencies@.len(),
                deps@ == self.dependencies@.take(i as int),
            decreases self.dependencies@.len() - i,
        {
            let d = &self.dependencies[i];
            deps.push(Dependency { name: d.name.clone(), version_req: copy_opt(&d.version_req) });
            assert(deps@ =~= self.dependencies@.take(i + 1));
            i = i + 1;
        }
        assert(deps@ =~= self.dependencies@);
        Package {
            info: self.info.duplicate(),
            metadata: PackageMetadata {
                description: self.metadata.description.clone(),
                maintainer: self.metadata.maintainer.clone(),
                homepage: copy_opt(&self.metadata.homepage),
                license: copy_opt(&self.metadata.license),
            },
            dependencies: deps,
        }
    }
}

impl PackageInfo {
    /// A copy of the description.
    pub fn duplicate(&self) -> (r: PackageInfo)
        ensures
            r == *self,
    {
        PackageInfo {
            name: self.name.clone(),
            version: self.version.clone(),
            format: self.format.clone(),
        }
    }
}

impl DatabaseManager {
    #[verifier::type_invariant]
    spec fn well_formed(self) -> bool {
        &&& entry_ids(self.packages@).no_duplicates()
        &&& row_files(row_views(self.files@)).no_duplicates()
    }

    /// The installed packages with their ids, in the order they were added.
    pub closed spec fn entries(&self) -> Seq<(Seq<char>, PackageView)> {
        entry_views(self.packages@)
    }

    /// No id is installed twice and no file has two rows: what every
    /// database this module hands out keeps.
    pub open spec fn wf(&self) -> bool {
        &&& self.ids().no_duplicates()
        &&& row_files(self.rows()).no_duplicates()
    }

    /// The ids of the installed packages, in the order they were added.
    pub open spec fn ids(&self) -> Seq<Seq<char>> {
        table_ids(self.entries())
    }

    /// The package installed under `id`.
    pub open spec fn package(&self, id: Seq<char>) -> PackageView {
        self.entries()[self.ids().index_of(id)].1
    }

    /// The registered files with their owners, in the order they were
    /// registered.
    pub closed spec fn rows(&self) -> Seq<FileRow> {
        row_views(self.files@)
    }

    /// The owner of `file`, if it is registered.
    pub open spec fn owner(&self, file: Seq<char>) -> Option<Seq<char>> {
        owner_in(self.rows(), file)
    }

    /// Where the database lives.
    pub closed spec fn path(&self) -> PathBuf {
        self.db_path
    }

    /// An empty database at `db_path`.
    pub fn new(db_path: PathBuf) -> (r: Result<Self>)
        ensures
            r matches Ok(db) && db.path() == db_path && db.entries().len() == 0 && db.rows().len()
                == 0 && db.wf(),
    {
        let db = DatabaseManager { db_path, packages: Vec::new(), files: Vec::new() };
        assert(entry_ids(db.packages@) =~= Seq::<Seq<char>>::empty());
        assert(row_files(row_views(db.files@)) =~= Seq::<Seq<char>>::empty());
        Ok(db)
    }

    /// The index of the package installed under `id`, if any.
    fn package_position(&self, id: &str) -> (r: Option<usize>)
        ensures
            match r {
                Some(i) => i < self.entries().len() && self.ids()[i as int] == id@ && self.ids().index_of(id@)
                    == i,
                None => !self.ids().contains(id@),
            },
    {
        proof {
            use_type_invariant(self);
        }
        let mut i: usize = 0;
        while i < self.packages.len()
            invariant
                i <= self.packages@.len(),
                self.ids().no_duplicates(),
                forall|k: int| 0 <= k < i ==> self.packages@[k].0@ != id@,
            decreases self.packages@.len() - i,
        {
            if str_eq(self.packages[i].0.as_str(), id) {
                proof {
                    assert(self.ids()[i as int] == id@);
                    lemma_index_of_unique(self.ids(), i as int);
                }
                return Some(i);
            }
            i = i + 1;
        }
        proof {
            if self.ids().contains(id@) {
                let k = self.ids().index_of(id@);
                assert(self.packages@[k].0@ == id@);
            }
        }
        None
    }

    /// The index of the row of `file`, if it is registered.
    fn file_position(&self, file: &str) -> (r: Option<usize>)
        ensures
            match r {
                Some(i) => i < self.rows().len() && row_files(self.rows())[i as int] == file@
                    && row_files(self.rows()).index_of(file@) == i,
                None => !row_files(self.rows()).contains(file@),
            },
    {
        proof {
            use_type_invariant(self);
        }
        let ghost files = row_files(self.rows());
        let mut i: usize = 0;
        while i < self.files.len()
            invariant
                i <= self.files@.len(),
                files == row_files(row_views(self.files@)),
                files.no_duplicates(),
                forall|k: int| 0 <= k < i ==> self.files@[k].0@ != file@,
            decreases self.files@.len() - i,
        {
            if str_eq(self.files[i].0.as_str(), file) {
                proof {
                    assert(files[i as int] == file@);
                    lemma_index_of_unique(files, i as int);
                }
                return Some(i);
            }
            i = i + 1;
        }
        proof {
            if files.contains(file@) {
                let k = files.index_of(file@);
                assert(self.files@[k].0@ == file@);
            }
        }
        None
    }

    /// Records a package under its name; a name already installed is
    /// refused.
    pub fn add_package(&mut self, package: &Package) -> (r: Result<()>)
        ensures
            old(self).ids().contains(package.info.name@) ==> (r matches Err(
                Error::OperationFailed(m),
            ) && m@ == "Package already exists: "@ + package.info.name@) && final(self).entries()
                == old(self).entries(),
            !old(self).ids().contains(package.info.name@) ==> r is Ok && final(self).entries()
                == old(self).entries().push((package.info.name@, package@)),
            final(self).rows() == old(self).rows(),
            final(self).path() == old(self).path(),
            final(self).wf(),
    {
        proof {
            use_type_invariant(&*self);
        }
        let r = match self.package_position(package.info.name.as_str()) {
            Some(_) => Err(
                Error::OperationFailed(concat2("Package already exists: ", package.info.name.as_str())),
            ),
            None => {
                let entry = (package.info.name.clone(), package.duplicate());
                let mut packages: Vec<(String, Package)> = Vec::new();
                std::mem::swap(&mut packages, &mut self.packages);
                packages.push(entry);
                proof {
                    assert(entry_views(packages@) =~= entry_views(old(self).packages@).push(
                        (package.info.name@, package@),
                    ));
                    assert(entry_ids(packages@) =~= entry_ids(old(self).packages@).push(
                        package.info.name@,
                    ));
                }
                self.packages = packages;
                Ok(())
            },
        };
        proof {
            use_type_invariant(&*self);
        }
        r
    }

    /// Forgets the package installed under `id` and the files it owns; an
    /// id not installed is refused.
    pub fn remove_package(&mut self, package_id: &str) -> (r: Result<()>)
        ensures
            !old(self).ids().contains(package_id@) ==> (r matches Err(Error::PackageNotFound(m))
                && m@ == package_id@) && final(self).entries() == old(self).entries()
                && final(self).rows() == old(self).rows(),
            old(self).ids().contains(package_id@) ==> r is Ok && final(self).entries() == old(
                self,
            ).entries().remove(old(self).ids().index_of(package_id@)) && final(self).rows()
                == rows_without(old(self).rows(), package_id@),
            final(self).path() == old(self).path(),
            final(self).wf(),
    {
        proof {
            use_type_invariant(&*self);
        }
        let r = match self.package_position(package_id) {
            None => Err(Error::PackageNotFound(package_id.to_owned())),
            Some(i) => {
                let kept = self.rows_not_owned_by(package_id);
                let mut packages: Vec<(String, Package)> = Vec::new();
                std::mem::swap(&mut packages, &mut self.packages);
                packages.remove(i);
                proof {
                    let ids = entry_ids(old(self).packages@);
                    assert(entry_views(packages@) =~= entry_views(old(self).packages@).remove(i as int));
                    assert(entry_ids(packages@) =~= ids.remove(i as int));
                    assert forall|a: int, b: int|
                        0 <= a < b < entry_ids(packages@).len() implies entry_ids(packages@)[a]
                        != entry_ids(packages@)[b] by {
                        let a0 = if a < i { a } else { a + 1 };
                        let b0 = if b < i { b } else { b + 1 };
                        assert(ids[a0] != ids[b0]);
                    }
                }
                self.packages = packages;
                self.files = kept;
                Ok(())
            },
        };
        proof {
            use_type_invariant(&*self);
        }
        r
    }

    /// Replaces the package installed under `id`, which keeps its id; an id
    /// not installed is refused.
    pub fn update_package(&mut self, package_id: &str, package: &Package) -> (r: Result<()>)
        ensures
            !old(self).ids().contains(package_id@) ==> (r matches Err(Error::PackageNotFound(m))
                && m@ == package_id@) && final(self).entries() == old(self).entries(),
            old(self).ids().contains(package_id@) ==> r is Ok && final(self).entries() == old(
                self,
            ).entries().update(old(self).ids().index_of(package_id@), (package_id@, package@)),
            final(self).rows() == old(self).rows(),
            final(self).path() == old(self).path(),
            final(self).wf(),
    {
        proof {
            use_type_invariant(&*self);
        }
        let r = match self.package_position(package_id) {
            None => Err(Error::PackageNotFound(package_id.to_owned())),
            Some(i) => {
                let entry = (package_id.to_owned(), package.duplicate());
                let mut packages: Vec<(String, Package)> = Vec::new();
                std::mem::swap(&mut packages, &mut self.packages);
                packages.set(i, entry);
                proof {
                    assert(entry_views(packages@) =~= entry_views(old(self).packages@).update(
                        i as int,
                        (package_id@, package@),
                    ));
                    assert(entry_ids(packages@) =~= entry_ids(old(self).packages@));
                }
                self.packages = packages;
                Ok(())
            },
        };
        proof {
            use_type_invariant(&*self);
        }
        r
    }

    /// A copy of the package installed under `id`, if there is one.
    pub fn get_package(&self, package_id: &str) -> (r: Result<Option<Package>>)
        ensures
            !self.ids().contains(package_id@) ==> r matches Ok(None),
            self.ids().contains(package_id@) ==> (r matches Ok(Some(p)) && p@ == self.package(
                package_id@,
            )),
    {
        match self.package_position(package_id) {
            None => Ok(None),
            Some(i) => {
                let p = self.packages[i].1.duplicate();
                Ok(Some(p))
            },
        }
    }

    /// The descriptions of all installed packages, in the order they were
    /// added.
    pub fn list_all_packages(&self) -> (r: Result<Vec<PackageInfo>>)
        ensures
            r matches Ok(v) && v@ == infos_of(self.entries().map_values(
                |e: (Seq<char>, PackageView)| e.1,
            )),
    {
        let ghost all = infos_of(self.entries().map_values(|e: (Seq<char>, PackageView)| e.1));
        let mut out: Vec<PackageInfo> = Vec::new();
        let mut i: usize = 0;
        while i < self.packages.len()
            invariant
                i <= self.packages@.len(),
                all == infos_of(self.entries().map_values(|e: (Seq<char>, PackageView)| e.1)),
                all.len() == self.packages@.len(),
                out@ == all.take(i as int),
            decreases self.packages@.len() - i,
        {
            let info = self.packages[i].1.info.duplicate();
            assert(all[i as int] == self.packages@[i as int].1.info);
            out.push(info);
            assert(out@ =~= all.take(i + 1));
            i = i + 1;
        }
        assert(all.take(i as int) =~= all);
        Ok(out)
    }

    /// The descriptions of the installed packages whose lowercase name holds
    /// the lowercase `query`, in the order they were added.
    pub fn search_packages(&self, query: &str) -> (r: Result<Vec<PackageInfo>>)
        ensures
            r matches Ok(v) && v@ == infos_of(
                self.entries().map_values(|e: (Seq<char>, PackageView)| e.1).filter(
                    |p: PackageView| name_matches(p, lowercase(query@)),
                ),
            ),
    {
        let lowered = to_lowercase(query);
        let q = chars_of(lowered.as_str());
        let ghost vals = self.entries().map_values(|e: (Seq<char>, PackageView)| e.1);
        let ghost pred = |p: PackageView| name_matches(p, lowercase(query@));
        let mut out: Vec<PackageInfo> = Vec::new();
        let mut i: usize = 0;
        proof {
            reveal(Seq::filter);
            assert(vals.take(0) =~= seq![]);
            assert(out@ =~= infos_of(seq![]));
        }
        while i < self.packages.len()
            invariant
                i <= self.packages@.len(),
                vals == self.entries().map_values(|e: (Seq<char>, PackageView)| e.1),
                vals.len() == self.packages@.len(),
                q@ == lowercase(query@),
                pred == (|p: PackageView| name_matches(p, lowercase(query@))),
                out@ == infos_of(vals.take(i as int).filter(pred)),
            decreases self.packages@.len() - i,
        {
            let p = &self.packages[i].1;
            assert(vals[i as int] == p@);
            assert(vals.take(i + 1).drop_last() =~= vals.take(i as int));
            proof {
                reveal(Seq::filter);
            }
            let name_l = to_lowercase(p.info.name.as_str());
            let name_c = chars_of(name_l.as_str());
            if contains(&name_c, &q) {
                let ghost before = out@;
                out.push(p.info.duplicate());
                assert(out@ =~= infos_of(vals.take(i as int).filter(pred).push(p@)));
            }
            i = i + 1;
        }
        assert(vals.take(self.packages@.len() as int) =~= vals);
        Ok(out)
    }

    /// The files owned by the package installed under `id`, in the order
    /// they were registered; an id not installed is refused.
    pub fn get_installed_files(&self, package_id: &str) -> (r: Result<Vec<String>>)
        ensures
            !self.ids().contains(package_id@) ==> (r matches Err(Error::PackageNotFound(m)) && m@
                == package_id@),
            self.ids().contains(package_id@) ==> (r matches Ok(v) && string_views(v@) == row_files(
                rows_of(self.rows(), package_id@),
            )),
    {
        proof {
            use_type_invariant(self);
        }
        if self.package_position(package_id).is_none() {
            return Err(Error::PackageNotFound(package_id.to_owned()));
        }
        let ghost rows = self.rows();
        let ghost pred = owned_by(package_id@);
        let mut out: Vec<String> = Vec::new();
        let mut i: usize = 0;
        proof {
            reveal(Seq::filter);
            assert(rows.take(0) =~= Seq::<FileRow>::empty());
            assert(string_views(out@) =~= Seq::<Seq<char>>::empty());
        }
        while i < self.files.len()
            invariant
                i <= self.files@.len(),
                rows == row_views(self.files@),
                rows.len() == self.files@.len(),
                pred == owned_by(package_id@),
                string_views(out@) == row_files(rows.take(i as int).filter(pred)),
            decreases self.files@.len() - i,
        {
            assert(rows.take(i + 1).drop_last() =~= rows.take(i as int));
            proof {
                reveal(Seq::filter);
            }
            let row = &self.files[i];
            if str_eq(row.1.as_str(), package_id) {
                let ghost before = out@;
                out.push(row.0.clone());
                assert(string_views(out@) =~= string_views(before).push(row.0@));
                assert(row_files(rows.take(i as int).filter(pred).push(rows[i as int])) =~= row_files(
                    rows.take(i as int).filter(pred),
                ).push(row.0@));
            }
            i = i + 1;
        }
        assert(rows.take(self.files@.len() as int) =~= rows);
        Ok(out)
    }

    /// The id of the package that owns `file`, if it is registered.
    pub fn find_package_by_file(&self, file: &str) -> (r: Result<Option<String>>)
        ensures
            r matches Ok(o) && match o {
                Some(id) => self.owner(file@) == Some(id@),
                None => self.owner(file@) is None,
            },
    {
        match self.file_position(file) {
            Some(i) => Ok(Some(self.files[i].1.clone())),
            None => Ok(None),
        }
    }

    /// Records that the package installed under `id` owns `file`. An id not
    /// installed is refused, and so is a file another package owns; a file
    /// the package already owns stays as it is.
    pub fn register_file(&mut self, package_id: &str, file: &str) -> (r: Result<()>)
        ensures
            !old(self).ids().contains(package_id@) ==> (r matches Err(Error::PackageNotFound(m))
                && m@ == package_id@) && final(self).rows() == old(self).rows(),
            old(self).ids().contains(package_id@) && old(self).owner(file@) is None ==> r is Ok
                && final(self).rows() == old(self).rows().push((file@, package_id@)),
            old(self).ids().contains(package_id@) && old(self).owner(file@) == Some(package_id@)
                ==> r is Ok && final(self).rows() == old(self).rows(),
            old(self).ids().contains(package_id@) && (old(self).owner(file@) matches Some(o) && o
                != package_id@) ==> (r matches Err(Error::OperationFailed(m)) && m@ == "File "@
                + file@ + " is already owned by "@ + old(self).owner(file@)->0)
                && final(self).rows() == old(self).rows(),
            final(self).entries() == old(self).entries(),
            final(self).path() == old(self).path(),
            final(self).wf(),
    {
        proof {
            use_type_invariant(&*self);
        }
        if self.package_position(package_id).is_none() {
            return Err(Error::PackageNotFound(package_id.to_owned()));
        }
        let r = match self.file_position(file) {
            Some(i) => {
                if str_eq(self.files[i].1.as_str(), package_id) {
                    Ok(())
                } else {
                    Err(
                        Error::OperationFailed(
                            concat4("File ", file, " is already owned by ", self.files[i].1.as_str()),
                        ),
                    )
                }
            },
            None => {
                let row = (file.to_owned(), package_id.to_owned());
                let mut files: Vec<(String, String)> = Vec::new();
                std::mem::swap(&mut files, &mut self.files);
                files.push(row);
                proof {
                    assert(row_views(files@) =~= row_views(old(self).files@).push((file@, package_id@)));
                    assert(row_files(row_views(files@)) =~= row_files(row_views(old(self).files@)).push(
                        file@,
                    ));
                }
                self.files = files;
                Ok(())
            },
        };
        proof {
            use_type_invariant(&*self);
        }
        r
    }

    /// Forgets the owner of `file`; a file that is not registered is refused.
    pub fn unregister_file(&mut self, file: &str) -> (r: Result<()>)
        ensures
            old(self).owner(file@) is None ==> (r matches Err(Error::OperationFailed(m)) && m@
                == "File not registered: "@ + file@) && final(self).rows() == old(self).rows(),
            old(self).owner(file@) is Some ==> r is Ok && final(self).rows() == old(self).rows().remove(
                row_files(old(self).rows()).index_of(file@),
            ),
            final(self).entries() == old(self).entries(),
            final(self).path() == old(self).path(),
            final(self).wf(),
    {
        proof {
            use_type_invariant(&*self);
        }
        let r = match self.file_position(file) {
            None => Err(Error::OperationFailed(concat2("File not registered: ", file))),
            Some(i) => {
                let mut files: Vec<(String, String)> = Vec::new();
                std::mem::swap(&mut files, &mut self.files);
                files.remove(i);
                proof {
                    let names = row_files(row_views(old(self).files@));
                    assert(row_views(files@) =~= row_views(old(self).files@).remove(i as int));
                    assert(row_files(row_views(files@)) =~= names.remove(i as int));
                    assert forall|a: int, b: int|
                        0 <= a < b < names.remove(i as int).len() implies names.remove(i as int)[a]
                        != names.remove(i as int)[b] by {
                        let a0 = if a < i { a } else { a + 1 };
                        let b0 = if b < i { b } else { b + 1 };
                        assert(names[a0] != names[b0]);
                    }
                }
                self.files = files;
                Ok(())
            },
        };
        proof {
            use_type_invariant(&*self);
        }
        r
    }

    /// The id of the package that owns `file`, if it is registered.
    pub fn get_file_owner(&self, file: &str) -> (r: Result<Option<String>>)
        ensures
            r matches Ok(o) && match o {
                Some(id) => self.owner(file@) == Some(id@),
                None => self.owner(file@) is None,
            },
    {
        self.find_package_by_file(file)
    }

    /// The rows whose owner is not `id`, copied.
    fn rows_not_owned_by(&self, id: &str) -> (r: Vec<(String, String)>)
        ensures
            row_views(r@) == rows_without(self.rows(), id@),
            row_files(row_views(r@)).no_duplicates(),
    {
        proof {
            use_type_invariant(self);
        }
        let ghost rows = self.rows();
        let ghost pred = not_owned_by(id@);
        let mut out: Vec<(String, String)> = Vec::new();
        let mut i: usize = 0;
        proof {
            reveal(Seq::filter);
            assert(rows.take(0) =~= Seq::<FileRow>::empty());
            assert(row_views(out@) =~= Seq::<FileRow>::empty());
        }
        while i < self.files.len()
            invariant
                i <= self.files@.len(),
                rows == row_views(self.files@),
                rows.len() == self.files@.len(),
                row_files(rows).no_duplicates(),
                pred == not_owned_by(id@),
                row_views(out@) == rows.take(i as int).filter(pred),
                row_files(row_views(out@)).no_duplicates(),
                forall|k: int|
                    0 <= k < out@.len() ==> exists|j: int|
                        0 <= j < i && #[trigger] row_views(out@)[k] == rows[j],
            decreases self.files@.len() - i,
        {
            assert(rows.take(i + 1).drop_last() =~= rows.take(i as int));
            proof {
                reveal(Seq::filter);
            }
            let row = &self.files[i];
            if !str_eq(row.1.as_str(), id) {
                let ghost before = out@;
                let copy = (row.0.clone(), row.1.clone());
                out.push(copy);
                proof {
                    assert(row_views(out@) =~= row_views(before).push(rows[i as int]));
                    assert forall|a: int, b: int|
                        0 <= a < b < row_files(row_views(out@)).len() implies row_files(
                            row_views(out@),
                        )[a] != row_files(row_views(out@))[b] by {
                        if b == before.len() {
                            assert(row_views(out@)[a] == row_views(before)[a]);
                            let j = choose|j: int| 0 <= j < i && row_views(before)[a] == rows[j];
                            assert(row_files(rows)[j] != row_files(rows)[i as int]);
                        } else {
                            assert(row_views(out@)[a] == row_views(before)[a]);
                            assert(row_views(out@)[b] == row_views(before)[b]);
                            assert(row_files(row_views(before))[a] != row_files(row_views(before))[b]);
                        }
                    }
                    assert forall|k: int| 0 <= k < out@.len() implies exists|j: int|
                        0 <= j < i + 1 && #[trigger] row_views(out@)[k] == rows[j] by {
                        if k == before.len() {
                            assert(row_views(out@)[k] == rows[i as int]);
                        } else {
                            assert(row_views(out@)[k] == row_views(before)[k]);
                            let j = choose|j: int| 0 <= j < i && row_views(before)[k] == rows[j];
                            assert(row_views(out@)[k] == rows[j]);
                        }
                    }
                }
            }
            i = i + 1;
        }
        assert(rows.take(self.files@.len() as int) =~= rows);
        out
    }
}

} // verus!
