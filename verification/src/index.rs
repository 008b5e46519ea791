//! The index of installed packages: entries found by an id that is
//! compared without regard to case.
use vstd::prelude::*;

use crate::errors::{Error, Result};
use crate::sys::copy_path;
use crate::text::{chars_of, concat2, contains, contains_spec, lowercase, to_lowercase};
use std::path::PathBuf;
use std::time::SystemTime;

verus! {

/// What the index records of one installed package.
pub struct PackageIndexEntry {
    pub id: String,
    pub name: String,
    pub version: String,
    pub format: String,
    pub installed_at: SystemTime,
    pub size: u64,
}

impl PackageIndexEntry {
    pub fn new(
        id: String,
        name: String,
        version: String,
        format: String,
        installed_at: SystemTime,
        size: u64,
    ) -> (r: Self)
        ensures
            r.id == id,
            r.name == name,
            r.version == version,
            r.format == format,
            r.installed_at == installed_at,
            r.size == size,
    {
        Self { id, name, version, format, installed_at, size }
    }
}

/// A package as its stored metadata describes it, from which the index
/// can be rebuilt.
pub struct IndexedPackage {
    pub id: String,
    pub name: String,
    pub version: String,
    pub format: String,
    pub installed_at: Option<SystemTime>,
    pub size: u64,
}

/// The entry a stored package gives: its fields, with its installation
/// time.
pub open spec fn entry_of(p: IndexedPackage) -> PackageIndexEntry {
    PackageIndexEntry {
        id: p.id,
        name: p.name,
        version: p.version,
        format: p.format,
        installed_at: match p.installed_at {
            Some(t) => t,
            None => vstd::pervasive::arbitrary(),
        },
        size: p.size,
    }
}

/// What was found in one package directory of the database.
pub enum StoredPackage {
    /// The directory has no metadata file; where it was looked for.
    MissingMetadata(String),
    /// The metadata file could not be read; why.
    Unreadable(Error),
    /// The package the metadata file describes.
    Found(IndexedPackage),
}

/// A directory whose metadata describes a package with an installation
/// time.
pub open spec fn stored_ok(s: StoredPackage) -> bool {
    s matches StoredPackage::Found(p) && p.installed_at is Some
}

/// The package a directory's metadata describes.
pub open spec fn found_package(s: StoredPackage) -> IndexedPackage {
    match s {
        StoredPackage::Found(p) => p,
        _ => vstd::pervasive::arbitrary(),
    }
}

pub open spec fn found_packages(dirs: Seq<StoredPackage>) -> Seq<IndexedPackage> {
    dirs.map_values(|s: StoredPackage| found_package(s))
}

/// The error a directory that is not in order gives: a missing metadata
/// file or a package without an installation time makes the stored data
/// damaged, and an unreadable file gives the error met reading it.
pub open spec fn stored_error(s: StoredPackage, e: Error) -> bool {
    match s {
        StoredPackage::MissingMetadata(d) => e matches Error::PackageFilesDamaged(m) && m@
            == "Not find metadata.toml in "@ + d@,
        StoredPackage::Unreadable(x) => e == x,
        StoredPackage::Found(p) => e matches Error::PackageFilesDamaged(m) && m@
            == "Invalid timestamp for package "@ + p.id@,
    }
}

/// The entries that the stored packages give, each under its id; of
/// packages with the same id, the last one's entry stands.
pub open spec fn rebuilt_map(packages: Seq<IndexedPackage>) -> Map<Seq<char>, PackageIndexEntry>
    decreases packages.len(),
{
    if packages.len() == 0 {
        Map::empty()
    } else {
        rebuilt_map(packages.drop_last()).insert(packages.last().id@, entry_of(packages.last()))
    }
}

/// An entry matches a query when its lowercase name or id holds the
/// lowercase query.
pub open spec fn entry_matches(e: PackageIndexEntry, lowered_query: Seq<char>) -> bool {
    contains_spec(lowercase(e.name@), lowered_query) || contains_spec(lowercase(e.id@), lowered_query)
}

pub open spec fn deref_all(v: Seq<&PackageIndexEntry>) -> Seq<PackageIndexEntry> {
    v.map_values(|e: &PackageIndexEntry| *e)
}

pub open spec fn keys_distinct(pairs: Seq<(String, PackageIndexEntry)>) -> bool {
    forall|i: int, j: int|
        0 <= i < pairs.len() && 0 <= j < pairs.len() && i != j ==> #[trigger] pairs[i].0@
            != #[trigger] pairs[j].0@
}

/// The installed packages, each under a key; the key that an id is
/// looked up under is its lowercase form.
pub struct PackageIndex {
    index_path: PathBuf,
    packages: Vec<(String, PackageIndexEntry)>,
}

impl PackageIndex {
    #[verifier::type_invariant]
    spec fn well_formed(self) -> bool {
        keys_distinct(self.packages@)
    }

    /// The keys, in the order the index keeps them.
    pub closed spec fn order(&self) -> Seq<Seq<char>> {
        self.packages@.map_values(|p: (String, PackageIndexEntry)| p.0@)
    }

    /// The entries, in the order of their keys.
    pub closed spec fn values(&self) -> Seq<PackageIndexEntry> {
        self.packages@.map_values(|p: (String, PackageIndexEntry)| p.1)
    }

    /// Where the index is stored.
    pub closed spec fn path(&self) -> PathBuf {
        self.index_path
    }

    /// The entry under each key.
    pub open spec fn map(&self) -> Map<Seq<char>, PackageIndexEntry> {
        Map::new(
            |k: Seq<char>| self.order().contains(k),
            |k: Seq<char>| self.values()[self.order().index_of(k)],
        )
    }

    proof fn lemma_position(&self, i: int)
        requires
            keys_distinct(self.packages@),
            0 <= i < self.packages@.len(),
        ensures
            self.order().len() == self.values().len() == self.packages@.len(),
            self.order()[i] == self.packages@[i].0@,
            self.values()[i] == self.packages@[i].1,
            self.order().contains(self.packages@[i].0@),
            self.order().index_of(self.packages@[i].0@) == i,
            self.map()[self.packages@[i].0@] == self.packages@[i].1,
    {
        let k = self.packages@[i].0@;
        assert(self.order()[i] == k);
        let j = self.order().index_of(k);
        assert(self.order()[j] == k);
        assert(self.packages@[j].0@ == k);
    }

    proof fn lemma_keys_distinct(&self)
        requires
            keys_distinct(self.packages@),
        ensures
            self.order().no_duplicates(),
            self.order().len() == self.packages@.len(),
            self.order().len() == self.map().dom().len(),
    {
        assert forall|a: int, b: int| 0 <= a < b < self.order().len() implies self.order()[a]
            != self.order()[b] by {
            assert(self.order()[a] == self.packages@[a].0@);
            assert(self.order()[b] == self.packages@[b].0@);
        }
        self.order().unique_seq_to_set();
        assert(self.map().dom() =~= self.order().to_set());
    }

    /// Finds the position of key `k`, if it is there.
    fn position(&self, k: &String) -> (r: Option<usize>)
        ensures
            match r {
                Some(i) => i < self.packages@.len() && self.packages@[i as int].0@ == k@,
                None => !self.order().contains(k@),
            },
    {
        let mut i: usize = 0;
        while i < self.packages.len()
            invariant
                i <= self.packages@.len(),
                forall|j: int| 0 <= j < i ==> self.packages@[j].0@ != k@,
            decreases self.packages@.len() - i,
        {
            if self.packages[i].0 == *k {
                return Some(i);
            }
            i = i + 1;
        }
        assert forall|j: int| 0 <= j < self.order().len() implies self.order()[j] != k@ by {
            assert(self.order()[j] == self.packages@[j].0@);
        }
        None
    }

    /// An empty index stored at `index_path`.
    pub fn empty(index_path: PathBuf) -> (r: Self)
        ensures
            r.path() == index_path,
            r.order().len() == 0,
            r.map() == Map::<Seq<char>, PackageIndexEntry>::empty(),
    {
        let r = PackageIndex { index_path, packages: Vec::new() };
        assert(r.map() =~= Map::<Seq<char>, PackageIndexEntry>::empty());
        r
    }

    /// The index as it was stored, or an empty one at `index_path` when
    /// nothing was stored there.
    pub fn load(index_path: PathBuf, stored: Option<PackageIndex>) -> (r: Result<Self>)
        ensures
            match stored {
                Some(s) => r matches Ok(i) && i == s,
                None => r matches Ok(i) && i.path() == index_path && i.order().len() == 0,
            },
    {
        match stored {
            Some(s) => Ok(s),
            None => Ok(Self::empty(index_path)),
        }
    }

    /// An index at `index_path` holding the given (key, entry) pairs as they
    /// are; a later pair replaces an earlier one with the same key.
    pub fn from_parts(index_path: PathBuf, parts: Vec<(String, PackageIndexEntry)>) -> (r: Self)
        ensures
            r.path() == index_path,
            forall|i: int| 0 <= i < parts@.len() ==> #[trigger] r.map().contains_key(parts@[i].0@),
            forall|k: Seq<char>| #[trigger] r.map().contains_key(k) ==> exists|i: int|
                0 <= i < parts@.len() && parts@[i].0@ == k,
    {
        let mut r = Self::empty(index_path);
        let mut parts = parts;
        let ghost all = parts@;
        let mut n: usize = 0;
        let total = parts.len();
        assert(all.skip(0) =~= all);
        while n < total
            invariant
                total == all.len(),
                parts@ == all.skip(n as int),
                n <= total,
                r.path() == index_path,
                forall|i: int| 0 <= i < n ==> #[trigger] r.map().contains_key(all[i].0@),
                forall|k: Seq<char>| #[trigger] r.map().contains_key(k) ==> exists|i: int|
                    0 <= i < n && all[i].0@ == k,
            decreases total - n,
        {
            let (key, entry) = parts.remove(0);
            assert(all.skip(n as int).drop_first() =~= all.skip(n + 1));
            let ghost key_view = key@;
            assert(key_view == all[n as int].0@);
            let ghost before = r.map();
            r.insert_exact(key, entry);
            assert forall|i: int| 0 <= i < n + 1 implies #[trigger] r.map().contains_key(all[i].0@) by {
                if i < n {
                    assert(before.contains_key(all[i].0@));
                }
            }
            assert forall|k: Seq<char>| #[trigger] r.map().contains_key(k) implies exists|i: int|
                0 <= i < n + 1 && all[i].0@ == k by {
                if k != key_view {
                    assert(before.contains_key(k));
                } else {
                    assert(all[n as int].0@ == k);
                }
            }
            n = n + 1;
        }
        r
    }

    fn contains_key_exact(&self, key: &String) -> (r: bool)
        ensures
            r == self.map().contains_key(key@),
    {
        match self.position(key) {
            Some(i) => {
                proof {
                    use_type_invariant(self);
                    self.lemma_position(i as int);
                }
                true
            },
            None => false,
        }
    }

    /// Puts `entry` under the exact key `key`.
    fn insert_exact(&mut self, key: String, entry: PackageIndexEntry)
        ensures
            final(self).path() == old(self).path(),
            final(self).map() == old(self).map().insert(key@, entry),
            old(self).order().contains(key@) ==> final(self).order() == old(self).order(),
            !old(self).order().contains(key@) ==> final(self).order() == old(self).order().push(
                key@,
            ),
            final(self).order().len() == final(self).values().len(),
    {
        proof {
            use_type_invariant(&*self);
        }
        let ghost old_map = self.map();
        let ghost k = key@;
        match self.position(&key) {
            Some(i) => {
                proof {
                    self.lemma_position(i as int);
                }
                let mut packages: Vec<(String, PackageIndexEntry)> = Vec::new();
                std::mem::swap(&mut packages, &mut self.packages);
                packages.set(i, (key, entry));
                self.packages = packages;
                proof {
                    assert(self.order() =~= old(self).order());
                    assert forall|x: Seq<char>| #[trigger] self.map().contains_key(x) == old_map.insert(
                        k,
                        entry,
                    ).contains_key(x) by {}
                    assert forall|x: Seq<char>| #[trigger] self.map().contains_key(x) implies self.map()[x]
                        == old_map.insert(k, entry)[x] by {
                        let j = self.order().index_of(x);
                        self.lemma_position(j);
                        if j != i {
                            old(self).lemma_position(j);
                        }
                    }
                    assert(self.map() =~= old_map.insert(k, entry));
                }
            },
            None => {
                let ghost n = self.packages@.len();
                let mut packages: Vec<(String, PackageIndexEntry)> = Vec::new();
                std::mem::swap(&mut packages, &mut self.packages);
                packages.push((key, entry));
                proof {
                    assert(keys_distinct(packages@)) by {
                        assert forall|a: int, b: int|
                            0 <= a < packages@.len() && 0 <= b < packages@.len() && a
                                != b implies #[trigger] packages@[a].0@
                            != #[trigger] packages@[b].0@ by {
                            if a == n {
                                assert(old(self).order()[b] == packages@[b].0@);
                            } else if b == n {
                                assert(old(self).order()[a] == packages@[a].0@);
                            }
                        }
                    }
                }
                self.packages = packages;
                proof {
                    assert(self.order() =~= old(self).order().push(k));
                    assert forall|x: Seq<char>| #[trigger] self.map().contains_key(x) == old_map.insert(
                        k,
                        entry,
                    ).contains_key(x) by {
                        if x == k {
                            assert(self.order()[n as int] == k);
                        }
                        if old_map.contains_key(x) {
                            let j = old(self).order().index_of(x);
                            assert(self.order()[j] == x);
                        }
                    }
                    assert forall|x: Seq<char>| #[trigger] self.map().contains_key(x) implies self.map()[x]
                        == old_map.insert(k, entry)[x] by {
                        let j = self.order().index_of(x);
                        self.lemma_position(j);
                        if j != n {
                            old(self).lemma_position(j);
                        }
                    }
                    assert(self.map() =~= old_map.insert(k, entry));
                }
            },
        }
    }

    /// Adds `entry` under the lowercase form of `id`, replacing what was
    /// under that key.
    pub fn add_entry(&mut self, id: &str, entry: PackageIndexEntry)
        ensures
            final(self).path() == old(self).path(),
            final(self).map() == old(self).map().insert(lowercase(id@), entry),
            old(self).order().contains(lowercase(id@)) ==> final(self).order() == old(self).order(),
            !old(self).order().contains(lowercase(id@)) ==> final(self).order() == old(self).order().push(lowercase(id@)),
    {
        let key = to_lowercase(id);
        self.insert_exact(key, entry);
    }

    /// Removes what is under the lowercase form of `id`, if anything.
    pub fn remove_entry(&mut self, id: &str)
        ensures
            final(self).path() == old(self).path(),
            final(self).map() == old(self).map().remove(lowercase(id@)),
            !old(self).order().contains(lowercase(id@)) ==> final(self).order() == old(self).order(),
            old(self).order().contains(lowercase(id@)) ==> exists|i: int|
                0 <= i < old(self).order().len() && old(self).order()[i] == lowercase(id@)
                    && final(self).order() == old(self).order().remove(i),
    {
        proof {
            use_type_invariant(&*self);
        }
        let key = to_lowercase(id);
        let ghost k = key@;
        let ghost old_map = self.map();
        match self.position(&key) {
            Some(i) => {
                proof {
                    self.lemma_position(i as int);
                }
                let mut packages: Vec<(String, PackageIndexEntry)> = Vec::new();
                std::mem::swap(&mut packages, &mut self.packages);
                packages.remove(i);
                proof {
                    assert(keys_distinct(packages@)) by {
                        assert forall|a: int, b: int|
                            0 <= a < packages@.len() && 0 <= b < packages@.len() && a
                                != b implies #[trigger] packages@[a].0@
                            != #[trigger] packages@[b].0@ by {
                            let a2 = if a < i { a } else { a + 1 };
                            let b2 = if b < i { b } else { b + 1 };
                            assert(packages@[a] == old(self).packages@[a2]);
                            assert(packages@[b] == old(self).packages@[b2]);
                        }
                    }
                }
                self.packages = packages;
                proof {
                    assert(self.order() =~= old(self).order().remove(i as int));
                    assert forall|x: Seq<char>| #[trigger] self.map().contains_key(x) == old_map.remove(
                        k,
                    ).contains_key(x) by {
                        if old_map.contains_key(x) && x != k {
                            let j = old(self).order().index_of(x);
                            old(self).lemma_position(j);
                            let j2 = if j < i { j } else { j - 1 };
                            assert(self.order()[j2] == x);
                        }
                        if self.map().contains_key(x) {
                            let j = self.order().index_of(x);
                            self.lemma_position(j);
                            let j2 = if j < i { j } else { j + 1 };
                            assert(old(self).order()[j2] == x);
                        }
                    }
                    assert forall|x: Seq<char>| #[trigger] self.map().contains_key(x) implies self.map()[x]
                        == old_map.remove(k)[x] by {
                        let j = self.order().index_of(x);
                        self.lemma_position(j);
                        let j2 = if j < i { j } else { j + 1 };
                        old(self).lemma_position(j2);
                    }
                    assert(self.map() =~= old_map.remove(k));
                }
            },
            None => {
                assert(old_map.remove(k) =~= old_map);
            },
        }
    }

    /// The entry under the lowercase form of `id`.
    pub fn get_entry(&self, id: &str) -> (r: Option<&PackageIndexEntry>)
        ensures
            match r {
                Some(e) => self.map().contains_key(lowercase(id@)) && *e == self.map()[lowercase(id@)],
                None => !self.map().contains_key(lowercase(id@)),
            },
    {
        proof {
            use_type_invariant(self);
        }
        let key = to_lowercase(id);
        match self.position(&key) {
            Some(i) => {
                proof {
                    self.lemma_position(i as int);
                }
                Some(&self.packages[i].1)
            },
            None => None,
        }
    }

    /// The entries whose lowercase name or id holds the lowercase `query`,
    /// in the index's order.
    pub fn search(&self, query: &str) -> (r: Vec<&PackageIndexEntry>)
        ensures
            deref_all(r@) == self.values().filter(
                |e: PackageIndexEntry| entry_matches(e, lowercase(query@)),
            ),
            forall|i: int|
                0 <= i < self.values().len() && lowercase(#[trigger] self.values()[i].id@) == lowercase(query@)
                    ==> deref_all(r@).contains(self.values()[i]),
    {
        let lowered = to_lowercase(query);
        let q = chars_of(lowered.as_str());
        let ghost vals = self.values();
        let ghost pred = |e: PackageIndexEntry| entry_matches(e, lowercase(query@));
        let mut out: Vec<&PackageIndexEntry> = Vec::new();
        let mut i: usize = 0;
        proof {
            reveal(Seq::filter);
            assert(vals.take(0) =~= seq![]);
            assert(deref_all(out@) =~= seq![]);
        }
        while i < self.packages.len()
            invariant
                i <= self.packages@.len(),
                vals == self.values(),
                vals.len() == self.packages@.len(),
                q@ == lowercase(query@),
                pred == (|e: PackageIndexEntry| entry_matches(e, lowercase(query@))),
                deref_all(out@) == vals.take(i as int).filter(pred),
            decreases self.packages@.len() - i,
        {
            let entry = &self.packages[i].1;
            assert(vals[i as int] == *entry);
            assert(vals.take(i + 1).drop_last() =~= vals.take(i as int));
            proof {
                reveal(Seq::filter);
            }
            let name_l = to_lowercase(entry.name.as_str());
            let id_l = to_lowercase(entry.id.as_str());
            let name_c = chars_of(name_l.as_str());
            let id_c = chars_of(id_l.as_str());
            if contains(&name_c, &q) || contains(&id_c, &q) {
                let ghost before = out@;
                out.push(entry);
                assert(deref_all(out@) =~= deref_all(before).push(*entry));
            }
            i = i + 1;
        }
        assert(vals.take(self.packages@.len() as int) =~= vals);
        proof {
            assert forall|k: int|
                0 <= k < self.values().len() && lowercase(#[trigger] self.values()[k].id@) == lowercase(query@)
                    implies deref_all(out@).contains(self.values()[k]) by {
                crate::laws::law_search_finds_id_whatever_the_case(self.values(), query@, k);
            }
        }
        out
    }

    /// All entries, in the index's order.
    pub fn list_all(&self) -> (r: Vec<&PackageIndexEntry>)
        ensures
            deref_all(r@) == self.values(),
            self.order().no_duplicates(),
            r@.len() == self.order().len(),
            r@.len() == self.map().dom().len(),
            forall|i: int| 0 <= i < r@.len() ==> *#[trigger] r@[i] == self.map()[self.order()[i]],
    {
        proof {
            use_type_invariant(self);
            self.lemma_keys_distinct();
        }
        let mut out: Vec<&PackageIndexEntry> = Vec::new();
        let mut i: usize = 0;
        assert(deref_all(out@) =~= self.values().take(0));
        while i < self.packages.len()
            invariant
                i <= self.packages@.len(),
                self.values().len() == self.packages@.len(),
                deref_all(out@) == self.values().take(i as int),
            decreases self.packages@.len() - i,
        {
            let ghost before = out@;
            let e = &self.packages[i].1;
            assert(self.values()[i as int] == *e);
            out.push(e);
            assert(self.values().take(i + 1) =~= self.values().take(i as int).push(*e));
            assert(deref_all(out@) =~= deref_all(before).push(*e));
            i = i + 1;
        }
        assert(self.values().take(self.packages@.len() as int) =~= self.values());
        proof {
            assert forall|i: int| 0 <= i < out@.len() implies *#[trigger] out@[i] == self.map()[self.order()[i]] by {
                self.lemma_position(i);
                assert(deref_all(out@)[i] == *out@[i]);
            }
        }
        out
    }

    /// Where the index is stored.
    pub fn index_path(&self) -> (r: &PathBuf)
        ensures
            *r == self.path(),
    {
        &self.index_path
    }

    /// The keys and entries, in the index's order.
    pub fn pairs(&self) -> (r: &Vec<(String, PackageIndexEntry)>)
        ensures
            r@.map_values(|p: (String, PackageIndexEntry)| p.0@) == self.order(),
            r@.map_values(|p: (String, PackageIndexEntry)| p.1) == self.values(),
            self.order().no_duplicates(),
            self.order().len() == self.map().dom().len(),
    {
        proof {
            use_type_invariant(self);
            self.lemma_keys_distinct();
        }
        &self.packages
    }

    /// The index rebuilt from the stored packages: each one under its id
    /// (a later one replacing an earlier one with the same id), stored at
    /// `index_path`. A package without an installation time makes the stored
    /// data damaged.
    pub fn rebuild_from(index_path: PathBuf, packages: Vec<IndexedPackage>) -> (r: Result<Self>)
        ensures
            (exists|i: int| 0 <= i < packages@.len() && packages@[i].installed_at is None) <==> r is Err,
            r matches Err(e) ==> (e matches Error::PackageFilesDamaged(m) && exists|i: int|
                0 <= i < packages@.len() && packages@[i].installed_at is None && (forall|j: int|
                    0 <= j < i ==> (#[trigger] packages@[j]).installed_at is Some) && m@
                    == "Invalid timestamp for package "@ + packages@[i].id@),
            r matches Ok(idx) ==> {
                &&& idx.path() == index_path
                &&& idx.map() == rebuilt_map(packages@)
                &&& forall|i: int| 0 <= i < packages@.len() ==> #[trigger] idx.map().contains_key(
                    packages@[i].id@,
                )
                &&& forall|k: Seq<char>| #[trigger] idx.map().contains_key(k) ==> exists|i: int|
                    0 <= i < packages@.len() && packages@[i].id@ == k
            },
    {
        let mut r = Self::empty(index_path);
        let mut i: usize = 0;
        let n = packages.len();
        let ghost all = packages@;
        let mut pending = packages;
        assert(all.skip(0) =~= all);
        while i < n
            invariant
                n == all.len(),
                i <= n,
                pending@ == all.skip(i as int),
                all == packages@,
                r.path() == index_path,
                forall|j: int| 0 <= j < i ==> (#[trigger] all[j]).installed_at is Some,
                forall|j: int| 0 <= j < i ==> #[trigger] r.map().contains_key(all[j].id@),
                forall|k: Seq<char>| #[trigger] r.map().contains_key(k) ==> exists|j: int|
                    0 <= j < i && all[j].id@ == k,
                r.map() == rebuilt_map(all.take(i as int)),
            decreases n - i,
        {
            let p = pending.remove(0);
            assert(all.skip(i as int).drop_first() =~= all.skip(i + 1));
            assert(p == all[i as int]);
            match p.installed_at {
                None => {
                    assert(all[i as int].installed_at is None);
                    let msg = concat2("Invalid timestamp for package ", p.id.as_str());
                    return Err(Error::PackageFilesDamaged(msg));
                },
                Some(t) => {
                    let ghost before = r.map();
                    let ghost id_view = p.id@;
                    let key = p.id;
                    let entry = PackageIndexEntry::new(
                        copy_string(&key),
                        p.name,
                        p.version,
                        p.format,
                        t,
                        p.size,
                    );
                    assert(entry == entry_of(all[i as int]));
                    assert(all.take(i + 1).drop_last() =~= all.take(i as int));
                    r.insert_exact(key, entry);
                    assert forall|k: Seq<char>| #[trigger] r.map().contains_key(k) implies exists|j: int|
                        0 <= j < i + 1 && all[j].id@ == k by {
                        if k != id_view {
                            assert(before.contains_key(k));
                        } else {
                            assert(all[i as int].id@ == k);
                        }
                    }
                },
            }
            i = i + 1;
        }
        assert(all.take(n as int) =~= all);
        Ok(r)
    }
    /// The index rebuilt from what the package directories hold, in the
    /// order they were read: the first directory not in order gives its
    /// error; else each package stands under its id (a later one replacing
    /// an earlier one with the same id), stored at `index_path`.
    pub fn rebuild_from_dirs(index_path: PathBuf, dirs: Vec<StoredPackage>) -> (r: Result<Self>)
        ensures
            (forall|i: int| 0 <= i < dirs@.len() ==> stored_ok(#[trigger] dirs@[i])) <==> r is Ok,
            r matches Err(e) ==> exists|i: int|
                0 <= i < dirs@.len() && !stored_ok(dirs@[i]) && (forall|j: int|
                    0 <= j < i ==> stored_ok(#[trigger] dirs@[j])) && stored_error(dirs@[i], e),
            r matches Ok(idx) ==> idx.path() == index_path && idx.map() == rebuilt_map(
                found_packages(dirs@),
            ),
    {
        let n = dirs.len();
        let ghost all = dirs@;
        let mut pending = dirs;
        let mut packages: Vec<IndexedPackage> = Vec::new();
        let mut i: usize = 0;
        assert(all.skip(0) =~= all);
        assert(packages@ =~= found_packages(all.take(0)));
        while i < n
            invariant
                n == all.len(),
                i <= n,
                all == dirs@,
                pending@ == all.skip(i as int),
                forall|j: int| 0 <= j < i ==> stored_ok(#[trigger] all[j]),
                packages@ == found_packages(all.take(i as int)),
            decreases n - i,
        {
            let s = pending.remove(0);
            assert(all.skip(i as int).drop_first() =~= all.skip(i + 1));
            assert(s == all[i as int]);
            match s {
                StoredPackage::MissingMetadata(d) => {
                    let msg = concat2("Not find metadata.toml in ", d.as_str());
                    assert(!stored_ok(all[i as int]));
                    assert(stored_error(all[i as int], Error::PackageFilesDamaged(msg)));
                    return Err(Error::PackageFilesDamaged(msg));
                },
                StoredPackage::Unreadable(e) => {
                    assert(!stored_ok(all[i as int]));
                    assert(stored_error(all[i as int], e));
                    return Err(e);
                },
                StoredPackage::Found(p) => {
                    if p.installed_at.is_none() {
                        let msg = concat2("Invalid timestamp for package ", p.id.as_str());
                        assert(!stored_ok(all[i as int]));
                        assert(stored_error(all[i as int], Error::PackageFilesDamaged(msg)));
                        return Err(Error::PackageFilesDamaged(msg));
                    }
                    let ghost pv = p;
                    packages.push(p);
                    assert(packages@ =~= found_packages(all.take(i + 1))) by {
                        assert(found_package(all[i as int]) == pv);
                    }
                },
            }
            i = i + 1;
        }
        assert(all.take(n as int) =~= all);
        assert forall|j: int| 0 <= j < packages@.len() implies (#[trigger] packages@[j]).installed_at is Some by {
            assert(stored_ok(all[j]));
        }
        Self::rebuild_from(index_path, packages)
    }
}

fn copy_string(s: &String) -> (r: String)
    ensures
        r == *s,
{
    s.clone()
}

} // verus!
