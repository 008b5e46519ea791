//! Package formats: the trait a format implements, and the registry that
//! holds one backend per name.
use vstd::prelude::*;

use crate::errors::{Error, Result};
use crate::text::{concat2, str_eq, string_views, strings_contain};
use crate::types::{ExtractedPackage, PackageMetadata};
use std::path::{Path, PathBuf};

verus! {

/// A package format: it recognises its files and reads them.
pub trait Backend: Send + Sync {
    /// The name `name` gives; left unspecified unless a verified
    /// implementation states it.
    open spec fn spec_name(&self) -> Seq<char> {
        vstd::pervasive::arbitrary()
    }

    /// The formats `supported_formats` lists; left unspecified unless a
    /// verified implementation states it.
    open spec fn spec_formats(&self) -> Seq<Seq<char>> {
        vstd::pervasive::arbitrary()
    }

    fn name(&self) -> (r: &str)
        ensures
            r@ == self.spec_name(),
    ;

    fn supported_formats(&self) -> (r: Vec<String>)
        ensures
            string_views(r@) == self.spec_formats(),
    ;

    /// Whether the file at `package_path` is a package of this format.
    fn detect(&self, package_path: &Path) -> bool;

    /// Unpacks the package file at `package_path`.
    fn extract(&self, package_path: &Path) -> Result<ExtractedPackage>;

    fn get_metadata(&self, package_path: &Path) -> Result<PackageMetadata>;

    fn validate(&self, package_path: &Path) -> Result<()>;

    /// Whether the package's signature holds; unless a format checks
    /// signatures, every package is taken as signed.
    fn verify_signature(&self, package_path: &Path) -> (r: Result<bool>)
        default_ensures
            r matches Ok(b) && b,
    {
        Ok(true)
    }

    /// The names the package provides; unless a format reads them, none.
    fn get_provides(&self, package_path: &Path) -> (r: Result<Vec<String>>)
        default_ensures
            r matches Ok(v) && v@.len() == 0,
    {
        Ok(Vec::new())
    }

    /// Whether the format can update by deltas; unless it says so, it
    /// cannot.
    fn supports_delta_updates(&self) -> (r: bool)
        default_ensures
            !r,
    {
        false
    }
}


/// A boxed backend is a backend: each call goes to the backend in the box.
impl Backend for Box<dyn Backend> {
    open spec fn spec_name(&self) -> Seq<char> {
        (**self).spec_name()
    }

    open spec fn spec_formats(&self) -> Seq<Seq<char>> {
        (**self).spec_formats()
    }

    fn name(&self) -> (r: &str) {
        (**self).name()
    }

    fn supported_formats(&self) -> (r: Vec<String>) {
        (**self).supported_formats()
    }

    fn detect(&self, package_path: &Path) -> bool {
        (**self).detect(package_path)
    }

    fn extract(&self, package_path: &Path) -> Result<ExtractedPackage> {
        (**self).extract(package_path)
    }

    fn get_metadata(&self, package_path: &Path) -> Result<PackageMetadata> {
        (**self).get_metadata(package_path)
    }

    fn validate(&self, package_path: &Path) -> Result<()> {
        (**self).validate(package_path)
    }

    fn verify_signature(&self, package_path: &Path) -> Result<bool> {
        (**self).verify_signature(package_path)
    }

    fn get_provides(&self, package_path: &Path) -> Result<Vec<String>> {
        (**self).get_provides(package_path)
    }

    fn supports_delta_updates(&self) -> bool {
        (**self).supports_delta_updates()
    }
}

/// The names under which the backends were registered, in order.
pub open spec fn entry_names<B>(entries: Seq<(String, B)>) -> Seq<Seq<char>> {
    entries.map_values(|e: (String, B)| e.0@)
}

/// The backend at index `i` lists `format` among its formats.
pub open spec fn lists_format<B: Backend>(entries: Seq<(String, B)>, i: int, format: Seq<char>) -> bool {
    entries[i].1.spec_formats().contains(format)
}

/// The backends, each under the name it gave when it was registered.
pub struct BackendRegistry<B: Backend = Box<dyn Backend>> {
    backends: Vec<(String, B)>,
}

impl<B: Backend> BackendRegistry<B> {
    /// The registered backends with their names, in the order of registration.
    pub closed spec fn entries(&self) -> Seq<(String, B)> {
        self.backends@
    }

    /// The names of the registered backends, in the order of registration.
    pub open spec fn names(&self) -> Seq<Seq<char>> {
        entry_names(self.entries())
    }

    /// No name is registered twice.
    pub open spec fn wf(&self) -> bool {
        self.names().no_duplicates()
    }

    /// A registry with no backend.
    pub fn new() -> (r: Self)
        ensures
            r.wf(),
            r.entries() == Seq::<(String, B)>::empty(),
    {
        let r = BackendRegistry { backends: Vec::new() };
        assert(r.names() =~= Seq::<Seq<char>>::empty());
        r
    }

    /// The index of the backend registered under `name`, if there is one.
    fn position(&self, name: &str) -> (r: Option<usize>)
        ensures
            match r {
                Some(i) => i < self.entries().len() && self.names()[i as int] == name@,
                None => !self.names().contains(name@),
            },
    {
        let mut i: usize = 0;
        while i < self.backends.len()
            invariant
                i <= self.backends@.len(),
                forall|k: int| 0 <= k < i ==> self.backends@[k].0@ != name@,
            decreases self.backends@.len() - i,
        {
            if str_eq(self.backends[i].0.as_str(), name) {
                return Some(i);
            }
            i = i + 1;
        }
        proof {
            if self.names().contains(name@) {
                let k = self.names().index_of(name@);
                assert(self.backends@[k].0@ == name@);
            }
        }
        None
    }

    /// Adds a backend under its name; a name that is already registered is
    /// refused.
    pub fn register_backend(&mut self, backend: B) -> (r: Result<()>)
        requires
            old(self).wf(),
        ensures
            final(self).wf(),
            old(self).names().contains(backend.spec_name()) ==> (r matches Err(Error::ConfigError(m))
                && m@ == "Backend already registered: "@ + backend.spec_name())
                && final(self).entries() == old(self).entries(),
            !old(self).names().contains(backend.spec_name()) ==> r is Ok && final(self).names()
                == old(self).names().push(backend.spec_name()) && final(self).entries().len()
                == old(self).entries().len() + 1 && final(self).entries().last().1 == backend
                && final(self).entries().drop_last() == old(self).entries(),
    {
        let name = backend.name().to_owned();
        match self.position(name.as_str()) {
            Some(_) => Err(Error::ConfigError(concat2("Backend already registered: ", name.as_str()))),
            None => {
                let ghost n = name@;
                self.backends.push((name, backend));
                proof {
                    assert(self.names() =~= old(self).names().push(n));
                    assert(self.entries().drop_last() =~= old(self).entries());
                }
                Ok(())
            },
        }
    }

    /// Removes the backend registered under that name; an unknown name is
    /// refused.
    pub fn unregister_backend(&mut self, name: &str) -> (r: Result<()>)
        requires
            old(self).wf(),
        ensures
            final(self).wf(),
            !old(self).names().contains(name@) ==> (r matches Err(Error::ConfigError(m)) && m@
                == "Backend not found: "@ + name@) && final(self).entries() == old(self).entries(),
            old(self).names().contains(name@) ==> r is Ok && final(self).entries()
                == old(self).entries().remove(old(self).names().index_of(name@)),
    {
        match self.position(name) {
            Some(i) => {
                proof {
                    let names = self.names();
                    assert(names.index_of(name@) == i) by {
                        names.index_of_first_ensures(name@);
                    }
                }
                self.backends.remove(i);
                proof {
                    let names = old(self).names();
                    assert(self.names() =~= names.remove(i as int));
                    assert forall|a: int, b: int|
                        0 <= a < b < self.names().len() implies self.names()[a]
                        != self.names()[b] by {
                        let a0 = if a < i { a } else { a + 1 };
                        let b0 = if b < i { b } else { b + 1 };
                        assert(names[a0] != names[b0]);
                    }
                }
                Ok(())
            },
            None => Err(Error::ConfigError(concat2("Backend not found: ", name))),
        }
    }

    /// The backend registered under that name, if there is one.
    pub fn get_backend(&self, name: &str) -> (r: Option<&B>)
        requires
            self.wf(),
        ensures
            !self.names().contains(name@) ==> r is None,
            self.names().contains(name@) ==> r == Some(
                &self.entries()[self.names().index_of(name@)].1,
            ),
    {
        match self.position(name) {
            Some(i) => {
                proof {
                    self.names().index_of_first_ensures(name@);
                }
                Some(&self.backends[i].1)
            },
            None => None,
        }
    }

    /// The backend registered under that name, to change it in place, if
    /// there is one; the names stay as they are.
    pub fn get_backend_mut(&mut self, name: &str) -> (r: Option<&mut B>)
        requires
            old(self).wf(),
        ensures
            !old(self).names().contains(name@) ==> r is None && final(self).entries() == old(
                self,
            ).entries(),
            old(self).names().contains(name@) ==> ({
                let i = old(self).names().index_of(name@);
                &&& r is Some
                &&& *r->0 == old(self).entries()[i].1
                &&& final(self).entries() == old(self).entries().update(
                    i,
                    (old(self).entries()[i].0, *final(r->0)),
                )
            }),
    {
        match self.position(name) {
            Some(i) => {
                proof {
                    self.names().index_of_first_ensures(name@);
                }
                Some(&mut self.backends[i].1)
            },
            None => None,
        }
    }

    /// The first registered backend, in the order of registration, that
    /// recognises the file; `None` when none does.
    pub fn detect_backend(&self, package_path: &Path) -> (r: Option<&B>)
        ensures
            r matches Some(b) ==> exists|i: int| 0 <= i < self.entries().len() && self.entries()[i].1 == *b,
            self.entries().len() == 0 ==> r is None,
    {
        let mut i: usize = 0;
        while i < self.backends.len()
            invariant
                i <= self.backends@.len(),
            decreases self.backends@.len() - i,
        {
            if self.backends[i].1.detect(package_path) {
                assert(self.entries()[i as int].1 == self.backends@[i as int].1);
                return Some(&self.backends[i].1);
            }
            i = i + 1;
        }
        None
    }

    /// The first registered backend, in the order of registration, that
    /// lists `format` among its formats; `None` when none does.
    pub fn get_backend_for_format(&self, format: &str) -> (r: Option<&B>)
        ensures
            match r {
                Some(b) => exists|i: int|
                    0 <= i < self.entries().len() && lists_format(self.entries(), i, format@) && (
                    forall|j: int| 0 <= j < i ==> !lists_format(self.entries(), j, format@))
                        && *b == self.entries()[i].1,
                None => forall|i: int|
                    0 <= i < self.entries().len() ==> !lists_format(self.entries(), i, format@),
            },
    {
        let mut i: usize = 0;
        while i < self.backends.len()
            invariant
                i <= self.backends@.len(),
                forall|j: int| 0 <= j < i ==> !lists_format(self.backends@, j, format@),
            decreases self.backends@.len() - i,
        {
            let formats = self.backends[i].1.supported_formats();
            if strings_contain(formats.as_slice(), format) {
                assert(lists_format(self.entries(), i as int, format@));
                return Some(&self.backends[i].1);
            }
            i = i + 1;
        }
        None
    }

    /// The names of the registered backends, in the order of registration.
    pub fn list_backends(&self) -> (r: Vec<String>)
        ensures
            string_views(r@) == self.names(),
    {
        let mut out: Vec<String> = Vec::new();
        let mut i: usize = 0;
        while i < self.backends.len()
            invariant
                i <= self.backends@.len(),
                string_views(out@) == entry_names(self.backends@).take(i as int),
            decreases self.backends@.len() - i,
        {
            let s = self.backends[i].0.clone();
            proof {
                assert(string_views(out@.push(s)) =~= string_views(out@).push(s@));
                assert(entry_names(self.backends@).take(i + 1) =~= entry_names(
                    self.backends@,
                ).take(i as int).push(self.backends@[i as int].0@));
            }
            out.push(s);
            i = i + 1;
        }
        assert(entry_names(self.backends@).take(i as int) =~= entry_names(self.backends@));
        out
    }
}

/// Finds backends in a directory of plugins.
pub struct BackendLoader {
    plugin_dir: PathBuf,
}

impl BackendLoader {
    /// The directory the loader looks in.
    pub closed spec fn dir(&self) -> PathBuf {
        self.plugin_dir
    }

    pub fn new(plugin_dir: PathBuf) -> (r: Self)
        ensures
            r.dir() == plugin_dir,
    {
        BackendLoader { plugin_dir }
    }
}

} // verus!
