//! Names that packages provide: each name maps to the providers that
//! offer it. A package provides its own name; a virtual name is one that
//! only other packages provide.
use vstd::prelude::*;

use crate::backend::Backend;
use crate::errors::{Error, Result};
use crate::repository::{PackageProvider, ProviderView, Repository};
use crate::text::{lemma_index_of_unique, str_eq, string_views};
use crate::types::PackageInfo;

verus! {

/// A name with its providers, in the order they were added.
pub type ProvidesRow = (Seq<char>, Seq<ProviderView>);

pub open spec fn row_keys(m: Seq<ProvidesRow>) -> Seq<Seq<char>> {
    m.map_values(|e: ProvidesRow| e.0)
}

/// The providers the mapping lists for `name`, if it lists the name.
pub open spec fn providers_in(m: Seq<ProvidesRow>, name: Seq<char>) -> Option<Seq<ProviderView>> {
    if row_keys(m).contains(name) {
        Some(m[row_keys(m).index_of(name)].1)
    } else {
        None
    }
}

/// The mapping with `p` added at the end of the providers of `name`.
pub open spec fn with_provider(m: Seq<ProvidesRow>, name: Seq<char>, p: ProviderView) -> Seq<ProvidesRow> {
    if row_keys(m).contains(name) {
        let i = row_keys(m).index_of(name);
        m.update(i, (name, m[i].1.push(p)))
    } else {
        m.push((name, seq![p]))
    }
}

/// The mapping with each of `ps`, in order, added for `name`.
pub open spec fn with_providers(m: Seq<ProvidesRow>, name: Seq<char>, ps: Seq<ProviderView>) -> Seq<ProvidesRow>
    decreases ps.len(),
{
    if ps.len() == 0 {
        m
    } else {
        with_provider(with_providers(m, name, ps.drop_last()), name, ps.last())
    }
}

/// The mapping with `ps` added for each of `names`, in order.
pub open spec fn with_providers_for_all(m: Seq<ProvidesRow>, names: Seq<Seq<char>>, ps: Seq<ProviderView>) -> Seq<ProvidesRow>
    decreases names.len(),
{
    if names.len() == 0 {
        m
    } else {
        with_providers(with_providers_for_all(m, names.drop_last(), ps), names.last(), ps)
    }
}

/// The provider a repository is for one of its packages, which provides its
/// own name.
pub open spec fn provider_from(repo: Repository, info: PackageInfo) -> ProviderView {
    ProviderView {
        package_name: info.name@,
        repo_name: repo.name@,
        repo_type: repo.repo_type,
        category: repo.category,
        version: info.version@,
        priority: repo.priority,
        provides: seq![info.name@],
    }
}

/// The mapping with a provider added, under its own name, for each of
/// `packages` of `repo`, in order.
pub open spec fn with_packages(m: Seq<ProvidesRow>, repo: Repository, packages: Seq<PackageInfo>) -> Seq<ProvidesRow>
    decreases packages.len(),
{
    if packages.len() == 0 {
        m
    } else {
        let info = packages.last();
        with_provider(with_packages(m, repo, packages.drop_last()), info.name@, provider_from(repo, info))
    }
}

/// The mapping the repositories give: for each enabled repository that has
/// been read, in order, each of its packages, in order.
pub open spec fn mapping_from(repos: Seq<Repository>) -> Seq<ProvidesRow>
    decreases repos.len(),
{
    if repos.len() == 0 {
        seq![]
    } else {
        let m = mapping_from(repos.drop_last());
        let repo = repos.last();
        if repo.enabled && repo.metadata is Some {
            with_packages(m, repo, repo.metadata->0.packages@)
        } else {
            m
        }
    }
}

/// A name is virtual when it is listed and none of its providers is a
/// package of that name.
pub open spec fn virtual_in(m: Seq<ProvidesRow>, name: Seq<char>) -> bool {
    match providers_in(m, name) {
        Some(ps) => forall|k: int| 0 <= k < ps.len() ==> #[trigger] ps[k].package_name != name,
        None => false,
    }
}

pub open spec fn provider_views(v: Seq<PackageProvider>) -> Seq<ProviderView> {
    v.map_values(|p: PackageProvider| p@)
}

pub open spec fn mapping_view(v: Seq<(String, Vec<PackageProvider>)>) -> Seq<ProvidesRow> {
    v.map_values(|e: (String, Vec<PackageProvider>)| (e.0@, provider_views(e.1@)))
}

/// Adding a provider keeps the names distinct.
proof fn lemma_with_provider_keys(m: Seq<ProvidesRow>, name: Seq<char>, p: ProviderView)
    requires
        row_keys(m).no_duplicates(),
    ensures
        row_keys(with_provider(m, name, p)).no_duplicates(),
        row_keys(with_provider(m, name, p)) == if row_keys(m).contains(name) {
            row_keys(m)
        } else {
            row_keys(m).push(name)
        },
{
    let r = with_provider(m, name, p);
    if row_keys(m).contains(name) {
        let i = row_keys(m).index_of(name);
        assert(row_keys(r) =~= row_keys(m));
    } else {
        assert(row_keys(r) =~= row_keys(m).push(name));
    }
}

/// A copy of a list of providers.
fn copy_providers(v: &Vec<PackageProvider>) -> (r: Vec<PackageProvider>)
    ensures
        provider_views(r@) == provider_views(v@),
{
    let mut out: Vec<PackageProvider> = Vec::new();
    let mut i: usize = 0;
    while i < v.len()
        invariant
            i <= v@.len(),
            provider_views(out@) == provider_views(v@).take(i as int),
        decreases v@.len() - i,
    {
        let ghost before = out@;
        let p = v[i].duplicate();
        out.push(p);
        assert(provider_views(out@) =~= provider_views(before).push(v@[i as int]@));
        assert(provider_views(v@).take(i + 1) =~= provider_views(v@).take(i as int).push(
            v@[i as int]@,
        ));
        i = i + 1;
    }
    assert(provider_views(v@).take(i as int) =~= provider_views(v@));
    out
}

/// The provider `repo` is for its package `info`.
fn provider_of(repo: &Repository, info: &PackageInfo) -> (r: PackageProvider)
    ensures
        r@ == provider_from(*repo, *info),
{
    let provides = vec![info.name.clone()];
    assert(string_views(provides@) =~= seq![info.name@]);
    PackageProvider {
        package_name: info.name.clone(),
        repo_name: repo.name.clone(),
        repo_type: repo.repo_type,
        category: repo.category,
        version: info.version.clone(),
        priority: repo.priority,
        provides,
    }
}

/// Which names provide which packages, and the backends that read them.
pub struct VirtualPackageManager {
    provides_mapping: Vec<(String, Vec<PackageProvider>)>,
    backends: Vec<Box<dyn Backend>>,
}

impl VirtualPackageManager {
    #[verifier::type_invariant]
    spec fn names_unique(&self) -> bool {
        row_keys(mapping_view(self.provides_mapping@)).no_duplicates()
    }

    /// Each listed name with its providers, in the order the names were
    /// first listed.
    pub closed spec fn mapping(&self) -> Seq<ProvidesRow> {
        mapping_view(self.provides_mapping@)
    }

    /// The backends packages are read with.
    pub closed spec fn backend_list(&self) -> Vec<Box<dyn Backend>> {
        self.backends
    }

    /// A manager that lists no name, reading packages with `backends`.
    pub fn new(backends: Vec<Box<dyn Backend>>) -> (r: Self)
        ensures
            r.mapping() == Seq::<ProvidesRow>::empty(),
            r.backend_list() == backends,
    {
        let r = VirtualPackageManager { provides_mapping: Vec::new(), backends };
        assert(mapping_view(r.provides_mapping@) =~= Seq::<ProvidesRow>::empty());
        assert(row_keys(mapping_view(r.provides_mapping@)) =~= Seq::<Seq<char>>::empty());
        r
    }

    /// The index of the row of `name`, if it is listed.
    fn position(&self, name: &str) -> (r: Option<usize>)
        ensures
            match r {
                Some(i) => i < self.mapping().len() && row_keys(self.mapping())[i as int] == name@
                    && row_keys(self.mapping()).index_of(name@) == i,
                None => !row_keys(self.mapping()).contains(name@),
            },
    {
        proof {
            use_type_invariant(self);
        }
        let ghost keys = row_keys(self.mapping());
        let mut i: usize = 0;
        while i < self.provides_mapping.len()
            invariant
                i <= self.provides_mapping@.len(),
                keys == row_keys(mapping_view(self.provides_mapping@)),
                keys.no_duplicates(),
                forall|k: int| 0 <= k < i ==> self.provides_mapping@[k].0@ != name@,
            decreases self.provides_mapping@.len() - i,
        {
            if str_eq(self.provides_mapping[i].0.as_str(), name) {
                proof {
                    assert(keys[i as int] == name@);
                    lemma_index_of_unique(keys, i as int);
                }
                return Some(i);
            }
            i = i + 1;
        }
        proof {
            if keys.contains(name@) {
                let k = keys.index_of(name@);
                assert(self.provides_mapping@[k].0@ == name@);
            }
        }
        None
    }

    /// Adds `p` at the end of the providers of `name`.
    fn add_provider(&mut self, name: &str, p: PackageProvider)
        ensures
            final(self).mapping() == with_provider(old(self).mapping(), name@, p@),
    {
        proof {
            use_type_invariant(&*self);
            lemma_with_provider_keys(self.mapping(), name@, p@);
        }
        let ghost pv = p@;
        let mut mapping: Vec<(String, Vec<PackageProvider>)> = Vec::new();
        std::mem::swap(&mut mapping, &mut self.provides_mapping);
        let ghost m0 = mapping_view(mapping@);
        match self.position_in(&mapping, name) {
            Some(i) => {
                let (key, mut list) = mapping.remove(i);
                let ghost old_list = list@;
                list.push(p);
                mapping.insert(i, (key, list));
                proof {
                    assert(provider_views(list@) =~= provider_views(old_list).push(pv));
                    assert(mapping_view(mapping@) =~= m0.update(
                        i as int,
                        (name@, m0[i as int].1.push(pv)),
                    ));
                }
            },
            None => {
                let v = vec![p];
                mapping.push((name.to_owned(), v));
                proof {
                    assert(provider_views(v@) =~= seq![pv]);
                    assert(mapping_view(mapping@) =~= m0.push((name@, seq![pv])));
                }
            },
        }
        self.provides_mapping = mapping;
    }

    /// The providers listed for `name`, if it is listed.
    pub fn get_providers(&self, virtual_name: &str) -> (r: Option<Vec<PackageProvider>>)
        ensures
            match r {
                Some(v) => providers_in(self.mapping(), virtual_name@) == Some(provider_views(v@)),
                None => providers_in(self.mapping(), virtual_name@) is None,
            },
    {
        match self.position(virtual_name) {
            Some(i) => {
                assert(self.mapping()[i as int].1 == provider_views(self.provides_mapping@[i as int].1@));
                Some(copy_providers(&self.provides_mapping[i].1))
            },
            None => None,
        }
    }

    /// Whether `name` is listed and provided only by packages of other
    /// names.
    pub fn is_virtual(&self, name: &str) -> (r: bool)
        ensures
            r == virtual_in(self.mapping(), name@),
    {
        match self.position(name) {
            Some(i) => {
                let list = &self.provides_mapping[i].1;
                let ghost ps = provider_views(list@);
                assert(self.mapping()[i as int].1 == ps);
                assert(providers_in(self.mapping(), name@) == Some(ps));
                let mut k: usize = 0;
                while k < list.len()
                    invariant
                        k <= list@.len(),
                        ps == provider_views(list@),
                        providers_in(self.mapping(), name@) == Some(ps),
                        forall|j: int| 0 <= j < k ==> #[trigger] ps[j].package_name != name@,
                    decreases list@.len() - k,
                {
                    if str_eq(list[k].package_name.as_str(), name) {
                        assert(ps[k as int].package_name == name@);
                        return false;
                    }
                    k = k + 1;
                }
                true
            },
            None => false,
        }
    }

    /// Lists the providers of `package` as providers of each of `provides`
    /// too, in order. A package that has no provider is refused.
    pub fn register_provides(&mut self, package: &str, provides: Vec<String>) -> (r: Result<()>)
        ensures
            !(providers_in(old(self).mapping(), package@) matches Some(ps) && ps.len() > 0) ==> (r matches Err(
                Error::PackageNotFound(m),
            ) && m@ == package@) && final(self).mapping() == old(self).mapping(),
            (providers_in(old(self).mapping(), package@) matches Some(ps) && ps.len() > 0) ==> r is Ok
                && final(self).mapping() == with_providers_for_all(
                old(self).mapping(),
                string_views(provides@),
                providers_in(old(self).mapping(), package@)->0,
            ),
    {
        let ps = match self.get_providers(package) {
            Some(v) => v,
            None => {
                return Err(Error::PackageNotFound(package.to_owned()));
            },
        };
        if ps.len() == 0 {
            return Err(Error::PackageNotFound(package.to_owned()));
        }
        let ghost pv = provider_views(ps@);
        let ghost names = string_views(provides@);
        let ghost start = self.mapping();
        let mut i: usize = 0;
        while i < provides.len()
            invariant
                i <= provides@.len(),
                names == string_views(provides@),
                pv == provider_views(ps@),
                self.mapping() == with_providers_for_all(start, names.take(i as int), pv),
            decreases provides@.len() - i,
        {
            let name = provides[i].as_str();
            let ghost before = self.mapping();
            let mut j: usize = 0;
            while j < ps.len()
                invariant
                    j <= ps@.len(),
                    pv == provider_views(ps@),
                    name@ == names[i as int],
                    self.mapping() == with_providers(before, name@, pv.take(j as int)),
                decreases ps@.len() - j,
            {
                let p = ps[j].duplicate();
                self.add_provider(name, p);
                assert(pv.take(j + 1).drop_last() =~= pv.take(j as int));
                j = j + 1;
            }
            assert(pv.take(j as int) =~= pv);
            assert(names.take(i + 1).drop_last() =~= names.take(i as int));
            i = i + 1;
        }
        assert(names.take(i as int) =~= names);
        Ok(())
    }

    /// Lists anew, from the repositories, the provider of each package of
    /// each enabled repository that has been read; names listed before are
    /// dropped.
    pub fn update_mapping_from_repos(&mut self, repos: &[Repository]) -> (r: Result<()>)
        ensures
            r is Ok,
            final(self).mapping() == mapping_from(repos@),
    {
        self.provides_mapping = Vec::new();
        assert(self.mapping() =~= Seq::<ProvidesRow>::empty());
        let mut i: usize = 0;
        while i < repos.len()
            invariant
                i <= repos@.len(),
                self.mapping() == mapping_from(repos@.take(i as int)),
            decreases repos@.len() - i,
        {
            let repo = &repos[i];
            assert(repos@.take(i + 1).drop_last() =~= repos@.take(i as int));
            if repo.enabled {
                match &repo.metadata {
                    Some(meta) => {
                        let ghost before = self.mapping();
                        let mut j: usize = 0;
                        while j < meta.packages.len()
                            invariant
                                j <= meta.packages@.len(),
                                self.mapping() == with_packages(
                                    before,
                                    *repo,
                                    meta.packages@.take(j as int),
                                ),
                            decreases meta.packages@.len() - j,
                        {
                            let info = &meta.packages[j];
                            let p = provider_of(repo, info);
                            self.add_provider(info.name.as_str(), p);
                            assert(meta.packages@.take(j + 1).drop_last() =~= meta.packages@.take(
                                j as int,
                            ));
                            j = j + 1;
                        }
                        assert(meta.packages@.take(j as int) =~= meta.packages@);
                    },
                    None => {},
                }
            }
            i = i + 1;
        }
        assert(repos@.take(i as int) =~= repos@);
        Ok(())
    }

    /// The index of the row of `name` in a detached mapping, if it is listed.
    fn position_in(&self, mapping: &Vec<(String, Vec<PackageProvider>)>, name: &str) -> (r: Option<usize>)
        requires
            row_keys(mapping_view(mapping@)).no_duplicates(),
        ensures
            match r {
                Some(i) => i < mapping@.len() && row_keys(mapping_view(mapping@))[i as int] == name@
                    && row_keys(mapping_view(mapping@)).index_of(name@) == i,
                None => !row_keys(mapping_view(mapping@)).contains(name@),
            },
    {
        let ghost keys = row_keys(mapping_view(mapping@));
        let mut i: usize = 0;
        while i < mapping.len()
            invariant
                i <= mapping@.len(),
                keys == row_keys(mapping_view(mapping@)),
                keys.no_duplicates(),
                forall|k: int| 0 <= k < i ==> mapping@[k].0@ != name@,
            decreases mapping@.len() - i,
        {
            if str_eq(mapping[i].0.as_str(), name) {
                proof {
                    assert(keys[i as int] == name@);
                    lemma_index_of_unique(keys, i as int);
                }
                return Some(i);
            }
            i = i + 1;
        }
        proof {
            if keys.contains(name@) {
                let k = keys.index_of(name@);
                assert(mapping@[k].0@ == name@);
            }
        }
        None
    }
}

} // verus!
