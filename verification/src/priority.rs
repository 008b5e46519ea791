//! The order of preference among the providers of a package: first by the
//! rank the configuration gives to the provider's kind of repository for
//! its category of package, then by the provider's own priority; providers
//! that tie keep their order.
use vstd::prelude::*;

use crate::repository::{PackageCategory, PackageProvider, RepositoryConfig, rank_in};

verus! {

/// The preference list of repository kinds the configuration has for a
/// category.
pub open spec fn order_for(config: RepositoryConfig, category: PackageCategory) -> Seq<crate::repository::RepositoryType> {
    match category {
        PackageCategory::Native => config.native_priority@,
        PackageCategory::Universal => config.universal_priority@,
    }
}

/// The rank of a provider's kind of repository for its category.
pub open spec fn provider_rank(config: RepositoryConfig, p: PackageProvider) -> int {
    rank_in(order_for(config, p.category), p.repo_type)
}

/// `a` comes strictly before `b`: a higher rank, or the same rank and a
/// higher priority of its own.
pub open spec fn outranks(config: RepositoryConfig, a: PackageProvider, b: PackageProvider) -> bool {
    provider_rank(config, a) > provider_rank(config, b) || (provider_rank(config, a)
        == provider_rank(config, b) && a.priority > b.priority)
}

/// `x` put into the ordered `sorted` after every provider it does not
/// outrank.
pub open spec fn insert_ranked(config: RepositoryConfig, sorted: Seq<PackageProvider>, x: PackageProvider) -> Seq<PackageProvider>
    decreases sorted.len(),
{
    if sorted.len() == 0 {
        seq![x]
    } else if outranks(config, x, sorted.last()) {
        insert_ranked(config, sorted.drop_last(), x).push(sorted.last())
    } else {
        sorted.push(x)
    }
}

/// The providers in order of preference, ties kept in their given order.
pub open spec fn sorted_by_rank(config: RepositoryConfig, s: Seq<PackageProvider>) -> Seq<PackageProvider>
    decreases s.len(),
{
    if s.len() == 0 {
        s
    } else {
        insert_ranked(config, sorted_by_rank(config, s.drop_last()), s.last())
    }
}

/// Inserting at the first place from which on every provider is outranked
/// is the insertion of the specification.
proof fn lemma_insert_at(config: RepositoryConfig, sorted: Seq<PackageProvider>, x: PackageProvider, j: int)
    requires
        0 <= j <= sorted.len(),
        forall|k: int| j <= k < sorted.len() ==> outranks(config, x, #[trigger] sorted[k]),
        j > 0 ==> !outranks(config, x, sorted[j - 1]),
    ensures
        insert_ranked(config, sorted, x) == sorted.take(j).push(x) + sorted.skip(j),
    decreases sorted.len(),
{
    if sorted.len() == 0 {
        assert(sorted.take(j).push(x) + sorted.skip(j) =~= seq![x]);
    } else if j == sorted.len() {
        assert(sorted.take(j).push(x) + sorted.skip(j) =~= sorted.push(x));
    } else {
        let rest = sorted.drop_last();
        assert forall|k: int| j <= k < rest.len() implies outranks(config, x, #[trigger] rest[k]) by {
            assert(rest[k] == sorted[k]);
        }
        if j > 0 {
            assert(rest[j - 1] == sorted[j - 1]);
        }
        assert(outranks(config, x, sorted[sorted.len() - 1]));
        lemma_insert_at(config, rest, x, j);
        assert(rest.take(j) =~= sorted.take(j));
        assert(rest.skip(j).push(sorted.last()) =~= sorted.skip(j));
        assert(insert_ranked(config, sorted, x) =~= sorted.take(j).push(x) + sorted.skip(j));
    }
}

/// Ranks providers by the configuration's preference among repositories.
pub struct PriorityManager {
    config: RepositoryConfig,
}

impl PriorityManager {
    /// The configuration the ranks come from.
    pub closed spec fn config(&self) -> RepositoryConfig {
        self.config
    }

    /// The preference lists are short enough for a rank to fit in a `u32`.
    pub open spec fn ranks_fit(&self) -> bool {
        &&& self.config().native_priority@.len() <= u32::MAX
        &&& self.config().universal_priority@.len() <= u32::MAX
    }

    pub fn new(config: RepositoryConfig) -> (r: Self)
        ensures
            r.config() == config,
    {
        PriorityManager { config }
    }

    /// The rank of the provider's kind of repository for its category.
    pub fn get_package_priority(&self, provider: &PackageProvider) -> (r: u32)
        requires
            self.ranks_fit(),
        ensures
            r == provider_rank(self.config(), *provider),
    {
        self.config.get_priority(provider.repo_type, provider.category)
    }

    /// Whether `a` comes strictly before `b`.
    fn outranks_exec(&self, a: &PackageProvider, b: &PackageProvider) -> (r: bool)
        requires
            self.ranks_fit(),
        ensures
            r == outranks(self.config(), *a, *b),
    {
        let ra = self.get_package_priority(a);
        let rb = self.get_package_priority(b);
        ra > rb || (ra == rb && a.priority > b.priority)
    }

    /// The providers in order of preference: a higher rank first, then a
    /// higher priority of their own; providers that tie keep their order.
    pub fn sort_by_priority(&self, providers: Vec<PackageProvider>) -> (r: Vec<PackageProvider>)
        requires
            self.ranks_fit(),
        ensures
            r@ == sorted_by_rank(self.config(), providers@),
    {
        let ghost input = providers@;
        let n = providers.len();
        assert(input.len() == n);
        let mut rest = providers;
        let mut out: Vec<PackageProvider> = Vec::new();
        let mut i: usize = 0;
        assert(input.take(0) =~= Seq::<PackageProvider>::empty());
        while rest.len() > 0
            invariant
                self.ranks_fit(),
                i <= input.len(),
                input.len() <= usize::MAX,
                rest@ == input.skip(i as int),
                out@ == sorted_by_rank(self.config(), input.take(i as int)),
            decreases rest@.len(),
        {
            let x = rest.remove(0);
            assert(x == input[i as int]);
            let mut j: usize = out.len();
            while j > 0 && self.outranks_exec(&x, &out[j - 1])
                invariant
                    self.ranks_fit(),
                    j <= out@.len(),
                    forall|k: int| j <= k < out@.len() ==> outranks(self.config(), x, #[trigger] out@[k]),
                decreases j,
            {
                j = j - 1;
            }
            proof {
                lemma_insert_at(self.config(), out@, x, j as int);
                assert(input.take(i + 1).drop_last() =~= input.take(i as int));
                assert(input.take(i + 1).last() == x);
            }
            let ghost before = out@;
            out.insert(j, x);
            assert(out@ =~= before.take(j as int).push(x) + before.skip(j as int));
            i = i + 1;
            assert(rest@ =~= input.skip(i as int));
        }
        assert(input.take(i as int) =~= input);
        out
    }

    /// The most preferred provider: the first in the order of
    /// `sort_by_priority`; `None` when there is none.
    pub fn select_best_provider(&self, providers: Vec<PackageProvider>) -> (r: Option<PackageProvider>)
        requires
            self.ranks_fit(),
        ensures
            sorted_by_rank(self.config(), providers@).len() == 0 ==> r is None,
            sorted_by_rank(self.config(), providers@).len() > 0 ==> r == Some(
                sorted_by_rank(self.config(), providers@)[0],
            ),
    {
        let mut sorted = self.sort_by_priority(providers);
        if sorted.len() == 0 {
            None
        } else {
            Some(sorted.remove(0))
        }
    }
}

} // verus!
