//! The dependency graph of an installation: packages and the packages each
//! one needs, and an order of installation in which every package comes
//! after the packages of the graph that it needs.
use vstd::prelude::*;

use crate::errors::{Error, Result};
use crate::repository::PackageProvider;
use crate::text::{chars_of, concat, concat2, join_chars, join_spec, join_strings, lemma_views_push, str_eq, string_of, string_views, views};

verus! {

/// A package of the graph and the packages it needs.
pub struct DependencyNode {
    pub package_name: String,
    pub version: String,
    pub provider: PackageProvider,
    pub dependencies: Vec<String>,
    pub is_virtual: bool,
    pub is_optional: bool,
}

/// Packages by name, with the package the installation is for.
pub struct DependencyGraph {
    nodes: Vec<(String, DependencyNode)>,
    root: String,
}

/// The names of the nodes, in order.
pub open spec fn node_names(nodes: Seq<(String, DependencyNode)>) -> Seq<Seq<char>> {
    nodes.map_values(|p: (String, DependencyNode)| p.0@)
}

/// The dependency names of each node, in order.
pub open spec fn node_deps(nodes: Seq<(String, DependencyNode)>) -> Seq<Seq<Seq<char>>> {
    nodes.map_values(|p: (String, DependencyNode)| string_views(p.1.dependencies@))
}

/// Package `x` of the graph needs package `y`, which is in the graph too.
pub open spec fn needs(names: Seq<Seq<char>>, deps: Seq<Seq<Seq<char>>>, x: Seq<char>, y: Seq<char>) -> bool {
    &&& names.contains(y)
    &&& exists|i: int| 0 <= i < names.len() && names[i] == x && deps[i].contains(y)
}

/// `order` names every package of the graph once, and a package comes
/// after every package of the graph that it needs.
pub open spec fn is_install_order(names: Seq<Seq<char>>, deps: Seq<Seq<Seq<char>>>, order: Seq<Seq<char>>) -> bool {
    &&& order.len() == names.len()
    &&& order.no_duplicates()
    &&& forall|k: int| 0 <= k < order.len() ==> names.contains(#[trigger] order[k])
    &&& forall|a: int, b: int|
        0 <= a < order.len() && 0 <= b < order.len() && needs(names, deps, order[b], order[a]) ==> a < b
}

/// Some installation order exists; it fails to exactly when packages need
/// each other in a cycle.
pub open spec fn has_install_order(names: Seq<Seq<char>>, deps: Seq<Seq<Seq<char>>>) -> bool {
    exists|order: Seq<Seq<char>>| is_install_order(names, deps, order)
}

/// The line of one package: its name, and what it needs when it needs
/// something.
pub open spec fn node_line(name: Seq<char>, deps: Seq<Seq<char>>) -> Seq<char> {
    if deps.len() == 0 {
        name
    } else {
        name + " -> "@ + join_spec(deps, ", "@)
    }
}

/// The line of each package, in order.
pub open spec fn graph_lines(names: Seq<Seq<char>>, deps: Seq<Seq<Seq<char>>>) -> Seq<Seq<char>> {
    Seq::new(names.len(), |i: int| node_line(names[i], deps[i]))
}

pub open spec fn names_distinct(names: Seq<Seq<char>>) -> bool {
    names.no_duplicates()
}

/// Every package of the graph placed so far comes after the packages of the
/// graph it needs, which were placed before it.
spec fn placed_in_order(names: Seq<Seq<char>>, deps: Seq<Seq<Seq<char>>>, order: Seq<Seq<char>>) -> bool {
    forall|b: int, y: Seq<char>|
        0 <= b < order.len() && #[trigger] needs(names, deps, order[b], y) ==> exists|a: int|
            0 <= a < b && order[a] == y
}

/// Node `j` needs a node that is not placed.
spec fn blocked(names: Seq<Seq<char>>, deps: Seq<Seq<Seq<char>>>, placed: Seq<bool>, j: int) -> bool {
    exists|m: int| 0 <= m < names.len() && !placed[m] && deps[j].contains(#[trigger] names[m])
}

/// When every unplaced node needs an unplaced node, no installation order
/// exists.
proof fn lemma_stuck_means_cycle(
    names: Seq<Seq<char>>,
    deps: Seq<Seq<Seq<char>>>,
    placed: Seq<bool>,
    order: Seq<Seq<char>>,
)
    requires
        names.no_duplicates(),
        deps.len() == names.len(),
        placed.len() == names.len(),
        exists|j: int| 0 <= j < names.len() && !placed[j],
        forall|j: int| 0 <= j < names.len() && !placed[j] ==> #[trigger] blocked(names, deps, placed, j),
    ensures
        !is_install_order(names, deps, order),
{
    if !is_install_order(names, deps, order) {
        return;
    }
    // Every package of the order is placed, by induction along the order.
    assert forall|k: int| 0 <= k < order.len() implies (#[trigger] order[k] == order[k]) && forall|j: int|
        0 <= j < names.len() && names[j] == order[k] ==> placed[j] by {
        lemma_order_prefix_placed(names, deps, placed, order, k);
    }
    let j = choose|j: int| 0 <= j < names.len() && !placed[j];
    lemma_order_covers(names, order, j);
    let k = choose|k: int| 0 <= k < order.len() && order[k] == names[j];
    lemma_order_prefix_placed(names, deps, placed, order, k);
}

proof fn lemma_order_covers(names: Seq<Seq<char>>, order: Seq<Seq<char>>, j: int)
    requires
        0 <= j < names.len(),
        names.no_duplicates(),
        order.len() == names.len(),
        order.no_duplicates(),
        forall|k: int| 0 <= k < order.len() ==> names.contains(#[trigger] order[k]),
    ensures
        exists|k: int| 0 <= k < order.len() && order[k] == names[j],
{
    // The order is an injective map into the names of the same size, hence onto.
    if !(exists|k: int| 0 <= k < order.len() && order[k] == names[j]) {
        let f = |k: int| names.index_of(order[k]);
        assert forall|k: int| 0 <= k < order.len() implies 0 <= #[trigger] f(k) < names.len() && f(k) != j by {
            assert(names.contains(order[k]));
            assert(names[f(k)] == order[k]);
        }
        assert forall|k1: int, k2: int| 0 <= k1 < order.len() && 0 <= k2 < order.len() && k1 != k2 implies #[trigger] f(k1) != #[trigger] f(k2) by {
            assert(names.contains(order[k1]));
            assert(names.contains(order[k2]));
        }
        lemma_injection_bound(f, order.len() as int, names.len() as int, j);
    }
}

/// An injective map from `0..n` into `0..m` that misses `j` (with
/// `0 <= j < m`) needs `n < m`.
proof fn lemma_injection_bound(f: spec_fn(int) -> int, n: int, m: int, j: int)
    requires
        0 <= n,
        0 <= j < m,
        forall|k: int| 0 <= k < n ==> 0 <= #[trigger] f(k) < m && f(k) != j,
        forall|k1: int, k2: int| 0 <= k1 < n && 0 <= k2 < n && k1 != k2 ==> #[trigger] f(k1) != #[trigger] f(k2),
    ensures
        n < m,
    decreases n,
{
    if n > 0 {
        // Take `n - 1` out: map the value `m - 1` to where `n - 1` went.
        let last = f(n - 1);
        let g = |k: int| if f(k) == m - 1 { last } else { f(k) };
        let j2 = if j == m - 1 { last } else { j };
        assert forall|k: int| 0 <= k < n - 1 implies 0 <= #[trigger] g(k) < m - 1 && g(k) != j2 by {
            assert(f(k) != last);
        }
        assert forall|k1: int, k2: int| 0 <= k1 < n - 1 && 0 <= k2 < n - 1 && k1 != k2 implies #[trigger] g(k1) != #[trigger] g(k2) by {
            assert(f(k1) != f(k2));
        }
        if m - 1 <= 0 {
            assert(f(n - 1) != j);
            assert(0 <= f(n - 1) < m);
        } else {
            if j2 < 0 || j2 >= m - 1 {
                assert(last != j);
                if j != m - 1 {
                    assert(j2 == j);
                }
            }
            if 0 <= j2 < m - 1 {
                lemma_injection_bound(g, n - 1, m - 1, j2);
            } else {
                // `j == m - 1` and `last == m - 1` is impossible, as `f` misses `j`.
                assert(j == m - 1);
                assert(last != j);
                assert(j2 == last);
                assert(0 <= last < m - 1);
            }
        }
    }
}

proof fn lemma_order_prefix_placed(
    names: Seq<Seq<char>>,
    deps: Seq<Seq<Seq<char>>>,
    placed: Seq<bool>,
    order: Seq<Seq<char>>,
    k: int,
)
    requires
        names.no_duplicates(),
        deps.len() == names.len(),
        placed.len() == names.len(),
        forall|j: int| 0 <= j < names.len() && !placed[j] ==> #[trigger] blocked(names, deps, placed, j),
        is_install_order(names, deps, order),
        0 <= k < order.len(),
    ensures
        forall|j: int| 0 <= j < names.len() && names[j] == order[k] ==> placed[j],
    decreases k,
{
    assert forall|j: int| 0 <= j < names.len() && names[j] == order[k] implies placed[j] by {
        if !placed[j] {
            assert(blocked(names, deps, placed, j));
            let m = choose|m: int| 0 <= m < names.len() && !placed[m] && deps[j].contains(#[trigger] names[m]);
            assert(needs(names, deps, order[k], names[m]));
            lemma_order_covers(names, order, m);
            let a = choose|a: int| 0 <= a < order.len() && order[a] == names[m];
            assert(a < k);
            lemma_order_prefix_placed(names, deps, placed, order, a);
        }
    }
}

impl DependencyGraph {
    #[verifier::type_invariant]
    spec fn well_formed(self) -> bool {
        node_names(self.nodes@).no_duplicates()
    }

    /// The names of the packages, in the order they were added.
    pub closed spec fn names(&self) -> Seq<Seq<char>> {
        node_names(self.nodes@)
    }

    /// What each package needs, in the same order.
    pub closed spec fn deps(&self) -> Seq<Seq<Seq<char>>> {
        node_deps(self.nodes@)
    }

    pub closed spec fn root_view(&self) -> Seq<char> {
        self.root@
    }

    /// A graph for `root` with no package yet.
    pub fn new(root: String) -> (r: Self)
        ensures
            r.root_view() == root@,
            r.names().len() == 0,
    {
        Self { nodes: Vec::new(), root }
    }

    /// Adds a package, replacing one of the same name.
    pub fn add_node(&mut self, name: String, node: DependencyNode)
        ensures
            final(self).root_view() == old(self).root_view(),
            old(self).names().contains(name@) ==> final(self).names() == old(self).names() && exists|i: int|
                0 <= i < old(self).names().len() && old(self).names()[i] == name@ && final(self).deps()
                    == old(self).deps().update(i, string_views(node.dependencies@)),
            !old(self).names().contains(name@) ==> final(self).names() == old(self).names().push(name@)
                && final(self).deps() == old(self).deps().push(string_views(node.dependencies@)),
    {
        proof {
            use_type_invariant(&*self);
        }
        let mut i: usize = 0;
        while i < self.nodes.len()
            invariant
                i <= self.nodes@.len(),
                self.nodes@ == old(self).nodes@,
                self.root == old(self).root,
                node_names(self.nodes@).no_duplicates(),
                forall|j: int| 0 <= j < i ==> self.nodes@[j].0@ != name@,
            decreases self.nodes@.len() - i,
        {
            if str_eq(self.nodes[i].0.as_str(), name.as_str()) {
                let ghost deps_view = string_views(node.dependencies@);
                let ghost old_names = self.names();
                let mut nodes: Vec<(String, DependencyNode)> = Vec::new();
                std::mem::swap(&mut nodes, &mut self.nodes);
                nodes.set(i, (name, node));
                proof {
                    assert(old_names[i as int] == name@);
                    assert(node_names(nodes@) =~= old_names);
                }
                self.nodes = nodes;
                proof {
                    assert(node_deps(self.nodes@) =~= node_deps(old(self).nodes@).update(i as int, deps_view));
                    assert(self.deps() =~= old(self).deps().update(i as int, deps_view));
                }
                return;
            }
            i = i + 1;
        }
        proof {
            assert(!self.names().contains(name@)) by {
                if self.names().contains(name@) {
                    let j = self.names().index_of(name@);
                    assert(self.nodes@[j].0@ == name@);
                }
            }
        }
        let ghost deps_view = string_views(node.dependencies@);
        let ghost n = name@;
        let mut nodes: Vec<(String, DependencyNode)> = Vec::new();
        std::mem::swap(&mut nodes, &mut self.nodes);
        nodes.push((name, node));
        proof {
            assert(node_names(nodes@) =~= node_names(old(self).nodes@).push(n));
            assert(node_names(nodes@).no_duplicates()) by {
                let ns = node_names(nodes@);
                assert forall|a: int, b: int| 0 <= a < ns.len() && 0 <= b < ns.len() && a != b implies ns[a] != ns[b] by {
                    if a == ns.len() - 1 {
                        assert(old(self).names()[b] == ns[b]);
                    } else if b == ns.len() - 1 {
                        assert(old(self).names()[a] == ns[a]);
                    }
                }
            }
        }
        self.nodes = nodes;
        proof {
            assert(node_deps(self.nodes@) =~= node_deps(old(self).nodes@).push(deps_view));
        }
    }

    /// The package the installation is for.
    pub fn root(&self) -> (r: &String)
        ensures
            r@ == self.root_view(),
    {
        &self.root
    }

    /// The packages with their names, in the order they were added.
    pub fn nodes(&self) -> (r: &Vec<(String, DependencyNode)>)
        ensures
            node_names(r@) == self.names(),
            node_deps(r@) == self.deps(),
    {
        &self.nodes
    }

    /// The position of the package named `name`, if it is in the graph.
    fn index_of_name(&self, name: &String) -> (r: Option<usize>)
        ensures
            match r {
                Some(j) => j < self.names().len() && self.names()[j as int] == name@,
                None => !self.names().contains(name@),
            },
    {
        let mut j: usize = 0;
        while j < self.nodes.len()
            invariant
                j <= self.nodes@.len(),
                forall|k: int| 0 <= k < j ==> self.nodes@[k].0@ != name@,
            decreases self.nodes@.len() - j,
        {
            if str_eq(self.nodes[j].0.as_str(), name.as_str()) {
                return Some(j);
            }
            j = j + 1;
        }
        proof {
            if self.names().contains(name@) {
                let k = self.names().index_of(name@);
                assert(self.nodes@[k].0@ == name@);
            }
        }
        None
    }

    /// Whether every package of the graph that node `i` needs is placed.
    fn ready(&self, i: usize, placed: &Vec<bool>) -> (r: bool)
        requires
            i < self.names().len(),
            placed@.len() == self.names().len(),
            self.names().no_duplicates(),
        ensures
            r == !blocked(self.names(), self.deps(), placed@, i as int),
    {
        let deps = &self.nodes[i].1.dependencies;
        let ghost d = string_views(deps@);
        let ghost names = self.names();
        assert(d == self.deps()[i as int]);
        let mut k: usize = 0;
        while k < deps.len()
            invariant
                k <= deps@.len(),
                d == string_views(deps@),
                d == self.deps()[i as int],
                names == self.names(),
                names.no_duplicates(),
                placed@.len() == names.len(),
                forall|x: int, m: int| 0 <= x < k && 0 <= m < names.len() && #[trigger] d[x] == #[trigger] names[m] ==> placed@[m],
            decreases deps@.len() - k,
        {
            match self.index_of_name(&deps[k]) {
                Some(j) => {
                    if !placed[j] {
                        assert(d[k as int] == names[j as int]);
                        assert(d.contains(names[j as int]));
                        return false;
                    }
                    proof {
                        assert forall|m: int| 0 <= m < names.len() && d[k as int] == names[m] implies placed@[m] by {
                            assert(names[m] == names[j as int]);
                        }
                    }
                },
                None => {
                    proof {
                        assert forall|m: int| 0 <= m < names.len() && d[k as int] == names[m] implies placed@[m] by {
                            assert(names.contains(names[m]));
                        }
                    }
                },
            }
            k = k + 1;
        }
        proof {
            if blocked(names, self.deps(), placed@, i as int) {
                let m = choose|m: int| 0 <= m < names.len() && !placed@[m] && d.contains(#[trigger] names[m]);
                let x = d.index_of(names[m]);
                assert(d[x] == names[m]);
            }
        }
        true
    }

    /// An installation order: each package after the packages of the graph
    /// it needs. Fails when packages need each other in a cycle, exactly
    /// when no such order exists.
    pub fn get_install_order(&self) -> (r: Result<Vec<String>>)
        ensures
            r matches Ok(order) ==> is_install_order(self.names(), self.deps(), string_views(order@)),
            r is Err <==> !has_install_order(self.names(), self.deps()),
            r matches Err(e) ==> e is OperationFailed,
    {
        proof {
            use_type_invariant(self);
        }
        let n = self.nodes.len();
        let ghost names = self.names();
        let ghost deps = self.deps();
        let mut placed: Vec<bool> = Vec::new();
        let mut k: usize = 0;
        while k < n
            invariant
                k <= n,
                n == self.nodes@.len(),
                placed@.len() == k,
                forall|j: int| 0 <= j < k ==> !placed@[j],
            decreases n - k,
        {
            placed.push(false);
            k = k + 1;
        }
        let mut order: Vec<String> = Vec::new();
        let mut progress = true;
        proof {
            assert(string_views(order@) =~= seq![]);
        }
        while progress
            invariant
                n == names.len(),
                names == self.names(),
                deps == self.deps(),
                deps.len() == n,
                names.no_duplicates(),
                placed@.len() == n,
                string_views(order@).len() == order@.len(),
                order@.len() <= n,
                string_views(order@).no_duplicates(),
                forall|a: int| 0 <= a < order@.len() ==> names.contains(#[trigger] string_views(order@)[a]),
                forall|j: int| 0 <= j < n ==> (placed@[j] <==> string_views(order@).contains(#[trigger] names[j])),
                placed_in_order(names, deps, string_views(order@)),
                !progress ==> forall|j: int| 0 <= j < n && !placed@[j] ==> #[trigger] blocked(names, deps, placed@, j),
            decreases n - order@.len(), if progress { 1int } else { 0int },
        {
            progress = false;
            let ghost start_len = order@.len();
            let mut i: usize = 0;
            while i < n
                invariant
                    n == names.len(),
                    names == self.names(),
                    deps == self.deps(),
                    deps.len() == n,
                    names.no_duplicates(),
                    i <= n,
                    placed@.len() == n,
                    string_views(order@).len() == order@.len(),
                    order@.len() <= n,
                    start_len <= order@.len(),
                    progress ==> order@.len() > start_len,
                    string_views(order@).no_duplicates(),
                    forall|a: int| 0 <= a < order@.len() ==> names.contains(#[trigger] string_views(order@)[a]),
                    forall|j: int| 0 <= j < n ==> (placed@[j] <==> string_views(order@).contains(#[trigger] names[j])),
                    placed_in_order(names, deps, string_views(order@)),
                    !progress ==> forall|j: int| 0 <= j < i && !placed@[j] ==> #[trigger] blocked(names, deps, placed@, j),
                decreases n - i,
            {
                if !placed[i] && self.ready(i, &placed) {
                    proof {
                        let ov0 = string_views(order@);
                        let f = |a: int| names.index_of(ov0[a]);
                        assert forall|a: int| 0 <= a < ov0.len() implies 0 <= #[trigger] f(a) < n && f(a) != i by {
                            assert(names.contains(ov0[a]));
                            assert(names[f(a)] == ov0[a]);
                            if f(a) == i {
                                assert(ov0.contains(names[i as int]));
                            }
                        }
                        assert forall|a1: int, a2: int| 0 <= a1 < ov0.len() && 0 <= a2 < ov0.len() && a1 != a2 implies #[trigger] f(a1) != #[trigger] f(a2) by {
                            assert(names.contains(ov0[a1]));
                            assert(names.contains(ov0[a2]));
                        }
                        lemma_injection_bound(f, ov0.len() as int, n as int, i as int);
                    }
                    let ghost before = string_views(order@);
                    let ghost x = names[i as int];
                    let ghost old_placed = placed@;
                    assert(!blocked(names, deps, old_placed, i as int));
                    let name = self.nodes[i].0.clone();
                    assert(name@ == x);
                    order.push(name);
                    let mut p = Vec::new();
                    std::mem::swap(&mut p, &mut placed);
                    p.set(i, true);
                    placed = p;
                    proof {
                        let after = string_views(order@);
                        assert(after =~= before.push(x));
                        assert(!before.contains(x));
                        assert(after.no_duplicates()) by {
                            assert forall|a: int, b: int| 0 <= a < after.len() && 0 <= b < after.len() && a != b implies after[a] != after[b] by {
                                if a == before.len() {
                                    assert(before.contains(after[b]) || b == before.len());
                                } else if b == before.len() {
                                    assert(before.contains(after[a]));
                                }
                            }
                        }
                        assert forall|j: int| 0 <= j < n implies (placed@[j] <==> after.contains(#[trigger] names[j])) by {
                            if j == i {
                                assert(after[before.len() as int] == x);
                            } else {
                                if after.contains(names[j]) {
                                    let a = after.index_of(names[j]);
                                    if a == before.len() {
                                        assert(names[j] == names[i as int]);
                                    } else {
                                        assert(before[a] == names[j]);
                                    }
                                }
                                if before.contains(names[j]) {
                                    let a = before.index_of(names[j]);
                                    assert(after[a] == names[j]);
                                }
                            }
                        }
                        assert(placed_in_order(names, deps, after)) by {
                            assert forall|b: int, y: Seq<char>| 0 <= b < after.len() && #[trigger] needs(names, deps, after[b], y) implies exists|a: int| 0 <= a < b && after[a] == y by {
                                if b < before.len() {
                                    assert(after[b] == before[b]);
                                    let a = choose|a: int| 0 <= a < b && before[a] == y;
                                    assert(after[a] == y);
                                } else {
                                    // The new package: all it needs was placed before it.
                                    let w = choose|w: int| 0 <= w < names.len() && names[w] == after[b] && deps[w].contains(y);
                                    assert(w == i);
                                    let m = names.index_of(y);
                                    assert(names[m] == y);
                                    if !old_placed[m] {
                                        assert(blocked(names, deps, old_placed, i as int));
                                    }
                                    assert(before.contains(names[m]));
                                    let a = before.index_of(y);
                                    assert(after[a] == y);
                                }
                            }
                        }
                    }
                    progress = true;
                }
                i = i + 1;
            }
        }
        if order.len() == n {
            proof {
                let ov = string_views(order@);
                assert forall|a: int, b: int| 0 <= a < ov.len() && 0 <= b < ov.len() && needs(names, deps, ov[b], ov[a]) implies a < b by {
                    let a2 = choose|a2: int| 0 <= a2 < b && ov[a2] == ov[a];
                    if a != a2 {
                        assert(ov[a] == ov[a2]);
                    }
                }
                assert(is_install_order(names, deps, ov));
            }
            Ok(order)
        } else {
            proof {
                let ov = string_views(order@);
                assert(exists|j: int| 0 <= j < n && !placed@[j]) by {
                    if forall|j: int| 0 <= j < n ==> placed@[j] {
                        let f = |j: int| ov.index_of(names[j]);
                        assert forall|j: int| 0 <= j < n implies 0 <= #[trigger] f(j) < ov.len() by {
                            assert(ov.contains(names[j]));
                        }
                        assert forall|j1: int, j2: int| 0 <= j1 < n && 0 <= j2 < n && j1 != j2 implies #[trigger] f(j1) != #[trigger] f(j2) by {
                            assert(ov.contains(names[j1]));
                            assert(ov.contains(names[j2]));
                        }
                        lemma_injection_fits(f, n as int, ov.len() as int);
                    }
                }
                assert forall|o: Seq<Seq<char>>| !is_install_order(names, deps, o) by {
                    lemma_stuck_means_cycle(names, deps, placed@, o);
                }
            }
            Err(Error::OperationFailed("Dependency cycle detected".to_owned()))
        }
    }

    /// Whether packages of the graph need each other in a cycle, so that no
    /// installation order exists.
    pub fn has_cycles(&self) -> (r: bool)
        ensures
            r == !has_install_order(self.names(), self.deps()),
    {
        self.get_install_order().is_err()
    }

    /// The graph in text: a line `root: <root>`, then a line for each
    /// package in the order they were added, `<name>` alone or followed by
    /// ` -> ` and the packages it needs separated by `, `.
    pub fn visualize(&self) -> (r: String)
        ensures
            r@ == join_spec(seq!["root: "@ + self.root_view()] + graph_lines(self.names(), self.deps()), "\n"@),
    {
        let ghost want = seq!["root: "@ + self.root_view()] + graph_lines(self.names(), self.deps());
        let head_text = concat2("root: ", self.root.as_str());
        let mut lines: Vec<Vec<char>> = Vec::new();
        lines.push(chars_of(head_text.as_str()));
        let arrow = chars_of(" -> ");
        let comma = chars_of(", ");
        let mut i: usize = 0;
        assert(views(lines@) =~= want.take(1));
        while i < self.nodes.len()
            invariant
                i <= self.nodes@.len(),
                want == seq!["root: "@ + self.root_view()] + graph_lines(self.names(), self.deps()),
                self.names().len() == self.nodes@.len(),
                self.deps().len() == self.nodes@.len(),
                arrow@ == " -> "@,
                comma@ == ", "@,
                views(lines@) == want.take(i + 1),
            decreases self.nodes@.len() - i,
        {
            let name = chars_of(self.nodes[i].0.as_str());
            let deps = &self.nodes[i].1.dependencies;
            assert(self.names()[i as int] == name@);
            assert(self.deps()[i as int] == string_views(deps@));
            let line = if deps.len() == 0 {
                name
            } else {
                let joined = join_strings(deps.as_slice(), &comma);
                let head = concat(&name, &arrow);
                concat(&head, &joined)
            };
            assert(line@ == node_line(self.names()[i as int], self.deps()[i as int]));
            proof {
                lemma_views_push(lines@, line);
            }
            lines.push(line);
            assert(want.take(i + 2) =~= want.take(i + 1).push(want[i + 1]));
            i = i + 1;
        }
        assert(want.take(i + 1) =~= want);
        let nl = chars_of("\n");
        let text = join_chars(&lines, &nl);
        string_of(&text)
    }
}

/// An injective map from `0..n` into `0..m` needs `n <= m`.
proof fn lemma_injection_fits(f: spec_fn(int) -> int, n: int, m: int)
    requires
        0 <= n,
        0 <= m,
        forall|k: int| 0 <= k < n ==> 0 <= #[trigger] f(k) < m,
        forall|k1: int, k2: int| 0 <= k1 < n && 0 <= k2 < n && k1 != k2 ==> #[trigger] f(k1) != #[trigger] f(k2),
    ensures
        n <= m,
{
    if n > m {
        // Extend the codomain by one value nobody hits.
        lemma_injection_bound(f, n, m + 1, m);
    }
}

} // verus!
