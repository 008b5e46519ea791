//! What holds across the operations of the library: what a read gives back
//! after a write, what a removal leaves, and what an order keeps. Each law
//! is stated over the values the operations' own contracts speak of.
use vstd::prelude::*;

use crate::backend::{Backend, BackendRegistry};
use crate::conflict::{ConflictView, coexist, file_conflict, file_conflicts, owned_elsewhere};
use crate::database::is_db_extension;
use crate::database_manager::{DatabaseManager, FileRow, not_owned_by, owned_by, row_files, rows_of, rows_without};
use crate::index::{PackageIndex, PackageIndexEntry, entry_matches};
use crate::priority::{insert_ranked, outranks, sorted_by_rank};
use crate::repository::{PackageProvider, RepositoryConfig};
use crate::text::{lemma_index_of_unique, lowercase, occurs_at};
use crate::transaction::{StepStatus, StepView, TransactionManager, TransactionView, UndoView, rollback_plan_spec, undo_of};
use crate::types::{Package, PackageInfo};
use crate::operations::{OperationInfo, not_of};
use crate::repository::ProviderView;
use crate::virtual_pkg::{ProvidesRow, providers_in, row_keys, with_provider, with_providers};

verus! {

// ---------------------------------------------------------------------------
// The database of installed packages
// ---------------------------------------------------------------------------
/// A package that `add_package` recorded is what `get_package` gives back
/// under its name, the list of installed packages has one more entry, and
/// every package installed before is still found as it was.
pub proof fn law_package_found_after_add(before: DatabaseManager, after: DatabaseManager, package: Package)
    requires
        before.wf(),
        !before.ids().contains(package.info.name@),
        after.entries() == before.entries().push((package.info.name@, package@)),
    ensures
        after.entries().len() == before.entries().len() + 1,
        after.ids().contains(package.info.name@),
        after.package(package.info.name@) == package@,
        forall|id: Seq<char>| #[trigger] before.ids().contains(id) ==> after.ids().contains(id)
            && after.package(id) == before.package(id),
{
    let name = package.info.name@;
    let n = before.ids().len();
    assert(after.ids() =~= before.ids().push(name));
    assert(after.ids().no_duplicates()) by {
        assert forall|a: int, b: int| 0 <= a < b < after.ids().len() implies after.ids()[a]
            != after.ids()[b] by {
            if b == n {
                assert(before.ids()[a] != name);
            } else {
                assert(before.ids()[a] != before.ids()[b]);
            }
        }
    }
    lemma_index_of_unique(after.ids(), n as int);
    assert forall|id: Seq<char>| #[trigger] before.ids().contains(id) implies after.ids().contains(id)
        && after.package(id) == before.package(id) by {
        let i = before.ids().index_of(id);
        lemma_index_of_unique(before.ids(), i);
        assert(after.ids()[i] == id);
        lemma_index_of_unique(after.ids(), i);
    }
}

/// After `remove_package`, the id is no longer installed and no file is
/// owned by it any more.
pub proof fn law_package_gone_after_remove(before: DatabaseManager, after: DatabaseManager, id: Seq<char>)
    requires
        before.wf(),
        before.ids().contains(id),
        after.entries() == before.entries().remove(before.ids().index_of(id)),
        after.rows() == rows_without(before.rows(), id),
    ensures
        !after.ids().contains(id),
        forall|k: int| 0 <= k < after.rows().len() ==> #[trigger] after.rows()[k].1 != id,
{
    let i = before.ids().index_of(id);
    lemma_index_of_unique(before.ids(), before.ids().index_of(id));
    assert(after.ids() =~= before.ids().remove(i));
    if after.ids().contains(id) {
        let j = after.ids().index_of(id);
        let j0 = if j < i { j } else { j + 1 };
        assert(before.ids()[j0] == id);
        assert(before.ids()[i] == id);
    }
    let pred = not_owned_by(id);
    assert forall|k: int| 0 <= k < after.rows().len() implies #[trigger] after.rows()[k].1 != id by {
        before.rows().lemma_filter_pred(pred, k);
    }
}

/// After `register_file` gave a free file to a package, that package is the
/// file's owner and the file is among the files the package owns.
pub proof fn law_owner_after_register(before: DatabaseManager, after: DatabaseManager, id: Seq<char>, file: Seq<char>)
    requires
        before.wf(),
        before.owner(file) is None,
        after.rows() == before.rows().push((file, id)),
    ensures
        after.owner(file) == Some(id),
        row_files(rows_of(after.rows(), id)).contains(file),
{
    before.rows().lemma_filter_push((file, id), owned_by(id));
    let own = rows_of(after.rows(), id);
    assert(own[own.len() - 1] == (file, id));
    assert(row_files(own)[own.len() - 1] == file);
    let n = before.rows().len();
    assert(row_files(after.rows()) =~= row_files(before.rows()).push(file));
    assert(row_files(after.rows()).no_duplicates()) by {
        assert forall|a: int, b: int| 0 <= a < b < row_files(after.rows()).len() implies row_files(
            after.rows(),
        )[a] != row_files(after.rows())[b] by {
            if b == n {
                assert(row_files(before.rows())[a] != file);
            } else {
                assert(row_files(before.rows())[a] != row_files(before.rows())[b]);
            }
        }
    }
    lemma_index_of_unique(row_files(after.rows()), n as int);
}

/// After `unregister_file`, the file has no owner.
pub proof fn law_no_owner_after_unregister(before: DatabaseManager, after: DatabaseManager, file: Seq<char>)
    requires
        before.wf(),
        before.owner(file) is Some,
        after.rows() == before.rows().remove(row_files(before.rows()).index_of(file)),
    ensures
        after.owner(file) is None,
{
    let files = row_files(before.rows());
    let i = files.index_of(file);
    lemma_index_of_unique(files, i);
    assert(row_files(after.rows()) =~= files.remove(i));
    if row_files(after.rows()).contains(file) {
        let j = row_files(after.rows()).index_of(file);
        let j0 = if j < i { j } else { j + 1 };
        assert(files[j0] == file);
    }
}

// ---------------------------------------------------------------------------
// The registry of backends
// ---------------------------------------------------------------------------
/// A backend that `register_backend` took is what `get_backend` gives back
/// under its name.
pub proof fn law_backend_found_after_register<B: Backend>(
    before: BackendRegistry<B>,
    after: BackendRegistry<B>,
    backend: B,
)
    requires
        before.wf(),
        !before.names().contains(backend.spec_name()),
        after.names() == before.names().push(backend.spec_name()),
        after.entries().len() == before.entries().len() + 1,
        after.entries().last().1 == backend,
    ensures
        after.names().contains(backend.spec_name()),
        after.entries()[after.names().index_of(backend.spec_name())].1 == backend,
{
    let n = before.names().len();
    assert(after.names().no_duplicates()) by {
        assert forall|a: int, b: int| 0 <= a < b < after.names().len() implies after.names()[a]
            != after.names()[b] by {
            if b == n {
                assert(before.names()[a] != backend.spec_name());
            } else {
                assert(before.names()[a] != before.names()[b]);
            }
        }
    }
    lemma_index_of_unique(after.names(), n as int);
}

/// After `unregister_backend`, no backend is registered under the name.
pub proof fn law_backend_gone_after_unregister<B: Backend>(
    before: BackendRegistry<B>,
    after: BackendRegistry<B>,
    name: Seq<char>,
)
    requires
        before.wf(),
        before.names().contains(name),
        after.entries() == before.entries().remove(before.names().index_of(name)),
    ensures
        !after.names().contains(name),
{
    let i = before.names().index_of(name);
    lemma_index_of_unique(before.names(), i);
    assert(after.names() =~= before.names().remove(i));
    if after.names().contains(name) {
        let j = after.names().index_of(name);
        let j0 = if j < i { j } else { j + 1 };
        assert(before.names()[j0] == name);
    }
}

// ---------------------------------------------------------------------------
// The index of installed packages
// ---------------------------------------------------------------------------
/// After `add_entry` under an id, `get_entry` finds the entry under any id
/// that differs from it in case only.
pub proof fn law_index_lookup_ignores_case(
    before: PackageIndex,
    after: PackageIndex,
    id: Seq<char>,
    other: Seq<char>,
    entry: PackageIndexEntry,
)
    requires
        after.map() == before.map().insert(lowercase(id), entry),
        lowercase(other) == lowercase(id),
    ensures
        after.map().contains_key(lowercase(other)),
        after.map()[lowercase(other)] == entry,
{
}

/// `remove_entry` undoes `add_entry` of an id that was not indexed.
pub proof fn law_index_remove_undoes_add(
    before: PackageIndex,
    added: PackageIndex,
    removed: PackageIndex,
    id: Seq<char>,
    entry: PackageIndexEntry,
)
    requires
        !before.map().contains_key(lowercase(id)),
        added.map() == before.map().insert(lowercase(id), entry),
        removed.map() == added.map().remove(lowercase(id)),
    ensures
        removed.map() == before.map(),
{
    assert(removed.map() =~= before.map());
}

// ---------------------------------------------------------------------------
// The order of providers
// ---------------------------------------------------------------------------
proof fn lemma_insert_keeps(config: RepositoryConfig, sorted: Seq<PackageProvider>, x: PackageProvider)
    ensures
        insert_ranked(config, sorted, x).to_multiset() == sorted.to_multiset().insert(x),
    decreases sorted.len(),
{
    broadcast use vstd::seq_lib::group_to_multiset_ensures;

    if sorted.len() == 0 {
        assert(seq![x] =~= Seq::<PackageProvider>::empty().push(x));
        assert(sorted =~= Seq::<PackageProvider>::empty());
    } else if outranks(config, x, sorted.last()) {
        lemma_insert_keeps(config, sorted.drop_last(), x);
        assert(sorted =~= sorted.drop_last().push(sorted.last()));
        assert(insert_ranked(config, sorted, x).to_multiset() =~= sorted.to_multiset().insert(x));
    } else {
    }
}

proof fn lemma_insert_len(config: RepositoryConfig, sorted: Seq<PackageProvider>, x: PackageProvider)
    ensures
        insert_ranked(config, sorted, x).len() == sorted.len() + 1,
    decreases sorted.len(),
{
    if sorted.len() > 0 && outranks(config, x, sorted.last()) {
        lemma_insert_len(config, sorted.drop_last(), x);
    }
}

/// Everything in `insert_ranked(sorted, x)` is `x` or in `sorted`.
proof fn lemma_insert_members(config: RepositoryConfig, sorted: Seq<PackageProvider>, x: PackageProvider, k: int)
    requires
        0 <= k < insert_ranked(config, sorted, x).len(),
    ensures
        insert_ranked(config, sorted, x)[k] == x || sorted.contains(insert_ranked(config, sorted, x)[k]),
    decreases sorted.len(),
{
    lemma_insert_len(config, sorted, x);
    if sorted.len() == 0 {
    } else if outranks(config, x, sorted.last()) {
        let rest = sorted.drop_last();
        let r = insert_ranked(config, sorted, x);
        lemma_insert_len(config, rest, x);
        if k < r.len() - 1 {
            lemma_insert_members(config, rest, x, k);
            if r[k] != x {
                let j = rest.index_of(r[k]);
                assert(sorted[j] == r[k]);
            }
        } else {
            assert(r[k] == sorted.last());
            assert(sorted[sorted.len() - 1] == r[k]);
        }
    } else {
        let r = insert_ranked(config, sorted, x);
        if k < sorted.len() {
            assert(r[k] == sorted[k]);
        }
    }
}

/// No later provider outranks an earlier one.
pub open spec fn ordered(config: RepositoryConfig, s: Seq<PackageProvider>) -> bool {
    forall|i: int, j: int| 0 <= i < j < s.len() ==> !outranks(config, #[trigger] s[j], #[trigger] s[i])
}

proof fn lemma_outranks_transitive(config: RepositoryConfig, a: PackageProvider, b: PackageProvider, c: PackageProvider)
    requires
        outranks(config, a, b),
        !outranks(config, c, b),
    ensures
        outranks(config, a, c),
{
}

proof fn lemma_insert_ordered(config: RepositoryConfig, sorted: Seq<PackageProvider>, x: PackageProvider)
    requires
        ordered(config, sorted),
    ensures
        ordered(config, insert_ranked(config, sorted, x)),
    decreases sorted.len(),
{
    let r = insert_ranked(config, sorted, x);
    if sorted.len() == 0 {
    } else if outranks(config, x, sorted.last()) {
        let rest = sorted.drop_last();
        let last = sorted.last();
        assert(ordered(config, rest)) by {
            assert forall|i: int, j: int| 0 <= i < j < rest.len() implies !outranks(
                config,
                #[trigger] rest[j],
                #[trigger] rest[i],
            ) by {
                assert(rest[i] == sorted[i] && rest[j] == sorted[j]);
            }
        }
        lemma_insert_ordered(config, rest, x);
        lemma_insert_len(config, rest, x);
        let inner = insert_ranked(config, rest, x);
        assert forall|i: int, j: int| 0 <= i < j < r.len() implies !outranks(
            config,
            #[trigger] r[j],
            #[trigger] r[i],
        ) by {
            if j == r.len() - 1 {
                assert(r[j] == last);
                assert(r[i] == inner[i]);
                lemma_insert_members(config, rest, x, i);
                if inner[i] != x {
                    let m = rest.index_of(inner[i]);
                    assert(sorted[m] == inner[i]);
                    assert(sorted[sorted.len() - 1] == last);
                }
            } else {
                assert(r[i] == inner[i] && r[j] == inner[j]);
            }
        }
    } else {
        assert forall|i: int, j: int| 0 <= i < j < r.len() implies !outranks(
            config,
            #[trigger] r[j],
            #[trigger] r[i],
        ) by {
            if j == r.len() - 1 {
                assert(r[j] == x);
                assert(r[i] == sorted[i]);
                let last = sorted.last();
                assert(sorted[sorted.len() - 1] == last);
                if i < sorted.len() - 1 {
                    assert(!outranks(config, last, sorted[i]));
                    if outranks(config, x, sorted[i]) {
                        lemma_outranks_transitive(config, x, sorted[i], last);
                    }
                }
            } else {
                assert(r[i] == sorted[i] && r[j] == sorted[j]);
            }
        }
    }
}

/// `sort_by_priority` gives back the providers it was given, each as often
/// as it was given.
pub proof fn law_sort_keeps_providers(config: RepositoryConfig, providers: Seq<PackageProvider>)
    ensures
        sorted_by_rank(config, providers).to_multiset() == providers.to_multiset(),
    decreases providers.len(),
{
    broadcast use vstd::seq_lib::group_to_multiset_ensures;

    if providers.len() > 0 {
        law_sort_keeps_providers(config, providers.drop_last());
        lemma_insert_keeps(config, sorted_by_rank(config, providers.drop_last()), providers.last());
        assert(providers =~= providers.drop_last().push(providers.last()));
    }
}

/// In the order `sort_by_priority` gives, no provider outranks one before
/// it.
pub proof fn law_sort_orders(config: RepositoryConfig, providers: Seq<PackageProvider>)
    ensures
        ordered(config, sorted_by_rank(config, providers)),
    decreases providers.len(),
{
    if providers.len() > 0 {
        law_sort_orders(config, providers.drop_last());
        lemma_insert_ordered(config, sorted_by_rank(config, providers.drop_last()), providers.last());
    }
}

// ---------------------------------------------------------------------------
// Conflicts
// ---------------------------------------------------------------------------
/// Whether two packages can stay side by side does not depend on which of
/// them is asked about first.
pub proof fn law_coexist_symmetric(a: PackageInfo, b: PackageInfo)
    ensures
        coexist(a, b) == coexist(b, a),
{
}

/// A package can always stay beside itself.
pub proof fn law_coexist_reflexive(a: PackageInfo)
    ensures
        coexist(a, a),
{
}

// ---------------------------------------------------------------------------
// Running operations
// ---------------------------------------------------------------------------
/// After `register_operation(info)`, the operation `get_operation` finds
/// for the process of `info` is `info`.
pub proof fn law_registered_operation_is_found(operations: Seq<OperationInfo>, info: OperationInfo)
    ensures
        ({
            let after = operations.filter(not_of(info.pid)).push(info);
            exists|i: int|
                0 <= i < after.len() && after[i] == info && forall|j: int|
                    0 <= j < i ==> (#[trigger] after[j]).pid != info.pid
        }),
{
    let kept = operations.filter(not_of(info.pid));
    let after = kept.push(info);
    assert forall|j: int| 0 <= j < kept.len() implies (#[trigger] after[j]).pid != info.pid by {
        operations.lemma_filter_pred(not_of(info.pid), j);
        assert(after[j] == kept[j]);
    }
    assert(after[kept.len() as int] == info);
}

/// After `unregister_operation(pid)`, no recorded operation is of process
/// `pid`.
pub proof fn law_unregistered_process_is_gone(operations: Seq<OperationInfo>, pid: u32)
    ensures
        forall|i: int|
            0 <= i < operations.filter(not_of(pid)).len() ==> (#[trigger] operations.filter(
                not_of(pid),
            )[i]).pid != pid,
{
    assert forall|i: int| 0 <= i < operations.filter(not_of(pid)).len() implies (#[trigger] operations.filter(
        not_of(pid),
    )[i]).pid != pid by {
        operations.lemma_filter_pred(not_of(pid), i);
    }
}

// ---------------------------------------------------------------------------
// Transactions
// ---------------------------------------------------------------------------
/// Once the transaction that `begin_transaction` started is committed and
/// moved, no transaction is in progress.
pub proof fn law_commit_ends_transaction(
    begun: TransactionManager,
    committed: TransactionManager,
    transaction: TransactionView,
)
    requires
        begun.current_view() == Some(transaction),
        match begun.current_view() {
            Some(c) => if c.id == transaction.id {
                committed.current_view() is None
            } else {
                committed.current_view() == begun.current_view()
            },
            None => committed.current_view() is None,
        },
    ensures
        committed.current_view() is None,
{
}

/// Rolling back steps undoes the later steps first: the plan for steps
/// `a` then `b` is the plan for `b` followed by the plan for `a`.
pub proof fn law_rollback_undoes_later_steps_first(a: Seq<StepView>, b: Seq<StepView>)
    ensures
        rollback_plan_spec(a + b) == rollback_plan_spec(b) + rollback_plan_spec(a),
    decreases b.len(),
{
    if b.len() == 0 {
        assert(a + b =~= a);
        assert(rollback_plan_spec(b) + rollback_plan_spec(a) =~= rollback_plan_spec(a));
    } else {
        law_rollback_undoes_later_steps_first(a, b.drop_last());
        assert((a + b).drop_last() =~= a + b.drop_last());
        assert((a + b).last() == b.last());
        let rest_b = rollback_plan_spec(b.drop_last());
        let pa = rollback_plan_spec(a);
        if b.last().status == StepStatus::Completed {
            match undo_of(b.last()) {
                Some(x) => {
                    assert(seq![x] + (rest_b + pa) =~= (seq![x] + rest_b) + pa);
                },
                None => {},
            }
        }
    }
}

/// A plan has at most one action for each step.
pub proof fn law_rollback_plan_no_longer_than_steps(steps: Seq<StepView>)
    ensures
        rollback_plan_spec(steps).len() <= steps.len(),
    decreases steps.len(),
{
    if steps.len() > 0 {
        law_rollback_plan_no_longer_than_steps(steps.drop_last());
    }
}

/// A step that did not complete adds nothing to the rollback plan: only
/// completed steps are undone.
pub proof fn law_rollback_skips_unfinished_steps(steps: Seq<StepView>, x: StepView)
    requires
        x.status != StepStatus::Completed,
    ensures
        rollback_plan_spec(steps.push(x)) == rollback_plan_spec(steps),
{
    assert(steps.push(x).drop_last() =~= steps);
    assert(steps.push(x).last() == x);
}

/// Every action of a rollback plan undoes a step that completed.
pub proof fn law_rollback_actions_come_from_completed_steps(steps: Seq<StepView>)
    ensures
        forall|k: int|
            0 <= k < rollback_plan_spec(steps).len() ==> exists|j: int|
                0 <= j < steps.len() && steps[j].status == StepStatus::Completed && undo_of(steps[j])
                    == Some(#[trigger] rollback_plan_spec(steps)[k]),
    decreases steps.len(),
{
    if steps.len() > 0 {
        let init = steps.drop_last();
        let n = steps.len() - 1;
        law_rollback_actions_come_from_completed_steps(init);
        let plan = rollback_plan_spec(steps);
        let rest = rollback_plan_spec(init);
        assert forall|k: int| 0 <= k < plan.len() implies exists|j: int|
            0 <= j < steps.len() && steps[j].status == StepStatus::Completed && undo_of(steps[j])
                == Some(#[trigger] plan[k]) by {
            if steps.last().status == StepStatus::Completed && undo_of(steps.last()) is Some {
                let a = undo_of(steps.last())->0;
                assert(plan == seq![a] + rest);
                if k == 0 {
                    assert(steps[n] == steps.last());
                    assert(plan[0] == a);
                } else {
                    assert(plan[k] == rest[k - 1]);
                    let j = choose|j: int|
                        0 <= j < init.len() && init[j].status == StepStatus::Completed && undo_of(init[j])
                            == Some(#[trigger] rest[k - 1]);
                    assert(steps[j] == init[j]);
                }
            } else {
                assert(plan == rest);
                let j = choose|j: int|
                    0 <= j < init.len() && init[j].status == StepStatus::Completed && undo_of(init[j])
                        == Some(#[trigger] rest[k]);
                assert(steps[j] == init[j]);
            }
        }
    }
}

// ---------------------------------------------------------------------------
// Conflicts
// ---------------------------------------------------------------------------
/// The conflicts over files: one for each file of the list that a package
/// other than `pkg` owns, naming the file and its owner, and no other.
pub proof fn law_file_conflicts_one_per_file_owned_elsewhere(
    rows: Seq<(Seq<char>, Seq<char>)>,
    pkg: Seq<char>,
    files: Seq<Seq<char>>,
)
    ensures
        file_conflicts(rows, pkg, files).len() == files.filter(
            |f: Seq<char>| owned_elsewhere(rows, pkg, f),
        ).len(),
        forall|i: int|
            0 <= i < files.len() && #[trigger] owned_elsewhere(rows, pkg, files[i]) ==> file_conflicts(
                rows,
                pkg,
                files,
            ).contains(file_conflict(pkg, files[i], rows[row_files(rows).index_of(files[i])].1)),
        forall|k: int|
            0 <= k < file_conflicts(rows, pkg, files).len() ==> exists|i: int|
                0 <= i < files.len() && owned_elsewhere(rows, pkg, files[i]) && #[trigger] file_conflicts(
                    rows,
                    pkg,
                    files,
                )[k] == file_conflict(pkg, files[i], rows[row_files(rows).index_of(files[i])].1),
    decreases files.len(),
{
    let pred = |f: Seq<char>| owned_elsewhere(rows, pkg, f);
    if files.len() == 0 {
        assert(files.filter(pred) =~= Seq::<Seq<char>>::empty()) by {
            reveal(Seq::filter);
        }
    } else {
        let init = files.drop_last();
        let last = files.last();
        let n = files.len() - 1;
        law_file_conflicts_one_per_file_owned_elsewhere(rows, pkg, init);
        init.lemma_filter_push(last, pred);
        assert(init.push(last) =~= files);
        let r = file_conflicts(rows, pkg, files);
        let r0 = file_conflicts(rows, pkg, init);
        let o = rows[row_files(rows).index_of(last)].1;
        if owned_elsewhere(rows, pkg, last) {
            assert(r == r0.push(file_conflict(pkg, last, o)));
        } else {
            assert(r == r0);
        }
        assert forall|i: int|
            0 <= i < files.len() && #[trigger] owned_elsewhere(rows, pkg, files[i]) implies r.contains(
            file_conflict(pkg, files[i], rows[row_files(rows).index_of(files[i])].1),
        ) by {
            if i == n {
                assert(r[r.len() - 1] == file_conflict(pkg, last, o));
            } else {
                assert(files[i] == init[i]);
                assert(owned_elsewhere(rows, pkg, init[i]));
                let c = file_conflict(pkg, files[i], rows[row_files(rows).index_of(files[i])].1);
                assert(r0.contains(c));
                let j = choose|j: int| 0 <= j < r0.len() && r0[j] == c;
                assert(r[j] == c);
            }
        }
        assert forall|k: int| 0 <= k < r.len() implies exists|i: int|
            0 <= i < files.len() && owned_elsewhere(rows, pkg, files[i]) && #[trigger] r[k]
                == file_conflict(pkg, files[i], rows[row_files(rows).index_of(files[i])].1) by {
            if k < r0.len() {
                assert(r[k] == r0[k]);
                let i = choose|i: int|
                    0 <= i < init.len() && owned_elsewhere(rows, pkg, init[i]) && #[trigger] r0[k]
                        == file_conflict(pkg, init[i], rows[row_files(rows).index_of(init[i])].1);
                assert(files[i] == init[i]);
            } else {
                assert(files[n] == last);
            }
        }
    }
}

// ---------------------------------------------------------------------------
// Searching the index
// ---------------------------------------------------------------------------
/// Searching ignores case in ids: an entry whose id equals the query up to
/// case is found.
pub proof fn law_search_finds_id_whatever_the_case(values: Seq<PackageIndexEntry>, query: Seq<char>, i: int)
    requires
        0 <= i < values.len(),
        lowercase(values[i].id@) == lowercase(query),
    ensures
        values.filter(|e: PackageIndexEntry| entry_matches(e, lowercase(query))).contains(values[i]),
{
    let lq = lowercase(query);
    assert(lq.subrange(0, lq.len() as int) =~= lq);
    assert(occurs_at(lq, lq, 0));
    assert(entry_matches(values[i], lq));
    values.lemma_filter_contains(|e: PackageIndexEntry| entry_matches(e, lowercase(query)), i);
}

/// Whether an entry is found does not change when its id and name are
/// replaced by texts that differ from them only in case.
pub proof fn law_search_match_ignores_case(a: PackageIndexEntry, b: PackageIndexEntry, query: Seq<char>)
    requires
        lowercase(a.id@) == lowercase(b.id@),
        lowercase(a.name@) == lowercase(b.name@),
    ensures
        entry_matches(a, lowercase(query)) == entry_matches(b, lowercase(query)),
{
}

// ---------------------------------------------------------------------------
// The database file
// ---------------------------------------------------------------------------
/// A database file is taken only with the extension `db`; a file with no
/// extension or another one is not.
pub proof fn law_database_file_needs_db_extension(extension: Option<&str>)
    ensures
        is_db_extension(extension) <==> (extension matches Some(e) && e@ == "db"@),
        extension is None ==> !is_db_extension(extension),
{
}

// ---------------------------------------------------------------------------
// Provided names
// ---------------------------------------------------------------------------
/// Providers added for a name come after the providers it had, in the
/// order they were added.
pub proof fn law_providers_appended(m: Seq<ProvidesRow>, name: Seq<char>, ps: Seq<ProviderView>)
    requires
        row_keys(m).no_duplicates(),
    ensures
        row_keys(with_providers(m, name, ps)).no_duplicates(),
        ps.len() > 0 ==> providers_in(with_providers(m, name, ps), name) == Some(
            match providers_in(m, name) {
                Some(old) => old + ps,
                None => ps,
            },
        ),
    decreases ps.len(),
{
    if ps.len() > 0 {
        let before = with_providers(m, name, ps.drop_last());
        law_providers_appended(m, name, ps.drop_last());
        lemma_with_provider_found(before, name, ps.last());
        let old_list = match providers_in(m, name) {
            Some(o) => o,
            None => Seq::<ProviderView>::empty(),
        };
        if ps.len() == 1 {
            assert(before == m);
            assert(ps.drop_last() =~= Seq::<ProviderView>::empty());
            if providers_in(m, name) is None {
                assert(seq![ps.last()] =~= ps);
            } else {
                assert(old_list.push(ps.last()) =~= old_list + ps);
            }
        } else {
            assert((old_list + ps.drop_last()).push(ps.last()) =~= old_list + ps);
            assert(ps.drop_last().push(ps.last()) =~= ps);
        }
    }
}

/// The providers of a name after one is added for it.
proof fn lemma_with_provider_found(m: Seq<ProvidesRow>, name: Seq<char>, p: ProviderView)
    requires
        row_keys(m).no_duplicates(),
    ensures
        row_keys(with_provider(m, name, p)).no_duplicates(),
        providers_in(with_provider(m, name, p), name) == Some(
            match providers_in(m, name) {
                Some(old) => old.push(p),
                None => seq![p],
            },
        ),
{
    let r = with_provider(m, name, p);
    if row_keys(m).contains(name) {
        let i = row_keys(m).index_of(name);
        lemma_index_of_unique(row_keys(m), i);
        assert(row_keys(r) =~= row_keys(m));
        lemma_index_of_unique(row_keys(r), i);
    } else {
        let n = m.len();
        assert(row_keys(r) =~= row_keys(m).push(name));
        assert(row_keys(r).no_duplicates()) by {
            assert forall|a: int, b: int| 0 <= a < b < row_keys(r).len() implies row_keys(r)[a]
                != row_keys(r)[b] by {
                if b == n {
                    assert(row_keys(m)[a] != name);
                } else {
                    assert(row_keys(m)[a] != row_keys(m)[b]);
                }
            }
        }
        lemma_index_of_unique(row_keys(r), n as int);
    }
}

} // verus!
