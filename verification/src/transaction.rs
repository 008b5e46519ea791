//! Transactions: the steps of a package operation, their states, and the
//! bookkeeping of the transaction in progress, with what a rollback undoes.
//!
//! Storing transactions in files is left to the caller; this module decides
//! where each one belongs and what changes in memory.
use vstd::prelude::*;

use crate::errors::{Error, Result};
use crate::package_manager::Package;
use crate::sys::{current_pid, duration_between, elapsed_between, is_uuid_v4_text, new_uuid_string, now, time_error_text};
use crate::text::{concat2, lemma_index_of_unique, str_eq};
use std::path::PathBuf;
use std::time::{Duration, SystemTime};

verus! {

/// The state of one step.
#[derive(Debug, Clone, Copy, PartialEq, Eq, Structural)]
pub enum StepStatus {
    Pending,
    InProgress,
    Completed,
    Failed,
}

/// The state of a transaction.
#[derive(Debug, Clone, Copy, PartialEq, Eq, Structural)]
pub enum TransactionStatus {
    InProgress,
    Completed,
    Failed,
    RolledBack,
}

/// The value of the first pair whose key is `key`.
pub open spec fn detail_of(details: Seq<(Seq<char>, Seq<char>)>, key: Seq<char>) -> Option<Seq<char>>
    decreases details.len(),
{
    if details.len() == 0 {
        None
    } else if details[0].0 == key {
        Some(details[0].1)
    } else {
        detail_of(details.drop_first(), key)
    }
}

/// The keys of the details, in order.
pub open spec fn detail_keys(details: Seq<(Seq<char>, Seq<char>)>) -> Seq<Seq<char>> {
    details.map_values(|p: (Seq<char>, Seq<char>)| p.0)
}

/// The details with the pair `p` put in: a key already there takes the new
/// value in its place, a new key goes last.
pub open spec fn put_detail(details: Seq<(Seq<char>, Seq<char>)>, p: (Seq<char>, Seq<char>)) -> Seq<
    (Seq<char>, Seq<char>),
> {
    if detail_keys(details).contains(p.0) {
        details.update(detail_keys(details).index_of(p.0), p)
    } else {
        details.push(p)
    }
}

/// The details the pairs give when put in one after another: each key
/// once, where its first pair stood, with the value of its last pair.
pub open spec fn merged_details(pairs: Seq<(Seq<char>, Seq<char>)>) -> Seq<(Seq<char>, Seq<char>)>
    decreases pairs.len(),
{
    if pairs.len() == 0 {
        seq![]
    } else {
        put_detail(merged_details(pairs.drop_last()), pairs.last())
    }
}

/// Putting a pair in keeps the keys distinct.
pub proof fn lemma_put_detail_keeps_keys_distinct(
    details: Seq<(Seq<char>, Seq<char>)>,
    p: (Seq<char>, Seq<char>),
)
    requires
        detail_keys(details).no_duplicates(),
    ensures
        detail_keys(put_detail(details, p)).no_duplicates(),
{
    let ks = detail_keys(details);
    if ks.contains(p.0) {
        assert(detail_keys(put_detail(details, p)) =~= ks);
    } else {
        let n = ks.len();
        assert(detail_keys(put_detail(details, p)) =~= ks.push(p.0));
        assert forall|a: int, b: int| 0 <= a < b < ks.push(p.0).len() implies ks.push(p.0)[a] != ks.push(
            p.0,
        )[b] by {
            if b == n {
                assert(ks[a] != p.0);
            } else {
                assert(ks[a] != ks[b]);
            }
        }
    }
}

/// One step of a transaction, with key/value details in which no key occurs
/// twice.
pub struct TransactionStep {
    name: String,
    status: StepStatus,
    timestamp: SystemTime,
    details: Vec<(String, String)>,
}

/// A step as its contents read.
pub struct StepView {
    pub name: Seq<char>,
    pub status: StepStatus,
    pub timestamp: SystemTime,
    pub details: Seq<(Seq<char>, Seq<char>)>,
}

pub open spec fn pairs_view(v: Seq<(String, String)>) -> Seq<(Seq<char>, Seq<char>)> {
    v.map_values(|p: (String, String)| (p.0@, p.1@))
}

impl View for TransactionStep {
    type V = StepView;

    closed spec fn view(&self) -> StepView {
        StepView {
            name: self.name@,
            status: self.status,
            timestamp: self.timestamp,
            details: pairs_view(self.details@),
        }
    }
}

/// `r` is the span `elapsed` names, or a timestamp error when it names none.
pub open spec fn elapsed_result(elapsed: Option<Duration>, r: std::result::Result<Duration, Error>) -> bool {
    match elapsed {
        Some(d) => r matches Ok(x) && x == d,
        None => r matches Err(e) && e is TimeStampError,
    }
}

/// Where `key` stands among the keys of `details`, if it is there.
fn key_position(details: &Vec<(String, String)>, key: &str) -> (r: Option<usize>)
    requires
        detail_keys(pairs_view(details@)).no_duplicates(),
    ensures
        match r {
            Some(j) => j < details@.len() && detail_keys(pairs_view(details@)).contains(key@) && detail_keys(
                pairs_view(details@),
            ).index_of(key@) == j,
            None => !detail_keys(pairs_view(details@)).contains(key@),
        },
{
    let ghost ks = detail_keys(pairs_view(details@));
    let mut i: usize = 0;
    while i < details.len()
        invariant
            i <= details@.len(),
            ks == detail_keys(pairs_view(details@)),
            ks.no_duplicates(),
            forall|k: int| 0 <= k < i ==> details@[k].0@ != key@,
        decreases details@.len() - i,
    {
        if str_eq(details[i].0.as_str(), key) {
            proof {
                assert(ks[i as int] == key@);
                lemma_index_of_unique(ks, i as int);
            }
            return Some(i);
        }
        i = i + 1;
    }
    proof {
        if ks.contains(key@) {
            let k = ks.index_of(key@);
            assert(details@[k].0@ == key@);
        }
    }
    None
}

impl TransactionStep {
    /// A pending step with no details, stamped with the current time.
    pub fn new(name: &str) -> (r: Self)
        ensures
            r@.name == name@,
            r@.status == StepStatus::Pending,
            r@.details.len() == 0,
    {
        Self { name: name.to_owned(), status: StepStatus::Pending, timestamp: now(), details: Vec::new() }
    }

    /// No key occurs twice among the details.
    #[verifier::type_invariant]
    spec fn keys_distinct(self) -> bool {
        detail_keys(pairs_view(self.details@)).no_duplicates()
    }

    /// A pending step stamped with the current time, with the details the
    /// pairs give when put in one after another (the last value of a key
    /// wins).
    pub fn with_details(name: &str, details: Vec<(String, String)>) -> (r: Self)
        ensures
            r@.name == name@,
            r@.status == StepStatus::Pending,
            r@.details == merged_details(pairs_view(details@)),
    {
        let ghost pv = pairs_view(details@);
        let mut merged: Vec<(String, String)> = Vec::new();
        let mut i: usize = 0;
        assert(pairs_view(merged@) =~= merged_details(pv.take(0)));
        while i < details.len()
            invariant
                i <= details@.len(),
                pv == pairs_view(details@),
                pairs_view(merged@) == merged_details(pv.take(i as int)),
                detail_keys(pairs_view(merged@)).no_duplicates(),
            decreases details@.len() - i,
        {
            let ghost before = pairs_view(merged@);
            let pair = (details[i].0.clone(), details[i].1.clone());
            proof {
                assert(pv.take(i + 1).drop_last() =~= pv.take(i as int));
                assert(pv.take(i + 1).last() == pv[i as int]);
                assert(merged_details(pv.take(i + 1)) == put_detail(before, pv[i as int]));
                lemma_put_detail_keeps_keys_distinct(before, pv[i as int]);
            }
            match key_position(&merged, details[i].0.as_str()) {
                Some(j) => {
                    merged.set(j, pair);
                    assert(pairs_view(merged@) =~= put_detail(before, pv[i as int]));
                },
                None => {
                    merged.push(pair);
                    assert(pairs_view(merged@) =~= put_detail(before, pv[i as int]));
                },
            }
            i = i + 1;
        }
        assert(pv.take(details@.len() as int) =~= pv);
        Self { name: name.to_owned(), status: StepStatus::Pending, timestamp: now(), details: merged }
    }

    pub fn mark_completed(&mut self)
        ensures
            final(self)@.status == StepStatus::Completed,
            final(self)@.name == old(self)@.name,
            final(self)@.timestamp == old(self)@.timestamp,
            final(self)@.details == old(self)@.details,
    {
        proof {
            use_type_invariant(&*self);
        }
        self.status = StepStatus::Completed;
    }

    pub fn mark_failed(&mut self)
        ensures
            final(self)@.status == StepStatus::Failed,
            final(self)@.name == old(self)@.name,
            final(self)@.timestamp == old(self)@.timestamp,
            final(self)@.details == old(self)@.details,
    {
        proof {
            use_type_invariant(&*self);
        }
        self.status = StepStatus::Failed;
    }

    /// How long after the step's stamp the time `current` is; a `current`
    /// before the stamp is a timestamp error.
    pub fn duration_until(&self, current: SystemTime) -> (r: std::result::Result<Duration, Error>)
        ensures
            elapsed_result(elapsed_between(current, self@.timestamp), r),
    {
        match duration_between(&current, self.timestamp) {
            Ok(d) => Ok(d),
            Err(e) => Err(Error::TimeStampError(time_error_text(&e))),
        }
    }

    /// How long ago the step was stamped, by the clock read now; a clock
    /// that reads before the stamp is a timestamp error.
    pub fn duration_since(&self) -> (r: std::result::Result<Duration, Error>)
        ensures
            exists|current: SystemTime| elapsed_result(elapsed_between(current, self@.timestamp), r),
    {
        let current = now();
        let r = self.duration_until(current);
        assert(elapsed_result(elapsed_between(current, self@.timestamp), r));
        r
    }

    pub fn name(&self) -> (r: &str)
        ensures
            r@ == self@.name,
    {
        self.name.as_str()
    }

    pub fn status(&self) -> (r: &StepStatus)
        ensures
            *r == self@.status,
    {
        &self.status
    }

    pub fn timestamp(&self) -> (r: &SystemTime)
        ensures
            *r == self@.timestamp,
    {
        &self.timestamp
    }

    /// The details of the step, in order.
    pub fn details(&self) -> (r: &Vec<(String, String)>)
        ensures
            pairs_view(r@) == self@.details,
            detail_keys(self@.details).no_duplicates(),
    {
        proof {
            use_type_invariant(self);
        }
        &self.details
    }

    /// The value of the detail `key`, if the step has one.
    pub fn detail(&self, key: &str) -> (r: Option<&String>)
        ensures
            match r {
                Some(v) => detail_of(self@.details, key@) == Some(v@),
                None => detail_of(self@.details, key@) is None,
            },
    {
        let mut i: usize = 0;
        let ghost d = pairs_view(self.details@);
        assert(d.skip(0) =~= d);
        while i < self.details.len()
            invariant
                i <= d.len(),
                d == pairs_view(self.details@),
                detail_of(d, key@) == detail_of(d.skip(i as int), key@),
            decreases d.len() - i,
        {
            assert(d.skip(i as int)[0] == d[i as int]);
            assert(d.skip(i as int).drop_first() =~= d.skip(i + 1));
            if str_eq(self.details[i].0.as_str(), key) {
                return Some(&self.details[i].1);
            }
            i = i + 1;
        }
        None
    }

    pub fn set_name(&mut self, name: &str)
        ensures
            final(self)@.name == name@,
            final(self)@.status == old(self)@.status,
            final(self)@.timestamp == old(self)@.timestamp,
            final(self)@.details == old(self)@.details,
    {
        proof {
            use_type_invariant(&*self);
        }
        self.name = name.to_owned();
    }

    pub fn set_status(&mut self, status: StepStatus)
        ensures
            final(self)@.status == status,
            final(self)@.name == old(self)@.name,
            final(self)@.timestamp == old(self)@.timestamp,
            final(self)@.details == old(self)@.details,
    {
        proof {
            use_type_invariant(&*self);
        }
        self.status = status;
    }

    pub fn set_timestamp(&mut self, time: SystemTime)
        ensures
            final(self)@.timestamp == time,
            final(self)@.name == old(self)@.name,
            final(self)@.status == old(self)@.status,
            final(self)@.details == old(self)@.details,
    {
        proof {
            use_type_invariant(&*self);
        }
        self.timestamp = time;
    }

    /// A copy of the step.
    pub fn duplicate(&self) -> (r: Self)
        ensures
            r@ == self@,
    {
        let mut details: Vec<(String, String)> = Vec::new();
        let mut i: usize = 0;
        while i < self.details.len()
            invariant
                i <= self.details@.len(),
                details@ == self.details@.take(i as int),
            decreases self.details@.len() - i,
        {
            let pair = (self.details[i].0.clone(), self.details[i].1.clone());
            details.push(pair);
            assert(details@ =~= self.details@.take(i + 1));
            i = i + 1;
        }
        assert(details@ =~= self.details@);
        proof {
            use_type_invariant(self);
        }
        let name = self.name.clone();
        let r = Self { name, status: self.status, timestamp: self.timestamp, details };
        assert(pairs_view(r.details@) =~= pairs_view(self.details@));
        r
    }
}

/// The first step named `name`, if any.
pub open spec fn first_step_named(steps: Seq<StepView>, name: Seq<char>) -> Option<int> {
    if exists|i: int| 0 <= i < steps.len() && steps[i].name == name {
        Some(
            choose|i: int|
                0 <= i < steps.len() && steps[i].name == name && forall|j: int|
                    0 <= j < i ==> steps[j].name != name,
        )
    } else {
        None
    }
}

/// A package operation in progress or finished, with the steps it took.
pub struct Transaction {
    id: String,
    operation: String,
    package: Package,
    status: TransactionStatus,
    started_at: SystemTime,
    completed_at: Option<SystemTime>,
    steps: Vec<TransactionStep>,
    pid: u32,
    /// The system snapshot taken before the operation, if any.
    ostree_previous_commit: Option<String>,
}

/// A transaction as its contents read.
pub struct TransactionView {
    pub id: Seq<char>,
    pub operation: Seq<char>,
    pub package: Package,
    pub status: TransactionStatus,
    pub started_at: SystemTime,
    pub completed_at: Option<SystemTime>,
    pub steps: Seq<StepView>,
    pub pid: u32,
    pub previous_commit: Option<Seq<char>>,
}

pub open spec fn steps_view(v: Seq<TransactionStep>) -> Seq<StepView> {
    v.map_values(|t: TransactionStep| t@)
}

pub open spec fn opt_string_view(o: Option<String>) -> Option<Seq<char>> {
    match o {
        Some(s) => Some(s@),
        None => None,
    }
}

impl View for Transaction {
    type V = TransactionView;

    closed spec fn view(&self) -> TransactionView {
        TransactionView {
            id: self.id@,
            operation: self.operation@,
            package: self.package,
            status: self.status,
            started_at: self.started_at,
            completed_at: self.completed_at,
            steps: steps_view(self.steps@),
            pid: self.pid,
            previous_commit: opt_string_view(self.ostree_previous_commit),
        }
    }
}

/// `a` and `b` are the same transaction: all but the status, the completion
/// time and the steps agree.
pub open spec fn same_identity(a: TransactionView, b: TransactionView) -> bool {
    &&& a.id == b.id
    &&& a.operation == b.operation
    &&& a.package == b.package
    &&& a.started_at == b.started_at
    &&& a.pid == b.pid
    &&& a.previous_commit == b.previous_commit
}

impl Transaction {
    /// The system snapshot taken before the operation, if any.
    pub fn ostree_previous_commit(&self) -> (r: Option<&String>)
        ensures
            match (r, self@.previous_commit) {
                (Some(a), Some(b)) => a@ == b,
                (None, None) => true,
                _ => false,
            },
    {
        match &self.ostree_previous_commit {
            Some(c) => Some(c),
            None => None,
        }
    }

    /// Records the system snapshot taken before the operation.
    pub fn set_ostree_previous_commit(&mut self, commit: Option<String>)
        ensures
            final(self)@.previous_commit == opt_string_view(commit),
            final(self)@.id == old(self)@.id,
            final(self)@.operation == old(self)@.operation,
            final(self)@.package == old(self)@.package,
            final(self)@.started_at == old(self)@.started_at,
            final(self)@.pid == old(self)@.pid,
            final(self)@.status == old(self)@.status,
            final(self)@.completed_at == old(self)@.completed_at,
            final(self)@.steps == old(self)@.steps,
    {
        self.ostree_previous_commit = commit;
    }

    /// A transaction of `operation` on `package`, in progress, with a fresh
    /// id, started now by this process, with no steps yet.
    pub fn new(operation: &str, package: Package) -> (r: Self)
        ensures
            r@.operation == operation@,
            r@.package == package,
            r@.status == TransactionStatus::InProgress,
            r@.completed_at is None,
            r@.steps.len() == 0,
            r@.previous_commit is None,
            is_uuid_v4_text(r@.id),
    {
        Transaction {
            id: new_uuid_string(),
            operation: operation.to_owned(),
            package,
            status: TransactionStatus::InProgress,
            started_at: now(),
            completed_at: None,
            steps: Vec::new(),
            pid: current_pid(),
            ostree_previous_commit: None,
        }
    }

    /// Appends a step.
    pub fn add_step(&mut self, step: TransactionStep)
        ensures
            final(self)@.steps == old(self)@.steps.push(step@),
            final(self)@.status == old(self)@.status,
            final(self)@.completed_at == old(self)@.completed_at,
            same_identity(final(self)@, old(self)@),
    {
        self.steps.push(step);
    }

    /// Gives the first step named `name` the status `status` and stamps it
    /// with the current time; fails, changing nothing, when no step has
    /// that name.
    pub fn update_step(&mut self, name: &str, status: StepStatus) -> (r: Result<()>)
        ensures
            final(self)@.status == old(self)@.status,
            final(self)@.completed_at == old(self)@.completed_at,
            same_identity(final(self)@, old(self)@),
            final(self)@.steps.len() == old(self)@.steps.len(),
            match first_step_named(old(self)@.steps, name@) {
                Some(i) => {
                    &&& r is Ok
                    &&& final(self)@.steps[i].status == status
                    &&& final(self)@.steps[i].name == old(self)@.steps[i].name
                    &&& final(self)@.steps[i].details == old(self)@.steps[i].details
                    &&& forall|j: int|
                        0 <= j < old(self)@.steps.len() && j != i ==> #[trigger] final(self)@.steps[j] == old(self)@.steps[j]
                },
                None => {
                    &&& r matches Err(Error::StepNotFound(m)) && m@ == name@
                    &&& final(self)@.steps == old(self)@.steps
                },
            },
    {
        let mut i: usize = 0;
        while i < self.steps.len()
            invariant
                i <= self.steps@.len(),
                self.steps@ == old(self).steps@,
                self.id == old(self).id,
                self.operation == old(self).operation,
                self.package == old(self).package,
                self.status == old(self).status,
                self.started_at == old(self).started_at,
                self.completed_at == old(self).completed_at,
                self.pid == old(self).pid,
                self.ostree_previous_commit == old(self).ostree_previous_commit,
                forall|j: int| 0 <= j < i ==> (#[trigger] self.steps@[j])@.name != name@,
            decreases self.steps@.len() - i,
        {
            if str_eq(self.steps[i].name(), name) {
                let ghost before = self.steps@;
                let stamp = now();
                let mut step = self.steps[i].duplicate();
                step.set_status(status);
                step.set_timestamp(stamp);
                self.steps.set(i, step);
                proof {
                    let bv = steps_view(before);
                    assert(bv[i as int].name == name@);
                    let c = choose|k: int|
                        0 <= k < bv.len() && bv[k].name == name@ && forall|j: int|
                            0 <= j < k ==> bv[j].name != name@;
                    assert(c == i) by {
                        if c < i {
                            assert(before[c]@.name != name@);
                        }
                        if c > i {
                            assert(bv[i as int].name != name@);
                        }
                    }
                    assert(steps_view(self.steps@) =~= bv.update(i as int, self.steps@[i as int]@));
                }
                return Ok(());
            }
            i = i + 1;
        }
        Err(Error::StepNotFound(name.to_owned()))
    }

    /// Finishes the transaction successfully, now.
    pub fn mark_completed(&mut self)
        ensures
            final(self)@.status == TransactionStatus::Completed,
            final(self)@.completed_at is Some,
            final(self)@.steps == old(self)@.steps,
            same_identity(final(self)@, old(self)@),
    {
        self.completed_at = Some(now());
        self.status = TransactionStatus::Completed;
    }

    /// Finishes the transaction as failed, now.
    pub fn mark_failed(&mut self)
        ensures
            final(self)@.status == TransactionStatus::Failed,
            final(self)@.completed_at is Some,
            final(self)@.steps == old(self)@.steps,
            same_identity(final(self)@, old(self)@),
    {
        self.completed_at = Some(now());
        self.status = TransactionStatus::Failed;
    }

    /// How long after the start of the transaction the time `current` is;
    /// none when `current` is before the start.
    pub fn duration_at(&self, current: SystemTime) -> (r: Option<Duration>)
        ensures
            r == elapsed_between(current, self@.started_at),
    {
        match duration_between(&current, self.started_at) {
            Ok(d) => Some(d),
            Err(_) => None,
        }
    }

    /// How long ago the transaction started, by the clock read now; none
    /// when the clock reads before the start.
    pub fn duration(&self) -> (r: Option<Duration>)
        ensures
            exists|current: SystemTime| r == elapsed_between(current, self@.started_at),
    {
        let current = now();
        let r = self.duration_at(current);
        assert(r == elapsed_between(current, self@.started_at));
        r
    }

    pub fn id(&self) -> (r: String)
        ensures
            r@ == self@.id,
    {
        self.id.clone()
    }

    pub fn operation(&self) -> (r: &str)
        ensures
            r@ == self@.operation,
    {
        self.operation.as_str()
    }

    pub fn package(&self) -> (r: &Package)
        ensures
            *r == self@.package,
    {
        &self.package
    }

    pub fn status(&self) -> (r: TransactionStatus)
        ensures
            r == self@.status,
    {
        self.status
    }

    pub fn started_at(&self) -> (r: SystemTime)
        ensures
            r == self@.started_at,
    {
        self.started_at
    }

    pub fn pid(&self) -> (r: u32)
        ensures
            r == self@.pid,
    {
        self.pid
    }

    pub fn steps(&self) -> (r: &Vec<TransactionStep>)
        ensures
            steps_view(r@) == self@.steps,
    {
        &self.steps
    }

    pub fn completed_at(&self) -> (r: Option<SystemTime>)
        ensures
            r == self@.completed_at,
    {
        self.completed_at
    }

    pub fn set_status(&mut self, status: TransactionStatus)
        ensures
            final(self)@.status == status,
            final(self)@.completed_at == old(self)@.completed_at,
            final(self)@.steps == old(self)@.steps,
            same_identity(final(self)@, old(self)@),
    {
        self.status = status;
    }

    pub fn set_completed_at(&mut self, completed_at: Option<SystemTime>)
        ensures
            final(self)@.completed_at == completed_at,
            final(self)@.status == old(self)@.status,
            final(self)@.steps == old(self)@.steps,
            same_identity(final(self)@, old(self)@),
    {
        self.completed_at = completed_at;
    }

    /// A transaction restored from storage, with all its parts as given.
    pub fn restore(
        id: String,
        operation: String,
        package: Package,
        status: TransactionStatus,
        started_at: SystemTime,
        completed_at: Option<SystemTime>,
        steps: Vec<TransactionStep>,
        pid: u32,
        ostree_previous_commit: Option<String>,
    ) -> (r: Self)
        ensures
            r@.id == id@,
            r@.operation == operation@,
            r@.package == package,
            r@.status == status,
            r@.started_at == started_at,
            r@.completed_at == completed_at,
            r@.steps == steps_view(steps@),
            r@.pid == pid,
            r@.previous_commit == opt_string_view(ostree_previous_commit),
    {
        Transaction {
            id,
            operation,
            package,
            status,
            started_at,
            completed_at,
            steps,
            pid,
            ostree_previous_commit,
        }
    }

    /// A copy of the transaction.
    pub fn duplicate(&self) -> (r: Self)
        ensures
            r@ == self@,
    {
        let mut steps: Vec<TransactionStep> = Vec::new();
        let mut i: usize = 0;
        while i < self.steps.len()
            invariant
                i <= self.steps@.len(),
                steps_view(steps@) == steps_view(self.steps@.take(i as int)),
            decreases self.steps@.len() - i,
        {
            let s = self.steps[i].duplicate();
            let ghost before = steps@;
            steps.push(s);
            assert(self.steps@.take(i + 1) =~= self.steps@.take(i as int).push(self.steps@[i as int]));
            assert(steps_view(steps@) =~= steps_view(before).push(s@));
            assert(steps_view(self.steps@.take(i + 1)) =~= steps_view(self.steps@.take(i as int)).push(self.steps@[i as int]@));
            assert(steps_view(steps@) =~= steps_view(self.steps@.take(i + 1)));
            i = i + 1;
        }
        assert(steps_view(steps@) =~= steps_view(self.steps@));
        let previous = match &self.ostree_previous_commit {
            Some(c) => Some(c.clone()),
            None => None,
        };
        Transaction {
            id: self.id.clone(),
            operation: self.operation.clone(),
            package: self.package.duplicate(),
            status: self.status,
            started_at: self.started_at,
            completed_at: self.completed_at,
            steps,
            pid: self.pid,
            ostree_previous_commit: previous,
        }
    }
}

// ---------------------------------------------------------------------------
// Where transactions are stored
// ---------------------------------------------------------------------------
/// The subdirectory of the transactions directory that holds a transaction
/// in the given state.
pub open spec fn status_dir_spec(status: TransactionStatus) -> Seq<char> {
    match status {
        TransactionStatus::InProgress => "active"@,
        TransactionStatus::Completed => "completed"@,
        TransactionStatus::Failed => "failed"@,
        TransactionStatus::RolledBack => "failed"@,
    }
}

pub fn status_directory(status: TransactionStatus) -> (r: &'static str)
    ensures
        r@ == status_dir_spec(status),
{
    match status {
        TransactionStatus::InProgress => "active",
        TransactionStatus::Completed => "completed",
        TransactionStatus::Failed => "failed",
        TransactionStatus::RolledBack => "failed",
    }
}

/// The file name of a transaction: its id with the `.toml` extension.
pub fn transaction_file_name(id: &str) -> (r: String)
    ensures
        r@ == id@ + ".toml"@,
{
    concat2(id, ".toml")
}

/// The subdirectories a transaction is looked for in, in order.
pub fn lookup_directories() -> (r: Vec<&'static str>)
    ensures
        r@.len() == 3,
        r@[0]@ == "active"@,
        r@[1]@ == "completed"@,
        r@[2]@ == "failed"@,
{
    vec!["active", "completed", "failed"]
}

/// Where a transaction's file is found: the first of `active`, `completed`
/// and `failed` that holds it, or nowhere.
pub fn transaction_location(in_active: bool, in_completed: bool, in_failed: bool) -> (r: Option<&'static str>)
    ensures
        in_active ==> (r matches Some(d) && d@ == "active"@),
        !in_active && in_completed ==> (r matches Some(d) && d@ == "completed"@),
        !in_active && !in_completed && in_failed ==> (r matches Some(d) && d@ == "failed"@),
        !in_active && !in_completed && !in_failed ==> r is None,
{
    if in_active {
        Some("active")
    } else if in_completed {
        Some("completed")
    } else if in_failed {
        Some("failed")
    } else {
        None
    }
}

// ---------------------------------------------------------------------------
// Rollback
// ---------------------------------------------------------------------------
/// What undoing one completed step takes.
pub enum RollbackAction {
    /// Remove the file the step installed, if it still exists.
    RemoveFile(String),
    /// Remove the directory the step created, if it still exists.
    RemoveDirectory(String),
    /// Run the pre-remove script, undoing a pre-install script.
    RunPreRemove,
    /// A step that cannot be undone; its name.
    Unknown(String),
}

/// An undo action as its contents read.
pub enum UndoView {
    RemoveFile(Seq<char>),
    RemoveDirectory(Seq<char>),
    RunPreRemove,
    Unknown(Seq<char>),
}

pub open spec fn action_view(a: RollbackAction) -> UndoView {
    match a {
        RollbackAction::RemoveFile(p) => UndoView::RemoveFile(p@),
        RollbackAction::RemoveDirectory(p) => UndoView::RemoveDirectory(p@),
        RollbackAction::RunPreRemove => UndoView::RunPreRemove,
        RollbackAction::Unknown(n) => UndoView::Unknown(n@),
    }
}

pub open spec fn actions_view(v: Seq<RollbackAction>) -> Seq<UndoView> {
    v.map_values(|a: RollbackAction| action_view(a))
}

/// The undo action of one completed step, if it needs one: a file
/// installation is undone by removing the file named in its `file_path`
/// detail, a directory creation by removing the directory named in its
/// `dir_path` detail; such steps without that detail need nothing; a
/// pre-install script is answered by the pre-remove script; any other step
/// cannot be undone.
pub open spec fn undo_of(step: StepView) -> Option<UndoView> {
    if step.name == "install_file"@ {
        match detail_of(step.details, "file_path"@) {
            Some(p) => Some(UndoView::RemoveFile(p)),
            None => None,
        }
    } else if step.name == "create_directory"@ {
        match detail_of(step.details, "dir_path"@) {
            Some(p) => Some(UndoView::RemoveDirectory(p)),
            None => None,
        }
    } else if step.name == "run_pre_install"@ {
        Some(UndoView::RunPreRemove)
    } else {
        Some(UndoView::Unknown(step.name))
    }
}

/// `a` undoes one of the steps that completed.
pub open spec fn undoes_completed_step(steps: Seq<StepView>, a: UndoView) -> bool {
    exists|j: int| 0 <= j < steps.len() && steps[j].status == StepStatus::Completed && undo_of(steps[j]) == Some(a)
}

/// The undo actions of a list of steps: the completed steps from the last
/// to the first, each giving its undo action when it needs one.
pub open spec fn rollback_plan_spec(steps: Seq<StepView>) -> Seq<UndoView>
    decreases steps.len(),
{
    if steps.len() == 0 {
        seq![]
    } else {
        let last = steps.last();
        let rest = rollback_plan_spec(steps.drop_last());
        if last.status == StepStatus::Completed {
            match undo_of(last) {
                Some(a) => seq![a] + rest,
                None => rest,
            }
        } else {
            rest
        }
    }
}

fn undo_exec(step: &TransactionStep) -> (r: Option<RollbackAction>)
    ensures
        match r {
            Some(a) => undo_of(step@) == Some(action_view(a)),
            None => undo_of(step@) is None,
        },
{
    let name = step.name();
    if str_eq(name, "install_file") {
        match step.detail("file_path") {
            Some(p) => Some(RollbackAction::RemoveFile(p.clone())),
            None => None,
        }
    } else if str_eq(name, "create_directory") {
        match step.detail("dir_path") {
            Some(p) => Some(RollbackAction::RemoveDirectory(p.clone())),
            None => None,
        }
    } else if str_eq(name, "run_pre_install") {
        Some(RollbackAction::RunPreRemove)
    } else {
        Some(RollbackAction::Unknown(name.to_owned()))
    }
}

/// What rolling back `transaction` undoes, in order.
pub fn rollback_plan(transaction: &Transaction) -> (r: Vec<RollbackAction>)
    ensures
        actions_view(r@) == rollback_plan_spec(transaction@.steps),
        forall|k: int| 0 <= k < r@.len() ==> undoes_completed_step(transaction@.steps, #[trigger] actions_view(r@)[k]),
{
    let steps = transaction.steps();
    let ghost all = steps_view(steps@);
    let mut out: Vec<RollbackAction> = Vec::new();
    let mut i: usize = steps.len();
    assert(all.take(all.len() as int) =~= all);
    assert(actions_view(out@) =~= seq![]);
    while i > 0
        invariant
            i <= all.len(),
            all == steps_view(steps@),
            all.len() == steps@.len(),
            actions_view(out@) + rollback_plan_spec(all.take(i as int)) == rollback_plan_spec(all),
        decreases i,
    {
        let ghost prefix = all.take(i as int);
        let ghost shorter = all.take(i - 1);
        assert(prefix.drop_last() =~= shorter);
        assert(prefix.last() == all[i - 1]);
        let step = &steps[i - 1];
        assert(all[i - 1] == step@);
        let ghost before = actions_view(out@);
        if *step.status() == StepStatus::Completed {
            match undo_exec(step) {
                Some(a) => {
                    out.push(a);
                    assert(actions_view(out@) =~= before.push(action_view(a)));
                    assert(actions_view(out@) + rollback_plan_spec(shorter) =~= before + (seq![
                        action_view(a),
                    ] + rollback_plan_spec(shorter)));
                },
                None => {},
            }
        }
        i = i - 1;
    }
    assert(all.take(0) =~= seq![]);
    assert(actions_view(out@) + seq![] =~= actions_view(out@));
    proof {
        crate::laws::law_rollback_actions_come_from_completed_steps(transaction@.steps);
        assert(actions_view(out@) == rollback_plan_spec(transaction@.steps));
        assert forall|k: int| 0 <= k < out@.len() implies undoes_completed_step(
            transaction@.steps,
            #[trigger] actions_view(out@)[k],
        ) by {
            assert(actions_view(out@)[k] == rollback_plan_spec(transaction@.steps)[k]);
        }
    }
    out
}

// ---------------------------------------------------------------------------
// The transaction manager
// ---------------------------------------------------------------------------
/// The transaction in progress, if any, and where transactions are stored.
pub struct TransactionManager {
    transactions_dir: PathBuf,
    current_transaction: Option<Transaction>,
}

impl TransactionManager {
    pub closed spec fn dir_view(&self) -> PathBuf {
        self.transactions_dir
    }

    pub closed spec fn current_view(&self) -> Option<TransactionView> {
        match self.current_transaction {
            Some(t) => Some(t@),
            None => None,
        }
    }

    /// A manager with no transaction in progress.
    pub fn new(transactions_dir: PathBuf) -> (r: Self)
        ensures
            r.dir_view() == transactions_dir,
            r.current_view() is None,
    {
        TransactionManager { transactions_dir, current_transaction: None }
    }

    pub fn transactions_dir(&self) -> (r: &PathBuf)
        ensures
            *r == self.dir_view(),
    {
        &self.transactions_dir
    }

    pub fn current_transaction(&self) -> (r: Option<&Transaction>)
        ensures
            match (r, self.current_view()) {
                (Some(a), Some(b)) => a@ == b,
                (None, None) => true,
                _ => false,
            },
    {
        match &self.current_transaction {
            Some(t) => Some(t),
            None => None,
        }
    }

    /// Starts a transaction of `operation` on `package`; it becomes the one
    /// in progress, and a copy is returned (to be stored by the caller).
    pub fn begin_transaction(&mut self, operation: &str, package: &Package) -> (r: Transaction)
        ensures
            final(self).current_view() == Some(r@),
            final(self).dir_view() == old(self).dir_view(),
            r@.operation == operation@,
            r@.package == *package,
            r@.status == TransactionStatus::InProgress,
            r@.steps.len() == 0,
    {
        let transaction = Transaction::new(operation, package.duplicate());
        self.current_transaction = Some(transaction.duplicate());
        transaction
    }

    /// After `transaction` was committed and moved to the completed ones
    /// (`moved` tells whether that worked): a failed move is returned and
    /// changes nothing; else the transaction stops being the one in progress
    /// if it was.
    pub fn commit_transaction(&mut self, transaction: &Transaction, moved: Result<()>) -> (r:
        Result<()>)
        ensures
            final(self).dir_view() == old(self).dir_view(),
            moved is Err ==> r == moved && final(self).current_view() == old(self).current_view(),
            moved is Ok ==> r is Ok,
            moved is Ok ==> match old(self).current_view() {
                Some(c) => if c.id == transaction@.id {
                    final(self).current_view() is None
                } else {
                    final(self).current_view() == old(self).current_view()
                },
                None => final(self).current_view() is None,
            },
    {
        if let Err(e) = moved {
            return Err(e);
        }
        let same = match &self.current_transaction {
            Some(current) => {
                let a = current.id();
                let b = transaction.id();
                a == b
            },
            None => false,
        };
        if same {
            self.current_transaction = None;
        }
        Ok(())
    }

    /// After a rollback moved the transaction to the failed ones (`moved`
    /// tells whether that worked): a failed move is returned and changes
    /// nothing; else no transaction is in progress any more.
    pub fn finish_rollback(&mut self, moved: Result<()>) -> (r: Result<()>)
        ensures
            final(self).dir_view() == old(self).dir_view(),
            moved is Err ==> r == moved && final(self).current_view() == old(self).current_view(),
            moved is Ok ==> r is Ok && final(self).current_view() is None,
    {
        if let Err(e) = moved {
            return Err(e);
        }
        self.current_transaction = None;
        Ok(())
    }

    /// Adds a step to the transaction in progress; fails when there is none.
    pub fn add_step(&mut self, step: TransactionStep) -> (r: Result<()>)
        ensures
            final(self).dir_view() == old(self).dir_view(),
            old(self).current_view() is None ==> (r matches Err(Error::AddStepError(m)) && m@
                == "No active transaction"@) && final(self).current_view() is None,
            old(self).current_view() matches Some(t) ==> (r is Ok && (final(self).current_view() matches Some(u) && u.steps == t.steps.push(step@)
                && u.status == t.status && u.completed_at == t.completed_at
                && same_identity(u, t))),
    {
        match self.current_transaction.take() {
            None => Err(Error::AddStepError("No active transaction".to_owned())),
            Some(mut t) => {
                t.add_step(step);
                self.current_transaction = Some(t);
                Ok(())
            },
        }
    }

    /// Sets the status of the first step of that name of the transaction in
    /// progress; fails when there is none. A missing step is not an error.
    pub fn update_step_status(&mut self, step_name: &str, status: StepStatus) -> (r: Result<()>)
        ensures
            final(self).dir_view() == old(self).dir_view(),
            old(self).current_view() is None ==> (r matches Err(Error::UpdateStepError(m)) && m@
                == "No active transaction"@) && final(self).current_view() is None,
            old(self).current_view() matches Some(t) ==> (r is Ok && (final(self).current_view() matches Some(u) && same_identity(u, t) && u.status
                == t.status && u.steps.len() == t.steps.len() && match first_step_named(
                t.steps,
                step_name@,
            ) {
                Some(i) => u.steps[i].status == status,
                None => u.steps == t.steps,
            })),
    {
        match self.current_transaction.take() {
            None => Err(Error::UpdateStepError("No active transaction".to_owned())),
            Some(mut t) => {
                let _ = t.update_step(step_name, status);
                self.current_transaction = Some(t);
                Ok(())
            },
        }
    }
}

} // verus!
