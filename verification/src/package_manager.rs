//! The decisions of package installation and removal against the package
//! database: which database change a request calls for, when it is refused,
//! and how the outcome of a whole request is summed up.
//!
//! The database itself is outside the library; the caller answers the
//! questions asked here (is the package recorded? is it installed?) and
//! performs the change decided here.
use vstd::prelude::*;

use crate::errors::PackageError;
use crate::sys::{is_uuid_v4_text, new_uuid_string};
use crate::text::{chars_of, concat2, concat3, concat4, decimal_spec, decimal_text, join_chars, join_spec, lemma_views_push, octal_spec, octal_text, string_of, views};
use std::path::PathBuf;

verus! {

/// A package as the package database records it.
pub struct Package {
    pub id: String,
    pub name: String,
    pub version: String,
    pub repository: String,
    pub state_of_instalation: bool,
    pub description: Option<String>,
    pub license: Option<String>,
}

fn copy_opt(o: &Option<String>) -> (r: Option<String>)
    ensures
        r == *o,
{
    match o {
        Some(s) => Some(s.clone()),
        None => None,
    }
}

impl Package {
    /// A copy of the record.
    pub fn duplicate(&self) -> (r: Package)
        ensures
            r == *self,
    {
        Package {
            id: self.id.clone(),
            name: self.name.clone(),
            version: self.version.clone(),
            repository: self.repository.clone(),
            state_of_instalation: self.state_of_instalation,
            description: copy_opt(&self.description),
            license: copy_opt(&self.license),
        }
    }
}

/// How dependencies are resolved.
#[derive(Debug, Clone, Copy, PartialEq, Eq, Structural)]
pub enum DependencyStrategy {
    /// A SAT solver: slower, more precise.
    Sat,
    /// A greedy algorithm: faster, possibly not optimal.
    Greedy,
}

/// Options of an installation.
pub struct InstallOptions {
    /// The backend to use, if a particular one is wanted.
    pub backend: Option<String>,
    pub strategy: DependencyStrategy,
    /// Whether to take a system snapshot first.
    pub create_ostree_snapshot: bool,
}

impl Default for InstallOptions {
    fn default() -> (r: Self)
        ensures
            r.backend is None,
            r.strategy == DependencyStrategy::Sat,
            r.create_ostree_snapshot,
    {
        InstallOptions { backend: None, strategy: DependencyStrategy::Sat, create_ostree_snapshot: true }
    }
}

/// Options of a removal.
pub struct RemoveOptions {
    /// Remove the configuration files too (and the database record).
    pub purge: bool,
    /// Remove dependencies that are no longer needed.
    pub remove_dependencies: bool,
}

impl Default for RemoveOptions {
    fn default() -> (r: Self)
        ensures
            !r.purge,
            r.remove_dependencies,
    {
        RemoveOptions { purge: false, remove_dependencies: true }
    }
}

/// The outcome of a package request.
pub struct OperationResult {
    pub operation_id: String,
    pub status: OperationStatus,
}

/// The state of a package request.
pub enum OperationStatus {
    Pending,
    Running { progress: u8, current_package: Option<String> },
    /// Finished: how many packages succeeded and how many failed.
    Completed { installed: usize, failed: usize },
    /// No package succeeded.
    Failed { error: String },
}

/// A system snapshot.
pub struct Snapshot {
    pub id: String,
    pub created: String,
    pub description: String,
}

/// Settings of the package manager.
pub struct ManagerConfig {
    pub auto_snapshot: bool,
    pub max_parallel_installs: usize,
    /// In seconds.
    pub operation_timeout: u64,
}

impl Default for ManagerConfig {
    fn default() -> (r: Self)
        ensures
            r.auto_snapshot,
            r.max_parallel_installs == 4,
            r.operation_timeout == 300,
    {
        ManagerConfig { auto_snapshot: true, max_parallel_installs: 4, operation_timeout: 300 }
    }
}

/// The directories the package manager works in.
pub struct PackageManagerConfig {
    pub temp_dir: PathBuf,
    pub cache_dir: PathBuf,
    pub database_dir: PathBuf,
}

impl PackageManagerConfig {
    pub fn get_temp_dir(&self) -> (r: &PathBuf)
        ensures
            *r == self.temp_dir,
    {
        &self.temp_dir
    }

    pub fn get_cache_dir(&self) -> (r: &PathBuf)
        ensures
            *r == self.cache_dir,
    {
        &self.cache_dir
    }

    pub fn get_database_dir(&self) -> (r: &PathBuf)
        ensures
            *r == self.database_dir,
    {
        &self.database_dir
    }
}

/// The text an error carries.
pub open spec fn package_error_text(e: PackageError) -> Seq<char> {
    match e {
        PackageError::OperationFailed(m) => m@,
        PackageError::PackageNotFound(m) => m@,
        PackageError::PackageAlreadyExists(m) => m@,
        PackageError::ConfigError(m) => m@,
        PackageError::IoError(m) => m@,
        PackageError::PermissionError(m) => m@,
        PackageError::FileNotFound(m) => m@,
    }
}

impl PackageError {
    /// The text the error carries.
    pub fn message(&self) -> (r: String)
        ensures
            r@ == package_error_text(*self),
    {
        match self {
            PackageError::OperationFailed(m) => m.clone(),
            PackageError::PackageNotFound(m) => m.clone(),
            PackageError::PackageAlreadyExists(m) => m.clone(),
            PackageError::ConfigError(m) => m.clone(),
            PackageError::IoError(m) => m.clone(),
            PackageError::PermissionError(m) => m.clone(),
            PackageError::FileNotFound(m) => m.clone(),
        }
    }
}

// ---------------------------------------------------------------------------
// Root permission
// ---------------------------------------------------------------------------
/// Only the superuser (user id 0) may change the system.
pub fn check_root_uid(uid: u32) -> (r: Result<(), PackageError>)
    ensures
        r is Ok <==> uid == 0,
        r matches Err(e) ==> (e matches PackageError::PermissionError(m) && m@
            == "This operation requires root privileges"@),
{
    if uid == 0 {
        Ok(())
    } else {
        Err(PackageError::PermissionError("This operation requires root privileges".to_owned()))
    }
}

/// Whether this process runs as the superuser.
pub fn check_root_permissions() -> (r: Result<(), PackageError>)
    ensures
        r matches Err(e) ==> (e matches PackageError::PermissionError(m) && m@
            == "This operation requires root privileges"@),
{
    check_root_uid(crate::sys::effective_uid())
}

// ---------------------------------------------------------------------------
// Directories and files on disk
// ---------------------------------------------------------------------------
/// The configuration the manager was given; without one, nothing that
/// needs its directories can go on.
pub fn require_config(config: Option<&PackageManagerConfig>) -> (r: Result<&PackageManagerConfig, PackageError>)
    ensures
        config is None ==> (r matches Err(PackageError::ConfigError(m)) && m@
            == "Configuration not initialized"@),
        config matches Some(c) ==> (r matches Ok(d) && d == c),
{
    match config {
        Some(c) => Ok(c),
        None => Err(PackageError::ConfigError("Configuration not initialized".to_owned())),
    }
}

/// A directory the manager needs, as it was found on disk.
pub struct DirProbe {
    pub display: String,
    pub exists: bool,
    pub is_dir: bool,
}

/// The working directories are usable when each exists and is a directory;
/// else the first missing one is reported, and when none is missing, the
/// first that is not a directory.
pub fn check_config_dirs(dirs: &[DirProbe]) -> (r: Result<(), PackageError>)
    ensures
        r is Ok <==> forall|i: int| 0 <= i < dirs@.len() ==> (#[trigger] dirs@[i]).exists && dirs@[i].is_dir,
        r matches Err(PackageError::IoError(m)) ==> exists|i: int|
            0 <= i < dirs@.len() && !dirs@[i].exists && (forall|j: int| 0 <= j < i ==> #[trigger] dirs@[j].exists)
                && m@ == "Directory "@ + dirs@[i].display@ + " does not exist"@,
        r matches Err(PackageError::ConfigError(m)) ==> (forall|j: int| 0 <= j < dirs@.len() ==> #[trigger] dirs@[j].exists) && exists|i: int|
            0 <= i < dirs@.len() && !dirs@[i].is_dir && (forall|j: int| 0 <= j < i ==> #[trigger] dirs@[j].is_dir)
                && m@ == "Not a directory: "@ + dirs@[i].display@,
        r is Err ==> (r matches Err(PackageError::IoError(_)) || r matches Err(PackageError::ConfigError(_))),
        (exists|i: int| 0 <= i < dirs@.len() && !#[trigger] dirs@[i].exists) ==> r matches Err(PackageError::IoError(_)),
{
    let mut i: usize = 0;
    while i < dirs.len()
        invariant
            i <= dirs@.len(),
            forall|j: int| 0 <= j < i ==> #[trigger] dirs@[j].exists,
        decreases dirs@.len() - i,
    {
        if !dirs[i].exists {
            assert(!(dirs@[i as int].exists && dirs@[i as int].is_dir));
            return Err(PackageError::IoError(concat3("Directory ", dirs[i].display.as_str(), " does not exist")));
        }
        i = i + 1;
    }
    let mut k: usize = 0;
    while k < dirs.len()
        invariant
            k <= dirs@.len(),
            forall|j: int| 0 <= j < dirs@.len() ==> #[trigger] dirs@[j].exists,
            forall|j: int| 0 <= j < k ==> #[trigger] dirs@[j].is_dir,
        decreases dirs@.len() - k,
    {
        if !dirs[k].is_dir {
            assert(!(dirs@[k as int].exists && dirs@[k as int].is_dir));
            return Err(PackageError::ConfigError(concat2("Not a directory: ", dirs[k].display.as_str())));
        }
        k = k + 1;
    }
    Ok(())
}

/// A file can be installed only from a source that exists.
pub fn check_source_exists(exists: bool, source: &str) -> (r: Result<(), PackageError>)
    ensures
        r is Ok <==> exists,
        r matches Err(e) ==> (e matches PackageError::FileNotFound(m) && m@ == "Source file not found: "@ + source@),
{
    if exists {
        Ok(())
    } else {
        Err(PackageError::FileNotFound(concat2("Source file not found: ", source)))
    }
}

/// A copy that wrote no byte failed.
pub fn check_copied(copied_bytes: u64, source: &str) -> (r: Result<(), PackageError>)
    ensures
        r is Ok <==> copied_bytes != 0,
        r matches Err(e) ==> (e matches PackageError::IoError(m) && m@ == "File "@ + source@ + " copy failed"@),
{
    if copied_bytes == 0 {
        Err(PackageError::IoError(concat3("File ", source, " copy failed")))
    } else {
        Ok(())
    }
}

/// An installed file must end up with the owner and group asked for.
pub fn check_installed_ownership(uid: u32, gid: u32, want_uid: u32, want_gid: u32, destination: &str) -> (r: Result<(), PackageError>)
    ensures
        r is Ok <==> (uid == want_uid && gid == want_gid),
        r matches Err(e) ==> (e matches PackageError::PermissionError(m) && m@ == "Failed to set ownership "@ + destination@),
{
    if uid != want_uid || gid != want_gid {
        Err(PackageError::PermissionError(concat2("Failed to set ownership ", destination)))
    } else {
        Ok(())
    }
}

/// A changed owner and group must read back as asked for; the report
/// names what was asked and what was found.
pub fn check_owner_and_group(uid: u32, gid: u32, want_uid: u32, want_gid: u32, path: &str) -> (r: Result<(), PackageError>)
    ensures
        r is Ok <==> (uid == want_uid && gid == want_gid),
        r matches Err(e) ==> (e matches PackageError::IoError(m) && m@ == "Failed to set ownership for "@ + path@
            + ": expected UID:"@ + decimal_spec(want_uid as nat) + ", GID:"@ + decimal_spec(want_gid as nat)
            + ", got UID:"@ + decimal_spec(uid as nat) + ", GID:"@ + decimal_spec(gid as nat)),
{
    if uid == want_uid && gid == want_gid {
        return Ok(());
    }
    let a = concat4("Failed to set ownership for ", path, ": expected UID:", decimal_text(want_uid as u64).as_str());
    let b = concat4(a.as_str(), ", GID:", decimal_text(want_gid as u64).as_str(), ", got UID:");
    let c = concat4(b.as_str(), decimal_text(uid as u64).as_str(), ", GID:", decimal_text(gid as u64).as_str());
    Err(PackageError::IoError(c))
}

/// A changed mode must read back as asked for. The report gives the mode
/// found as the one expected and the mode asked for as the one got, in
/// octal.
pub fn check_mode(found: u32, wanted: u32, path: &str) -> (r: Result<(), PackageError>)
    ensures
        r is Ok <==> found == wanted,
        r matches Err(e) ==> (e matches PackageError::IoError(m) && m@ == "Failed to set permissions for "@ + path@
            + ": expected mode: "@ + octal_spec(found as nat) + ", got mode: "@ + octal_spec(wanted as nat)),
{
    if found == wanted {
        return Ok(());
    }
    let a = concat4("Failed to set permissions for ", path, ": expected mode: ", octal_text(found).as_str());
    let b = concat3(a.as_str(), ", got mode: ", octal_text(wanted).as_str());
    Err(PackageError::IoError(b))
}

/// Where a package file is to go: it must not exist yet, it must have a
/// parent, and no parent directory to be created may exist already.
pub fn check_destination(exists: bool, display: &str, has_parent: bool) -> (r: Result<(), PackageError>)
    ensures
        r is Ok <==> (!exists && has_parent),
        exists ==> (r matches Err(PackageError::PackageAlreadyExists(m)) && m@ == "Directory already exists: "@ + display@),
        !exists && !has_parent ==> (r matches Err(PackageError::ConfigError(m)) && m@ == "Invalid destination path"@),
{
    if exists {
        return Err(PackageError::PackageAlreadyExists(concat2("Directory already exists: ", display)));
    }
    if !has_parent {
        return Err(PackageError::ConfigError("Invalid destination path".to_owned()));
    }
    Ok(())
}

/// A parent directory about to be created must not exist yet.
pub fn check_new_directory(exists: bool, display: &str) -> (r: Result<(), PackageError>)
    ensures
        r is Ok <==> !exists,
        r matches Err(e) ==> (e matches PackageError::IoError(m) && m@ == "Failed to create directory: "@ + display@),
{
    if exists {
        Err(PackageError::IoError(concat2("Failed to create directory: ", display)))
    } else {
        Ok(())
    }
}

// ---------------------------------------------------------------------------
// Installation and removal of one package
// ---------------------------------------------------------------------------
/// The database change that installing a package calls for.
pub enum InstallAction {
    /// The package is recorded but not installed: mark it installed.
    MarkInstalled,
    /// The package is not recorded: add this record.
    AddRecord(Package),
}

/// The database change that removing a package calls for.
#[derive(Debug, Clone, Copy, PartialEq, Eq, Structural)]
pub enum RemoveAction {
    /// Purge: delete the record.
    DeleteRecord,
    /// Keep the record, marked not installed.
    MarkUninstalled,
}

/// The record of a package that nothing is known of yet but its name: id
/// `<name>-unknown`, version `unknown`, the chosen backend (or `default`)
/// as repository, installed.
pub open spec fn new_record_fits(p: Package, name: Seq<char>, backend: Option<String>) -> bool {
    &&& p.id@ == name + "-unknown"@
    &&& p.name@ == name
    &&& p.version@ == "unknown"@
    &&& p.repository@ == match backend {
        Some(b) => b@,
        None => "default"@,
    }
    &&& p.state_of_instalation
    &&& p.description is None
    &&& p.license is None
}

/// What installing `package_name` does, given whether the database records
/// it (`exists`) and, when it does, whether it is installed (`installed`,
/// not read otherwise): an installed package is refused, a recorded one is
/// marked installed, an unknown one gets a new record.
pub fn plan_install(package_name: &str, exists: bool, installed: bool, options: &InstallOptions) -> (r:
    Result<InstallAction, PackageError>)
    ensures
        exists && installed ==> (r matches Err(PackageError::OperationFailed(m)) && m@ == "Package '"@
            + package_name@ + "' is already installed"@),
        exists && !installed ==> r matches Ok(InstallAction::MarkInstalled),
        !exists ==> (r matches Ok(InstallAction::AddRecord(p)) && new_record_fits(
            p,
            package_name@,
            options.backend,
        )),
{
    if exists {
        if installed {
            return Err(
                PackageError::OperationFailed(
                    concat3("Package '", package_name, "' is already installed"),
                ),
            );
        }
        Ok(InstallAction::MarkInstalled)
    } else {
        let repository = match &options.backend {
            Some(b) => b.clone(),
            None => "default".to_owned(),
        };
        let package = Package {
            id: concat2(package_name, "-unknown"),
            name: package_name.to_owned(),
            version: "unknown".to_owned(),
            repository,
            state_of_instalation: true,
            description: None,
            license: None,
        };
        Ok(InstallAction::AddRecord(package))
    }
}

/// What removing `package_name` does, given whether the database records
/// it and, when it does, whether it is installed: an unknown or not
/// installed package is refused; otherwise the record is deleted on purge,
/// else marked not installed.
pub fn plan_remove(package_name: &str, exists: bool, installed: bool, options: &RemoveOptions) -> (r:
    Result<RemoveAction, PackageError>)
    ensures
        !exists ==> (r matches Err(PackageError::PackageNotFound(m)) && m@ == "Package '"@
            + package_name@ + "' not found in database"@),
        exists && !installed ==> (r matches Err(PackageError::OperationFailed(m)) && m@
            == "Package '"@ + package_name@ + "' is not installed"@),
        exists && installed && options.purge ==> r == Ok::<RemoveAction, PackageError>(
            RemoveAction::DeleteRecord,
        ),
        exists && installed && !options.purge ==> r == Ok::<RemoveAction, PackageError>(
            RemoveAction::MarkUninstalled,
        ),
{
    if !exists {
        return Err(
            PackageError::PackageNotFound(
                concat3("Package '", package_name, "' not found in database"),
            ),
        );
    }
    if !installed {
        return Err(
            PackageError::OperationFailed(concat3("Package '", package_name, "' is not installed")),
        );
    }
    if options.purge {
        Ok(RemoveAction::DeleteRecord)
    } else {
        Ok(RemoveAction::MarkUninstalled)
    }
}

/// A package counts as installed when the database records it as
/// installed; the installation state is read only for a recorded package.
pub fn installed_answer(exists: bool, installed: bool) -> (r: bool)
    ensures
        r == (exists && installed),
{
    exists && installed
}

// ---------------------------------------------------------------------------
// The outcome of a request on several packages
// ---------------------------------------------------------------------------
/// How many packages succeeded.
pub open spec fn count_ok(o: Seq<(String, Result<(), PackageError>)>) -> nat
    decreases o.len(),
{
    if o.len() == 0 {
        0
    } else {
        count_ok(o.drop_last()) + if o.last().1 is Ok {
            1nat
        } else {
            0nat
        }
    }
}

/// The report of each failed package: `Failed to <verb> <name>: <error>`.
pub open spec fn failure_reports(verb: Seq<char>, o: Seq<(String, Result<(), PackageError>)>) -> Seq<
    Seq<char>,
>
    decreases o.len(),
{
    if o.len() == 0 {
        seq![]
    } else {
        let prev = failure_reports(verb, o.drop_last());
        match o.last().1 {
            Ok(_) => prev,
            Err(e) => prev.push(
                "Failed to "@ + verb + " "@ + o.last().0@ + ": "@ + package_error_text(e),
            ),
        }
    }
}

pub proof fn lemma_reports_len(verb: Seq<char>, o: Seq<(String, Result<(), PackageError>)>)
    ensures
        failure_reports(verb, o).len() + count_ok(o) == o.len(),
    decreases o.len(),
{
    if o.len() > 0 {
        lemma_reports_len(verb, o.drop_last());
    }
}

/// The outcome of a finished request: completed, with the count of
/// packages that succeeded, when none failed; an error carrying the failure
/// reports joined by `; ` when every package failed; else completed with
/// both counts. A completed request has a fresh version-4 UUID as its id.
pub open spec fn outcome_fits(
    r: Result<OperationResult, PackageError>,
    verb: Seq<char>,
    o: Seq<(String, Result<(), PackageError>)>,
) -> bool {
    let ok = count_ok(o);
    let failed = (o.len() - ok) as nat;
    if failed > 0 && ok == 0 {
        r matches Err(PackageError::OperationFailed(error)) && error@ == join_spec(
            failure_reports(verb, o),
            "; "@,
        )
    } else {
        r matches Ok(res) && is_uuid_v4_text(res.operation_id@) && (res.status matches OperationStatus::Completed { installed, failed: f } && installed == ok && f
            == failed)
    }
}

/// The outcome of a request that applied `verb` (`install` or `remove`) to
/// each named package in turn: an error when every package failed, else the
/// counts under a fresh operation id.
pub fn finish_operation(verb: &str, outcomes: &Vec<(String, Result<(), PackageError>)>) -> (r:
    Result<OperationResult, PackageError>)
    ensures
        outcome_fits(r, verb@, outcomes@),
{
    let mut ok: usize = 0;
    let mut reports: Vec<Vec<char>> = Vec::new();
    let mut i: usize = 0;
    let ghost o = outcomes@;
    assert(o.take(0) =~= seq![]);
    assert(views(reports@) =~= seq![]);
    while i < outcomes.len()
        invariant
            i <= o.len(),
            o == outcomes@,
            ok == count_ok(o.take(i as int)),
            ok <= i,
            views(reports@) == failure_reports(verb@, o.take(i as int)),
        decreases o.len() - i,
    {
        assert(o.take(i + 1).drop_last() =~= o.take(i as int));
        assert(o.take(i + 1).last() == o[i as int]);
        match &outcomes[i].1 {
            Ok(_) => {
                ok = ok + 1;
            },
            Err(e) => {
                let text = e.message();
                let head = concat3("Failed to ", verb, " ");
                let with_name = concat3(head.as_str(), outcomes[i].0.as_str(), ": ");
                let report = concat2(with_name.as_str(), text.as_str());
                let chars = chars_of(report.as_str());
                proof {
                    lemma_views_push(reports@, chars);
                }
                reports.push(chars);
            },
        }
        i = i + 1;
    }
    assert(o.take(o.len() as int) =~= o);
    proof {
        lemma_reports_len(verb@, o);
    }
    let failed = outcomes.len() - ok;
    if failed > 0 && ok == 0 {
        let sep = chars_of("; ");
        let joined = join_chars(&reports, &sep);
        return Err(PackageError::OperationFailed(string_of(&joined)));
    }
    let status = OperationStatus::Completed { installed: ok, failed };
    Ok(OperationResult { operation_id: new_uuid_string(), status })
}

} // verus!
