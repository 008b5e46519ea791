//! The APT backend: what it makes of the output of `apt`, `apt-cache`,
//! `dpkg` and `dpkg-query`, and the decisions around running them.
//!
//! Running the commands is left to the caller; every function here takes
//! what a command printed and returns what the backend answers.
use vstd::prelude::*;

use crate::text::{
    chars_of, concat, contains, contains_spec, words, words_spec, first_word, first_word_exec, lemma_views_push, lines, lines_spec, parse_u64,
    parse_u64_spec, split, split_spec, starts_with, starts_with_spec, string_of, strip_all,
    strip_all_spec, trim, trim_spec, views,
};

verus! {

// ---------------------------------------------------------------------------
// Types shared by package backends
// ---------------------------------------------------------------------------
/// An error of a package backend.
#[derive(Debug)]
pub enum BackendError {
    NotAvailable(String),
    PackageNotFound(String),
    InstallationFailed(String),
    RemovalFailed(String),
    DependencyConflict(String),
    Unknown(String),
}

/// What running one command of a backend gave.
pub struct BackendOperationResult {
    pub success: bool,
    pub error: Option<String>,
    pub stdout: Option<String>,
    pub stderr: Option<String>,
    pub exit_code: Option<i32>,
}

/// A package as a backend describes it.
pub struct BackendPackageInfo {
    pub name: String,
    pub version: String,
    pub repository: String,
    pub description: Option<String>,
    pub license: Option<String>,
    pub size: Option<u64>,
    pub dependencies: Vec<String>,
    /// Extra key/value data; no key occurs twice.
    pub metadata: Vec<(String, String)>,
}

/// Whether a backend can be used, and what it reports of itself.
pub struct BackendStatus {
    pub available: bool,
    pub version: Option<String>,
    pub info: Option<String>,
}

/// The outcome of a finished process: exit status and what it printed.
pub struct CommandOutput {
    pub success: bool,
    pub exit_code: Option<i32>,
    pub stdout: String,
    pub stderr: String,
}

pub open spec fn opt_view(o: Option<String>) -> Option<Seq<char>> {
    match o {
        Some(s) => Some(s@),
        None => None,
    }
}

pub open spec fn strings_view(v: Seq<String>) -> Seq<Seq<char>> {
    v.map_values(|s: String| s@)
}

pub open spec fn pairs_view(v: Seq<(String, String)>) -> Seq<(Seq<char>, Seq<char>)> {
    v.map_values(|p: (String, String)| (p.0@, p.1@))
}

/// The error message of `e`, whatever its kind.
pub open spec fn backend_error_message(e: BackendError) -> Seq<char> {
    match e {
        BackendError::NotAvailable(m) => m@,
        BackendError::PackageNotFound(m) => m@,
        BackendError::InstallationFailed(m) => m@,
        BackendError::RemovalFailed(m) => m@,
        BackendError::DependencyConflict(m) => m@,
        BackendError::Unknown(m) => m@,
    }
}

/// `info` holds a name and a version and nothing else.
pub open spec fn is_minimal_info(info: BackendPackageInfo, name: Seq<char>, version: Seq<char>) -> bool {
    &&& info.name@ == name
    &&& info.version@ == version
    &&& info.repository@ == Seq::<char>::empty()
    &&& info.description is None
    &&& info.license is None
    &&& info.size is None
    &&& info.dependencies@.len() == 0
    &&& info.metadata@.len() == 0
}

impl BackendPackageInfo {
    /// A description that holds only a name and a version.
    pub fn minimal(name: &str, version: &str) -> (r: BackendPackageInfo)
        ensures
            is_minimal_info(r, name@, version@),
    {
        BackendPackageInfo {
            name: name.to_owned(),
            version: version.to_owned(),
            repository: String::new(),
            description: None,
            license: None,
            size: None,
            dependencies: Vec::new(),
            metadata: Vec::new(),
        }
    }
}

fn minimal_from_chars(name: &[char], version: &[char]) -> (r: BackendPackageInfo)
    ensures
        is_minimal_info(r, name@, version@),
{
    BackendPackageInfo {
        name: string_of(name),
        version: string_of(version),
        repository: String::new(),
        description: None,
        license: None,
        size: None,
        dependencies: Vec::new(),
        metadata: Vec::new(),
    }
}

fn strings_of(v: &Vec<Vec<char>>) -> (r: Vec<String>)
    ensures
        strings_view(r@) == views(v@),
{
    let mut r: Vec<String> = Vec::new();
    let mut i: usize = 0;
    while i < v.len()
        invariant
            i <= v@.len(),
            strings_view(r@) == views(v@).take(i as int),
        decreases v@.len() - i,
    {
        let s = string_of(&v[i]);
        let ghost old_r = r@;
        r.push(s);
        assert(strings_view(r@) =~= strings_view(old_r).push(s@));
        assert(views(v@).take(i + 1) =~= views(v@).take(i as int).push(v@[i as int]@));
        i = i + 1;
    }
    assert(views(v@).take(v@.len() as int) =~= views(v@));
    r
}

// ---------------------------------------------------------------------------
// `apt show` / `apt-cache show`
// ---------------------------------------------------------------------------
/// The fields that the output of `apt show` sets, as the lines are read.
pub struct AptShowModel {
    pub name: Seq<char>,
    pub version: Seq<char>,
    pub description: Option<Seq<char>>,
    pub size: Option<u64>,
    pub dependencies: Seq<Seq<char>>,
    pub section: Option<Seq<char>>,
}

pub open spec fn empty_show_model() -> AptShowModel {
    AptShowModel {
        name: seq![],
        version: seq![],
        description: None,
        size: None,
        dependencies: seq![],
        section: None,
    }
}

/// The value of a `Key: value` line: the key (and repetitions of it) taken
/// away, then whitespace trimmed.
pub open spec fn field_value(line: Seq<char>, key: Seq<char>) -> Seq<char> {
    trim_spec(strip_all_spec(line, key))
}

/// The package names of a `Depends:` value: each comma-separated item cut to
/// its first word (dropping a version constraint), empty items left out.
pub open spec fn dependency_names(value: Seq<char>) -> Seq<Seq<char>> {
    split_spec(value, ',').map_values(|d: Seq<char>| first_word(trim_spec(d))).filter(
        |d: Seq<char>| d.len() > 0,
    )
}

/// One line of `apt show` output applied to what was read so far.
pub open spec fn apt_show_step(m: AptShowModel, line: Seq<char>) -> AptShowModel {
    if starts_with_spec(line, "Package:"@) {
        AptShowModel { name: field_value(line, "Package:"@), ..m }
    } else if starts_with_spec(line, "Version:"@) {
        AptShowModel { version: field_value(line, "Version:"@), ..m }
    } else if starts_with_spec(line, "Description:"@) {
        AptShowModel { description: Some(field_value(line, "Description:"@)), ..m }
    } else if starts_with_spec(line, "Installed-Size:"@) {
        match parse_u64_spec(field_value(line, "Installed-Size:"@)) {
            Some(kb) => AptShowModel { size: Some((kb * 1024) as u64), ..m },
            None => m,
        }
    } else if starts_with_spec(line, "Depends:"@) {
        AptShowModel { dependencies: dependency_names(field_value(line, "Depends:"@)), ..m }
    } else if starts_with_spec(line, "Section:"@) {
        AptShowModel { section: Some(field_value(line, "Section:"@)), ..m }
    } else {
        m
    }
}

pub open spec fn apt_show_fold(lines: Seq<Seq<char>>) -> AptShowModel
    decreases lines.len(),
{
    if lines.len() == 0 {
        empty_show_model()
    } else {
        apt_show_step(apt_show_fold(lines.drop_last()), lines.last())
    }
}

/// What the lines of an `apt show` output set.
pub open spec fn apt_show_model(output: Seq<char>) -> AptShowModel {
    apt_show_fold(lines_spec(output))
}

/// An `Installed-Size:` line whose size in bytes fits in a `u64`.
pub open spec fn size_line_fits(line: Seq<char>) -> bool {
    starts_with_spec(line, "Installed-Size:"@) ==> match parse_u64_spec(
        field_value(line, "Installed-Size:"@),
    ) {
        Some(kb) => kb * 1024 <= u64::MAX,
        None => true,
    }
}

/// Every `Installed-Size:` line of `output` gives a size in bytes that fits
/// in a `u64` (a larger one overflows the multiplication).
pub open spec fn sizes_fit(output: Seq<char>) -> bool {
    forall|i: int| 0 <= i < lines_spec(output).len() ==> size_line_fits(
        #[trigger] lines_spec(output)[i],
    )
}

/// Whether every `Installed-Size:` line of `output` gives a size in bytes
/// that fits in a `u64`, which reading the output needs.
pub fn installed_sizes_fit(output: &str) -> (r: bool)
    ensures
        r == sizes_fit(output@),
{
    let chars = chars_of(output);
    let ls = lines(&chars);
    proof {
        reveal_strlit("Installed-Size:");
    }
    let key = key_chars("Installed-Size:");
    let mut i: usize = 0;
    while i < ls.len()
        invariant
            i <= ls@.len(),
            views(ls@) == lines_spec(output@),
            key@ == "Installed-Size:"@,
            key@.len() > 0,
            forall|k: int| 0 <= k < i ==> size_line_fits(#[trigger] lines_spec(output@)[k]),
        decreases ls@.len() - i,
    {
        assert(lines_spec(output@)[i as int] == ls@[i as int]@);
        if starts_with(&ls[i], &key) {
            let value = field_value_exec(&ls[i], &key);
            match parse_u64(&value) {
                Some(kb) => {
                    if kb > u64::MAX / 1024 {
                        assert(!size_line_fits(lines_spec(output@)[i as int])) by (nonlinear_arith)
                            requires
                                kb > u64::MAX / 1024,
                                size_line_fits(lines_spec(output@)[i as int]) ==> kb * 1024 <= u64::MAX,
                        ;
                        return false;
                    }
                    assert(kb * 1024 <= u64::MAX) by (nonlinear_arith)
                        requires
                            kb <= u64::MAX / 1024,
                    ;
                },
                None => {},
            }
        }
        i = i + 1;
    }
    true
}

pub open spec fn metadata_of_section(section: Option<Seq<char>>) -> Seq<(Seq<char>, Seq<char>)> {
    match section {
        Some(s) => seq![("section"@, s)],
        None => seq![],
    }
}

/// `info` is what the fields `m` read from `apt show` describe.
pub open spec fn info_matches_model(info: BackendPackageInfo, m: AptShowModel) -> bool {
    &&& info.name@ == m.name
    &&& info.version@ == m.version
    &&& info.repository@ == "apt"@
    &&& opt_view(info.description) == m.description
    &&& info.license is None
    &&& info.size == m.size
    &&& strings_view(info.dependencies@) == m.dependencies
    &&& pairs_view(info.metadata@) == metadata_of_section(m.section)
}

fn key_chars(key: &str) -> (r: Vec<char>)
    requires
        key@.len() > 0,
    ensures
        r@ == key@,
        r@.len() > 0,
{
    chars_of(key)
}

fn field_value_exec(line: &[char], key: &[char]) -> (r: Vec<char>)
    requires
        key@.len() > 0,
    ensures
        r@ == field_value(line@, key@),
{
    let stripped = strip_all(line, key);
    trim(&stripped)
}

fn dependency_names_exec(value: &[char]) -> (r: Vec<Vec<char>>)
    ensures
        views(r@) == dependency_names(value@),
{
    let items = split(value, ',');
    let ghost firsts = views(items@).map_values(|d: Seq<char>| first_word(trim_spec(d)));
    let mut out: Vec<Vec<char>> = Vec::new();
    let mut i: usize = 0;
    proof {
        reveal(Seq::filter);
        assert(firsts.take(0) =~= seq![]);
        assert(views(out@) =~= seq![]);
    }
    while i < items.len()
        invariant
            i <= items@.len(),
            firsts.len() == items@.len(),
            firsts == views(items@).map_values(|d: Seq<char>| first_word(trim_spec(d))),
            views(out@) == firsts.take(i as int).filter(|d: Seq<char>| d.len() > 0),
        decreases items@.len() - i,
    {
        let trimmed = trim(&items[i]);
        let w = first_word_exec(&trimmed);
        assert(w@ == firsts[i as int]);
        assert(firsts.take(i + 1).drop_last() =~= firsts.take(i as int));
        proof {
            reveal(Seq::filter);
        }
        if w.len() > 0 {
            proof {
                lemma_views_push(out@, w);
            }
            out.push(w);
        }
        i = i + 1;
    }
    assert(firsts.take(items@.len() as int) =~= firsts);
    out
}

fn opt_string_of(v: &Option<Vec<char>>) -> (r: Option<String>)
    ensures
        opt_view(r) == match v {
            Some(x) => Some(x@),
            None => None::<Seq<char>>,
        },
{
    match v {
        Some(x) => Some(string_of(x)),
        None => None,
    }
}

pub open spec fn opt_chars_view(v: Option<Vec<char>>) -> Option<Seq<char>> {
    match v {
        Some(x) => Some(x@),
        None => None,
    }
}

/// Whether the `apt` program was found.
pub struct AptBackend {
    available: bool,
}

impl AptBackend {
    /// Whether the backend has found `apt`.
    pub closed spec fn is_ready(&self) -> bool {
        self.available
    }

    /// A backend that has not yet found `apt`.
    pub fn new() -> (r: AptBackend)
        ensures
            !r.is_ready(),
    {
        AptBackend { available: false }
    }

    /// Records whether `apt` was found on the system.
    pub fn init(&mut self, apt_found: bool)
        ensures
            final(self).is_ready() == apt_found,
    {
        self.available = apt_found;
    }

    /// The backend's name.
    pub fn name(&self) -> (r: &'static str)
        ensures
            r@ == "apt"@,
    {
        "apt"
    }

    /// Fails with `NotAvailable` when `apt` was not found.
    pub fn ensure_available(&self) -> (r: Result<(), BackendError>)
        ensures
            self.is_ready() <==> r is Ok,
            r matches Err(e) ==> (e matches BackendError::NotAvailable(m) && m@
                == "APT is not available on this system"@),
    {
        if !self.available {
            return Err(BackendError::NotAvailable("APT is not available on this system".to_owned()));
        }
        Ok(())
    }

    /// Reads the output of `apt show`: the last `Package:`, `Version:`,
    /// `Description:`, `Installed-Size:` (in KiB, turned into bytes),
    /// `Depends:` and `Section:` lines set the fields; without a package name
    /// the package counts as not found.
    pub fn parse_apt_show(&self, output: &str) -> (r: Result<BackendPackageInfo, BackendError>)
        requires
            sizes_fit(output@),
        ensures
            apt_show_model(output@).name.len() == 0 ==> (r matches Err(
                BackendError::PackageNotFound(m),
            ) && m@ == "Failed to parse package name"@),
            apt_show_model(output@).name.len() > 0 ==> (r matches Ok(info) && info_matches_model(
                info,
                apt_show_model(output@),
            )),
    {
        let chars = chars_of(output);
        let ls = lines(&chars);
        proof {
            reveal_strlit("Package:");
            reveal_strlit("Version:");
            reveal_strlit("Description:");
            reveal_strlit("Installed-Size:");
            reveal_strlit("Depends:");
            reveal_strlit("Section:");
        }
        let k_package = key_chars("Package:");
        let k_version = key_chars("Version:");
        let k_description = key_chars("Description:");
        let k_size = key_chars("Installed-Size:");
        let k_depends = key_chars("Depends:");
        let k_section = key_chars("Section:");

        let mut name: Vec<char> = Vec::new();
        let mut version: Vec<char> = Vec::new();
        let mut description: Option<Vec<char>> = None;
        let mut size: Option<u64> = None;
        let mut dependencies: Vec<Vec<char>> = Vec::new();
        let mut section: Option<Vec<char>> = None;
        let ghost all = views(ls@);
        assert(all.take(0) =~= seq![]);
        assert(views(dependencies@) =~= seq![]);
        let mut i: usize = 0;
        while i < ls.len()
            invariant
                i <= ls@.len(),
                all == views(ls@),
                all == lines_spec(output@),
                sizes_fit(output@),
                k_package@ == "Package:"@,
                k_version@ == "Version:"@,
                k_description@ == "Description:"@,
                k_size@ == "Installed-Size:"@,
                k_depends@ == "Depends:"@,
                k_section@ == "Section:"@,
                k_package@.len() > 0,
                k_version@.len() > 0,
                k_description@.len() > 0,
                k_size@.len() > 0,
                k_depends@.len() > 0,
                k_section@.len() > 0,
                apt_show_fold(all.take(i as int)) == (AptShowModel {
                    name: name@,
                    version: version@,
                    description: opt_chars_view(description),
                    size: size,
                    dependencies: views(dependencies@),
                    section: opt_chars_view(section),
                }),
            decreases ls@.len() - i,
        {
            let line = &ls[i];
            assert(all[i as int] == line@);
            assert(all.take(i + 1).drop_last() =~= all.take(i as int));
            assert(all.take(i + 1).last() == line@);
            if starts_with(line, &k_package) {
                name = field_value_exec(line, &k_package);
            } else if starts_with(line, &k_version) {
                version = field_value_exec(line, &k_version);
            } else if starts_with(line, &k_description) {
                description = Some(field_value_exec(line, &k_description));
            } else if starts_with(line, &k_size) {
                let value = field_value_exec(line, &k_size);
                match parse_u64(&value) {
                    Some(kb) => {
                        assert(size_line_fits(all[i as int]));
                        size = Some(kb * 1024);
                    },
                    None => {},
                }
            } else if starts_with(line, &k_depends) {
                let value = field_value_exec(line, &k_depends);
                dependencies = dependency_names_exec(&value);
            } else if starts_with(line, &k_section) {
                section = Some(field_value_exec(line, &k_section));
            }
            i = i + 1;
        }
        assert(all.take(ls@.len() as int) =~= all);
        if name.len() == 0 {
            return Err(BackendError::PackageNotFound("Failed to parse package name".to_owned()));
        }
        let mut metadata: Vec<(String, String)> = Vec::new();
        match &section {
            Some(s) => {
                let entry = ("section".to_owned(), string_of(s));
                metadata.push(entry);
                assert(pairs_view(metadata@) =~= seq![("section"@, s@)]);
            },
            None => {
                assert(pairs_view(metadata@) =~= seq![]);
            },
        }
        Ok(
            BackendPackageInfo {
                name: string_of(&name),
                version: string_of(&version),
                repository: "apt".to_owned(),
                description: opt_string_of(&description),
                license: None,
                size,
                dependencies: strings_of(&dependencies),
                metadata,
            },
        )
    }
}


// ---------------------------------------------------------------------------
// Package lists
// ---------------------------------------------------------------------------
/// The (name, version) pairs of `dpkg-query -W -f='${Package}\t${Version}\n'`
/// lines: each line split at tabs, lines with fewer than two fields skipped.
pub open spec fn installed_list_spec(ls: Seq<Seq<char>>) -> Seq<(Seq<char>, Seq<char>)>
    decreases ls.len(),
{
    if ls.len() == 0 {
        seq![]
    } else {
        let prev = installed_list_spec(ls.drop_last());
        let parts = split_spec(ls.last(), '\t');
        if parts.len() >= 2 {
            prev.push((parts[0], parts[1]))
        } else {
            prev
        }
    }
}

/// The (name, version) pairs of `apt list --upgradable` lines: the heading
/// line skipped, each line split at whitespace, the name being the first
/// field up to its first `/`, the version the second field.
pub open spec fn upgradable_list_spec(ls: Seq<Seq<char>>) -> Seq<(Seq<char>, Seq<char>)>
    decreases ls.len(),
{
    if ls.len() <= 1 {
        seq![]
    } else {
        let prev = upgradable_list_spec(ls.drop_last());
        let parts = words_spec(ls.last());
        if parts.len() >= 2 {
            prev.push((split_spec(parts[0], '/')[0], parts[1]))
        } else {
            prev
        }
    }
}

/// `infos` are the minimal descriptions of the `pairs`, in order.
pub open spec fn minimal_infos(infos: Seq<BackendPackageInfo>, pairs: Seq<(Seq<char>, Seq<char>)>) -> bool {
    &&& infos.len() == pairs.len()
    &&& forall|i: int| 0 <= i < infos.len() ==> is_minimal_info(#[trigger] infos[i], pairs[i].0, pairs[i].1)
}

/// The packages that `dpkg-query -W -f='${Package}\t${Version}\n'` printed.
pub fn parse_installed_list(stdout: &str) -> (r: Vec<BackendPackageInfo>)
    ensures
        minimal_infos(r@, installed_list_spec(lines_spec(stdout@))),
{
    let chars = chars_of(stdout);
    let ls = lines(&chars);
    let ghost all = views(ls@);
    let mut out: Vec<BackendPackageInfo> = Vec::new();
    let mut i: usize = 0;
    assert(all.take(0) =~= seq![]);
    while i < ls.len()
        invariant
            i <= ls@.len(),
            all == views(ls@),
            minimal_infos(out@, installed_list_spec(all.take(i as int))),
        decreases ls@.len() - i,
    {
        assert(all.take(i + 1).drop_last() =~= all.take(i as int));
        assert(all.take(i + 1).last() == ls@[i as int]@);
        let parts = split(&ls[i], '\t');
        if parts.len() >= 2 {
            assert(views(parts@)[0] == parts@[0]@ && views(parts@)[1] == parts@[1]@);
            let info = minimal_from_chars(&parts[0], &parts[1]);
            out.push(info);
        }
        i = i + 1;
    }
    assert(all.take(ls@.len() as int) =~= all);
    out
}

/// The packages that `apt list --upgradable` printed.
pub fn parse_upgradable_list(stdout: &str) -> (r: Vec<BackendPackageInfo>)
    ensures
        minimal_infos(r@, upgradable_list_spec(lines_spec(stdout@))),
{
    let chars = chars_of(stdout);
    let ls = lines(&chars);
    let ghost all = views(ls@);
    let mut out: Vec<BackendPackageInfo> = Vec::new();
    if ls.len() == 0 {
        return out;
    }
    let mut i: usize = 1;
    assert(all.take(1).len() <= 1);
    while i < ls.len()
        invariant
            1 <= i <= ls@.len(),
            all == views(ls@),
            minimal_infos(out@, upgradable_list_spec(all.take(i as int))),
        decreases ls@.len() - i,
    {
        assert(all.take(i + 1).drop_last() =~= all.take(i as int));
        assert(all.take(i + 1).last() == ls@[i as int]@);
        let parts = words(&ls[i]);
        if parts.len() >= 2 {
            let pieces = split(&parts[0], '/');
            assert(views(parts@)[0] == parts@[0]@ && views(parts@)[1] == parts@[1]@);
            assert(views(pieces@)[0] == pieces@[0]@);
            let info = minimal_from_chars(&pieces[0], &parts[1]);
            out.push(info);
        }
        i = i + 1;
    }
    assert(all.take(ls@.len() as int) =~= all);
    out
}

// ---------------------------------------------------------------------------
// Commands and their outcomes
// ---------------------------------------------------------------------------
/// What the pattern `apt\s+(\d+\.\d+\.\d+)` (in the regex crate's syntax)
/// captures in its group at its leftmost match in `text`, if it matches.
pub uninterp spec fn apt_version_capture(text: Seq<char>) -> Option<Seq<char>>;

/// Looks for the version number in the output of `apt --version` with
/// `regex::Regex::captures`; claims that the result is the capture that
/// `apt_version_capture` names, converted to a `String`.
#[verifier::external_body]
fn capture_apt_version(text: &str) -> (r: Option<String>)
    ensures
        opt_view(r) == apt_version_capture(text@),
{
    let re = regex::Regex::new(r"apt\s+(\d+\.\d+\.\d+)").ok()?;
    re.captures(text).and_then(|cap| cap.get(1)).map(|m| m.as_str().to_string())
}

/// The error text of an operation, or `fallback` when it has none.
pub open spec fn result_error_or(r: BackendOperationResult, fallback: Seq<char>) -> Seq<char> {
    match r.error {
        Some(e) => e@,
        None => fallback,
    }
}

/// `args` are the arguments in order.
pub open spec fn args_are(args: Seq<String>, expected: Seq<Seq<char>>) -> bool {
    strings_view(args) == expected
}

pub open spec fn opt_str_view(o: Option<&str>) -> Option<Seq<char>> {
    match o {
        Some(s) => Some(s@),
        None => None,
    }
}

/// `name=version` when a version is given, else the name.
pub open spec fn package_spec_view(name: Seq<char>, version: Option<Seq<char>>) -> Seq<char> {
    match version {
        Some(v) => name + "="@ + v,
        None => name,
    }
}

impl AptBackend {
    /// The version number in the output of `apt --version`: none when the
    /// command failed, else what the version pattern captures.
    pub fn version_from_output(output: &CommandOutput) -> (r: Option<String>)
        ensures
            !output.success ==> r is None,
            output.success ==> opt_view(r) == apt_version_capture(output.stdout@),
    {
        if output.success {
            capture_apt_version(output.stdout.as_str())
        } else {
            None
        }
    }

    /// The status the backend reports: whether `apt` can be used, its
    /// version, and a fixed description.
    pub fn status(available: bool, version: Option<String>) -> (r: BackendStatus)
        ensures
            r.available == available,
            r.version == version,
            opt_view(r.info) == Some("APT package manager for Debian/Ubuntu"@),
    {
        BackendStatus {
            available,
            version,
            info: Some("APT package manager for Debian/Ubuntu".to_owned()),
        }
    }

    /// What running an `apt` command gave: its status, its error text (the
    /// standard error) when it failed, both outputs and the exit code.
    pub fn operation_result(output: CommandOutput) -> (r: BackendOperationResult)
        ensures
            r.success == output.success,
            output.success ==> r.error is None,
            !output.success ==> opt_view(r.error) == Some(output.stderr@),
            opt_view(r.stdout) == Some(output.stdout@),
            opt_view(r.stderr) == Some(output.stderr@),
            r.exit_code == output.exit_code,
    {
        let error = if output.success {
            None
        } else {
            Some(output.stderr.clone())
        };
        BackendOperationResult {
            success: output.success,
            error,
            stdout: Some(output.stdout),
            stderr: Some(output.stderr),
            exit_code: output.exit_code,
        }
    }

    /// The package argument of `apt install`: `name=version` when a version
    /// is asked for, else the name.
    pub fn package_spec(name: &str, version: Option<&str>) -> (r: String)
        ensures
            r@ == package_spec_view(name@, opt_str_view(version)),
    {
        match version {
            Some(v) => {
                let n = chars_of(name);
                let eq = chars_of("=");
                let vv = chars_of(v);
                let a = concat(&n, &eq);
                let b = concat(&a, &vv);
                string_of(&b)
            },
            None => name.to_owned(),
        }
    }

    /// The arguments of `apt` that install a package.
    pub fn install_args(name: &str, version: Option<&str>) -> (r: Vec<String>)
        ensures
            args_are(
                r@,
                seq![
                    "install"@,
                    "-y"@,
                    package_spec_view(name@, opt_str_view(version)),
                ],
            ),
    {
        let spec = Self::package_spec(name, version);
        let ghost spec_view = spec@;
        let r = vec!["install".to_owned(), "-y".to_owned(), spec];
        assert(r@[2]@ == spec_view);
        assert(strings_view(r@) =~= seq![r@[0]@, r@[1]@, spec_view]);
        r
    }

    /// The arguments of `apt` that remove a package, purging its
    /// configuration when asked.
    pub fn remove_args(name: &str, purge: bool) -> (r: Vec<String>)
        ensures
            args_are(
                r@,
                seq![
                    if purge {
                        "purge"@
                    } else {
                        "remove"@
                    },
                    "-y"@,
                    name@,
                ],
            ),
    {
        let action = if purge {
            "purge".to_owned()
        } else {
            "remove".to_owned()
        };
        let r = vec![action, "-y".to_owned(), name.to_owned()];
        assert(strings_view(r@) =~= seq![r@[0]@, r@[1]@, r@[2]@]);
        r
    }

    /// The arguments of `apt` that upgrade one package.
    pub fn upgrade_args(name: &str) -> (r: Vec<String>)
        ensures
            args_are(r@, seq!["install"@, "--only-upgrade"@, "-y"@, name@]),
    {
        let r = vec!["install".to_owned(), "--only-upgrade".to_owned(), "-y".to_owned(), name.to_owned()];
        assert(strings_view(r@) =~= seq![r@[0]@, r@[1]@, r@[2]@, r@[3]@]);
        r
    }

    /// The arguments of `apt` that refresh the package lists.
    pub fn update_args() -> (r: Vec<String>)
        ensures
            args_are(r@, seq!["update"@]),
    {
        let r = vec!["update".to_owned()];
        assert(strings_view(r@) =~= seq![r@[0]@]);
        r
    }

    /// An installation succeeded, or fails with the command's error text
    /// (`Unknown error` when there is none).
    pub fn check_install_result(result: BackendOperationResult) -> (r: Result<BackendOperationResult, BackendError>)
        ensures
            result.success ==> r == Ok::<BackendOperationResult, BackendError>(result),
            !result.success ==> (r matches Err(BackendError::InstallationFailed(m)) && m@
                == result_error_or(result, "Unknown error"@)),
    {
        if !result.success {
            let message = match result.error {
                Some(e) => e,
                None => "Unknown error".to_owned(),
            };
            return Err(BackendError::InstallationFailed(message));
        }
        Ok(result)
    }

    /// A removal succeeded, or fails with the command's error text
    /// (`Unknown error` when there is none).
    pub fn check_remove_result(result: BackendOperationResult) -> (r: Result<BackendOperationResult, BackendError>)
        ensures
            result.success ==> r == Ok::<BackendOperationResult, BackendError>(result),
            !result.success ==> (r matches Err(BackendError::RemovalFailed(m)) && m@
                == result_error_or(result, "Unknown error"@)),
    {
        if !result.success {
            let message = match result.error {
                Some(e) => e,
                None => "Unknown error".to_owned(),
            };
            return Err(BackendError::RemovalFailed(message));
        }
        Ok(result)
    }

    /// An upgrade succeeded, or fails with the command's error text
    /// (`Failed to upgrade package` when there is none).
    pub fn check_upgrade_result(result: BackendOperationResult) -> (r: Result<BackendOperationResult, BackendError>)
        ensures
            result.success ==> r == Ok::<BackendOperationResult, BackendError>(result),
            !result.success ==> (r matches Err(BackendError::Unknown(m)) && m@
                == result_error_or(result, "Failed to upgrade package"@)),
    {
        if !result.success {
            let message = match result.error {
                Some(e) => e,
                None => "Failed to upgrade package".to_owned(),
            };
            return Err(BackendError::Unknown(message));
        }
        Ok(result)
    }

    /// A simulated installation (`apt-get install -s`) tells whether the
    /// dependencies can be met; when not, its standard error says why.
    pub fn dependency_check(output: &CommandOutput) -> (r: Result<(), BackendError>)
        ensures
            output.success ==> r is Ok,
            !output.success ==> (r matches Err(BackendError::DependencyConflict(m)) && m@
                == output.stderr@),
    {
        if output.success {
            Ok(())
        } else {
            Err(BackendError::DependencyConflict(output.stderr.clone()))
        }
    }

    /// Whether `dpkg -s` reports the package as installed.
    pub fn installed_from_status(output: &CommandOutput) -> (r: bool)
        ensures
            r == (output.success && contains_spec(output.stdout@, "Status: install ok installed"@)),
    {
        if !output.success {
            return false;
        }
        let text = chars_of(output.stdout.as_str());
        let pattern = chars_of("Status: install ok installed");
        contains(&text, &pattern)
    }

    /// Whether `apt-cache search` found anything: it succeeded and printed
    /// more than whitespace.
    pub fn search_found(output: &CommandOutput) -> (r: bool)
        ensures
            r == (output.success && trim_spec(output.stdout@).len() > 0),
    {
        if !output.success {
            return false;
        }
        let text = chars_of(output.stdout.as_str());
        let trimmed = trim(&text);
        trimmed.len() > 0
    }

    /// The description of a package from the output of `apt-cache show`; a
    /// failed command means the package is unknown.
    pub fn package_info_from(&self, name: &str, output: &CommandOutput) -> (r: Result<BackendPackageInfo, BackendError>)
        requires
            output.success ==> sizes_fit(output.stdout@),
        ensures
            !output.success ==> (r matches Err(BackendError::PackageNotFound(m)) && m@
                == "Package '"@ + name@ + "' not found"@),
            output.success && apt_show_model(output.stdout@).name.len() == 0 ==> (r matches Err(
                BackendError::PackageNotFound(m),
            ) && m@ == "Failed to parse package name"@),
            output.success && apt_show_model(output.stdout@).name.len() > 0 ==> (r matches Ok(
                info,
            ) && info_matches_model(info, apt_show_model(output.stdout@))),
    {
        if !output.success {
            let a = chars_of("Package '");
            let n = chars_of(name);
            let b = chars_of("' not found");
            let an = concat(&a, &n);
            let msg = concat(&an, &b);
            return Err(BackendError::PackageNotFound(string_of(&msg)));
        }
        self.parse_apt_show(output.stdout.as_str())
    }

    /// The installed packages from the output of `dpkg-query`; a failed
    /// command is an error.
    pub fn installed_list_from(output: &CommandOutput) -> (r: Result<Vec<BackendPackageInfo>, BackendError>)
        ensures
            !output.success ==> (r matches Err(BackendError::Unknown(m)) && m@
                == "Failed to list packages"@),
            output.success ==> (r matches Ok(v) && minimal_infos(
                v@,
                installed_list_spec(lines_spec(output.stdout@)),
            )),
    {
        if !output.success {
            return Err(BackendError::Unknown("Failed to list packages".to_owned()));
        }
        Ok(parse_installed_list(output.stdout.as_str()))
    }

    /// The upgradable packages from the output of `apt list --upgradable`; a
    /// failed command is an error.
    pub fn upgradable_list_from(output: &CommandOutput) -> (r: Result<Vec<BackendPackageInfo>, BackendError>)
        ensures
            !output.success ==> (r matches Err(BackendError::Unknown(m)) && m@
                == "Failed to list upgradable packages"@),
            output.success ==> (r matches Ok(v) && minimal_infos(
                v@,
                upgradable_list_spec(lines_spec(output.stdout@)),
            )),
    {
        if !output.success {
            return Err(BackendError::Unknown("Failed to list upgradable packages".to_owned()));
        }
        Ok(parse_upgradable_list(output.stdout.as_str()))
    }
}

} // verus!
