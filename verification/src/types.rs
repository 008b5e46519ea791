//! Packages as a package file describes them, and the change a package
//! operation makes to the set of installed packages.
use vstd::prelude::*;

use crate::text::{chars_of, concat, join_chars, join_spec, join_strings, string_of, string_views, views, lemma_views_push};
use std::path::PathBuf;

verus! {

/// A package: what identifies it, what describes it, what it needs.
pub struct Package {
    pub info: PackageInfo,
    pub metadata: PackageMetadata,
    pub dependencies: Vec<Dependency>,
}

/// What a package is, its dependencies taken as a sequence.
pub struct PackageView {
    pub info: PackageInfo,
    pub metadata: PackageMetadata,
    pub dependencies: Seq<Dependency>,
}

impl View for Package {
    type V = PackageView;

    open spec fn view(&self) -> PackageView {
        PackageView { info: self.info, metadata: self.metadata, dependencies: self.dependencies@ }
    }
}

/// The name, version and file format of a package.
pub struct PackageInfo {
    pub name: String,
    pub version: String,
    pub format: String,
}

/// The descriptive data of a package.
pub struct PackageMetadata {
    pub description: String,
    pub maintainer: String,
    pub homepage: Option<String>,
    pub license: Option<String>,
}

/// A package that another one needs, with an optional version requirement.
pub struct Dependency {
    pub name: String,
    pub version_req: Option<String>,
}

/// A file of an unpacked package: where it goes, relative to the root it is
/// installed under, with its mode, owner and group.
pub struct FileEntry {
    pub relative_path: PathBuf,
    pub permissions: u32,
    pub owner: u32,
    pub group: u32,
}

/// A package unpacked by its backend: its name and its files, in the order
/// they are installed.
pub struct ExtractedPackage {
    pub name: String,
    pub files: Vec<FileEntry>,
}

/// The packages an operation added, removed and updated.
pub struct PackageDiff {
    pub added: Vec<String>,
    pub removed: Vec<String>,
    pub updated: Vec<String>,
}

/// `label: ` followed by the names joined with `, `, when there are names.
pub open spec fn diff_section(label: Seq<char>, names: Seq<String>) -> Seq<Seq<char>> {
    if names.len() == 0 {
        seq![]
    } else {
        seq![label + ": "@ + join_spec(string_views(names), ", "@)]
    }
}

/// The non-empty sections of a diff, in the order added, removed, updated.
pub open spec fn diff_sections(d: PackageDiff) -> Seq<Seq<char>> {
    diff_section("added"@, d.added@) + diff_section("removed"@, d.removed@) + diff_section(
        "updated"@,
        d.updated@,
    )
}

fn push_section(parts: &mut Vec<Vec<char>>, label: &str, names: &Vec<String>)
    ensures
        views(final(parts)@) == views(old(parts)@) + diff_section(label@, names@),
{
    if names.len() == 0 {
        assert(views(parts@) + diff_section(label@, names@) =~= views(parts@));
        return;
    }
    let l = chars_of(label);
    let colon = chars_of(": ");
    let comma = chars_of(", ");
    let joined = join_strings(names.as_slice(), &comma);
    let head = concat(&l, &colon);
    let section = concat(&head, &joined);
    proof {
        lemma_views_push(parts@, section);
    }
    parts.push(section);
    assert(views(parts@) =~= views(old(parts)@) + diff_section(label@, names@));
}

impl PackageDiff {
    /// The diff in words: `added: a, b; removed: c; updated: d`, leaving out
    /// the kinds with no package; empty when nothing changed.
    pub fn to_description(&self) -> (r: String)
        ensures
            r@ == join_spec(diff_sections(*self), "; "@),
    {
        let mut parts: Vec<Vec<char>> = Vec::new();
        assert(views(parts@) =~= seq![]);
        push_section(&mut parts, "added", &self.added);
        push_section(&mut parts, "removed", &self.removed);
        push_section(&mut parts, "updated", &self.updated);
        assert(views(parts@) =~= diff_sections(*self));
        let sep = chars_of("; ");
        let text = join_chars(&parts, &sep);
        string_of(&text)
    }

    /// The diff of installing one package: it alone was added.
    pub fn installation_of(package_name: &str) -> (r: PackageDiff)
        ensures
            string_views(r.added@) == seq![package_name@],
            r.removed@.len() == 0,
            r.updated@.len() == 0,
    {
        let added = vec![package_name.to_owned()];
        assert(string_views(added@) =~= seq![package_name@]);
        PackageDiff { added, removed: Vec::new(), updated: Vec::new() }
    }
}

} // verus!
