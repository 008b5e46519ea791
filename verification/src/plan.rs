//! What an installation will do: the packages it installs, removes and
//! upgrades, how much it downloads and installs, and what stands in its way.
use vstd::prelude::*;

use crate::conflict::Conflict;
use crate::text::{chars_of, concat, decimal_spec, decimal_text, join_chars, join_spec, join_strings, lemma_views_push, string_of, string_views, views};
use crate::types::PackageInfo;

verus! {

/// The packages an installation touches, its sizes, and its conflicts.
pub struct InstallationPlan {
    pub packages_to_install: Vec<PackageInfo>,
    pub packages_to_remove: Vec<String>,
    pub packages_to_upgrade: Vec<PackageInfo>,
    pub total_download_size: u64,
    pub total_install_size: u64,
    pub conflicts: Vec<Conflict>,
}

/// A package as the plan names it: name, a space, version.
pub open spec fn info_label(p: PackageInfo) -> Seq<char> {
    p.name@ + " "@ + p.version@
}

pub open spec fn info_labels(v: Seq<PackageInfo>) -> Seq<Seq<char>> {
    v.map_values(|p: PackageInfo| info_label(p))
}

/// `label: ` and the items separated by `, `, when there are items.
pub open spec fn plan_section(label: Seq<char>, items: Seq<Seq<char>>) -> Seq<Seq<char>> {
    if items.len() == 0 {
        seq![]
    } else {
        seq![label + ": "@ + join_spec(items, ", "@)]
    }
}

/// The lines of the plan: the packages to install, remove and upgrade
/// (each line left out when there is none), the two sizes, and a line for
/// each conflict.
pub open spec fn plan_lines(p: InstallationPlan) -> Seq<Seq<char>> {
    plan_section("Install"@, info_labels(p.packages_to_install@)) + plan_section(
        "Remove"@,
        string_views(p.packages_to_remove@),
    ) + plan_section("Upgrade"@, info_labels(p.packages_to_upgrade@)) + seq![
        "Download size: "@ + decimal_spec(p.total_download_size as nat) + " bytes"@,
        "Install size: "@ + decimal_spec(p.total_install_size as nat) + " bytes"@,
    ] + p.conflicts@.map_values(|c: Conflict| "Conflict: "@ + c.details@)
}

/// The labels of the packages, in order.
fn labels_of(v: &Vec<PackageInfo>) -> (r: Vec<Vec<char>>)
    ensures
        views(r@) == info_labels(v@),
{
    let space = chars_of(" ");
    let mut out: Vec<Vec<char>> = Vec::new();
    let mut i: usize = 0;
    while i < v.len()
        invariant
            i <= v@.len(),
            space@ == " "@,
            views(out@) == info_labels(v@).take(i as int),
        decreases v@.len() - i,
    {
        let name = chars_of(v[i].name.as_str());
        let version = chars_of(v[i].version.as_str());
        let head = concat(&name, &space);
        let label = concat(&head, &version);
        proof {
            lemma_views_push(out@, label);
        }
        out.push(label);
        assert(info_labels(v@).take(i + 1) =~= info_labels(v@).take(i as int).push(
            info_label(v@[i as int]),
        ));
        i = i + 1;
    }
    assert(info_labels(v@).take(i as int) =~= info_labels(v@));
    out
}

/// Appends the section line, when there are items.
fn push_section(lines: &mut Vec<Vec<char>>, label: &str, items: &Vec<Vec<char>>)
    ensures
        views(final(lines)@) == views(old(lines)@) + plan_section(label@, views(items@)),
{
    if items.len() == 0 {
        assert(views(lines@) + plan_section(label@, views(items@)) =~= views(lines@));
        return;
    }
    let head = chars_of(label);
    let colon = chars_of(": ");
    let comma = chars_of(", ");
    let joined = join_chars(items, &comma);
    let h = concat(&head, &colon);
    let line = concat(&h, &joined);
    proof {
        lemma_views_push(lines@, line);
    }
    lines.push(line);
    assert(views(lines@) =~= views(old(lines)@) + plan_section(label@, views(items@)));
}

/// `label`, the decimal text of `n`, and ` bytes`.
fn size_line(label: &str, n: u64) -> (r: Vec<char>)
    ensures
        r@ == label@ + decimal_spec(n as nat) + " bytes"@,
{
    let l = chars_of(label);
    let digits = decimal_text(n);
    let d = chars_of(digits.as_str());
    let unit = chars_of(" bytes");
    let ld = concat(&l, &d);
    concat(&ld, &unit)
}

impl InstallationPlan {
    /// A plan can be carried out when nothing conflicts.
    pub fn is_valid(&self) -> (r: bool)
        ensures
            r == (self.conflicts@.len() == 0),
    {
        self.conflicts.len() == 0
    }

    /// The plan in text, its lines separated by newlines.
    pub fn display_plan(&self) -> (r: String)
        ensures
            r@ == join_spec(plan_lines(*self), "\n"@),
    {
        let mut lines: Vec<Vec<char>> = Vec::new();
        assert(views(lines@) =~= Seq::<Seq<char>>::empty());
        let install = labels_of(&self.packages_to_install);
        push_section(&mut lines, "Install", &install);
        let mut removed: Vec<Vec<char>> = Vec::new();
        let mut i: usize = 0;
        while i < self.packages_to_remove.len()
            invariant
                i <= self.packages_to_remove@.len(),
                views(removed@) == string_views(self.packages_to_remove@).take(i as int),
            decreases self.packages_to_remove@.len() - i,
        {
            let c = chars_of(self.packages_to_remove[i].as_str());
            proof {
                lemma_views_push(removed@, c);
            }
            removed.push(c);
            assert(string_views(self.packages_to_remove@).take(i + 1) =~= string_views(
                self.packages_to_remove@,
            ).take(i as int).push(self.packages_to_remove@[i as int]@));
            i = i + 1;
        }
        assert(string_views(self.packages_to_remove@).take(i as int) =~= string_views(
            self.packages_to_remove@,
        ));
        push_section(&mut lines, "Remove", &removed);
        let upgrade = labels_of(&self.packages_to_upgrade);
        push_section(&mut lines, "Upgrade", &upgrade);
        let download = size_line("Download size: ", self.total_download_size);
        proof {
            lemma_views_push(lines@, download);
        }
        lines.push(download);
        let installed = size_line("Install size: ", self.total_install_size);
        proof {
            lemma_views_push(lines@, installed);
        }
        lines.push(installed);
        let ghost fixed = views(lines@);
        let ghost conflict_lines = self.conflicts@.map_values(|c: Conflict| "Conflict: "@ + c.details@);
        let prefix = chars_of("Conflict: ");
        let mut k: usize = 0;
        assert(views(lines@) =~= fixed + conflict_lines.take(0));
        while k < self.conflicts.len()
            invariant
                k <= self.conflicts@.len(),
                prefix@ == "Conflict: "@,
                conflict_lines == self.conflicts@.map_values(|c: Conflict| "Conflict: "@ + c.details@),
                views(lines@) == fixed + conflict_lines.take(k as int),
            decreases self.conflicts@.len() - k,
        {
            let d = chars_of(self.conflicts[k].details.as_str());
            let line = concat(&prefix, &d);
            proof {
                lemma_views_push(lines@, line);
            }
            lines.push(line);
            assert(conflict_lines.take(k + 1) =~= conflict_lines.take(k as int).push(line@));
            assert(views(lines@) =~= fixed + conflict_lines.take(k + 1));
            k = k + 1;
        }
        assert(conflict_lines.take(k as int) =~= conflict_lines);
        assert(views(lines@) =~= plan_lines(*self));
        let nl = chars_of("\n");
        let text = join_chars(&lines, &nl);
        string_of(&text)
    }
}

} // verus!
