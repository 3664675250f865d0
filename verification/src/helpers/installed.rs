//! The list of installed packages shown on the Manage tab: where each one
//! comes from, and the order they are listed in.
use vstd::prelude::*;

use crate::models::package_source::{source_label, PackageSource};
use crate::models::package_update::PackageUpdate;
use crate::ordering::{apply_order, is_permutation, key_views, sort_order, stably_sorted, KeyView, SortKey};
use crate::cli::{first_word, first_word_chars};
use crate::text::{chars_of, lines, lines_of, str_eq, string_from, string_of, words, words_of};

verus! {

/// An installed package as the local database reports it.
pub struct InstalledRow {
    pub name: String,
    pub description: Option<String>,
    pub version: String,
    pub installed_size: i64,
}

/// The repository that lists `name` first, among the (package, repository)
/// pairs of the sync databases in their order.
pub open spec fn first_repo(repos: Seq<(String, String)>, name: Seq<char>) -> Option<Seq<char>>
    decreases repos.len(),
{
    if repos.len() == 0 {
        None
    } else if repos[0].0@ == name {
        Some(repos[0].1@)
    } else {
        first_repo(repos.drop_first(), name)
    }
}

/// Where an installed package comes from: the AUR when it is foreign (no
/// sync database has it), else the official repositories, under the first
/// repository that lists it or under the label `Official`.
pub open spec fn origin(
    name: Seq<char>,
    repos: Seq<(String, String)>,
    foreign: Seq<Seq<char>>,
) -> (PackageSource, Seq<char>) {
    if foreign.contains(name) {
        (PackageSource::Aur, source_label(PackageSource::Aur))
    } else {
        match first_repo(repos, name) {
            Some(r) => (PackageSource::Official, r),
            None => (PackageSource::Official, source_label(PackageSource::Official)),
        }
    }
}

/// An installed package as listed: its origin, name, description (empty
/// when there is none), installed version as the shown version, and size;
/// nothing else is set.
pub open spec fn listed_installed(
    row: InstalledRow,
    repos: Seq<(String, String)>,
    foreign: Seq<Seq<char>>,
    u: PackageUpdate,
) -> bool {
    &&& (u.source, u.repository@) == origin(row.name@, repos, foreign)
    &&& u.name == row.name
    &&& u.description@ == (match row.description {
        Some(d) => d@,
        None => seq![],
    })
    &&& u.new_version == row.version
    &&& u.size == row.installed_size
    &&& !u.selected
    &&& u.current_version@.len() == 0
    &&& u.url is None
    &&& u.build_date is None
    &&& u.first_submitted is None
    &&& u.out_of_date is None
    &&& !u.orphaned
    &&& u.maintainer is None
    &&& u.previous_maintainer is None
    &&& u.num_votes is None
    &&& !u.is_repo_switch
    &&& u.security_severity is None
    &&& u.security_issues@.len() == 0
    &&& u.new_permissions@.len() == 0
    &&& u.extra_dependencies@.len() == 0
    &&& !u.pkgbuild_needs_review
    &&& u.flatpak_installation is None
    &&& u.aur_scan_findings@.len() == 0
    &&& u.appimage_path is None
}

/// Installed packages are listed by name.
pub open spec fn name_key(name: Seq<char>) -> KeyView {
    KeyView { a: 0, b: 0, c: 0, name }
}

pub open spec fn row_keys(rows: Seq<InstalledRow>) -> Seq<KeyView> {
    rows.map_values(|r: InstalledRow| name_key(r.name@))
}

fn first_repo_of(repos: &Vec<(String, String)>, name: &str) -> (r: Option<String>)
    ensures
        match r {
            Some(s) => first_repo(repos@, name@) == Some(s@),
            None => first_repo(repos@, name@) is None,
        },
{
    let ghost rs = repos@;
    let mut i: usize = 0;
    proof {
        assert(rs.skip(0) =~= rs);
    }
    while i < repos.len()
        invariant
            rs == repos@,
            i <= rs.len(),
            first_repo(rs, name@) == first_repo(rs.skip(i as int), name@),
        decreases rs.len() - i,
    {
        proof {
            assert(rs.skip(i as int)[0] == rs[i as int]);
            assert(rs.skip(i as int).drop_first() =~= rs.skip(i + 1));
        }
        if str_eq(repos[i].0.as_str(), name) {
            return Some(repos[i].1.clone());
        }
        i += 1;
    }
    proof {
        assert(rs.skip(i as int).len() == 0);
    }
    None
}

fn is_foreign(foreign: &Vec<String>, name: &str) -> (r: bool)
    ensures
        r == foreign.deep_view().contains(name@),
{
    let mut i: usize = 0;
    while i < foreign.len()
        invariant
            i <= foreign@.len(),
            forall|j: int| 0 <= j < i ==> foreign.deep_view()[j] != name@,
        decreases foreign@.len() - i,
    {
        if str_eq(foreign[i].as_str(), name) {
            assert(foreign.deep_view()[i as int] == name@);
            return true;
        }
        i += 1;
    }
    false
}

fn listed(row: InstalledRow, repos: &Vec<(String, String)>, foreign: &Vec<String>) -> (u: PackageUpdate)
    ensures
        listed_installed(row, repos@, foreign.deep_view(), u),
{
    let (source, repository) = if is_foreign(foreign, row.name.as_str()) {
        (PackageSource::Aur, string_from(PackageSource::Aur.label()))
    } else {
        match first_repo_of(repos, row.name.as_str()) {
            Some(r) => (PackageSource::Official, r),
            None => (PackageSource::Official, string_from(PackageSource::Official.label())),
        }
    };
    let description = match row.description {
        Some(d) => d,
        None => String::new(),
    };
    PackageUpdate {
        source,
        repository,
        selected: false,
        name: row.name,
        description,
        current_version: String::new(),
        new_version: row.version,
        size: row.installed_size,
        url: None,
        build_date: None,
        first_submitted: None,
        out_of_date: None,
        orphaned: false,
        maintainer: None,
        previous_maintainer: None,
        num_votes: None,
        is_repo_switch: false,
        security_severity: None,
        security_issues: Vec::new(),
        new_permissions: Vec::new(),
        extra_dependencies: Vec::new(),
        pkgbuild_needs_review: false,
        flatpak_installation: None,
        aur_scan_findings: Vec::new(),
        appimage_path: None,
    }
}

/// The installed packages as the Manage tab lists them (see
/// [`listed_installed`]), sorted stably by name. `repos` holds the
/// (package, repository) pairs of the sync databases in their order, and
/// `foreign` the packages that no sync database has.
pub fn installed_listing(
    local: Vec<InstalledRow>,
    repos: &Vec<(String, String)>,
    foreign: &Vec<String>,
) -> (r: Vec<PackageUpdate>)
    ensures
        r@.len() == local@.len(),
        exists|p: Seq<usize>|
            {
                &&& is_permutation(p, local@.len())
                &&& stably_sorted(p, row_keys(local@))
                &&& forall|k: int|
                    0 <= k < r@.len() ==> listed_installed(
                        local@[p[k] as int],
                        repos@,
                        foreign.deep_view(),
                        #[trigger] r@[k],
                    )
            },
{
    let ghost rows = local@;
    let n = local.len();
    let mut pending = local;
    let mut rest: Vec<InstalledRow> = Vec::new();
    while pending.len() > 0
        invariant
            rows == pending@ + rest@.reverse(),
        decreases pending@.len(),
    {
        let e = pending.pop().unwrap();
        let ghost before = rest@;
        rest.push(e);
        proof {
            assert(rest@.reverse() =~= seq![e] + before.reverse());
        }
    }
    proof {
        assert(rows =~= rest@.reverse());
    }
    let mut out: Vec<PackageUpdate> = Vec::new();
    let mut keys: Vec<SortKey> = Vec::new();
    let mut i: usize = 0;
    while rest.len() > 0
        invariant
            i + rest@.len() == rows.len(),
            rows.len() == n,
            rows == rows.take(i as int) + rest@.reverse(),
            out@.len() == i,
            keys@.len() == i,
            forall|k: int|
                0 <= k < i ==> listed_installed(rows[k], repos@, foreign.deep_view(), #[trigger] out@[k]),
            forall|k: int| 0 <= k < i ==> (#[trigger] keys@[k])@ == name_key(rows[k].name@),
        decreases rest@.len(),
    {
        let e = rest.pop().unwrap();
        proof {
            assert(rows[i as int] == e);
        }
        let name = chars_of(e.name.as_str());
        keys.push(SortKey { a: 0, b: 0, c: 0, name });
        out.push(listed(e, repos, foreign));
        i += 1;
        proof {
            assert(rows.take(i as int) + rest@.reverse() =~= rows);
        }
    }
    let order = sort_order(&keys);
    proof {
        assert(key_views(keys@) =~= row_keys(rows));
    }
    let ghost outs = out@;
    let r = apply_order(out, &order);
    proof {
        assert forall|k: int| 0 <= k < r@.len() implies listed_installed(
            rows[order@[k] as int],
            repos@,
            foreign.deep_view(),
            #[trigger] r@[k],
        ) by {
            assert(r@[k] == outs[order@[k] as int]);
        }
    }
    r
}

/// The first word of each line that has one, in order.
pub open spec fn first_words(ls: Seq<Seq<char>>) -> Seq<Seq<char>>
    decreases ls.len(),
{
    if ls.len() == 0 {
        seq![]
    } else if first_word(ls.last()).len() > 0 {
        first_words(ls.drop_last()).push(first_word(ls.last()))
    } else {
        first_words(ls.drop_last())
    }
}

/// The names of all installed packages, from the output of `pacman -Q`: the
/// first word of each line.
pub fn installed_names(stdout: &str) -> (r: Vec<String>)
    ensures
        r.deep_view() == first_words(lines(stdout@)),
{
    let ls = lines_of(stdout);
    let ghost all = ls.deep_view();
    let mut out: Vec<String> = Vec::new();
    let mut i: usize = 0;
    while i < ls.len()
        invariant
            all == ls.deep_view(),
            all.len() == ls@.len(),
            i <= ls@.len(),
            out.deep_view() == first_words(all.take(i as int)),
        decreases ls@.len() - i,
    {
        let w = first_word_chars(ls[i].as_slice());
        proof {
            assert(ls@[i as int]@ == all[i as int]);
            assert(all.take(i + 1).drop_last() =~= all.take(i as int));
            assert(all.take(i + 1).last() == all[i as int]);
        }
        if w.len() > 0 {
            let ghost o0 = out.deep_view();
            out.push(string_of(w.as_slice()));
            proof {
                assert(out.deep_view() =~= o0.push(w@));
            }
        }
        i += 1;
    }
    proof {
        assert(all.take(i as int) =~= all);
    }
    out
}


/// A repository update as `pacman -Qu` prints it: `<name> <installed> ->
/// <new>`, possibly followed by more words; other lines are not updates.
pub open spec fn repo_update_spec(line: Seq<char>, u: PackageUpdate) -> bool {
    let w = words(line);
    &&& w.len() >= 4
    &&& w[2] == "->"@
    &&& u.source == PackageSource::Official
    &&& u.repository@.len() == 0
    &&& u.selected
    &&& u.name@ == w[0]
    &&& u.description@.len() == 0
    &&& u.current_version@ == w[1]
    &&& u.new_version@ == w[3]
    &&& u.size == 0
    &&& u.url is None
    &&& u.build_date is None
    &&& u.first_submitted is None
    &&& u.out_of_date is None
    &&& !u.orphaned
    &&& u.maintainer is None
    &&& u.previous_maintainer is None
    &&& u.num_votes is None
    &&& !u.is_repo_switch
    &&& u.security_severity is None
    &&& u.security_issues@.len() == 0
    &&& u.new_permissions@.len() == 0
    &&& u.extra_dependencies@.len() == 0
    &&& !u.pkgbuild_needs_review
    &&& u.flatpak_installation is None
    &&& u.aur_scan_findings@.len() == 0
    &&& u.appimage_path is None
}

pub fn repo_update_from_line(line: &str) -> (r: Option<PackageUpdate>)
    ensures
        r is Some <==> (words(line@).len() >= 4 && words(line@)[2] == "->"@),
        r matches Some(u) ==> repo_update_spec(line@, u),
{
    let w = words_of(line);
    proof {
        assert(w.deep_view().len() == w@.len());
    }
    if w.len() < 4 {
        return None;
    }
    if !str_eq(w[2].as_str(), "->") {
        return None;
    }
    proof {
        assert(w.deep_view()[0] == w@[0]@);
        assert(w.deep_view()[1] == w@[1]@);
        assert(w.deep_view()[3] == w@[3]@);
    }
    Some(PackageUpdate {
        source: PackageSource::Official,
        repository: String::new(),
        selected: true,
        name: w[0].clone(),
        description: String::new(),
        current_version: w[1].clone(),
        new_version: w[3].clone(),
        size: 0,
        url: None,
        build_date: None,
        first_submitted: None,
        out_of_date: None,
        orphaned: false,
        maintainer: None,
        previous_maintainer: None,
        num_votes: None,
        is_repo_switch: false,
        security_severity: None,
        security_issues: Vec::new(),
        new_permissions: Vec::new(),
        extra_dependencies: Vec::new(),
        pkgbuild_needs_review: false,
        flatpak_installation: None,
        aur_scan_findings: Vec::new(),
        appimage_path: None,
    })
}
} // verus!
