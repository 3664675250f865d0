//! Ordering search results and marking which of them are installed.
use vstd::prelude::*;

use crate::models::package_source::PackageSource;
use crate::models::package_update::PackageUpdate;
use crate::models::search_sources::SearchSources;
use crate::ordering::{
    apply_order, is_permutation, key_views, lemma_permutation_onto, lists_position, sort_order,
    stably_sorted, KeyView, SortKey,
};
use crate::text::{
    chars_contain_seq, chars_eq, chars_of, chars_start_with, contains_seq, starts_with,
    to_lowercase, trim, trim_str, unicode_lowercase, utf8_count, utf8_len, str_eq, push_string,
};

verus! {

/// How well a package matches the lower-cased search text `needle`: 0 for
/// an exact name, 1 for a name that starts with it, 2 for a name that
/// contains it, 3 for a description that contains it, 4 otherwise (names
/// and descriptions compared in lower case).
pub open spec fn match_rank_spec(name: Seq<char>, description: Seq<char>, needle: Seq<char>) -> u8 {
    let n = unicode_lowercase(name);
    if needle.len() == 0 {
        0
    } else if n == needle {
        0
    } else if starts_with(n, needle) {
        1
    } else if contains_seq(n, needle) {
        2
    } else if contains_seq(unicode_lowercase(description), needle) {
        3
    } else {
        4
    }
}

pub fn match_rank(name: &str, description: &str, needle: &str) -> (r: u8)
    ensures
        r == match_rank_spec(name@, description@, needle@),
{
    let nd = chars_of(needle);
    if nd.len() == 0 {
        return 0;
    }
    let lower = to_lowercase(name);
    let n = chars_of(lower.as_str());
    if chars_eq(n.as_slice(), nd.as_slice()) {
        return 0;
    }
    if chars_start_with(n.as_slice(), nd.as_slice()) {
        return 1;
    }
    if chars_contain_seq(n.as_slice(), nd.as_slice()) {
        return 2;
    }
    let dl = to_lowercase(description);
    let d = chars_of(dl.as_str());
    if chars_contain_seq(d.as_slice(), nd.as_slice()) {
        return 3;
    }
    4
}

pub open spec fn source_rank_spec(source: PackageSource) -> u8 {
    match source {
        PackageSource::Official => 0,
        PackageSource::Aur => 1,
        PackageSource::Flatpak => 2,
        PackageSource::AppImage => 3,
    }
}

/// Official packages come first, then the AUR, Flatpak and AppImage.
pub fn source_rank(source: PackageSource) -> (r: u8)
    ensures
        r == source_rank_spec(source),
{
    match source {
        PackageSource::Official => 0,
        PackageSource::Aur => 1,
        PackageSource::Flatpak => 2,
        PackageSource::AppImage => 3,
    }
}

pub open spec fn byte_len_key(name: Seq<char>) -> usize {
    (if utf8_len(name) <= usize::MAX {
        utf8_len(name)
    } else {
        usize::MAX as nat
    }) as usize
}

/// The key by which search results are sorted: match quality, source, name
/// length in bytes, and name.
pub open spec fn search_key(p: PackageUpdate, needle: Seq<char>) -> KeyView {
    KeyView {
        a: match_rank_spec(p.name@, p.description@, needle),
        b: source_rank_spec(p.source),
        c: byte_len_key(p.name@),
        name: p.name@,
    }
}

/// The results that a search gathers, before sorting: the repository
/// results, then the AUR ones, then the Flatpak ones, each only when that
/// source is searched.
pub open spec fn gathered(
    sources: SearchSources,
    official: Seq<PackageUpdate>,
    aur: Seq<PackageUpdate>,
    flatpak: Seq<PackageUpdate>,
) -> Seq<PackageUpdate> {
    (if sources.official {
        official
    } else {
        seq![]
    }) + (if sources.aur {
        aur
    } else {
        seq![]
    }) + (if sources.flatpak {
        flatpak
    } else {
        seq![]
    })
}

/// `out` is `items` sorted stably by `key`.
pub open spec fn sorted_results(
    out: Seq<PackageUpdate>,
    items: Seq<PackageUpdate>,
    needle: Seq<char>,
) -> bool {
    exists|p: Seq<usize>|
        {
            &&& is_permutation(p, items.len())
            &&& stably_sorted(p, items.map_values(|x: PackageUpdate| search_key(x, needle)))
            &&& out.len() == items.len()
            &&& forall|k: int| 0 <= k < out.len() ==> #[trigger] out[k] == items[p[k] as int]
        }
}

/// Law: the results of a search are the results of the searched sources,
/// each once: every repository result when the repositories are searched,
/// every AUR result when the AUR is searched and every Flatpak result when
/// Flatpak is searched, each whatever else is searched, and nothing from a
/// source that is not searched.
pub proof fn lemma_search_keeps_each_searched_result(
    sources: SearchSources,
    official: Seq<PackageUpdate>,
    aur: Seq<PackageUpdate>,
    flatpak: Seq<PackageUpdate>,
    needle: Seq<char>,
    r: Seq<PackageUpdate>,
)
    requires
        sorted_results(r, gathered(sources, official, aur, flatpak), needle),
    ensures
        r.len() == (if sources.official {
            official.len()
        } else {
            0
        }) + (if sources.aur {
            aur.len()
        } else {
            0
        }) + (if sources.flatpak {
            flatpak.len()
        } else {
            0
        }),
        sources.official ==> forall|k: int| 0 <= k < official.len() ==> r.contains(#[trigger] official[k]),
        sources.aur ==> forall|k: int| 0 <= k < aur.len() ==> r.contains(#[trigger] aur[k]),
        sources.flatpak ==> forall|k: int| 0 <= k < flatpak.len() ==> r.contains(#[trigger] flatpak[k]),
        forall|x: PackageUpdate|
            #[trigger] r.contains(x) ==> (sources.official && official.contains(x)) || (sources.aur
                && aur.contains(x)) || (sources.flatpak && flatpak.contains(x)),
{
    let items = gathered(sources, official, aur, flatpak);
    let o = if sources.official {
        official
    } else {
        seq![]
    };
    let a = if sources.aur {
        aur
    } else {
        seq![]
    };
    let f = if sources.flatpak {
        flatpak
    } else {
        seq![]
    };
    assert(items == o + a + f);
    let p = choose|p: Seq<usize>|
        {
            &&& is_permutation(p, items.len())
            &&& stably_sorted(p, items.map_values(|x: PackageUpdate| search_key(x, needle)))
            &&& r.len() == items.len()
            &&& forall|k: int| 0 <= k < r.len() ==> #[trigger] r[k] == items[p[k] as int]
        };
    lemma_permutation_onto(p, items.len());
    assert forall|j: int| 0 <= j < items.len() implies r.contains(#[trigger] items[j]) by {
        assert(lists_position(p, j));
        let k = choose|k: int| 0 <= k < p.len() && p[k] == j;
        assert(r[k] == items[j]);
    }
    if sources.official {
        assert forall|k: int| 0 <= k < official.len() implies r.contains(#[trigger] official[k]) by {
            assert(items[k] == official[k]);
        }
    }
    if sources.aur {
        assert forall|k: int| 0 <= k < aur.len() implies r.contains(#[trigger] aur[k]) by {
            assert(items[o.len() + k] == aur[k]);
        }
    }
    if sources.flatpak {
        assert forall|k: int| 0 <= k < flatpak.len() implies r.contains(#[trigger] flatpak[k]) by {
            assert(items[o.len() + a.len() + k] == flatpak[k]);
        }
    }
    assert forall|x: PackageUpdate| #[trigger] r.contains(x) implies (sources.official && official.contains(x))
        || (sources.aur && aur.contains(x)) || (sources.flatpak && flatpak.contains(x)) by {
        let k = choose|k: int| 0 <= k < r.len() && r[k] == x;
        let j = p[k] as int;
        assert(r[k] == items[j]);
        if j < o.len() {
            assert(items[j] == o[j]);
        } else if j < o.len() + a.len() {
            assert(items[j] == a[j - o.len()]);
        } else {
            assert(items[j] == f[j - o.len() - a.len()]);
        }
    }
}

fn append_all(out: &mut Vec<PackageUpdate>, more: Vec<PackageUpdate>)
    ensures
        final(out)@ == old(out)@ + more@,
{
    let mut more = more;
    out.append(&mut more);
}

/// Orders the results of a search for `term`: nothing for a blank term,
/// otherwise the results of the searched sources, sorted stably by how well
/// the name or description matches the trimmed, lower-cased term, then by
/// source, name length and name. The repository, AUR and Flatpak results are
/// passed in as they were found.
pub fn search_packages(
    term: &str,
    sources: SearchSources,
    official: Vec<PackageUpdate>,
    aur: Vec<PackageUpdate>,
    flatpak: Vec<PackageUpdate>,
) -> (r: Vec<PackageUpdate>)
    ensures
        trim(term@).len() == 0 ==> r@.len() == 0,
        trim(term@).len() > 0 ==> sorted_results(
            r@,
            gathered(sources, official@, aur@, flatpak@),
            unicode_lowercase(trim(term@)),
        ),
        trim(term@).len() > 0 && sources.official ==> forall|k: int|
            0 <= k < official@.len() ==> r@.contains(#[trigger] official@[k]),
        trim(term@).len() > 0 && sources.aur ==> forall|k: int|
            0 <= k < aur@.len() ==> r@.contains(#[trigger] aur@[k]),
        trim(term@).len() > 0 && sources.flatpak ==> forall|k: int|
            0 <= k < flatpak@.len() ==> r@.contains(#[trigger] flatpak@[k]),
{
    let t = trim_str(term);
    if t.as_str().is_empty() {
        return Vec::new();
    }
    let mut out: Vec<PackageUpdate> = Vec::new();
    if sources.official {
        append_all(&mut out, official);
    }
    if sources.aur {
        append_all(&mut out, aur);
    }
    if sources.flatpak {
        append_all(&mut out, flatpak);
    }
    let ghost items = out@;
    proof {
        assert(items =~= gathered(sources, official@, aur@, flatpak@));
    }
    let needle = to_lowercase(t.as_str());
    let ghost nd = needle@;
    let mut keys: Vec<SortKey> = Vec::new();
    let mut i: usize = 0;
    while i < out.len()
        invariant
            out@ == items,
            nd == needle@,
            i <= out@.len(),
            keys@.len() == i,
            forall|k: int| 0 <= k < i ==> (#[trigger] keys@[k])@ == search_key(items[k], nd),
        decreases out@.len() - i,
    {
        let p = &out[i];
        let a = match_rank(p.name.as_str(), p.description.as_str(), needle.as_str());
        let b = source_rank(p.source);
        let name = chars_of(p.name.as_str());
        let c = utf8_count(name.as_slice());
        keys.push(SortKey { a, b, c, name });
        i += 1;
    }
    let order = sort_order(&keys);
    proof {
        assert(key_views(keys@) =~= items.map_values(|x: PackageUpdate| search_key(x, nd)));
    }
    let r = apply_order(out, &order);
    proof {
        assert(is_permutation(order@, items.len()));
        lemma_search_keeps_each_searched_result(sources, official@, aur@, flatpak@, nd, r@);
    }
    r
}

/// What the local package database says of an installed package: its
/// version, and whether it was installed from a signed repository package.
pub struct LocalPackage {
    pub version: String,
    pub signed: bool,
}

/// Whether the installed package is the one that a result from `source`
/// describes: repository results match signed installs, AUR results match
/// unsigned ones, other sources never match.
pub open spec fn install_matches(source: PackageSource, signed: bool) -> bool {
    match source {
        PackageSource::Official => signed,
        PackageSource::Aur => !signed,
        _ => false,
    }
}

/// Fills in the installed version of each result whose installed package
/// matches its source. `local[i]` is what the local database holds under the
/// name of `packages[i]`, if anything; it is not read for Flatpak and
/// AppImage results.
pub fn mark_installed(packages: &mut Vec<PackageUpdate>, local: &Vec<Option<LocalPackage>>)
    requires
        local@.len() == old(packages)@.len(),
    ensures
        final(packages)@.len() == old(packages)@.len(),
        forall|k: int|
            0 <= k < old(packages)@.len() ==> {
                let p = old(packages)@[k];
                let q = #[trigger] final(packages)@[k];
                match local@[k] {
                    Some(l) if install_matches(p.source, l.signed) => q == PackageUpdate {
                        current_version: l.version,
                        ..p
                    },
                    _ => q == p,
                }
            },
{
    let ghost orig = packages@;
    let mut i: usize = 0;
    while i < packages.len()
        invariant
            packages@.len() == orig.len(),
            local@.len() == orig.len(),
            i <= orig.len(),
            forall|k: int|
                0 <= k < orig.len() ==> {
                    let p = orig[k];
                    let q = #[trigger] packages@[k];
                    if k < i {
                        match local@[k] {
                            Some(l) if install_matches(p.source, l.signed) => q == PackageUpdate {
                                current_version: l.version,
                                ..p
                            },
                            _ => q == p,
                        }
                    } else {
                        q == p
                    }
                },
        decreases orig.len() - i,
    {
        let source = packages[i].source;
        match &local[i] {
            Some(l) => {
                let matches = match source {
                    PackageSource::Official => l.signed,
                    PackageSource::Aur => !l.signed,
                    _ => false,
                };
                if matches {
                    packages[i].current_version = l.version.clone();
                }
            },
            None => {},
        }
        i += 1;
    }
}

// ---------------------------------------------------------------------
// Repository packages
// ---------------------------------------------------------------------

/// A package of a sync database, as libalpm reports it.
pub struct RepoPackage {
    pub repository: String,
    pub name: String,
    pub version: String,
    pub description: Option<String>,
    pub installed_size: i64,
    pub url: Option<String>,
    pub build_date: i64,
}

/// A repository package as a listed package: from the official
/// repositories, not selected, with no installed version, the description
/// empty when there is none, and the build date only when it is positive.
pub open spec fn official_spec(r: RepoPackage, u: PackageUpdate) -> bool {
    &&& u.source == PackageSource::Official
    &&& u.repository == r.repository
    &&& !u.selected
    &&& u.name == r.name
    &&& u.description@ == (match r.description {
        Some(d) => d@,
        None => seq![],
    })
    &&& u.current_version@.len() == 0
    &&& u.new_version == r.version
    &&& u.size == r.installed_size
    &&& u.url == r.url
    &&& u.build_date == (if r.build_date > 0 { Some(r.build_date) } else { None })
    &&& u.first_submitted is None
    &&& u.out_of_date is None
    &&& !u.orphaned
    &&& u.maintainer is None
    &&& u.previous_maintainer is None
    &&& u.num_votes is None
    &&& !u.is_repo_switch
    &&& u.security_severity is None
    &&& u.security_issues@.len() == 0
    &&& u.new_permissions@.len() == 0
    &&& u.extra_dependencies@.len() == 0
    &&& !u.pkgbuild_needs_review
    &&& u.flatpak_installation is None
    &&& u.aur_scan_findings@.len() == 0
    &&& u.appimage_path is None
}

pub fn official_update(r: RepoPackage) -> (u: PackageUpdate)
    ensures
        official_spec(r, u),
{
    let description = match r.description {
        Some(d) => d,
        None => String::new(),
    };
    let build_date = if r.build_date > 0 {
        Some(r.build_date)
    } else {
        None
    };
    PackageUpdate {
        source: PackageSource::Official,
        repository: r.repository,
        selected: false,
        name: r.name,
        description,
        current_version: String::new(),
        new_version: r.version,
        size: r.installed_size,
        url: r.url,
        build_date,
        first_submitted: None,
        out_of_date: None,
        orphaned: false,
        maintainer: None,
        previous_maintainer: None,
        num_votes: None,
        is_repo_switch: false,
        security_severity: None,
        security_issues: Vec::new(),
        new_permissions: Vec::new(),
        extra_dependencies: Vec::new(),
        pkgbuild_needs_review: false,
        flatpak_installation: None,
        aur_scan_findings: Vec::new(),
        appimage_path: None,
    }
}

/// The positions of `names` that hold a name for the first time.
pub open spec fn first_occurrences(names: Seq<Seq<char>>, n: nat) -> Seq<int>
    decreases n,
{
    if n == 0 {
        seq![]
    } else {
        let p = first_occurrences(names, (n - 1) as nat);
        if names.take(n - 1).contains(names[n - 1]) {
            p
        } else {
            p.push(n - 1)
        }
    }
}

pub open spec fn repo_names(rows: Seq<RepoPackage>) -> Seq<Seq<char>> {
    rows.map_values(|r: RepoPackage| r.name@)
}

/// `x` is the name at one of the positions `p` of `names`.
pub open spec fn listed_at(names: Seq<Seq<char>>, p: Seq<int>, x: Seq<char>) -> bool {
    exists|i: int| 0 <= i < p.len() && #[trigger] names[p[i]] == x
}

proof fn lemma_first_occurrences(names: Seq<Seq<char>>, n: nat)
    requires
        n <= names.len(),
    ensures
        forall|i: int|
            0 <= i < first_occurrences(names, n).len() ==> 0 <= #[trigger] first_occurrences(names, n)[i]
                < n,
        forall|i: int, j: int|
            0 <= i < j < first_occurrences(names, n).len() ==> names[#[trigger] first_occurrences(
                names,
                n,
            )[i]] != names[#[trigger] first_occurrences(names, n)[j]],
        forall|k: int| 0 <= k < n ==> #[trigger] listed_at(names, first_occurrences(names, n), names[k]),
    decreases n,
{
    if n > 0 {
        let m = (n - 1) as nat;
        lemma_first_occurrences(names, m);
        let q = first_occurrences(names, m);
        let p = first_occurrences(names, n);
        if names.take(m as int).contains(names[m as int]) {
            assert(p == q);
            let w = choose|w: int| 0 <= w < m && names.take(m as int)[w] == names[m as int];
            assert(names[w] == names[m as int]);
            assert(listed_at(names, q, names[w]));
        } else {
            assert(p == q.push(m as int));
            assert forall|i: int, j: int| 0 <= i < j < p.len() implies names[p[i]] != names[p[j]] by {
                if j == q.len() {
                    assert(p[i] == q[i]);
                    assert(names.take(m as int)[q[i]] == names[q[i]]);
                } else {
                    assert(p[i] == q[i] && p[j] == q[j]);
                }
            }
            assert forall|k: int| 0 <= k < n implies #[trigger] listed_at(names, p, names[k]) by {
                if k == m {
                    assert(names[p[q.len() as int]] == names[k]);
                } else {
                    assert(listed_at(names, q, names[k]));
                    let i = choose|i: int| 0 <= i < q.len() && #[trigger] names[q[i]] == names[k];
                    assert(p[i] == q[i]);
                }
            }
        }
    }
}

/// The repository search lists each package name once, and lists every
/// name that some database found.
pub proof fn lemma_repo_results_list_each_name_once(rows: Seq<RepoPackage>, r: Seq<PackageUpdate>)
    requires
        r.len() == first_occurrences(repo_names(rows), rows.len()).len(),
        forall|k: int|
            0 <= k < r.len() ==> official_spec(
                rows[first_occurrences(repo_names(rows), rows.len())[k]],
                #[trigger] r[k],
            ),
    ensures
        forall|i: int, j: int| 0 <= i < j < r.len() ==> r[i].name@ != r[j].name@,
        forall|k: int| 0 <= k < rows.len() ==> exists|i: int| 0 <= i < r.len() && r[i].name@ == #[trigger] rows[k].name@,
{
    let names = repo_names(rows);
    let p = first_occurrences(names, rows.len());
    lemma_first_occurrences(names, rows.len());
    assert forall|i: int, j: int| 0 <= i < j < r.len() implies r[i].name@ != r[j].name@ by {
        assert(official_spec(rows[p[i]], r[i]));
        assert(official_spec(rows[p[j]], r[j]));
        assert(names[p[i]] == rows[p[i]].name@);
        assert(names[p[j]] == rows[p[j]].name@);
    }
    assert forall|k: int| 0 <= k < rows.len() implies exists|i: int| 0 <= i < r.len() && r[i].name@ == #[trigger] rows[k].name@ by {
        assert(names[k] == rows[k].name@);
        assert(listed_at(names, p, names[k]));
        let i = choose|i: int| 0 <= i < p.len() && #[trigger] names[p[i]] == names[k];
        assert(official_spec(rows[p[i]], r[i]));
        assert(names[p[i]] == rows[p[i]].name@);
    }
}


/// The search hits of all sync databases, in database order, each name
/// kept only where it appears first.
pub fn repo_search_results(rows: Vec<RepoPackage>) -> (r: Vec<PackageUpdate>)
    ensures
        r@.len() == first_occurrences(repo_names(rows@), rows@.len()).len(),
        forall|k: int|
            0 <= k < r@.len() ==> official_spec(
                rows@[first_occurrences(repo_names(rows@), rows@.len())[k]],
                #[trigger] r@[k],
            ),
{
    let ghost rs = rows@;
    let ghost names = repo_names(rs);
    let total = rows.len();
    let mut seen: Vec<String> = Vec::new();
    let mut out: Vec<PackageUpdate> = Vec::new();
    let mut rest: Vec<RepoPackage> = Vec::new();
    let mut rows = rows;
    while rows.len() > 0
        invariant
            rs == rows@ + rest@.reverse(),
        decreases rows@.len(),
    {
        let e = rows.pop().unwrap();
        let ghost before = rest@;
        rest.push(e);
        proof {
            assert(rest@.reverse() =~= seq![e] + before.reverse());
        }
    }
    proof {
        assert(rs =~= rest@.reverse());
    }
    let mut i: usize = 0;
    while rest.len() > 0
        invariant
            i + rest@.len() == rs.len(),
            rs.len() == total,
            names == repo_names(rs),
            rs == rs.take(i as int) + rest@.reverse(),
            forall|x: Seq<char>| seen.deep_view().contains(x) <==> names.take(i as int).contains(x),
            out@.len() == first_occurrences(names, i as nat).len(),
            forall|k: int|
                0 <= k < out@.len() ==> official_spec(
                    rs[first_occurrences(names, i as nat)[k]],
                    #[trigger] out@[k],
                ),
            forall|k: int|
                0 <= k < first_occurrences(names, i as nat).len() ==> 0 <= #[trigger] first_occurrences(names, i as nat)[k] < i,
        decreases rest@.len(),
    {
        let e = rest.pop().unwrap();
        let ghost t0 = names.take(i as int);
        let ghost t1 = names.take(i + 1);
        proof {
            assert(rs[i as int] == e);
            assert(names[i as int] == e.name@);
            assert(t1 =~= t0.push(e.name@));
            assert forall|x: Seq<char>| t1.contains(x) <==> (t0.contains(x) || x == e.name@) by {
                if t1.contains(x) {
                    let j = choose|j: int| 0 <= j < t1.len() && t1[j] == x;
                    if j < i {
                        assert(t0[j] == x);
                    }
                }
                if t0.contains(x) {
                    let j = choose|j: int| 0 <= j < t0.len() && t0[j] == x;
                    assert(t1[j] == x);
                }
                if x == e.name@ {
                    assert(t1[i as int] == x);
                }
            }
        }
        if contains_name(&seen, e.name.as_str()) {
            proof {
                assert(t0.contains(e.name@));
                assert forall|x: Seq<char>| seen.deep_view().contains(x) <==> t1.contains(x) by {}
            }
        } else {
            let ghost s0 = seen.deep_view();
            push_string(&mut seen, e.name.as_str());
            let ghost o0 = out@;
            out.push(official_update(e));
            proof {
                assert(!t0.contains(names[i as int]));
                let sv = seen.deep_view();
                assert forall|x: Seq<char>| sv.contains(x) <==> t1.contains(x) by {
                    if sv.contains(x) && x != e.name@ {
                        let j = choose|j: int| 0 <= j < sv.len() && sv[j] == x;
                        assert(s0[j] == x);
                        assert(s0.contains(x));
                    }
                    if t0.contains(x) {
                        assert(s0.contains(x));
                        let j = choose|j: int| 0 <= j < s0.len() && s0[j] == x;
                        assert(sv[j] == x);
                    }
                    if x == e.name@ {
                        assert(sv[s0.len() as int] == x);
                    }
                }
                assert forall|k: int| 0 <= k < out@.len() implies official_spec(
                    rs[first_occurrences(names, (i + 1) as nat)[k]],
                    #[trigger] out@[k],
                ) by {
                    if k < o0.len() {
                        assert(out@[k] == o0[k]);
                    }
                }
            }
        }
        i += 1;
        proof {
            assert(rs.take(i as int) + rest@.reverse() =~= rs);
        }
    }
    proof {
        assert(rs.take(i as int) =~= rs);
    }
    out
}

fn contains_name(v: &Vec<String>, s: &str) -> (r: bool)
    ensures
        r == v.deep_view().contains(s@),
{
    let mut i: usize = 0;
    while i < v.len()
        invariant
            i <= v@.len(),
            forall|j: int| 0 <= j < i ==> v.deep_view()[j] != s@,
        decreases v@.len() - i,
    {
        if str_eq(v[i].as_str(), s) {
            assert(v.deep_view()[i as int] == s@);
            return true;
        }
        i += 1;
    }
    false
}

/// The packages shown before anything is searched, in this order.
pub open spec fn featured_list() -> Seq<Seq<char>> {
    seq![
        "firefox"@, "chromium"@, "vlc"@, "mpv"@, "gimp"@, "inkscape"@, "krita"@, "blender"@,
        "obs-studio"@, "audacity"@, "libreoffice-fresh"@, "thunderbird"@, "neovim"@, "code"@,
        "steam"@, "telegram-desktop"@, "discord"@, "kdenlive"@, "keepassxc"@, "flameshot"@,
        "btop"@, "fastfetch"@,
    ]
}

pub fn featured_names() -> (r: Vec<&'static str>)
    ensures
        r@.map_values(|s: &str| s@) == featured_list(),
{
    let r = vec![
        "firefox", "chromium", "vlc", "mpv", "gimp", "inkscape", "krita", "blender",
        "obs-studio", "audacity", "libreoffice-fresh", "thunderbird", "neovim", "code",
        "steam", "telegram-desktop", "discord", "kdenlive", "keepassxc", "flameshot",
        "btop", "fastfetch",
    ];
    proof {
        assert(r@.map_values(|s: &str| s@) =~= featured_list());
    }
    r
}

/// `u` is the listed form of the package `o` holds.
pub open spec fn gives_update(o: Option<RepoPackage>, u: PackageUpdate) -> bool {
    match o {
        Some(p) => official_spec(p, u),
        None => false,
    }
}

/// Each listed package is the listed form of one of the packages found.
pub open spec fn each_listed(found: Seq<Option<RepoPackage>>, r: Seq<PackageUpdate>) -> bool {
    forall|k: int| 0 <= k < r.len() ==> listed_from(found, #[trigger] r[k])
}

/// `u` is the listed form of one of the packages found.
pub open spec fn listed_from(found: Seq<Option<RepoPackage>>, u: PackageUpdate) -> bool {
    exists|j: int| 0 <= j < found.len() && gives_update(#[trigger] found[j], u)
}

/// The packages that `found` holds, in order, skipping the names that no
/// database has.
pub open spec fn found_packages(found: Seq<Option<RepoPackage>>) -> Seq<RepoPackage>
    decreases found.len(),
{
    if found.len() == 0 {
        seq![]
    } else {
        let rest = found_packages(found.drop_last());
        match found.last() {
            Some(p) => rest.push(p),
            None => rest,
        }
    }
}

/// The featured packages that some sync database has (`found` holds, for
/// each featured name, the package of the first database that has it), in
/// order, each in its listed form.
pub fn featured_from(found: Vec<Option<RepoPackage>>) -> (r: Vec<PackageUpdate>)
    ensures
        r@.len() <= found@.len(),
        each_listed(found@, r@),
        r@.len() == found_packages(found@).len(),
        forall|k: int| 0 <= k < r@.len() ==> official_spec(found_packages(found@)[k], #[trigger] r@[k]),
{
    let ghost fs = found@;
    let mut out: Vec<PackageUpdate> = Vec::new();
    let mut pending = found;
    let mut rest: Vec<Option<RepoPackage>> = Vec::new();
    while pending.len() > 0
        invariant
            fs == pending@ + rest@.reverse(),
        decreases pending@.len(),
    {
        let e = pending.pop().unwrap();
        let ghost before = rest@;
        rest.push(e);
        proof {
            assert(rest@.reverse() =~= seq![e] + before.reverse());
        }
    }
    proof {
        assert(fs =~= rest@.reverse());
    }
    let ghost mut i: int = 0;
    while rest.len() > 0
        invariant
            0 <= i <= fs.len(),
            i + rest@.len() == fs.len(),
            fs == fs.take(i) + rest@.reverse(),
            out@.len() <= i,
            each_listed(fs, out@),
            out@.len() == found_packages(fs.take(i)).len(),
            forall|k: int| 0 <= k < out@.len() ==> official_spec(found_packages(fs.take(i))[k], #[trigger] out@[k]),
        decreases rest@.len(),
    {
        let e = rest.pop().unwrap();
        proof {
            assert(fs[i] == e);
            assert(fs.take(i + 1).drop_last() =~= fs.take(i));
            assert(fs.take(i + 1).last() == e);
        }
        let ghost prev = out@;
        match e {
            Some(p) => {
                let ghost o0 = out@;
                let ghost pp = p;
                out.push(official_update(p));
                proof {
                    assert forall|k: int| 0 <= k < out@.len() implies listed_from(fs, #[trigger] out@[k]) by {
                        if k < o0.len() {
                            assert(out@[k] == o0[k]);
                            assert(listed_from(fs, o0[k]));
                        } else {
                            assert(gives_update(fs[i], out@[k]));
                        }
                    }
                }
            },
            None => {},
        }
        proof {
            let fp = found_packages(fs.take(i + 1));
            assert forall|k: int| 0 <= k < out@.len() implies official_spec(fp[k], #[trigger] out@[k]) by {
                if k < prev.len() {
                    assert(out@[k] == prev[k]);
                    assert(official_spec(found_packages(fs.take(i))[k], prev[k]));
                }
            }
            i = i + 1;
            assert(fs.take(i) + rest@.reverse() =~= fs);
        }
    }
    proof {
        assert(fs.take(i) =~= fs);
    }
    out
}

} // verus!
