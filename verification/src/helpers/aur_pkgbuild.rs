//! Reviewing the build recipe of an AUR package: where earlier clones are
//! found, whether changes need a look, and the order of the files shown.
use vstd::prelude::*;
use vstd::utf8::{decode_utf8, encode_utf8, valid_utf8};

use crate::models::pkgbuild_review::PkgbuildReview;
use crate::models::review_file::ReviewFile;
use crate::ordering::{apply_order, is_permutation, key_views, sort_order, stably_sorted, KeyView, SortKey};
use crate::text::{
    decimal, fmt_u64, chars_end_with, chars_eq, chars_of, chars_start_with, ends_with, lines, lines_of, push_str,
    starts_with, string_from,
};

verus! {

// ---------------------------------------------------------------------
// Changes since the installed version
// ---------------------------------------------------------------------

pub open spec fn boundary_prefixes() -> Seq<Seq<char>> {
    seq![
        "@@"@,
        "diff --git"@,
        "index "@,
        "--- "@,
        "+++ "@,
        "new file"@,
        "deleted file"@,
        "rename "@,
        "similarity "@,
        "old mode"@,
        "new mode"@,
        "Binary files"@,
    ]
}

/// A line of a unified diff that is not inside a hunk's body: a hunk
/// header, or a line of a file header.
pub open spec fn is_boundary(line: Seq<char>) -> bool {
    exists|k: int| 0 <= k < boundary_prefixes().len() && starts_with(line, #[trigger] boundary_prefixes()[k])
}

/// The state of a diff reader after some lines: added and removed lines in
/// the current hunk, whether a hunk is open, and whether a hunk that did not
/// add as many lines as it removed was seen.
pub struct DiffState {
    pub added: nat,
    pub removed: nat,
    pub in_hunk: bool,
    pub needs: bool,
}

pub open spec fn diff_step(st: DiffState, line: Seq<char>) -> DiffState {
    if is_boundary(line) {
        DiffState {
            added: 0,
            removed: 0,
            in_hunk: starts_with(line, "@@"@),
            needs: st.needs || (st.in_hunk && st.added != st.removed),
        }
    } else if st.in_hunk && line.len() > 0 && line[0] == '+' {
        DiffState { added: st.added + 1, ..st }
    } else if st.in_hunk && line.len() > 0 && line[0] == '-' {
        DiffState { removed: st.removed + 1, ..st }
    } else {
        st
    }
}

pub open spec fn diff_run(ls: Seq<Seq<char>>) -> DiffState
    decreases ls.len(),
{
    if ls.len() == 0 {
        DiffState { added: 0, removed: 0, in_hunk: false, needs: false }
    } else {
        diff_step(diff_run(ls.drop_last()), ls.last())
    }
}

/// Whether a diff has a hunk whose added and removed line counts differ;
/// a change that only edits lines in place keeps the counts equal.
pub open spec fn diff_needs_review(diff: Seq<char>) -> bool {
    let st = diff_run(lines(diff));
    st.needs || (st.in_hunk && st.added != st.removed)
}

// ---------------------------------------------------------------------
// The same, stated over hunks
// ---------------------------------------------------------------------

/// The number of lines among `ls[a..b)` that start with `c`.
pub open spec fn count_starting(ls: Seq<Seq<char>>, a: int, b: int, c: char) -> nat
    decreases b - a,
{
    if b <= a {
        0
    } else {
        count_starting(ls, a, b - 1, c) + (if ls[b - 1].len() > 0 && ls[b - 1][0] == c {
            1nat
        } else {
            0nat
        })
    }
}

/// The first boundary line at or after `from`, or the end.
pub open spec fn next_boundary(ls: Seq<Seq<char>>, from: int) -> int
    decreases ls.len() - from,
{
    if from >= ls.len() {
        ls.len() as int
    } else if is_boundary(ls[from]) {
        from
    } else {
        next_boundary(ls, from + 1)
    }
}

/// Line `h` opens a hunk (`@@`) whose body, up to the next boundary line,
/// adds a different number of lines than it removes.
pub open spec fn unbalanced_hunk(ls: Seq<Seq<char>>, h: int) -> bool {
    &&& 0 <= h < ls.len()
    &&& starts_with(ls[h], "@@"@)
    &&& count_starting(ls, h + 1, next_boundary(ls, h + 1), '+') != count_starting(
        ls,
        h + 1,
        next_boundary(ls, h + 1),
        '-',
    )
}

/// The last boundary line before `n`, or -1.
pub open spec fn last_boundary(ls: Seq<Seq<char>>, n: int) -> int
    decreases n,
{
    if n <= 0 {
        -1
    } else if is_boundary(ls[n - 1]) {
        n - 1
    } else {
        last_boundary(ls, n - 1)
    }
}

proof fn lemma_last_boundary(ls: Seq<Seq<char>>, n: int)
    requires
        0 <= n <= ls.len(),
    ensures
        -1 <= last_boundary(ls, n) < n,
        last_boundary(ls, n) >= 0 ==> is_boundary(ls[last_boundary(ls, n)]),
        forall|j: int| last_boundary(ls, n) < j < n ==> !is_boundary(#[trigger] ls[j]),
    decreases n,
{
    if n > 0 {
        lemma_last_boundary(ls, n - 1);
    }
}

proof fn lemma_next_boundary_is(ls: Seq<Seq<char>>, from: int, n: int)
    requires
        0 <= from <= n <= ls.len(),
        forall|j: int| from <= j < n ==> !is_boundary(#[trigger] ls[j]),
        n == ls.len() || is_boundary(ls[n]),
    ensures
        next_boundary(ls, from) == n,
    decreases n - from,
{
    if from < n {
        lemma_next_boundary_is(ls, from + 1, n);
    }
}

/// The state of the reader after the lines before `n`, as the hunks they
/// hold.
pub open spec fn diff_state_matches(ls: Seq<Seq<char>>, n: int) -> bool {
    let st = diff_run(ls.take(n));
    let lb = last_boundary(ls, n);
    &&& st.in_hunk == (lb >= 0 && starts_with(ls[lb], "@@"@))
    &&& st.in_hunk ==> st.added == count_starting(ls, lb + 1, n, '+') && st.removed
        == count_starting(ls, lb + 1, n, '-')
    &&& st.needs == exists|h: int| 0 <= h < lb && #[trigger] unbalanced_hunk(ls, h)
}

proof fn lemma_diff_state(ls: Seq<Seq<char>>, n: int)
    requires
        0 <= n <= ls.len(),
    ensures
        diff_state_matches(ls, n),
    decreases n,
{
    if n == 0 {
        assert(ls.take(0) =~= Seq::<Seq<char>>::empty());
    } else {
        let m = n - 1;
        lemma_diff_state(ls, m);
        lemma_last_boundary(ls, m);
        assert(ls.take(n).drop_last() =~= ls.take(m));
        assert(ls.take(n).last() == ls[m]);
        let st = diff_run(ls.take(m));
        let lb = last_boundary(ls, m);
        let line = ls[m];
        if is_boundary(line) {
            if lb >= 0 {
                lemma_next_boundary_is(ls, lb + 1, m);
            }
            assert forall|h: int| 0 <= h < m && #[trigger] unbalanced_hunk(ls, h) implies (h < lb
                || (h == lb && st.in_hunk && st.added != st.removed)) by {
                if h > lb {
                    assert(!is_boundary(ls[h]));
                    assert(is_boundary(ls[h])) by {
                        assert(boundary_prefixes()[0] == "@@"@);
                    }
                }
            }
            if lb >= 0 && st.in_hunk && st.added != st.removed {
                assert(unbalanced_hunk(ls, lb));
            }
        } else {
            assert(last_boundary(ls, n) == lb);
        }
    }
}

/// Law: the review check says exactly that some hunk of the diff adds a
/// different number of lines than it removes.
pub proof fn lemma_diff_needs_review_is_unbalanced_hunk(diff: Seq<char>)
    ensures
        diff_needs_review(diff) == exists|h: int| #[trigger] unbalanced_hunk(lines(diff), h),
{
    let ls = lines(diff);
    let n = ls.len() as int;
    lemma_diff_state(ls, n);
    lemma_last_boundary(ls, n);
    assert(ls.take(n) =~= ls);
    let lb = last_boundary(ls, n);
    if lb >= 0 {
        lemma_next_boundary_is(ls, lb + 1, n);
    }
    let st = diff_run(ls);
    assert forall|h: int| #[trigger] unbalanced_hunk(ls, h) implies (h < lb || (h == lb && st.in_hunk
        && st.added != st.removed)) by {
        if h > lb {
            assert(!is_boundary(ls[h]));
            assert(is_boundary(ls[h])) by {
                assert(boundary_prefixes()[0] == "@@"@);
            }
        }
    }
    if lb >= 0 && st.in_hunk && st.added != st.removed {
        assert(unbalanced_hunk(ls, lb));
    }
}

fn line_is_boundary(line: &[char]) -> (r: bool)
    ensures
        r == is_boundary(line@),
{
    let prefixes: [&str; 12] = [
        "@@",
        "diff --git",
        "index ",
        "--- ",
        "+++ ",
        "new file",
        "deleted file",
        "rename ",
        "similarity ",
        "old mode",
        "new mode",
        "Binary files",
    ];
    let mut k: usize = 0;
    while k < 12
        invariant
            k <= 12,
            prefixes@.map_values(|p: &str| p@) == boundary_prefixes(),
            forall|j: int| 0 <= j < k ==> !starts_with(line@, #[trigger] boundary_prefixes()[j]),
        decreases 12 - k,
    {
        let p = chars_of(prefixes[k]);
        proof {
            assert(boundary_prefixes()[k as int] == prefixes@[k as int]@);
        }
        if chars_start_with(line, p.as_slice()) {
            return true;
        }
        k += 1;
    }
    false
}

/// Whether the changes in a diff need a look before building: some hunk
/// adds a different number of lines than it removes. Headers of files and
/// hunks end a hunk; lines outside hunks are not counted.
pub fn diff_adds_or_removes_lines(diff: &str) -> (r: bool)
    ensures
        r == diff_needs_review(diff@),
        r == exists|h: int| #[trigger] unbalanced_hunk(lines(diff@), h),
{
    proof {
        lemma_diff_needs_review_is_unbalanced_hunk(diff@);
    }
    let ls = lines_of(diff);
    let ghost all = ls.deep_view();
    let mut added: usize = 0;
    let mut removed: usize = 0;
    let mut in_hunk = false;
    let mut needs = false;
    let mut i: usize = 0;
    let hunk = chars_of("@@");
    while i < ls.len()
        invariant
            all == ls.deep_view(),
            all.len() == ls@.len(),
            hunk@ == "@@"@,
            i <= ls@.len(),
            added <= i,
            removed <= i,
            diff_run(all.take(i as int)) == (DiffState {
                added: added as nat,
                removed: removed as nat,
                in_hunk,
                needs,
            }),
        decreases ls@.len() - i,
    {
        let line = ls[i].as_slice();
        proof {
            assert(ls@[i as int]@ == all[i as int]);
            assert(all.take(i + 1).drop_last() =~= all.take(i as int));
            assert(all.take(i + 1).last() == line@);
        }
        if line_is_boundary(line) {
            if in_hunk && added != removed {
                needs = true;
            }
            added = 0;
            removed = 0;
            in_hunk = chars_start_with(line, hunk.as_slice());
        } else if in_hunk {
            if line.len() > 0 && line[0] == '+' {
                added += 1;
            } else if line.len() > 0 && line[0] == '-' {
                removed += 1;
            }
        }
        i += 1;
    }
    proof {
        assert(all.take(i as int) =~= all);
    }
    needs || (in_hunk && added != removed)
}

// ---------------------------------------------------------------------
// Files shown for review
// ---------------------------------------------------------------------

/// Files that are never shown: git's own data and generated metadata.
pub open spec fn skipped_entry(name: Seq<char>) -> bool {
    name == ".git"@ || name == ".SRCINFO"@ || name == ".gitignore"@ || name == ".gitattributes"@
}

pub fn is_skipped_entry(name: &str) -> (r: bool)
    ensures
        r == skipped_entry(name@),
{
    let n = chars_of(name);
    let a = chars_of(".git");
    let b = chars_of(".SRCINFO");
    let c = chars_of(".gitignore");
    let d = chars_of(".gitattributes");
    chars_eq(n.as_slice(), a.as_slice()) || chars_eq(n.as_slice(), b.as_slice()) || chars_eq(
        n.as_slice(),
        c.as_slice(),
    ) || chars_eq(n.as_slice(), d.as_slice())
}

/// The build recipe itself first, then install scripts, then the rest.
pub open spec fn review_rank_spec(name: Seq<char>) -> u8 {
    if name == "PKGBUILD"@ {
        0
    } else if ends_with(name, ".install"@) {
        1
    } else {
        2
    }
}

pub fn review_rank(name: &str) -> (r: u8)
    ensures
        r == review_rank_spec(name@),
{
    let n = chars_of(name);
    let p = chars_of("PKGBUILD");
    if chars_eq(n.as_slice(), p.as_slice()) {
        return 0;
    }
    let s = chars_of(".install");
    if chars_end_with(n.as_slice(), s.as_slice()) {
        return 1;
    }
    2
}

pub open spec fn review_key(f: ReviewFile) -> KeyView {
    KeyView { a: review_rank_spec(f.name@), b: 0, c: 0, name: f.name@ }
}

/// The files of a package in the order in which they are shown: sorted
/// stably by [`review_rank_spec`], then by name.
pub fn sort_review_files(files: Vec<ReviewFile>) -> (r: Vec<ReviewFile>)
    ensures
        exists|p: Seq<usize>|
            {
                &&& is_permutation(p, files@.len())
                &&& stably_sorted(p, files@.map_values(|f: ReviewFile| review_key(f)))
                &&& r@.len() == files@.len()
                &&& forall|k: int| 0 <= k < r@.len() ==> #[trigger] r@[k] == files@[p[k] as int]
            },
{
    let ghost items = files@;
    let mut keys: Vec<SortKey> = Vec::new();
    let mut i: usize = 0;
    while i < files.len()
        invariant
            files@ == items,
            i <= files@.len(),
            keys@.len() == i,
            forall|k: int| 0 <= k < i ==> (#[trigger] keys@[k])@ == review_key(items[k]),
        decreases files@.len() - i,
    {
        let a = review_rank(files[i].name.as_str());
        let name = chars_of(files[i].name.as_str());
        keys.push(SortKey { a, b: 0, c: 0, name });
        i += 1;
    }
    let order = sort_order(&keys);
    proof {
        assert(key_views(keys@) =~= items.map_values(|f: ReviewFile| review_key(f)));
    }
    apply_order(files, &order)
}

// ---------------------------------------------------------------------
// Where clones are found
// ---------------------------------------------------------------------

/// The home directory whose caches are searched: that of the user who
/// started an elevated run, else `$HOME`.
pub fn user_home(original_user: Option<String>, home_env: Option<String>) -> (r: Option<String>)
    ensures
        match original_user {
            Some(u) => (r matches Some(h) && h@ == "/home/"@ + u@),
            None => r == home_env,
        },
{
    match original_user {
        Some(u) => {
            let mut h = string_from("/home/");
            push_str(&mut h, u.as_str());
            Some(h)
        },
        None => home_env,
    }
}

pub open spec fn clone_dirs(home: Seq<char>, package: Seq<char>) -> Seq<Seq<char>> {
    let cache = home + "/.cache"@;
    seq![
        cache + "/daim/aur/"@ + package,
        cache + "/paru/clone/"@ + package,
        cache + "/paru/"@ + package,
        cache + "/yay/"@ + package,
        cache + "/trizen/"@ + package,
        cache + "/pikaur/aur_repos/"@ + package,
    ]
}

fn cache_path(home: &str, middle: &str, package: &str) -> (r: String)
    ensures
        r@ == home@ + "/.cache"@ + middle@ + package@,
{
    let mut s = string_from(home);
    push_str(&mut s, "/.cache");
    push_str(&mut s, middle);
    push_str(&mut s, package);
    s
}

/// The directories, in order, where AUR helpers keep clones of `package`:
/// this application's own cache first, then those of paru, yay, trizen and
/// pikaur.
pub fn clone_dir_candidates(home: &str, package: &str) -> (r: Vec<String>)
    ensures
        r.deep_view() == clone_dirs(home@, package@),
{
    let mut v: Vec<String> = Vec::new();
    v.push(cache_path(home, "/daim/aur/", package));
    v.push(cache_path(home, "/paru/clone/", package));
    v.push(cache_path(home, "/paru/", package));
    v.push(cache_path(home, "/yay/", package));
    v.push(cache_path(home, "/trizen/", package));
    v.push(cache_path(home, "/pikaur/aur_repos/", package));
    proof {
        assert(v.deep_view() =~= clone_dirs(home@, package@));
    }
    v
}

// ---------------------------------------------------------------------
// Whether a review is shown
// ---------------------------------------------------------------------

/// A review is shown when the user always wants to see recipes, when there
/// is no earlier version to compare with, or when the changes need a look.
pub fn should_show(review: &PkgbuildReview, always: bool) -> (r: bool)
    ensures
        r == (always || review.diff is None || review.needs_review),
{
    if always {
        return true;
    }
    if review.diff.is_some() {
        return review.needs_review;
    }
    true
}

pub open spec fn shows(review: PkgbuildReview, always: bool) -> bool {
    always || review.diff is None || review.needs_review
}

/// The reviews that are shown, in their order.
pub open spec fn shown_reviews(rs: Seq<PkgbuildReview>, always: bool) -> Seq<PkgbuildReview>
    decreases rs.len(),
{
    if rs.len() == 0 {
        seq![]
    } else if shows(rs.last(), always) {
        shown_reviews(rs.drop_last(), always).push(rs.last())
    } else {
        shown_reviews(rs.drop_last(), always)
    }
}

/// Keeps the reviews that are shown before installing (see
/// [`should_show`]); when none is left, the install goes ahead at once.
pub fn reviews_to_show(reviews: Vec<PkgbuildReview>, always: bool) -> (r: Vec<PkgbuildReview>)
    ensures
        r@ == shown_reviews(reviews@, always),
{
    let ghost all = reviews@;
    let mut rest = reviews;
    let mut back: Vec<PkgbuildReview> = Vec::new();
    while rest.len() > 0
        invariant
            all == rest@ + back@.reverse(),
        decreases rest@.len(),
    {
        let x = rest.pop().unwrap();
        let ghost before = back@;
        back.push(x);
        proof {
            assert(back@.reverse() =~= seq![x] + before.reverse());
        }
    }
    proof {
        assert(rest@ =~= Seq::<PkgbuildReview>::empty());
        assert(all =~= back@.reverse());
    }
    let mut out: Vec<PkgbuildReview> = Vec::new();
    let ghost n = all.len();
    while back.len() > 0
        invariant
            n == all.len(),
            back@.len() <= n,
            back@.reverse() == all.skip(n - back@.len()),
            out@ == shown_reviews(all.take(n - back@.len()), always),
        decreases back@.len(),
    {
        let ghost k = n - back@.len();
        let ghost b0 = back@;
        let x = back.pop().unwrap();
        proof {
            assert(b0 =~= back@.push(x));
            assert(b0.reverse() =~= seq![x] + back@.reverse());
            assert((seq![x] + back@.reverse()).skip(1) =~= back@.reverse());
            assert(all.skip(k).skip(1) =~= all.skip(k + 1));
            assert(all.take(k + 1).drop_last() =~= all.take(k));
            assert(all.skip(k)[0] == x);
            assert(all.take(k + 1).last() == all[k]);
            assert(back@.reverse() =~= all.skip(k + 1));
        }
        let show = should_show(&x, always);
        if show {
            out.push(x);
        }
    }
    proof {
        assert(all.take(n as int) =~= all);
    }
    out
}

/// The review shown when a package's files could not be loaded.
pub fn unavailable_review(package: String) -> (r: PkgbuildReview)
    ensures
        r.package == package,
        r.diff is None,
        r.needs_review,
        r.files@.len() == 1,
        r.files@[0].name@ == "PKGBUILD"@,
        r.files@[0].content@ == "Could not load the package files for review."@,
{
    let mut files: Vec<ReviewFile> = Vec::new();
    files.push(
        ReviewFile {
            name: string_from("PKGBUILD"),
            content: string_from("Could not load the package files for review."),
        },
    );
    PkgbuildReview { package, diff: None, needs_review: true, files }
}

/// The review of an AUR package from the first source that gave one: an
/// earlier clone (its diff against the AUR, whether that needs a look, and
/// its files), else the files of a fresh clone when there are any, else the
/// `PKGBUILD` downloaded on its own (or why that failed). The caller asks
/// each source only when the ones before gave nothing.
pub fn review_from_sources(
    package: &str,
    clone: Option<(String, bool, Vec<ReviewFile>)>,
    fresh: Vec<ReviewFile>,
    remote: Option<Result<String, String>>,
) -> (r: Result<PkgbuildReview, String>)
    requires
        clone is Some || fresh@.len() > 0 || remote is Some,
    ensures
        clone matches Some(c) ==> (r matches Ok(v) && v.package@ == package@ && v.diff == Some(c.0)
            && v.needs_review == c.1 && v.files == c.2),
        clone is None && fresh@.len() > 0 ==> (r matches Ok(v) && v.package@ == package@ && v.diff is None
            && !v.needs_review && v.files == fresh),
        clone is None && fresh@.len() == 0 ==> (match remote {
            Some(Ok(text)) => r matches Ok(v) && v.package@ == package@ && v.diff is None
                && !v.needs_review && v.files@.len() == 1 && v.files@[0].name@ == "PKGBUILD"@
                && v.files@[0].content == text,
            Some(Err(e)) => r == Err::<PkgbuildReview, String>(e),
            None => false,
        }),
{
    if let Some((diff, needs_review, files)) = clone {
        return Ok(PkgbuildReview { package: string_from(package), diff: Some(diff), needs_review, files });
    }
    if fresh.len() > 0 {
        return Ok(PkgbuildReview { package: string_from(package), diff: None, needs_review: false, files: fresh });
    }
    match remote {
        Some(Ok(text)) => {
            let mut files: Vec<ReviewFile> = Vec::new();
            files.push(ReviewFile { name: string_from("PKGBUILD"), content: text });
            Ok(PkgbuildReview { package: string_from(package), diff: None, needs_review: false, files })
        },
        Some(Err(e)) => Err(e),
        None => Err(string_from(package)),
    }
}

// ---------------------------------------------------------------------
// The review of a clone
// ---------------------------------------------------------------------

/// The review of an existing clone from what `git diff HEAD FETCH_HEAD`
/// gave: none when git failed, else the diff and whether it needs a look.
pub fn review_from_diff(success: bool, diff: String) -> (r: Option<(String, bool)>)
    ensures
        !success ==> r is None,
        success ==> (r matches Some(p) && p.0@ == diff@ && p.1 == diff_needs_review(diff@)),
{
    if !success {
        return None;
    }
    let needs = diff_adds_or_removes_lines(diff.as_str());
    Some((diff, needs))
}

/// What `git diff HEAD FETCH_HEAD` in a package's earlier clone gave:
/// whether it succeeded and its output; none when there is no clone.
pub open spec fn git_view(g: Option<(bool, String)>) -> Option<(bool, Seq<char>)> {
    match g {
        Some(p) => Some((p.0, p.1@)),
        None => None,
    }
}

/// The review of the clone that such an outcome gives: the diff and
/// whether it needs a look, when git succeeded.
pub open spec fn clone_review_spec(g: Option<(bool, Seq<char>)>) -> Option<(Seq<char>, bool)> {
    match g {
        Some(p) => if p.0 {
            Some((p.1, diff_needs_review(p.1)))
        } else {
            None
        },
        None => None,
    }
}

/// Whether a review built from sources (see [`review_from_sources`]) needs
/// a look: only a clone's review can; fresh clones and downloads never do.
pub open spec fn prepared_needs_review(clone: Option<(Seq<char>, bool)>) -> bool {
    match clone {
        Some(c) => c.1,
        None => false,
    }
}

/// Whether a package's build recipe changed in a way that needs a look,
/// from what git said of its earlier clone: false without a clone or when
/// git failed.
pub fn pkgbuild_needs_review_from(g: Option<(bool, String)>) -> (r: bool)
    ensures
        r == prepared_needs_review(clone_review_spec(git_view(g))),
{
    match g {
        Some((success, diff)) => match review_from_diff(success, diff) {
            Some((_, needs)) => needs,
            None => false,
        },
        None => false,
    }
}

/// Law: the flag shown in the update list and the review shown before
/// building agree on whether a package's recipe needs a look, whenever both
/// come from the same outcome of git in the package's clone; with a diff,
/// that is whether the diff adds or removes lines.
pub proof fn lemma_review_paths_agree(g: Option<(bool, Seq<char>)>)
    ensures
        clone_review_spec(g) matches Some(c) ==> prepared_needs_review(clone_review_spec(g))
            == diff_needs_review(c.0),
        clone_review_spec(g) is None ==> !prepared_needs_review(clone_review_spec(g)),
{
}

/// The first candidate clone directory that is usable (it holds `.git`
/// and a `PKGBUILD`); a candidate without a report counts as unusable.
pub open spec fn first_usable(candidates: Seq<Seq<char>>, usable: Seq<bool>, from: int) -> Option<Seq<char>>
    decreases candidates.len() - from,
{
    if from < 0 || from >= candidates.len() {
        None
    } else if from < usable.len() && usable[from] {
        Some(candidates[from])
    } else {
        first_usable(candidates, usable, from + 1)
    }
}

pub fn find_clone_dir_in(candidates: &Vec<String>, usable: &[bool]) -> (r: Option<String>)
    ensures
        match r {
            Some(d) => first_usable(candidates.deep_view(), usable@, 0) == Some(d@),
            None => first_usable(candidates.deep_view(), usable@, 0) is None,
        },
{
    let ghost cs = candidates.deep_view();
    let mut i: usize = 0;
    while i < candidates.len()
        invariant
            cs == candidates.deep_view(),
            i <= cs.len(),
            first_usable(cs, usable@, 0) == first_usable(cs, usable@, i as int),
        decreases cs.len() - i,
    {
        if i < usable.len() && usable[i] {
            let d = candidates[i].clone();
            return Some(d);
        }
        i += 1;
    }
    None
}

// ---------------------------------------------------------------------
// How a file is shown for review
// ---------------------------------------------------------------------

/// `String::from_utf8`: the text of `bytes` when they are valid UTF-8,
/// holding exactly those bytes; nothing when they are not.
#[verifier::external_body]
pub(crate) fn text_from_utf8(bytes: Vec<u8>) -> (r: Option<String>)
    ensures
        r is Some <==> valid_utf8(bytes@),
        r matches Some(t) ==> encode_utf8(t@) == bytes@,
{
    String::from_utf8(bytes).ok()
}

/// Files over a million bytes are not shown.
pub open spec fn max_review_file_bytes() -> nat {
    1000000
}

/// How a file of a package is shown: a note with its size when it is too
/// large or binary (it holds a zero byte), a note when it is not valid
/// UTF-8, else its text.
pub open spec fn review_text_spec(bytes: Seq<u8>) -> Seq<char> {
    if bytes.len() > max_review_file_bytes() {
        "(file is "@ + decimal(bytes.len()) + " bytes, too large to display here)"@
    } else if bytes.contains(0u8) {
        "(binary file, "@ + decimal(bytes.len()) + " bytes, not shown)"@
    } else if valid_utf8(bytes) {
        decode_utf8(bytes)
    } else {
        "(file is not valid text, not shown)"@
    }
}

fn has_zero(bytes: &Vec<u8>) -> (r: bool)
    ensures
        r == bytes@.contains(0u8),
{
    let mut i: usize = 0;
    while i < bytes.len()
        invariant
            i <= bytes@.len(),
            forall|j: int| 0 <= j < i ==> bytes@[j] != 0u8,
        decreases bytes@.len() - i,
    {
        if bytes[i] == 0 {
            assert(bytes@[i as int] == 0u8);
            return true;
        }
        i += 1;
    }
    false
}

pub fn review_text(bytes: Vec<u8>) -> (r: String)
    ensures
        r@ == review_text_spec(bytes@),
{
    let n = bytes.len();
    if n > 1000000 {
        let mut s = string_from("(file is ");
        let d = fmt_u64(n as u64);
        push_str(&mut s, d.as_str());
        push_str(&mut s, " bytes, too large to display here)");
        return s;
    }
    if has_zero(&bytes) {
        let mut s = string_from("(binary file, ");
        let d = fmt_u64(n as u64);
        push_str(&mut s, d.as_str());
        push_str(&mut s, " bytes, not shown)");
        return s;
    }
    let ghost b = bytes@;
    match text_from_utf8(bytes) {
        Some(t) => {
            proof {
                broadcast use vstd::utf8::decode_utf8_encode_utf8;
                broadcast use vstd::utf8::encode_utf8_decode_utf8;
                assert(decode_utf8(encode_utf8(t@)) == t@);
            }
            t
        },
        None => string_from("(file is not valid text, not shown)"),
    }
}

} // verus!
