//! The command-line engine's decisions: how targets are split between the
//! repositories and the AUR, which dependencies still need installing, how
//! AUR metadata is read, and how answers and results are interpreted.
pub mod picks;
pub mod picker;
pub mod render;
pub mod resolve;

use vstd::prelude::*;

use crate::models::aur_build::AurBuild;
use crate::models::op::{Op, OpView};
use crate::models::package_source::PackageSource;
use crate::models::package_update::PackageUpdate;
use crate::models::response::{Response, ResponseView};
use crate::text::{
    ascii_lowercase, ascii_lowercase_chars, chars_eq, chars_of, chars_start_with, is_alnum,
    is_ascii_alnum, is_whitespace, is_ws, lines, lines_of, push_str, starts_with, string_from,
    string_of, trim, trim_chars, trim_start, utf8_len, utf8_longer_than,
};

verus! {

// ---------------------------------------------------------------------
// Targets
// ---------------------------------------------------------------------

/// Splits install targets between the repositories and the AUR, in order:
/// `aur/<name>` always goes to the AUR (as `<name>`), any other target goes
/// to the repositories when `is_repo` says that a repository has it, else to
/// the AUR.
pub open spec fn partition_spec(targets: Seq<Seq<char>>, is_repo: Seq<bool>) -> (
    Seq<Seq<char>>,
    Seq<Seq<char>>,
)
    decreases targets.len(),
{
    if targets.len() == 0 {
        (seq![], seq![])
    } else {
        let (repo, aur) = partition_spec(targets.drop_last(), is_repo.drop_last());
        let t = targets.last();
        if starts_with(t, "aur/"@) {
            (repo, aur.push(t.skip(4)))
        } else if is_repo.last() {
            (repo.push(t), aur)
        } else {
            (repo, aur.push(t))
        }
    }
}

/// Splits install targets between the repositories and the AUR. `is_repo[i]`
/// tells whether a repository has the package `targets[i]`; it is not read
/// for targets written `aur/<name>`.
pub fn partition_targets(targets: &Vec<String>, is_repo: &[bool]) -> (r: (
    Vec<String>,
    Vec<String>,
))
    requires
        is_repo@.len() == targets@.len(),
    ensures
        (r.0.deep_view(), r.1.deep_view()) == partition_spec(targets.deep_view(), is_repo@),
{
    let mut repo: Vec<String> = Vec::new();
    let mut aur: Vec<String> = Vec::new();
    let prefix = chars_of("aur/");
    proof {
        reveal_strlit("aur/");
    }
    let ghost ts = targets.deep_view();
    let mut i: usize = 0;
    while i < targets.len()
        invariant
            ts == targets.deep_view(),
            ts.len() == targets@.len(),
            is_repo@.len() == targets@.len(),
            prefix@ == "aur/"@,
            prefix@.len() == 4,
            i <= targets@.len(),
            (repo.deep_view(), aur.deep_view()) == partition_spec(
                ts.take(i as int),
                is_repo@.take(i as int),
            ),
        decreases targets@.len() - i,
    {
        let t = chars_of(targets[i].as_str());
        proof {
            assert(ts.take(i + 1).drop_last() =~= ts.take(i as int));
            assert(is_repo@.take(i + 1).drop_last() =~= is_repo@.take(i as int));
            assert(ts.take(i + 1).last() == t@);
        }
        let ghost r0 = repo.deep_view();
        let ghost a0 = aur.deep_view();
        if chars_start_with(t.as_slice(), prefix.as_slice()) {
            let mut name: Vec<char> = Vec::new();
            let mut j: usize = 4;
            while j < t.len()
                invariant
                    4 <= j <= t@.len(),
                    name@ == t@.subrange(4, j as int),
                decreases t@.len() - j,
            {
                name.push(t[j]);
                proof {
                    assert(t@.subrange(4, j + 1) =~= t@.subrange(4, j as int).push(t@[j as int]));
                }
                j += 1;
            }
            let s = string_of(name.as_slice());
            aur.push(s);
            proof {
                assert(aur.deep_view() =~= a0.push(t@.skip(4)));
            }
        } else if is_repo[i] {
            repo.push(targets[i].clone());
            proof {
                assert(repo.deep_view() =~= r0.push(t@));
            }
        } else {
            aur.push(targets[i].clone());
            proof {
                assert(aur.deep_view() =~= a0.push(t@));
            }
        }
        i += 1;
    }
    proof {
        assert(ts.take(i as int) =~= ts);
        assert(is_repo@.take(i as int) =~= is_repo@);
    }
    (repo, aur)
}

/// Law: every install target ends up in exactly one of the two lists.
pub proof fn lemma_partition_counts(targets: Seq<Seq<char>>, is_repo: Seq<bool>)
    requires
        is_repo.len() == targets.len(),
    ensures
        partition_spec(targets, is_repo).0.len() + partition_spec(targets, is_repo).1.len()
            == targets.len(),
    decreases targets.len(),
{
    if targets.len() > 0 {
        lemma_partition_counts(targets.drop_last(), is_repo.drop_last());
    }
}

/// The repository dependencies still to install, in order of first mention:
/// each name once, and only when `satisfied` (for its first mention) says
/// that it is not installed yet.
pub open spec fn pending_spec(deps: Seq<Seq<char>>, satisfied: Seq<bool>) -> Seq<Seq<char>>
    decreases deps.len(),
{
    if deps.len() == 0 {
        seq![]
    } else {
        let prev = pending_spec(deps.drop_last(), satisfied.drop_last());
        if deps.drop_last().contains(deps.last()) || satisfied.last() {
            prev
        } else {
            prev.push(deps.last())
        }
    }
}

fn seen_before(deps: &Vec<String>, i: usize) -> (r: bool)
    requires
        i < deps@.len(),
    ensures
        r == deps.deep_view().take(i as int).contains(deps.deep_view()[i as int]),
{
    let ghost ds = deps.deep_view();
    let target = chars_of(deps[i].as_str());
    let mut j: usize = 0;
    while j < i
        invariant
            i < deps@.len(),
            ds == deps.deep_view(),
            target@ == ds[i as int],
            j <= i,
            forall|k: int| 0 <= k < j ==> ds[k] != ds[i as int],
        decreases i - j,
    {
        let other = chars_of(deps[j].as_str());
        if chars_eq(other.as_slice(), target.as_slice()) {
            proof {
                assert(ds.take(i as int)[j as int] == ds[i as int]);
            }
            return true;
        }
        j += 1;
    }
    proof {
        if ds.take(i as int).contains(ds[i as int]) {
            let k = choose|k: int| 0 <= k < i && ds.take(i as int)[k] == ds[i as int];
            assert(ds.take(i as int)[k] == ds[k]);
        }
    }
    false
}

/// The dependencies that still need installing: each name once, in order of
/// first mention, leaving out those that `satisfied` marks as installed.
/// `satisfied[i]` says whether `deps[i]` is installed; only the first
/// mention of a name is consulted.
pub fn pending_repo_deps(deps: &Vec<String>, satisfied: &[bool]) -> (r: Vec<String>)
    requires
        satisfied@.len() == deps@.len(),
    ensures
        r.deep_view() == pending_spec(deps.deep_view(), satisfied@),
{
    let mut out: Vec<String> = Vec::new();
    let ghost ds = deps.deep_view();
    let mut i: usize = 0;
    while i < deps.len()
        invariant
            ds == deps.deep_view(),
            ds.len() == deps@.len(),
            satisfied@.len() == deps@.len(),
            i <= deps@.len(),
            out.deep_view() == pending_spec(ds.take(i as int), satisfied@.take(i as int)),
        decreases deps@.len() - i,
    {
        proof {
            assert(ds.take(i + 1).drop_last() =~= ds.take(i as int));
            assert(satisfied@.take(i + 1).drop_last() =~= satisfied@.take(i as int));
            assert(ds.take(i + 1).last() == ds[i as int]);
        }
        let seen = seen_before(deps, i);
        if !seen && !satisfied[i] {
            let ghost o0 = out.deep_view();
            out.push(deps[i].clone());
            proof {
                assert(out.deep_view() =~= o0.push(ds[i as int]));
            }
        }
        i += 1;
    }
    proof {
        assert(ds.take(i as int) =~= ds);
        assert(satisfied@.take(i as int) =~= satisfied@);
    }
    out
}

proof fn lemma_pending_contains(deps: Seq<Seq<char>>, satisfied: Seq<bool>, x: Seq<char>)
    requires
        satisfied.len() == deps.len(),
        pending_spec(deps, satisfied).contains(x),
    ensures
        deps.contains(x),
    decreases deps.len(),
{
    if deps.len() > 0 {
        let prev = pending_spec(deps.drop_last(), satisfied.drop_last());
        if prev.contains(x) {
            lemma_pending_contains(deps.drop_last(), satisfied.drop_last(), x);
            let k = choose|k: int| 0 <= k < deps.drop_last().len() && deps.drop_last()[k] == x;
            assert(deps[k] == x);
        } else {
            assert(deps.last() == x);
            assert(deps[deps.len() - 1] == x);
        }
    }
}

/// Law: the pending dependencies name each package at most once.
pub proof fn lemma_pending_distinct(deps: Seq<Seq<char>>, satisfied: Seq<bool>)
    requires
        satisfied.len() == deps.len(),
    ensures
        forall|i: int, j: int|
            0 <= i < j < pending_spec(deps, satisfied).len() ==> pending_spec(deps, satisfied)[i]
                != pending_spec(deps, satisfied)[j],
    decreases deps.len(),
{
    if deps.len() > 0 {
        lemma_pending_distinct(deps.drop_last(), satisfied.drop_last());
        let prev = pending_spec(deps.drop_last(), satisfied.drop_last());
        let cur = pending_spec(deps, satisfied);
        if !(deps.drop_last().contains(deps.last()) || satisfied.last()) {
            assert forall|i: int, j: int| 0 <= i < j < cur.len() implies cur[i] != cur[j] by {
                if j == prev.len() && cur[i] == cur[j] {
                    assert(prev.contains(deps.last()));
                    lemma_pending_contains(deps.drop_last(), satisfied.drop_last(), deps.last());
                }
            }
        }
    }
}

// ---------------------------------------------------------------------
// AUR names and dependency strings
// ---------------------------------------------------------------------

pub open spec fn aur_name_char_ok(c: char) -> bool {
    is_ascii_alnum(c) || c == '@' || c == '.' || c == '_' || c == '+' || c == '-'
}

/// The names that are fetched from the AUR: 1 to 256 bytes, not starting with
/// `-` or `.`, made of ASCII letters, digits and `@._+-`.
pub open spec fn valid_aur_name(name: Seq<char>) -> bool {
    &&& name.len() > 0
    &&& utf8_len(name) <= 256
    &&& name[0] != '-'
    &&& name[0] != '.'
    &&& forall|i: int| 0 <= i < name.len() ==> aur_name_char_ok(#[trigger] name[i])
}

/// The characters of an AUR package name: ASCII letters and digits and
/// `@ . _ + -`.
pub open spec fn aur_name_char(c: char) -> bool {
    ||| 'a' <= c <= 'z'
    ||| 'A' <= c <= 'Z'
    ||| '0' <= c <= '9'
    ||| c == '@' || c == '.' || c == '_' || c == '+' || c == '-'
}

proof fn lemma_ascii_utf8_len(s: Seq<char>)
    requires
        forall|i: int| 0 <= i < s.len() ==> (#[trigger] s[i] as u32) < 0x80,
    ensures
        utf8_len(s) == s.len(),
    decreases s.len(),
{
    if s.len() > 0 {
        lemma_ascii_utf8_len(s.drop_last());
        assert((s[s.len() - 1] as u32) < 0x80);
    }
}

/// Law: a name is taken for an AUR package exactly when it has 1 to 256
/// characters, all ASCII letters, digits or `@ . _ + -`, and does not start
/// with `-` or `.`; so a name may start with a digit or a letter of either
/// case, or with `@`, `_` or `+`.
pub proof fn lemma_aur_names(name: Seq<char>)
    requires
        forall|i: int| 0 <= i < name.len() ==> aur_name_char(#[trigger] name[i]),
    ensures
        valid_aur_name(name) == (1 <= name.len() <= 256 && name[0] != '-' && name[0] != '.'),
{
    assert forall|i: int| 0 <= i < name.len() implies (#[trigger] name[i] as u32) < 0x80 && aur_name_char_ok(
        name[i],
    ) by {
        assert(aur_name_char(name[i]));
    }
    lemma_ascii_utf8_len(name);
}

/// Law: a name with a character other than ASCII letters, digits and
/// `@ . _ + -`, an empty name, and a name starting with `-` or `.` are
/// refused.
pub proof fn lemma_aur_names_refused(name: Seq<char>)
    ensures
        name.len() == 0 ==> !valid_aur_name(name),
        name.len() > 0 && (name[0] == '-' || name[0] == '.') ==> !valid_aur_name(name),
        (exists|i: int| 0 <= i < name.len() && !aur_name_char(#[trigger] name[i])) ==> !valid_aur_name(
            name,
        ),
{
    if exists|i: int| 0 <= i < name.len() && !aur_name_char(#[trigger] name[i]) {
        let i = choose|i: int| 0 <= i < name.len() && !aur_name_char(#[trigger] name[i]);
        assert(!aur_name_char_ok(name[i]));
    }
}

pub fn is_valid_aur_name(name: &str) -> (r: bool)
    ensures
        r == valid_aur_name(name@),
{
    let c = chars_of(name);
    if c.len() == 0 || utf8_longer_than(c.as_slice(), 256) {
        return false;
    }
    if c[0] == '-' || c[0] == '.' {
        return false;
    }
    let mut i: usize = 0;
    while i < c.len()
        invariant
            c@ == name@,
            i <= c@.len(),
            forall|j: int| 0 <= j < i ==> aur_name_char_ok(#[trigger] c@[j]),
        decreases c@.len() - i,
    {
        let x = c[i];
        if !(is_alnum(x) || x == '@' || x == '.' || x == '_' || x == '+' || x == '-') {
            assert(!aur_name_char_ok(c@[i as int]));
            return false;
        }
        i += 1;
    }
    true
}

pub open spec fn is_version_op(c: char) -> bool {
    c == '>' || c == '<' || c == '='
}

/// The package name of a dependency such as `foo>=1.2`: everything before
/// the first `>`, `<` or `=`.
pub open spec fn base_name_spec(dep: Seq<char>) -> Seq<char>
    decreases dep.len(),
{
    if dep.len() == 0 || is_version_op(dep[0]) {
        seq![]
    } else {
        seq![dep[0]] + base_name_spec(dep.drop_first())
    }
}

pub fn dependency_base_name(dependency: &str) -> (r: String)
    ensures
        r@ == base_name_spec(dependency@),
{
    let c = chars_of(dependency);
    let mut i: usize = 0;
    let ghost d = dependency@;
    proof {
        assert(d.skip(0) =~= d);
        assert(d.take(0) + base_name_spec(d) =~= base_name_spec(d));
    }
    while i < c.len() && !(c[i] == '>' || c[i] == '<' || c[i] == '=')
        invariant
            c@ == d,
            i <= c@.len(),
            base_name_spec(d) == d.take(i as int) + base_name_spec(d.skip(i as int)),
        decreases c@.len() - i,
    {
        proof {
            let rest = d.skip(i as int);
            assert(rest[0] == d[i as int]);
            assert(rest.drop_first() =~= d.skip(i + 1));
            assert(d.take(i + 1) =~= d.take(i as int) + seq![d[i as int]]);
        }
        i += 1;
    }
    proof {
        let rest = d.skip(i as int);
        if i < d.len() {
            assert(rest[0] == d[i as int]);
        }
        assert(base_name_spec(rest) == Seq::<char>::empty());
        assert(d.take(i as int) + Seq::<char>::empty() =~= d.take(i as int));
    }
    let mut out: Vec<char> = Vec::new();
    let mut j: usize = 0;
    while j < i
        invariant
            j <= i <= c@.len(),
            out@ == c@.take(j as int),
        decreases i - j,
    {
        out.push(c[j]);
        proof {
            assert(c@.take(j + 1) =~= c@.take(j as int).push(c@[j as int]));
        }
        j += 1;
    }
    string_of(out.as_slice())
}

// ---------------------------------------------------------------------
// .SRCINFO
// ---------------------------------------------------------------------

pub open spec fn srcinfo_keys() -> Seq<Seq<char>> {
    seq!["depends"@, "makedepends"@, "checkdepends"@]
}

/// The dependency that a trimmed `.SRCINFO` line declares under `key`, if
/// any: the line is `key`, optional whitespace, `=`, and a non-empty value.
pub open spec fn key_value(line: Seq<char>, key: Seq<char>) -> Seq<Seq<char>> {
    if starts_with(line, key) {
        let rest = trim_start(line.skip(key.len() as int));
        if rest.len() > 0 && rest[0] == '=' && trim(rest.drop_first()).len() > 0 {
            seq![trim(rest.drop_first())]
        } else {
            seq![]
        }
    } else {
        seq![]
    }
}

pub open spec fn line_deps(line: Seq<char>) -> Seq<Seq<char>> {
    let t = trim(line);
    key_value(t, "depends"@) + key_value(t, "makedepends"@) + key_value(t, "checkdepends"@)
}

pub open spec fn srcinfo_deps_of(ls: Seq<Seq<char>>) -> Seq<Seq<char>>
    decreases ls.len(),
{
    if ls.len() == 0 {
        seq![]
    } else {
        srcinfo_deps_of(ls.drop_last()) + line_deps(ls.last())
    }
}

fn skip_chars(v: &[char], k: usize) -> (r: Vec<char>)
    requires
        k <= v@.len(),
    ensures
        r@ == v@.skip(k as int),
{
    let mut r: Vec<char> = Vec::new();
    let mut i = k;
    while i < v.len()
        invariant
            k <= i <= v@.len(),
            r@ == v@.subrange(k as int, i as int),
        decreases v@.len() - i,
    {
        r.push(v[i]);
        proof {
            assert(v@.subrange(k as int, i + 1) =~= v@.subrange(k as int, i as int).push(v@[i as int]));
        }
        i += 1;
    }
    r
}

fn trim_start_chars(v: &[char]) -> (r: Vec<char>)
    ensures
        r@ == trim_start(v@),
{
    let mut a: usize = 0;
    assert(v@.skip(0) =~= v@);
    while a < v.len() && is_whitespace(v[a])
        invariant
            a <= v@.len(),
            trim_start(v@) == trim_start(v@.skip(a as int)),
        decreases v@.len() - a,
    {
        proof {
            assert(v@.skip(a as int).drop_first() =~= v@.skip(a + 1));
        }
        a += 1;
    }
    proof {
        let t = v@.skip(a as int);
        if t.len() > 0 {
            assert(t[0] == v@[a as int]);
        }
    }
    skip_chars(v, a)
}

fn key_value_exec(line: &[char], key: &str, out: &mut Vec<String>)
    ensures
        final(out).deep_view() == old(out).deep_view() + key_value(line@, key@),
{
    let k = chars_of(key);
    let ghost o0 = out.deep_view();
    if chars_start_with(line, k.as_slice()) {
        let after = skip_chars(line, k.len());
        let rest = trim_start_chars(after.as_slice());
        if rest.len() > 0 && rest[0] == '=' {
            let value = skip_chars(rest.as_slice(), 1);
            proof {
                assert(value@ =~= rest@.drop_first());
            }
            let v = trim_chars(value.as_slice());
            if v.len() > 0 {
                out.push(string_of(v.as_slice()));
                proof {
                    assert(out.deep_view() =~= o0 + key_value(line@, key@));
                }
                return;
            }
        }
    }
    proof {
        assert(o0 + Seq::<Seq<char>>::empty() =~= o0);
    }
}

/// The dependencies (`depends`, `makedepends` and `checkdepends`) that a
/// `.SRCINFO` file declares, in the order of its lines.
pub fn parse_srcinfo_deps(content: &str) -> (r: Vec<String>)
    ensures
        r.deep_view() == srcinfo_deps_of(lines(content@)),
{
    let ls = lines_of(content);
    let ghost all = ls.deep_view();
    let mut out: Vec<String> = Vec::new();
    let mut i: usize = 0;
    while i < ls.len()
        invariant
            all == ls.deep_view(),
            all.len() == ls@.len(),
            i <= ls@.len(),
            out.deep_view() == srcinfo_deps_of(all.take(i as int)),
        decreases ls@.len() - i,
    {
        let t = trim_chars(ls[i].as_slice());
        proof {
            assert(ls@[i as int]@ == all[i as int]);
            assert(all.take(i + 1).drop_last() =~= all.take(i as int));
        }
        let ghost o0 = out.deep_view();
        key_value_exec(t.as_slice(), "depends", &mut out);
        key_value_exec(t.as_slice(), "makedepends", &mut out);
        key_value_exec(t.as_slice(), "checkdepends", &mut out);
        proof {
            assert(out.deep_view() =~= o0 + line_deps(all[i as int]));
        }
        i += 1;
    }
    proof {
        assert(all.take(i as int) =~= all);
    }
    out
}

// ---------------------------------------------------------------------
// Answers, results and follow-up requests
// ---------------------------------------------------------------------

/// Whether a typed answer accepts: `y` or `yes` in any ASCII case, with
/// surrounding whitespace ignored; an empty answer accepts when
/// `empty_accepts`.
pub open spec fn accepts_answer(line: Seq<char>, empty_accepts: bool) -> bool {
    let a = ascii_lowercase(trim(line));
    (empty_accepts && a.len() == 0) || a == "y"@ || a == "yes"@
}

pub fn answer_accepts(line: &str, empty_accepts: bool) -> (r: bool)
    ensures
        r == accepts_answer(line@, empty_accepts),
{
    let c = chars_of(line);
    let t = trim_chars(c.as_slice());
    let a = ascii_lowercase_chars(t.as_slice());
    let y = chars_of("y");
    let yes = chars_of("yes");
    (empty_accepts && a.len() == 0) || chars_eq(a.as_slice(), y.as_slice()) || chars_eq(
        a.as_slice(),
        yes.as_slice(),
    )
}

/// The exit status that the command line reports for a failed request: the
/// command's own exit code, or 1 when the helper answered with an error.
pub fn failure_exit_code(resp: &Response) -> (r: i32)
    ensures
        r == (match resp@ {
            ResponseView::Done { exit_code, .. } => exit_code,
            ResponseView::Error { .. } => 1,
        }),
{
    match resp {
        Response::Done { exit_code, .. } => *exit_code,
        Response::Error { .. } => 1,
    }
}

/// The request that builds and installs an AUR package; packages pulled in
/// only as dependencies are installed as dependencies.
pub fn aur_build_op(build: &AurBuild) -> (op: Op)
    ensures
        op@ == (OpView::AurBuildInstall { name: build.name@, as_deps: !build.explicit }),
{
    Op::AurBuildInstall { name: string_from(build.name.as_str()), as_deps: !build.explicit }
}

/// Where an install stops before it sends anything: with exit status 2
/// when no package was named, with 1 when the review of the AUR packages
/// was shown (`reviewed`) and declined; `None` to go on.
pub fn install_stop(target_count: usize, reviewed: bool, accepted: bool) -> (r: Option<i32>)
    ensures
        target_count == 0 ==> r == Some(2i32),
        target_count > 0 && reviewed && !accepted ==> r == Some(1i32),
        target_count > 0 && !(reviewed && !accepted) ==> r is None,
{
    if target_count == 0 {
        Some(2)
    } else if reviewed && !accepted {
        Some(1)
    } else {
        None
    }
}

/// The review of the AUR packages is shown unless the user skipped it or
/// there is nothing to build.
pub fn review_wanted(skip_review: bool, build_count: usize) -> (r: bool)
    ensures
        r == (!skip_review && build_count > 0),
{
    !skip_review && build_count > 0
}

/// The requests of an install, in the order they are made: the repository
/// targets (when there are any), then the repository dependencies of the
/// AUR packages as dependencies (when there are any), then each AUR build in
/// plan order. The install stops at the first request that fails.
pub open spec fn install_requests_spec(
    repo_targets: Seq<Seq<char>>,
    reinstall: bool,
    repo_deps: Seq<Seq<char>>,
    builds: Seq<AurBuild>,
) -> Seq<OpView> {
    (if repo_targets.len() > 0 {
        seq![OpView::Install { targets: repo_targets, as_deps: false, reinstall }]
    } else {
        seq![]
    }) + (if repo_deps.len() > 0 {
        seq![OpView::Install { targets: repo_deps, as_deps: true, reinstall: false }]
    } else {
        seq![]
    }) + builds.map_values(|b: AurBuild| OpView::AurBuildInstall { name: b.name@, as_deps: !b.explicit })
}

pub fn install_requests(
    repo_targets: Vec<String>,
    reinstall: bool,
    repo_deps: Vec<String>,
    builds: &Vec<AurBuild>,
) -> (r: Vec<Op>)
    ensures
        r@.map_values(|o: Op| o@) == install_requests_spec(
            repo_targets.deep_view(),
            reinstall,
            repo_deps.deep_view(),
            builds@,
        ),
{
    let ghost rt = repo_targets.deep_view();
    let ghost rd = repo_deps.deep_view();
    let mut out: Vec<Op> = Vec::new();
    if repo_targets.len() > 0 {
        out.push(Op::Install { targets: repo_targets, as_deps: false, reinstall });
    }
    if repo_deps.len() > 0 {
        out.push(Op::Install { targets: repo_deps, as_deps: true, reinstall: false });
    }
    let ghost head = out@.map_values(|o: Op| o@);
    proof {
        assert(head =~= (if rt.len() > 0 {
            seq![OpView::Install { targets: rt, as_deps: false, reinstall }]
        } else {
            seq![]
        }) + (if rd.len() > 0 {
            seq![OpView::Install { targets: rd, as_deps: true, reinstall: false }]
        } else {
            seq![]
        }));
    }
    let ghost bs = builds@.map_values(|b: AurBuild| OpView::AurBuildInstall { name: b.name@, as_deps: !b.explicit });
    let mut i: usize = 0;
    while i < builds.len()
        invariant
            i <= builds@.len(),
            bs == builds@.map_values(|b: AurBuild| OpView::AurBuildInstall { name: b.name@, as_deps: !b.explicit }),
            out@.map_values(|o: Op| o@) == head + bs.take(i as int),
        decreases builds@.len() - i,
    {
        let ghost before = out@;
        let op = aur_build_op(&builds[i]);
        out.push(op);
        proof {
            assert(out@.map_values(|o: Op| o@) =~= before.map_values(|o: Op| o@).push(op@));
            assert(bs.take(i + 1) =~= bs.take(i as int).push(bs[i as int]));
        }
        i += 1;
    }
    proof {
        assert(bs.take(builds@.len() as int) =~= bs);
    }
    out
}

/// What an AUR build reports: success when the helper reports exit status
/// 0, else the message `failed to install <name>`.
pub fn check_build_response(name: &str, resp: &Response) -> (r: Result<(), String>)
    ensures
        r is Ok <==> (resp@ matches ResponseView::Done { exit_code, .. } && exit_code == 0),
        r matches Err(m) ==> m@ == "failed to install "@ + name@,
{
    if resp.is_success() {
        Ok(())
    } else {
        let mut m = string_from("failed to install ");
        push_str(&mut m, name);
        Err(m)
    }
}

/// How the selected updates are carried out: repository and AUR packages
/// become install targets (AUR ones written `aur/<name>`), Flatpak and
/// AppImage updates are handed on by index.
pub open spec fn selected_targets(pkgs: Seq<PackageUpdate>) -> Seq<Seq<char>>
    decreases pkgs.len(),
{
    if pkgs.len() == 0 {
        seq![]
    } else {
        let prev = selected_targets(pkgs.drop_last());
        let p = pkgs.last();
        match p.source {
            PackageSource::Aur => prev.push("aur/"@ + p.name@),
            PackageSource::Official => prev.push(p.name@),
            _ => prev,
        }
    }
}

pub open spec fn indices_with(pkgs: Seq<PackageUpdate>, src: PackageSource) -> Seq<usize>
    decreases pkgs.len(),
{
    if pkgs.len() == 0 {
        seq![]
    } else {
        let prev = indices_with(pkgs.drop_last(), src);
        if pkgs.last().source == src {
            prev.push((pkgs.len() - 1) as usize)
        } else {
            prev
        }
    }
}

/// Splits the selected updates into install targets, and the indices of the
/// Flatpak and of the AppImage updates.
pub fn split_selected_updates(selected: &Vec<PackageUpdate>) -> (r: (
    Vec<String>,
    Vec<usize>,
    Vec<usize>,
))
    ensures
        r.0.deep_view() == selected_targets(selected@),
        r.1@ == indices_with(selected@, PackageSource::Flatpak),
        r.2@ == indices_with(selected@, PackageSource::AppImage),
{
    let mut targets: Vec<String> = Vec::new();
    let mut flatpak: Vec<usize> = Vec::new();
    let mut appimage: Vec<usize> = Vec::new();
    let mut i: usize = 0;
    while i < selected.len()
        invariant
            i <= selected@.len(),
            targets.deep_view() == selected_targets(selected@.take(i as int)),
            flatpak@ == indices_with(selected@.take(i as int), PackageSource::Flatpak),
            appimage@ == indices_with(selected@.take(i as int), PackageSource::AppImage),
        decreases selected@.len() - i,
    {
        let p = &selected[i];
        proof {
            assert(selected@.take(i + 1).drop_last() =~= selected@.take(i as int));
            assert(selected@.take(i + 1).last() == selected@[i as int]);
        }
        let ghost t0 = targets.deep_view();
        match p.source {
            PackageSource::Aur => {
                let mut s = string_from("aur/");
                push_str(&mut s, p.name.as_str());
                targets.push(s);
                proof {
                    assert(targets.deep_view() =~= t0.push("aur/"@ + p.name@));
                }
            },
            PackageSource::Official => {
                targets.push(string_from(p.name.as_str()));
                proof {
                    assert(targets.deep_view() =~= t0.push(p.name@));
                }
            },
            PackageSource::Flatpak => {
                flatpak.push(i);
            },
            PackageSource::AppImage => {
                appimage.push(i);
            },
        }
        i += 1;
    }
    proof {
        assert(selected@.take(i as int) =~= selected@);
    }
    (targets, flatpak, appimage)
}

// ---------------------------------------------------------------------
// Picking search results, cleaning up, and showing recipes
// ---------------------------------------------------------------------

/// The install targets for the picked search results, in pick order: AUR
/// results are written `aur/<name>`, others by name.
pub open spec fn pick_target(p: PackageUpdate) -> Seq<char> {
    if p.source == PackageSource::Aur {
        "aur/"@ + p.name@
    } else {
        p.name@
    }
}

pub fn picked_targets(items: &Vec<PackageUpdate>, picks: &Vec<usize>) -> (r: Vec<String>)
    requires
        forall|k: int| 0 <= k < picks@.len() ==> #[trigger] picks@[k] < items@.len(),
    ensures
        r.deep_view().len() == picks@.len(),
        forall|k: int| 0 <= k < picks@.len() ==> #[trigger] r.deep_view()[k] == pick_target(
            items@[picks@[k] as int],
        ),
{
    let mut out: Vec<String> = Vec::new();
    let mut k: usize = 0;
    while k < picks.len()
        invariant
            k <= picks@.len(),
            forall|j: int| 0 <= j < picks@.len() ==> #[trigger] picks@[j] < items@.len(),
            out.deep_view().len() == k,
            forall|j: int| 0 <= j < k ==> #[trigger] out.deep_view()[j] == pick_target(
                items@[picks@[j] as int],
            ),
        decreases picks@.len() - k,
    {
        let item = &items[picks[k]];
        let t = if item.source == PackageSource::Aur {
            let mut s = string_from("aur/");
            push_str(&mut s, item.name.as_str());
            s
        } else {
            string_from(item.name.as_str())
        };
        let ghost o0 = out.deep_view();
        out.push(t);
        proof {
            assert(out.deep_view() =~= o0.push(pick_target(items@[picks@[k as int] as int])));
        }
        k += 1;
    }
    out
}

/// The build-only dependencies that are removed after AUR builds: those
/// installed for the builds that nothing needs any more (`orphans`), in
/// order.
pub open spec fn removable_spec(installed: Seq<Seq<char>>, orphans: Seq<Seq<char>>) -> Seq<Seq<char>>
    decreases installed.len(),
{
    if installed.len() == 0 {
        seq![]
    } else if orphans.contains(installed.last()) {
        removable_spec(installed.drop_last(), orphans).push(installed.last())
    } else {
        removable_spec(installed.drop_last(), orphans)
    }
}

fn contains_string(v: &Vec<String>, s: &str) -> (r: bool)
    ensures
        r == v.deep_view().contains(s@),
{
    let mut i: usize = 0;
    while i < v.len()
        invariant
            i <= v@.len(),
            forall|j: int| 0 <= j < i ==> v.deep_view()[j] != s@,
        decreases v@.len() - i,
    {
        let a = chars_of(v[i].as_str());
        let b = chars_of(s);
        if chars_eq(a.as_slice(), b.as_slice()) {
            assert(v.deep_view()[i as int] == s@);
            return true;
        }
        i += 1;
    }
    false
}

pub fn removable_make_deps(installed: &Vec<String>, orphans: &Vec<String>) -> (r: Vec<String>)
    ensures
        r.deep_view() == removable_spec(installed.deep_view(), orphans.deep_view()),
{
    let ghost all = installed.deep_view();
    let mut out: Vec<String> = Vec::new();
    let mut i: usize = 0;
    while i < installed.len()
        invariant
            all == installed.deep_view(),
            i <= installed@.len(),
            out.deep_view() == removable_spec(all.take(i as int), orphans.deep_view()),
        decreases installed@.len() - i,
    {
        proof {
            assert(all.take(i + 1).drop_last() =~= all.take(i as int));
            assert(all.take(i + 1).last() == installed@[i as int]@);
        }
        if contains_string(orphans, installed[i].as_str()) {
            let ghost o0 = out.deep_view();
            out.push(installed[i].clone());
            proof {
                assert(out.deep_view() =~= o0.push(installed@[i as int]@));
            }
        }
        i += 1;
    }
    proof {
        assert(all.take(i as int) =~= all);
    }
    out
}

/// What is shown of a package before it is built from the AUR.
#[derive(Debug, Clone, PartialEq, Eq)]
pub enum RecipeShow {
    /// The changes since the installed version.
    Changes(String),
    /// The package files did not change since the installed version.
    NoChanges,
    /// The PKGBUILD itself.
    Pkgbuild,
}

/// Whether the changes since the installed version are asked of git: only
/// for a package that was pulled (not freshly cloned) from a known commit.
pub fn wants_diff(fresh: bool, prev_commit: &Option<String>) -> (r: bool)
    ensures
        r == (!fresh && prev_commit is Some),
{
    !fresh && prev_commit.is_some()
}

/// What is shown given what `git diff` gave (when it was asked): its
/// changes when there are any besides whitespace, a note when there are
/// none, the PKGBUILD when git gave nothing.
pub fn recipe_show(diff: Option<String>) -> (r: RecipeShow)
    ensures
        match diff {
            Some(d) => if trim(d@).len() > 0 {
                r matches RecipeShow::Changes(c) && c@ == d@
            } else {
                r == RecipeShow::NoChanges
            },
            None => r == RecipeShow::Pkgbuild,
        },
{
    match diff {
        Some(d) => {
            let c = chars_of(d.as_str());
            let t = trim_chars(c.as_slice());
            if t.len() > 0 {
                RecipeShow::Changes(d)
            } else {
                RecipeShow::NoChanges
            }
        },
        None => RecipeShow::Pkgbuild,
    }
}

} // verus!
