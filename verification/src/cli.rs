//! Reading the command lines of `daim`, `daim-helper` and `daim-check`.
use vstd::prelude::*;

use crate::ipc::server::Config;
use crate::models::mirror_tool::MirrorTool;
use crate::models::op::{Op, OpView};
use crate::text::{
    chars_eq, chars_of, is_whitespace, is_ws, lines, lines_of, parse_u32, parse_unsigned,
    push_str, string_from, string_of, trim, trim_chars, trim_start,
};

verus! {

// ---------------------------------------------------------------------
// Lists of words
// ---------------------------------------------------------------------

/// The words of `ws` joined with single spaces, as `join(" ")` does.
pub open spec fn join_spaced(ws: Seq<Seq<char>>) -> Seq<char>
    decreases ws.len(),
{
    if ws.len() == 0 {
        seq![]
    } else if ws.len() == 1 {
        ws[0]
    } else {
        join_spaced(ws.drop_last()) + " "@ + ws.last()
    }
}

pub fn join_words(ws: &[String]) -> (r: String)
    ensures
        r@ == join_spaced(ws@.map_values(|s: String| s@)),
{
    let ghost v = ws@.map_values(|s: String| s@);
    let mut r = String::new();
    let mut i: usize = 0;
    while i < ws.len()
        invariant
            v == ws@.map_values(|s: String| s@),
            i <= ws@.len(),
            r@ == join_spaced(v.take(i as int)),
        decreases ws@.len() - i,
    {
        proof {
            assert(v.take(i + 1).drop_last() =~= v.take(i as int));
            assert(v.take(i + 1).last() == ws@[i as int]@);
        }
        if i > 0 {
            push_str(&mut r, " ");
        } else {
            proof {
                assert(v.take(1) =~= seq![ws@[0]@]);
            }
        }
        push_str(&mut r, ws[i].as_str());
        proof {
            if i == 0 {
                assert(r@ =~= ws@[0]@);
            }
        }
        i += 1;
    }
    proof {
        assert(v.take(i as int) =~= v);
    }
    r
}

/// The position of the first `x` in `s`, or -1.
pub open spec fn index_of(s: Seq<Seq<char>>, x: Seq<char>) -> int
    decreases s.len(),
{
    if s.len() == 0 {
        -1
    } else if s[0] == x {
        0
    } else if index_of(s.drop_first(), x) < 0 {
        -1
    } else {
        index_of(s.drop_first(), x) + 1
    }
}

proof fn lemma_index_of_bounds(s: Seq<Seq<char>>, x: Seq<char>)
    ensures
        -1 <= index_of(s, x) < s.len(),
        index_of(s, x) >= 0 ==> s[index_of(s, x)] == x,
    decreases s.len(),
{
    if s.len() > 0 {
        lemma_index_of_bounds(s.drop_first(), x);
    }
}

fn position_of(s: &[String], x: &str) -> (r: Option<usize>)
    ensures
        match r {
            Some(i) => index_of(s@.map_values(|t: String| t@), x@) == i as int,
            None => index_of(s@.map_values(|t: String| t@), x@) == -1,
        },
{
    let ghost v = s@.map_values(|t: String| t@);
    let xc = chars_of(x);
    let mut i: usize = 0;
    proof {
        assert(v.skip(0) =~= v);
    }
    while i < s.len()
        invariant
            v == s@.map_values(|t: String| t@),
            xc@ == x@,
            i <= s@.len(),
            index_of(v, x@) == (if index_of(v.skip(i as int), x@) < 0 {
                -1
            } else {
                i + index_of(v.skip(i as int), x@)
            }),
        decreases s@.len() - i,
    {
        let c = chars_of(s[i].as_str());
        proof {
            let rest = v.skip(i as int);
            assert(rest[0] == v[i as int]);
            assert(rest.drop_first() =~= v.skip(i + 1));
        }
        if chars_eq(c.as_slice(), xc.as_slice()) {
            return Some(i);
        }
        i += 1;
    }
    None
}

fn copy_from(s: &[String], k: usize) -> (r: Vec<String>)
    requires
        k <= s@.len(),
    ensures
        r.deep_view() == s@.map_values(|t: String| t@).skip(k as int),
{
    let ghost v = s@.map_values(|t: String| t@);
    let mut r: Vec<String> = Vec::new();
    let mut i = k;
    while i < s.len()
        invariant
            v == s@.map_values(|t: String| t@),
            k <= i <= s@.len(),
            r.deep_view() == v.subrange(k as int, i as int),
        decreases s@.len() - i,
    {
        let ghost r0 = r.deep_view();
        r.push(s[i].clone());
        proof {
            assert(r.deep_view() =~= r0.push(v[i as int]));
            assert(v.subrange(k as int, i + 1) =~= v.subrange(k as int, i as int).push(v[i as int]));
        }
        i += 1;
    }
    r
}

// ---------------------------------------------------------------------
// daim
// ---------------------------------------------------------------------

pub open spec fn remove_args(rest: Seq<Seq<char>>) -> (bool, bool, Seq<Seq<char>>)
    decreases rest.len(),
{
    if rest.len() == 0 {
        (false, false, seq![])
    } else {
        let (c, n, t) = remove_args(rest.drop_last());
        let a = rest.last();
        if a == "--cascade"@ {
            (true, n, t)
        } else if a == "--nosave"@ {
            (c, true, t)
        } else {
            (c, n, t.push(a))
        }
    }
}

/// The number that follows `flag` among `rest`, if it is there and parses
/// as a `u32`.
pub open spec fn flag_value(rest: Seq<Seq<char>>, flag: Seq<char>) -> Option<u32> {
    let i = index_of(rest, flag);
    if i >= 0 && i + 1 < rest.len() {
        match parse_unsigned(rest[i + 1], u32::MAX as nat) {
            Some(v) => Some(v as u32),
            None => None,
        }
    } else {
        None
    }
}

pub open spec fn paccache_op(rest: Seq<Seq<char>>) -> OpView {
    let keep: u32 = match flag_value(rest, "--keep"@) {
        Some(v) => v,
        None => 3,
    };
    OpView::PaccacheClean {
        keep,
        keep_uninstalled: match flag_value(rest, "--keep-uninstalled"@) {
            Some(v) => v,
            None => keep,
        },
    }
}

/// What `daim <command> <args>` asks of the helper, or why it cannot be read.
pub open spec fn parse_spec(args: Seq<Seq<char>>) -> Result<OpView, Seq<char>> {
    let cmd = args[0];
    let rest = args.drop_first();
    if cmd == "sync"@ || cmd == "sy"@ {
        Ok(OpView::SyncDb)
    } else if cmd == "install-file"@ || cmd == "if"@ {
        Ok(OpView::InstallFiles { paths: rest, as_deps: false })
    } else if cmd == "remove"@ || cmd == "r"@ {
        let (cascade, nosave, targets) = remove_args(rest);
        Ok(OpView::Remove { targets, cascade, nosave })
    } else if cmd == "paccache"@ || cmd == "pc"@ {
        Ok(paccache_op(rest))
    } else if cmd == "restart-service"@ || cmd == "rs"@ {
        if rest.len() > 0 {
            Ok(OpView::RestartService { name: rest[0] })
        } else {
            Err("restart-service requires a name"@)
        }
    } else if cmd == "snapshot-timeshift"@ || cmd == "st"@ {
        Ok(OpView::SnapshotTimeshift { comment: join_spaced(rest) })
    } else if cmd == "snapshot-snapper"@ || cmd == "sn"@ {
        Ok(OpView::SnapshotSnapper { description: join_spaced(rest) })
    } else if cmd == "refresh-mirrors"@ || cmd == "mr"@ {
        Ok(
            OpView::RefreshMirrors {
                tool: if rest.len() > 0 && rest[0] == "reflector"@ {
                    MirrorTool::Reflector
                } else {
                    MirrorTool::RateMirrors
                },
            },
        )
    } else if cmd == "pacdiff"@ || cmd == "pd"@ {
        Ok(OpView::RunPacdiff)
    } else if cmd == "remove-db-lock"@ || cmd == "unlock"@ {
        Ok(OpView::RemoveDbLock)
    } else if cmd == "set-ignore"@ || cmd == "ignore"@ {
        if rest.len() > 0 && (rest[0] == "add"@ || rest[0] == "remove"@) {
            if rest.len() > 1 {
                Ok(OpView::SetIgnorePkg { name: rest[1], ignored: rest[0] == "add"@ })
            } else {
                Err("set-ignore requires a package"@)
            }
        } else {
            Err("set-ignore requires add|remove <pkg>"@)
        }
    } else {
        Err("unknown command: "@ + cmd)
    }
}

fn is_word(c: &Vec<char>, a: &str, b: &str) -> (r: bool)
    ensures
        r == (c@ == a@ || c@ == b@),
{
    let x = chars_of(a);
    let y = chars_of(b);
    chars_eq(c.as_slice(), x.as_slice()) || chars_eq(c.as_slice(), y.as_slice())
}

fn is_one(c: &Vec<char>, a: &str) -> (r: bool)
    ensures
        r == (c@ == a@),
{
    let x = chars_of(a);
    chars_eq(c.as_slice(), x.as_slice())
}

fn parse_remove(rest: &Vec<String>) -> (r: (bool, bool, Vec<String>))
    ensures
        (r.0, r.1, r.2.deep_view()) == remove_args(rest.deep_view()),
{
    let ghost v = rest.deep_view();
    let mut cascade = false;
    let mut nosave = false;
    let mut targets: Vec<String> = Vec::new();
    let mut i: usize = 0;
    while i < rest.len()
        invariant
            v == rest.deep_view(),
            v.len() == rest@.len(),
            i <= rest@.len(),
            (cascade, nosave, targets.deep_view()) == remove_args(v.take(i as int)),
        decreases rest@.len() - i,
    {
        let a = chars_of(rest[i].as_str());
        proof {
            assert(v.take(i + 1).drop_last() =~= v.take(i as int));
            assert(v.take(i + 1).last() == a@);
        }
        if is_one(&a, "--cascade") {
            cascade = true;
        } else if is_one(&a, "--nosave") {
            nosave = true;
        } else {
            let ghost t0 = targets.deep_view();
            targets.push(rest[i].clone());
            proof {
                assert(targets.deep_view() =~= t0.push(a@));
            }
        }
        i += 1;
    }
    proof {
        assert(v.take(i as int) =~= v);
    }
    (cascade, nosave, targets)
}

fn find_flag_value(rest: &Vec<String>, flag: &str) -> (r: Option<u32>)
    ensures
        r == flag_value(rest.deep_view(), flag@),
{
    proof {
        assert(rest.deep_view() =~= rest@.map_values(|t: String| t@));
    }
    match position_of(rest.as_slice(), flag) {
        Some(i) => {
            proof {
                lemma_index_of_bounds(rest.deep_view(), flag@);
            }
            if rest.len() > 0 && i < rest.len() - 1 {
                let c = chars_of(rest[i + 1].as_str());
                match parse_u32(c.as_slice()) {
                    Some(v) => Some(v),
                    None => None,
                }
            } else {
                None
            }
        },
        None => None,
    }
}

pub open spec fn op_result_view(r: Result<Op, String>) -> Result<OpView, Seq<char>> {
    match r {
        Ok(op) => Ok(op@),
        Err(m) => Err(m@),
    }
}

/// Reads the command line of `daim` (without the program name) into the
/// operation that it asks of the helper.
pub fn parse(args: &Vec<String>) -> (r: Result<Op, String>)
    requires
        args@.len() >= 1,
    ensures
        op_result_view(r) == parse_spec(args.deep_view()),
{
    let ghost all = args.deep_view();
    let cmd = chars_of(args[0].as_str());
    let rest = copy_from(args.as_slice(), 1);
    proof {
        assert(args@.map_values(|t: String| t@) =~= all);
        assert(all.skip(1) =~= all.drop_first());
        assert(all[0] == cmd@);
    }
    if is_word(&cmd, "sync", "sy") {
        Ok(Op::SyncDb)
    } else if is_word(&cmd, "install-file", "if") {
        Ok(Op::InstallFiles { paths: rest, as_deps: false })
    } else if is_word(&cmd, "remove", "r") {
        let (cascade, nosave, targets) = parse_remove(&rest);
        Ok(Op::Remove { targets, cascade, nosave })
    } else if is_word(&cmd, "paccache", "pc") {
        let keep: u32 = match find_flag_value(&rest, "--keep") {
            Some(v) => v,
            None => 3,
        };
        let keep_uninstalled: u32 = match find_flag_value(&rest, "--keep-uninstalled") {
            Some(v) => v,
            None => keep,
        };
        Ok(Op::PaccacheClean { keep, keep_uninstalled })
    } else if is_word(&cmd, "restart-service", "rs") {
        if rest.len() > 0 {
            Ok(Op::RestartService { name: rest[0].clone() })
        } else {
            Err(string_from("restart-service requires a name"))
        }
    } else if is_word(&cmd, "snapshot-timeshift", "st") {
        proof {
            assert(rest@.map_values(|s: String| s@) =~= rest.deep_view());
        }
        Ok(Op::SnapshotTimeshift { comment: join_words(rest.as_slice()) })
    } else if is_word(&cmd, "snapshot-snapper", "sn") {
        proof {
            assert(rest@.map_values(|s: String| s@) =~= rest.deep_view());
        }
        Ok(Op::SnapshotSnapper { description: join_words(rest.as_slice()) })
    } else if is_word(&cmd, "refresh-mirrors", "mr") {
        let reflector = if rest.len() > 0 {
            let f = chars_of(rest[0].as_str());
            is_one(&f, "reflector")
        } else {
            false
        };
        let tool = if reflector {
            MirrorTool::Reflector
        } else {
            MirrorTool::RateMirrors
        };
        Ok(Op::RefreshMirrors { tool })
    } else if is_word(&cmd, "pacdiff", "pd") {
        Ok(Op::RunPacdiff)
    } else if is_word(&cmd, "remove-db-lock", "unlock") {
        Ok(Op::RemoveDbLock)
    } else if is_word(&cmd, "set-ignore", "ignore") {
        if rest.len() == 0 {
            return Err(string_from("set-ignore requires add|remove <pkg>"));
        }
        let f = chars_of(rest[0].as_str());
        let add = is_one(&f, "add");
        let remove = is_one(&f, "remove");
        if !(add || remove) {
            return Err(string_from("set-ignore requires add|remove <pkg>"));
        }
        if rest.len() > 1 {
            Ok(Op::SetIgnorePkg { name: rest[1].clone(), ignored: add })
        } else {
            Err(string_from("set-ignore requires a package"))
        }
    } else {
        let mut m = string_from("unknown command: ");
        push_str(&mut m, args[0].as_str());
        Err(m)
    }
}

/// The arguments of `daim install`: `--skip-review`, `--reinstall`, and the
/// package names, in order.
pub open spec fn install_args(rest: Seq<Seq<char>>) -> (Seq<Seq<char>>, bool, bool)
    decreases rest.len(),
{
    if rest.len() == 0 {
        (seq![], false, false)
    } else {
        let (p, s, r) = install_args(rest.drop_last());
        let a = rest.last();
        if a == "--skip-review"@ {
            (p, true, r)
        } else if a == "--reinstall"@ {
            (p, s, true)
        } else {
            (p.push(a), s, r)
        }
    }
}

pub fn parse_install_args(rest: &Vec<String>) -> (r: (Vec<String>, bool, bool))
    ensures
        (r.0.deep_view(), r.1, r.2) == install_args(rest.deep_view()),
{
    let ghost v = rest.deep_view();
    let mut pkgs: Vec<String> = Vec::new();
    let mut skip_review = false;
    let mut reinstall = false;
    let mut i: usize = 0;
    while i < rest.len()
        invariant
            v == rest.deep_view(),
            v.len() == rest@.len(),
            i <= rest@.len(),
            (pkgs.deep_view(), skip_review, reinstall) == install_args(v.take(i as int)),
        decreases rest@.len() - i,
    {
        let a = chars_of(rest[i].as_str());
        proof {
            assert(v.take(i + 1).drop_last() =~= v.take(i as int));
            assert(v.take(i + 1).last() == a@);
        }
        if is_one(&a, "--skip-review") {
            skip_review = true;
        } else if is_one(&a, "--reinstall") {
            reinstall = true;
        } else {
            let ghost p0 = pkgs.deep_view();
            pkgs.push(rest[i].clone());
            proof {
                assert(pkgs.deep_view() =~= p0.push(a@));
            }
        }
        i += 1;
    }
    proof {
        assert(v.take(i as int) =~= v);
    }
    (pkgs, skip_review, reinstall)
}

/// The arguments of `daim search`: the search terms, and whether to offer a
/// pick (`--no-select` or `-n` turn it off).
pub open spec fn search_args(rest: Seq<Seq<char>>) -> (Seq<Seq<char>>, bool)
    decreases rest.len(),
{
    if rest.len() == 0 {
        (seq![], true)
    } else {
        let (t, sel) = search_args(rest.drop_last());
        let a = rest.last();
        if a == "--no-select"@ || a == "-n"@ {
            (t, false)
        } else {
            (t.push(a), sel)
        }
    }
}

/// Reads the arguments of `daim search` into the search term (the words
/// joined by spaces) and whether to offer a pick.
pub fn parse_search_args(rest: &Vec<String>) -> (r: (String, bool))
    ensures
        r.0@ == join_spaced(search_args(rest.deep_view()).0),
        r.1 == search_args(rest.deep_view()).1,
{
    let ghost v = rest.deep_view();
    let mut terms: Vec<String> = Vec::new();
    let mut select = true;
    let mut i: usize = 0;
    while i < rest.len()
        invariant
            v == rest.deep_view(),
            v.len() == rest@.len(),
            i <= rest@.len(),
            (terms.deep_view(), select) == search_args(v.take(i as int)),
        decreases rest@.len() - i,
    {
        let a = chars_of(rest[i].as_str());
        proof {
            assert(v.take(i + 1).drop_last() =~= v.take(i as int));
            assert(v.take(i + 1).last() == a@);
        }
        if is_word(&a, "--no-select", "-n") {
            select = false;
        } else {
            let ghost t0 = terms.deep_view();
            terms.push(rest[i].clone());
            proof {
                assert(terms.deep_view() =~= t0.push(a@));
            }
        }
        i += 1;
    }
    proof {
        assert(v.take(i as int) =~= v);
        assert(terms@.map_values(|s: String| s@) =~= terms.deep_view());
    }
    (join_words(terms.as_slice()), select)
}

// ---------------------------------------------------------------------
// daim-helper
// ---------------------------------------------------------------------

/// What `daim-helper <args>` is started with: the socket after the last
/// `--connect`, or why the arguments cannot be read.
pub open spec fn helper_args_from(args: Seq<Seq<char>>, path: Option<Seq<char>>) -> Result<
    Seq<char>,
    Seq<char>,
>
    decreases args.len(),
{
    if args.len() == 0 {
        match path {
            Some(p) => Ok(p),
            None => Err("missing --connect"@),
        }
    } else if args[0] == "--connect"@ {
        if args.len() > 1 {
            helper_args_from(args.drop_first().drop_first(), Some(args[1]))
        } else {
            Err("--connect requires a value"@)
        }
    } else {
        Err("unknown argument: "@ + args[0])
    }
}

/// The value that follows a flag at position `pos`, or the message
/// `<flag> requires a value`.
pub fn next_value(args: &Vec<String>, pos: usize, flag: &str) -> (r: Result<String, String>)
    ensures
        pos < args@.len() ==> (r matches Ok(v) && v@ == args@[pos as int]@),
        pos >= args@.len() ==> (r matches Err(m) && m@ == flag@ + " requires a value"@),
{
    if pos < args.len() {
        Ok(args[pos].clone())
    } else {
        let mut m = string_from(flag);
        push_str(&mut m, " requires a value");
        Err(m)
    }
}

/// Reads the helper's arguments (without the program name).
pub fn parse_helper_args(args: &Vec<String>) -> (r: Result<Config, String>)
    ensures
        match helper_args_from(args.deep_view(), None) {
            Ok(p) => (r matches Ok(c) && c.connect_path@ == p),
            Err(m) => (r matches Err(e) && e@ == m),
        },
{
    let ghost v = args.deep_view();
    let mut path: Option<String> = None;
    let mut i: usize = 0;
    proof {
        assert(v.skip(0) =~= v);
    }
    while i < args.len()
        invariant
            v == args.deep_view(),
            v.len() == args@.len(),
            i <= args@.len(),
            helper_args_from(v, None) == helper_args_from(
                v.skip(i as int),
                match path {
                    Some(p) => Some(p@),
                    None => None,
                },
            ),
        decreases args@.len() - i,
    {
        let a = chars_of(args[i].as_str());
        proof {
            let rest = v.skip(i as int);
            assert(rest[0] == a@);
        }
        if is_one(&a, "--connect") {
            let value = next_value(args, i + 1, "--connect");
            match value {
                Ok(p) => {
                    proof {
                        let rest = v.skip(i as int);
                        assert(rest[1] == p@);
                        assert(rest.drop_first().drop_first() =~= v.skip(i + 2));
                    }
                    path = Some(p);
                    i += 2;
                },
                Err(m) => {
                    proof {
                        reveal_strlit("--connect");
                        reveal_strlit(" requires a value");
                        reveal_strlit("--connect requires a value");
                        assert(m@ =~= "--connect requires a value"@);
                    }
                    return Err(m);
                },
            }
        } else {
            let mut m = string_from("unknown argument: ");
            push_str(&mut m, args[i].as_str());
            return Err(m);
        }
    }
    proof {
        assert(v.skip(i as int) =~= Seq::<Seq<char>>::empty());
    }
    match path {
        Some(p) => Ok(Config { connect_path: p }),
        None => Err(string_from("missing --connect")),
    }
}

// ---------------------------------------------------------------------
// daim-check
// ---------------------------------------------------------------------

pub open spec fn take_word(s: Seq<char>) -> Seq<char>
    decreases s.len(),
{
    if s.len() == 0 || is_ws(s[0]) {
        seq![]
    } else {
        seq![s[0]] + take_word(s.drop_first())
    }
}

/// The first whitespace-separated word of `s`, or nothing.
pub open spec fn first_word(s: Seq<char>) -> Seq<char> {
    take_word(trim_start(s))
}

/// Whether the first word of an update line (the package name) is one of
/// `names`.
pub open spec fn starts_with_any(line: Seq<char>, names: Seq<Seq<char>>) -> bool {
    first_word(line).len() > 0 && names.contains(first_word(line))
}

pub(crate) fn first_word_chars(line: &[char]) -> (r: Vec<char>)
    ensures
        r@ == first_word(line@),
{
    let mut a: usize = 0;
    assert(line@.skip(0) =~= line@);
    while a < line.len() && is_whitespace(line[a])
        invariant
            a <= line@.len(),
            trim_start(line@) == trim_start(line@.skip(a as int)),
        decreases line@.len() - a,
    {
        proof {
            assert(line@.skip(a as int).drop_first() =~= line@.skip(a + 1));
        }
        a += 1;
    }
    proof {
        let t = line@.skip(a as int);
        if t.len() > 0 {
            assert(t[0] == line@[a as int]);
        }
        assert(trim_start(t) == t);
    }
    let ghost t = line@.skip(a as int);
    let mut b = a;
    proof {
        assert(t.skip(0) =~= t);
        assert(t.subrange(0, 0) + take_word(t.skip(0)) =~= take_word(t));
    }
    while b < line.len() && !is_whitespace(line[b])
        invariant
            a <= b <= line@.len(),
            t == line@.skip(a as int),
            take_word(t) == t.subrange(0, b - a) + take_word(t.skip(b - a)),
        decreases line@.len() - b,
    {
        proof {
            let r = t.skip(b - a);
            assert(r[0] == line@[b as int]);
            assert(r.drop_first() =~= t.skip(b - a + 1));
            assert(t.subrange(0, b - a + 1) =~= t.subrange(0, b - a) + seq![r[0]]);
        }
        b += 1;
    }
    proof {
        let r = t.skip(b - a);
        if r.len() > 0 {
            assert(r[0] == line@[b as int]);
        }
        assert(take_word(r) == Seq::<char>::empty());
        assert(t.subrange(0, b - a) + Seq::<char>::empty() =~= t.subrange(0, b - a));
    }
    let mut r: Vec<char> = Vec::new();
    let mut i = a;
    while i < b
        invariant
            a <= i <= b <= line@.len(),
            r@ == line@.subrange(a as int, i as int),
        decreases b - i,
    {
        r.push(line[i]);
        proof {
            assert(line@.subrange(a as int, i + 1) =~= line@.subrange(a as int, i as int).push(
                line@[i as int],
            ));
        }
        i += 1;
    }
    proof {
        assert(r@ =~= t.subrange(0, b - a));
    }
    r
}

/// Whether an update line names one of the blacklisted packages.
pub fn line_starts_with_any(line: &str, names: &Vec<String>) -> (r: bool)
    ensures
        r == starts_with_any(line@, names.deep_view()),
{
    let c = chars_of(line);
    let first = first_word_chars(c.as_slice());
    if first.len() == 0 {
        return false;
    }
    let ghost ns = names.deep_view();
    let mut i: usize = 0;
    while i < names.len()
        invariant
            ns == names.deep_view(),
            ns.len() == names@.len(),
            first@ == first_word(line@),
            first@.len() > 0,
            i <= names@.len(),
            forall|j: int| 0 <= j < i ==> ns[j] != first@,
        decreases names@.len() - i,
    {
        let n = chars_of(names[i].as_str());
        proof {
            assert(ns[i as int] == n@);
        }
        if chars_eq(n.as_slice(), first.as_slice()) {
            proof {
                assert(ns.contains(first@));
            }
            return true;
        }
        i += 1;
    }
    false
}

/// The non-empty lines of a listing, trimmed, in order.
pub open spec fn nonempty_trimmed(ls: Seq<Seq<char>>) -> Seq<Seq<char>>
    decreases ls.len(),
{
    if ls.len() == 0 {
        seq![]
    } else if trim(ls.last()).len() > 0 {
        nonempty_trimmed(ls.drop_last()).push(trim(ls.last()))
    } else {
        nonempty_trimmed(ls.drop_last())
    }
}

/// The update lines that `pacman -Qu` printed: each non-empty line, trimmed.
pub fn parse_update_lines(stdout: &str) -> (r: Vec<String>)
    ensures
        r.deep_view() == nonempty_trimmed(lines(stdout@)),
{
    let ls = lines_of(stdout);
    let ghost all = ls.deep_view();
    let mut out: Vec<String> = Vec::new();
    let mut i: usize = 0;
    while i < ls.len()
        invariant
            all == ls.deep_view(),
            all.len() == ls@.len(),
            i <= ls@.len(),
            out.deep_view() == nonempty_trimmed(all.take(i as int)),
        decreases ls@.len() - i,
    {
        let t = trim_chars(ls[i].as_slice());
        proof {
            assert(ls@[i as int]@ == all[i as int]);
            assert(all.take(i + 1).drop_last() =~= all.take(i as int));
            assert(all.take(i + 1).last() == all[i as int]);
        }
        if t.len() > 0 {
            let ghost o0 = out.deep_view();
            out.push(string_of(t.as_slice()));
            proof {
                assert(out.deep_view() =~= o0.push(t@));
            }
        }
        i += 1;
    }
    proof {
        assert(all.take(i as int) =~= all);
    }
    out
}

/// Why an update check is skipped, if it is: unless started by hand, the
/// network is metered or the machine runs on battery while the user asked
/// to skip checks then.
pub open spec fn skip_reason_spec(
    manual: bool,
    skip_on_metered: bool,
    metered: bool,
    skip_on_battery: bool,
    on_battery: bool,
) -> Option<Seq<char>> {
    if !manual && skip_on_metered && metered {
        Some("Skipping update check: network is metered."@)
    } else if !manual && skip_on_battery && on_battery {
        Some("Skipping update check: running on battery."@)
    } else {
        None
    }
}

pub fn check_skip_reason(
    manual: bool,
    skip_on_metered: bool,
    metered: bool,
    skip_on_battery: bool,
    on_battery: bool,
) -> (r: Option<&'static str>)
    ensures
        match skip_reason_spec(manual, skip_on_metered, metered, skip_on_battery, on_battery) {
            Some(m) => (r matches Some(t) && t@ == m),
            None => r is None,
        },
{
    if !manual && skip_on_metered && metered {
        Some("Skipping update check: network is metered.")
    } else if !manual && skip_on_battery && on_battery {
        Some("Skipping update check: running on battery.")
    } else {
        None
    }
}

/// The repository update lines that the tray reports: those whose package
/// is not blacklisted, in order.
pub open spec fn unblocked_lines(ls: Seq<Seq<char>>, blacklist: Seq<Seq<char>>) -> Seq<Seq<char>>
    decreases ls.len(),
{
    if ls.len() == 0 {
        seq![]
    } else if starts_with_any(ls.last(), blacklist) {
        unblocked_lines(ls.drop_last(), blacklist)
    } else {
        unblocked_lines(ls.drop_last(), blacklist).push(ls.last())
    }
}

pub fn filter_update_lines(lines: Vec<String>, blacklist: &Vec<String>) -> (r: Vec<String>)
    ensures
        r.deep_view() == unblocked_lines(lines.deep_view(), blacklist.deep_view()),
{
    let ghost all = lines.deep_view();
    let mut out: Vec<String> = Vec::new();
    let mut i: usize = 0;
    while i < lines.len()
        invariant
            all == lines.deep_view(),
            i <= lines@.len(),
            out.deep_view() == unblocked_lines(all.take(i as int), blacklist.deep_view()),
        decreases lines@.len() - i,
    {
        proof {
            assert(all.take(i + 1).drop_last() =~= all.take(i as int));
            assert(all.take(i + 1).last() == lines@[i as int]@);
        }
        if !line_starts_with_any(lines[i].as_str(), blacklist) {
            let ghost o0 = out.deep_view();
            out.push(lines[i].clone());
            proof {
                assert(out.deep_view() =~= o0.push(lines@[i as int]@));
            }
        }
        i += 1;
    }
    proof {
        assert(all.take(i as int) =~= all);
    }
    out
}

/// How the tray lists an AUR update: `<name> <current> -> <new>`.
pub open spec fn aur_line_spec(name: Seq<char>, current: Seq<char>, new: Seq<char>) -> Seq<char> {
    name + " "@ + current + " -> "@ + new
}

pub fn aur_update_line(name: &str, current: &str, new: &str) -> (r: String)
    ensures
        r@ == aur_line_spec(name@, current@, new@),
{
    let mut s = string_from(name);
    push_str(&mut s, " ");
    push_str(&mut s, current);
    push_str(&mut s, " -> ");
    push_str(&mut s, new);
    s
}

} // verus!
