//! The decisions of the privileged helper: which requests it accepts, and
//! which command each accepted request runs.
use vstd::prelude::*;

use crate::models::mirror_tool::MirrorTool;
use crate::models::op::{op_wants_tty, Op, OpView};
use crate::models::response::{Response, ResponseView};
use crate::text::{
    contains_seq, chars_contain_seq, chars_of, debug_quoted, debug_str, decimal, fmt_u64,
    is_alnum, is_ascii_alnum, utf8_len, ends_with, str_ends_with, utf8_longer_than, push_str, push_string, extend_strings, string_from,
};

verus! {

/// How the helper was started: the socket that it connects back to.
pub struct Config {
    pub connect_path: String,
}

// ---------------------------------------------------------------------
// Validation of names and package files
// ---------------------------------------------------------------------

pub open spec fn name_char_ok(c: char) -> bool {
    is_ascii_alnum(c) || c == '@' || c == '.' || c == '_' || c == '+' || c == '-' || c == ':'
}

/// Whether the helper accepts `name` as a package or service name, and the
/// message it gives when it does not.
pub open spec fn name_check(name: Seq<char>) -> Result<(), Seq<char>> {
    if name.len() == 0 || utf8_len(name) > 256 || name[0] == '-' {
        Err("invalid name: "@ + debug_quoted(name))
    } else if !(forall|i: int| 0 <= i < name.len() ==> name_char_ok(#[trigger] name[i])) {
        Err("invalid characters in name: "@ + debug_quoted(name))
    } else {
        Ok(())
    }
}

/// The first rejected name of `names`, if any.
pub open spec fn first_name_error(names: Seq<Seq<char>>) -> Result<(), Seq<char>>
    decreases names.len(),
{
    if names.len() == 0 {
        Ok(())
    } else {
        match name_check(names[0]) {
            Err(m) => Err(m),
            Ok(()) => first_name_error(names.drop_first()),
        }
    }
}

pub open spec fn names_check(names: Seq<Seq<char>>) -> Result<(), Seq<char>> {
    if names.len() == 0 {
        Err("no targets supplied"@)
    } else {
        first_name_error(names)
    }
}

pub open spec fn result_view(r: Result<(), String>) -> Result<(), Seq<char>> {
    match r {
        Ok(()) => Ok(()),
        Err(m) => Err(m@),
    }
}

/// Checks a package or service name: non-empty, at most 256 bytes, not
/// starting with `-`, and made of ASCII letters, digits and `@._+-:`.
pub fn validate_name(name: &str) -> (r: Result<(), String>)
    ensures
        result_view(r) == name_check(name@),
{
    let chars = chars_of(name);
    if chars.len() == 0 || utf8_longer_than(chars.as_slice(), 256) || chars[0] == '-' {
        let mut m = string_from("invalid name: ");
        let q = debug_str(name);
        push_str(&mut m, q.as_str());
        return Err(m);
    }
    let mut i: usize = 0;
    while i < chars.len()
        invariant
            chars@ == name@,
            !(name@.len() == 0 || utf8_len(name@) > 256 || name@[0] == '-'),
            i <= chars@.len(),
            forall|j: int| 0 <= j < i ==> name_char_ok(#[trigger] name@[j]),
        decreases chars@.len() - i,
    {
        let c = chars[i];
        if !(is_alnum(c) || c == '@' || c == '.' || c == '_' || c == '+' || c == '-' || c == ':') {
            assert(!name_char_ok(name@[i as int]));
            let mut m = string_from("invalid characters in name: ");
            let q = debug_str(name);
            push_str(&mut m, q.as_str());
            return Err(m);
        }
        i += 1;
    }
    Ok(())
}

proof fn lemma_first_name_error_suffix(names: Seq<Seq<char>>, i: int)
    requires
        0 <= i <= names.len(),
        forall|j: int| 0 <= j < i ==> name_check(#[trigger] names[j]) is Ok,
    ensures
        first_name_error(names) == first_name_error(names.subrange(i, names.len() as int)),
    decreases i,
{
    if i > 0 {
        assert(names.len() > 0);
        assert(name_check(names[0]) is Ok);
        let rest = names.drop_first();
        assert forall|j: int| 0 <= j < i - 1 implies name_check(#[trigger] rest[j]) is Ok by {
            assert(rest[j] == names[j + 1]);
        }
        lemma_first_name_error_suffix(rest, i - 1);
        assert(rest.subrange(i - 1, rest.len() as int) =~= names.subrange(i, names.len() as int));
    } else {
        assert(names.subrange(0, names.len() as int) =~= names);
    }
}

/// Checks a list of names: it must not be empty, and the first name that
/// [`validate_name`] rejects gives the error.
pub fn validate_names(names: &Vec<String>) -> (r: Result<(), String>)
    ensures
        result_view(r) == names_check(names.deep_view()),
{
    if names.len() == 0 {
        return Err(string_from("no targets supplied"));
    }
    let ghost all = names.deep_view();
    let mut i: usize = 0;
    while i < names.len()
        invariant
            all == names.deep_view(),
            all.len() == names@.len(),
            i <= names@.len(),
            forall|j: int| 0 <= j < i ==> name_check(#[trigger] all[j]) is Ok,
        decreases names@.len() - i,
    {
        let r = validate_name(names[i].as_str());
        proof {
            assert(all[i as int] == names@[i as int]@);
            lemma_first_name_error_suffix(all, i as int);
            let rest = all.subrange(i as int, all.len() as int);
            assert(rest[0] == all[i as int]);
            assert(rest.drop_first() =~= all.subrange(i + 1, all.len() as int));
        }
        if r.is_err() {
            return r;
        }
        i += 1;
    }
    proof {
        lemma_first_name_error_suffix(all, all.len() as int);
    }
    Ok(())
}

/// What the helper found on disk at a package file path.
#[derive(Clone, Copy, PartialEq, Eq, Structural)]
pub enum PathKind {
    Missing,
    NotRegular,
    Regular,
}

/// The facts about one package file path that the helper checks: what is
/// on disk there, and the path's last component.
pub struct PathFacts {
    pub kind: PathKind,
    pub file_name: String,
}

pub open spec fn path_check(path: Seq<char>, kind: PathKind, file_name: Seq<char>) -> Result<
    (),
    Seq<char>,
> {
    if path.len() > 0 && path[0] == '-' {
        Err("invalid package path: "@ + path)
    } else if kind == PathKind::Missing {
        Err("not a file: "@ + path)
    } else if kind == PathKind::NotRegular {
        Err("not a regular file: "@ + path)
    } else if !contains_seq(file_name, ".pkg.tar"@) {
        Err("not a package file: "@ + path)
    } else {
        Ok(())
    }
}

pub open spec fn first_path_error(paths: Seq<Seq<char>>, facts: Seq<PathFacts>) -> Result<
    (),
    Seq<char>,
>
    decreases paths.len(),
{
    if paths.len() == 0 {
        Ok(())
    } else {
        match path_check(paths[0], facts[0].kind, facts[0].file_name@) {
            Err(m) => Err(m),
            Ok(()) => first_path_error(paths.drop_first(), facts.drop_first()),
        }
    }
}

pub open spec fn paths_check(paths: Seq<Seq<char>>, facts: Seq<PathFacts>) -> Result<
    (),
    Seq<char>,
> {
    if paths.len() == 0 {
        Err("no package files supplied"@)
    } else {
        first_path_error(paths, facts)
    }
}

proof fn lemma_first_path_error_suffix(paths: Seq<Seq<char>>, facts: Seq<PathFacts>, i: int)
    requires
        0 <= i <= paths.len(),
        paths.len() == facts.len(),
        forall|j: int|
            0 <= j < i ==> path_check(#[trigger] paths[j], facts[j].kind, facts[j].file_name@) is Ok,
    ensures
        first_path_error(paths, facts) == first_path_error(
            paths.subrange(i, paths.len() as int),
            facts.subrange(i, facts.len() as int),
        ),
    decreases i,
{
    if i > 0 {
        assert(path_check(paths[0], facts[0].kind, facts[0].file_name@) is Ok);
        let rp = paths.drop_first();
        let rf = facts.drop_first();
        assert forall|j: int| 0 <= j < i - 1 implies path_check(
            #[trigger] rp[j],
            rf[j].kind,
            rf[j].file_name@,
        ) is Ok by {
            assert(rp[j] == paths[j + 1]);
            assert(rf[j] == facts[j + 1]);
        }
        lemma_first_path_error_suffix(rp, rf, i - 1);
        assert(rp.subrange(i - 1, rp.len() as int) =~= paths.subrange(i, paths.len() as int));
        assert(rf.subrange(i - 1, rf.len() as int) =~= facts.subrange(i, facts.len() as int));
    } else {
        assert(paths.subrange(0, paths.len() as int) =~= paths);
        assert(facts.subrange(0, facts.len() as int) =~= facts);
    }
}

/// Checks the package files of an install request, given what is on disk at
/// each path: the list must not be empty, and the first path that does not
/// name a regular `.pkg.tar` file, or that starts with `-`, gives the error.
pub fn validate_pkg_paths(paths: &Vec<String>, facts: &[PathFacts]) -> (r: Result<(), String>)
    requires
        facts@.len() == paths@.len(),
    ensures
        result_view(r) == paths_check(paths.deep_view(), facts@),
{
    if paths.len() == 0 {
        return Err(string_from("no package files supplied"));
    }
    let ghost all = paths.deep_view();
    let mut i: usize = 0;
    while i < paths.len()
        invariant
            all == paths.deep_view(),
            all.len() == paths@.len(),
            facts@.len() == paths@.len(),
            i <= paths@.len(),
            forall|j: int|
                0 <= j < i ==> path_check(#[trigger] all[j], facts@[j].kind, facts@[j].file_name@) is Ok,
        decreases paths@.len() - i,
    {
        let p = paths[i].as_str();
        let pc = chars_of(p);
        let ghost check = path_check(all[i as int], facts@[i as int].kind, facts@[i as int].file_name@);
        proof {
            assert(all[i as int] == p@);
            lemma_first_path_error_suffix(all, facts@, i as int);
            let rp = all.subrange(i as int, all.len() as int);
            let rf = facts@.subrange(i as int, facts@.len() as int);
            assert(rp[0] == all[i as int]);
            assert(rf[0] == facts@[i as int]);
            assert(rp.drop_first() =~= all.subrange(i + 1, all.len() as int));
            assert(rf.drop_first() =~= facts@.subrange(i + 1, facts@.len() as int));
        }
        if pc.len() > 0 && pc[0] == '-' {
            let mut m = string_from("invalid package path: ");
            push_str(&mut m, p);
            return Err(m);
        }
        match facts[i].kind {
            PathKind::Missing => {
                let mut m = string_from("not a file: ");
                push_str(&mut m, p);
                return Err(m);
            },
            PathKind::NotRegular => {
                let mut m = string_from("not a regular file: ");
                push_str(&mut m, p);
                return Err(m);
            },
            PathKind::Regular => {},
        }
        let name = chars_of(facts[i].file_name.as_str());
        let pat = chars_of(".pkg.tar");
        if !chars_contain_seq(name.as_slice(), pat.as_slice()) {
            let mut m = string_from("not a package file: ");
            push_str(&mut m, p);
            return Err(m);
        }
        i += 1;
    }
    proof {
        lemma_first_path_error_suffix(all, facts@, all.len() as int);
    }
    Ok(())
}

// ---------------------------------------------------------------------
// What each operation runs
// ---------------------------------------------------------------------

/// A program to run with its arguments and the environment variables set
/// for it; `tty` says whether it runs on the caller's terminal (otherwise
/// its output is captured).
pub struct CommandSpec {
    pub program: String,
    pub args: Vec<String>,
    pub env: Vec<(String, String)>,
    pub tty: bool,
}

pub struct CommandView {
    pub program: Seq<char>,
    pub args: Seq<Seq<char>>,
    pub env: Seq<(Seq<char>, Seq<char>)>,
    pub tty: bool,
}

pub open spec fn env_view(env: Seq<(String, String)>) -> Seq<(Seq<char>, Seq<char>)> {
    env.map_values(|p: (String, String)| (p.0@, p.1@))
}

impl View for CommandSpec {
    type V = CommandView;

    open spec fn view(&self) -> CommandView {
        CommandView {
            program: self.program@,
            args: self.args.deep_view(),
            env: env_view(self.env@),
            tty: self.tty,
        }
    }
}

/// What the helper does for a request.
pub enum Plan {
    /// Run one command and report how it ended.
    Run(CommandSpec),
    /// Run the first command; when it succeeds, run the second and report
    /// that one, otherwise report the first.
    RunBoth(CommandSpec, CommandSpec),
    /// Refresh the package databases.
    SyncDatabases,
    /// Build an AUR package from the caller's clone and install it.
    BuildAur { name: String, as_deps: bool },
    /// Add a package to, or remove it from, `IgnorePkg` in pacman.conf.
    SetIgnore { name: String, ignored: bool },
    /// Remove the pacman database lock.
    RemoveDbLock,
    /// Back up the mirror list, then run the command that rewrites it.
    RefreshMirrors(CommandSpec),
    /// Answer at once, without running anything.
    Respond(Response),
    /// Back up the mirror list, then answer without running anything.
    BackUpMirrors(Response),
}

pub enum PlanView {
    Run(CommandView),
    RunBoth(CommandView, CommandView),
    SyncDatabases,
    BuildAur { name: Seq<char>, as_deps: bool },
    SetIgnore { name: Seq<char>, ignored: bool },
    RemoveDbLock,
    RefreshMirrors(CommandView),
    Respond(ResponseView),
    BackUpMirrors(ResponseView),
}

impl View for Plan {
    type V = PlanView;

    open spec fn view(&self) -> PlanView {
        match self {
            Plan::Run(c) => PlanView::Run(c@),
            Plan::RunBoth(a, b) => PlanView::RunBoth(a@, b@),
            Plan::SyncDatabases => PlanView::SyncDatabases,
            Plan::BuildAur { name, as_deps } => PlanView::BuildAur {
                name: name@,
                as_deps: *as_deps,
            },
            Plan::SetIgnore { name, ignored } => PlanView::SetIgnore {
                name: name@,
                ignored: *ignored,
            },
            Plan::RemoveDbLock => PlanView::RemoveDbLock,
            Plan::RefreshMirrors(c) => PlanView::RefreshMirrors(c@),
            Plan::Respond(r) => PlanView::Respond(r@),
            Plan::BackUpMirrors(r) => PlanView::BackUpMirrors(r@),
        }
    }
}

pub open spec fn cmd(program: Seq<char>, args: Seq<Seq<char>>, tty: bool) -> CommandView {
    CommandView { program, args, env: seq![], tty }
}

pub open spec fn refuse(m: Seq<char>) -> PlanView {
    PlanView::Respond(ResponseView::Error { message: m })
}

pub open spec fn install_flags(as_deps: bool, reinstall: bool) -> Seq<Seq<char>> {
    seq!["-S"@] + (if !reinstall {
        seq!["--needed"@]
    } else {
        seq![]
    }) + (if as_deps {
        seq!["--asdeps"@]
    } else {
        seq![]
    }) + seq!["--"@]
}

pub open spec fn install_file_flags(as_deps: bool) -> Seq<Seq<char>> {
    seq!["-U"@] + (if as_deps {
        seq!["--asdeps"@]
    } else {
        seq![]
    }) + seq!["--"@]
}

pub open spec fn remove_flag(cascade: bool, nosave: bool) -> Seq<char> {
    "-R"@ + (if cascade {
        seq!['s']
    } else {
        seq![]
    }) + (if nosave {
        seq!['n']
    } else {
        seq![]
    })
}

pub open spec fn mirror_list_path() -> Seq<char> {
    "/etc/pacman.d/mirrorlist"@
}

pub open spec fn mirror_command(tool: MirrorTool) -> CommandView {
    match tool {
        MirrorTool::RateMirrors => cmd(
            "rate-mirrors"@,
            seq![
                "--save"@,
                mirror_list_path(),
                "--allow-root"@,
                "--protocol"@,
                "https"@,
                "arch"@,
            ],
            true,
        ),
        MirrorTool::Reflector => cmd(
            "reflector"@,
            seq![
                "--save"@,
                mirror_list_path(),
                "--protocol"@,
                "https"@,
                "--latest"@,
                "20"@,
                "--sort"@,
                "rate"@,
            ],
            true,
        ),
    }
}

/// What the helper does for `op`; `facts` describes the paths of a
/// package-file install.
pub open spec fn plan_spec(op: OpView, facts: Seq<PathFacts>) -> PlanView {
    match op {
        OpView::NewSession => refuse("a new session is handled by the server loop"@),
        OpView::SyncDb => PlanView::SyncDatabases,
        OpView::SysUpgrade => PlanView::Run(cmd("pacman"@, seq!["-Su"@], true)),
        OpView::SysUpgradeNoConfirm => PlanView::Run(
            cmd("pacman"@, seq!["-Su"@, "--noconfirm"@], false),
        ),
        OpView::Install { targets, as_deps, reinstall } => match names_check(targets) {
            Err(m) => refuse(m),
            Ok(()) => PlanView::Run(
                cmd("pacman"@, install_flags(as_deps, reinstall) + targets, true),
            ),
        },
        OpView::InstallFiles { paths, as_deps } => match paths_check(paths, facts) {
            Err(m) => refuse(m),
            Ok(()) => PlanView::Run(cmd("pacman"@, install_file_flags(as_deps) + paths, true)),
        },
        OpView::AurBuildInstall { name, as_deps } => match name_check(name) {
            Err(m) => refuse(m),
            Ok(()) => PlanView::BuildAur { name, as_deps },
        },
        OpView::RemoveMakeDeps { targets } => match names_check(targets) {
            Err(m) => refuse(m),
            Ok(()) => PlanView::Run(
                cmd("pacman"@, seq!["-Rs"@, "--noconfirm"@, "--"@] + targets, false),
            ),
        },
        OpView::Remove { targets, cascade, nosave } => match names_check(targets) {
            Err(m) => refuse(m),
            Ok(()) => PlanView::Run(
                cmd("pacman"@, seq![remove_flag(cascade, nosave), "--"@] + targets, true),
            ),
        },
        OpView::SetIgnorePkg { name, ignored } => match name_check(name) {
            Err(m) => refuse(m),
            Ok(()) => PlanView::SetIgnore { name, ignored },
        },
        OpView::RemoveDbLock => PlanView::RemoveDbLock,
        OpView::PaccacheClean { keep, keep_uninstalled } => PlanView::RunBoth(
            cmd("paccache"@, seq!["-rk"@ + decimal(keep as nat)], false),
            cmd("paccache"@, seq!["-ruk"@ + decimal(keep_uninstalled as nat)], false),
        ),
        OpView::RestartService { name } => match name_check(name) {
            Err(m) => refuse(m),
            Ok(()) => PlanView::Run(cmd("systemctl"@, seq!["restart"@, name], false)),
        },
        OpView::SnapshotTimeshift { comment } => PlanView::Run(
            cmd(
                "timeshift"@,
                seq!["--create"@, "--comments"@, comment, "--tags"@, "O"@],
                false,
            ),
        ),
        OpView::SnapshotSnapper { description } => PlanView::Run(
            cmd(
                "snapper"@,
                seq![
                    "-c"@,
                    "root"@,
                    "create"@,
                    "--type"@,
                    "single"@,
                    "--description"@,
                    description,
                ],
                false,
            ),
        ),
        OpView::RefreshMirrors { tool } => PlanView::RefreshMirrors(mirror_command(tool)),
        OpView::RunPacdiff => PlanView::Run(
            CommandView { program: "pacdiff"@, args: seq![], env: seq![("DIFFPROG"@, Seq::<char>::empty())], tty: true },
        ),
    }
}

fn command(program: &str, args: Vec<String>, tty: bool) -> (c: CommandSpec)
    ensures
        c@ == cmd(program@, args.deep_view(), tty),
{
    let c = CommandSpec { program: string_from(program), args, env: Vec::new(), tty };
    proof {
        assert(env_view(c.env@) =~= seq![]);
    }
    c
}

fn refusal(r: Result<(), String>) -> (p: Plan)
    requires
        r is Err,
    ensures
        p@ == refuse(result_view(r)->Err_0),
{
    match r {
        Err(m) => Plan::Respond(Response::Error { message: m }),
        Ok(()) => Plan::Respond(Response::Error { message: String::new() }),
    }
}

fn mirror_spec(tool: MirrorTool) -> (c: CommandSpec)
    ensures
        c@ == mirror_command(tool),
{
    let mut args: Vec<String> = Vec::new();
    match tool {
        MirrorTool::RateMirrors => {
            push_string(&mut args, "--save");
            push_string(&mut args, "/etc/pacman.d/mirrorlist");
            push_string(&mut args, "--allow-root");
            push_string(&mut args, "--protocol");
            push_string(&mut args, "https");
            push_string(&mut args, "arch");
            assert(args.deep_view() =~= mirror_command(tool).args);
            command("rate-mirrors", args, true)
        },
        MirrorTool::Reflector => {
            push_string(&mut args, "--save");
            push_string(&mut args, "/etc/pacman.d/mirrorlist");
            push_string(&mut args, "--protocol");
            push_string(&mut args, "https");
            push_string(&mut args, "--latest");
            push_string(&mut args, "20");
            push_string(&mut args, "--sort");
            push_string(&mut args, "rate");
            assert(args.deep_view() =~= mirror_command(tool).args);
            command("reflector", args, true)
        },
    }
}

fn numbered_flag(flag: &str, n: u32) -> (s: String)
    ensures
        s@ == flag@ + decimal(n as nat),
{
    let mut s = string_from(flag);
    let d = fmt_u64(n as u64);
    push_str(&mut s, d.as_str());
    s
}

/// Decides what the helper does for `op`. Names are validated first, and a
/// rejected request is answered with an error and runs nothing. For an
/// install of package files, `facts[i]` describes the `i`-th path.
pub fn plan_op(op: &Op, facts: &[PathFacts]) -> (p: Plan)
    requires
        op@ matches OpView::InstallFiles { paths, .. } ==> facts@.len() == paths.len(),
    ensures
        p@ == plan_spec(op@, facts@),
{
    match op {
        Op::NewSession => Plan::Respond(
            Response::Error { message: string_from("a new session is handled by the server loop") },
        ),
        Op::SyncDb => Plan::SyncDatabases,
        Op::SysUpgrade => {
            let mut args: Vec<String> = Vec::new();
            push_string(&mut args, "-Su");
            assert(args.deep_view() =~= seq!["-Su"@]);
            Plan::Run(command("pacman", args, true))
        },
        Op::SysUpgradeNoConfirm => {
            let mut args: Vec<String> = Vec::new();
            push_string(&mut args, "-Su");
            push_string(&mut args, "--noconfirm");
            assert(args.deep_view() =~= seq!["-Su"@, "--noconfirm"@]);
            Plan::Run(command("pacman", args, false))
        },
        Op::Install { targets, as_deps, reinstall } => {
            let v = validate_names(targets);
            if v.is_err() {
                return refusal(v);
            }
            let mut args: Vec<String> = Vec::new();
            push_string(&mut args, "-S");
            if !*reinstall {
                push_string(&mut args, "--needed");
            }
            if *as_deps {
                push_string(&mut args, "--asdeps");
            }
            push_string(&mut args, "--");
            assert(args.deep_view() =~= install_flags(*as_deps, *reinstall));
            extend_strings(&mut args, targets);
            Plan::Run(command("pacman", args, true))
        },
        Op::InstallFiles { paths, as_deps } => {
            let v = validate_pkg_paths(paths, facts);
            if v.is_err() {
                return refusal(v);
            }
            let mut args: Vec<String> = Vec::new();
            push_string(&mut args, "-U");
            if *as_deps {
                push_string(&mut args, "--asdeps");
            }
            push_string(&mut args, "--");
            assert(args.deep_view() =~= install_file_flags(*as_deps));
            extend_strings(&mut args, paths);
            Plan::Run(command("pacman", args, true))
        },
        Op::AurBuildInstall { name, as_deps } => {
            let v = validate_name(name.as_str());
            if v.is_err() {
                return refusal(v);
            }
            Plan::BuildAur { name: string_from(name.as_str()), as_deps: *as_deps }
        },
        Op::RemoveMakeDeps { targets } => {
            let v = validate_names(targets);
            if v.is_err() {
                return refusal(v);
            }
            let mut args: Vec<String> = Vec::new();
            push_string(&mut args, "-Rs");
            push_string(&mut args, "--noconfirm");
            push_string(&mut args, "--");
            assert(args.deep_view() =~= seq!["-Rs"@, "--noconfirm"@, "--"@]);
            extend_strings(&mut args, targets);
            Plan::Run(command("pacman", args, false))
        },
        Op::Remove { targets, cascade, nosave } => {
            let v = validate_names(targets);
            if v.is_err() {
                return refusal(v);
            }
            let mut flag = string_from("-R");
            if *cascade {
                crate::text::push_char(&mut flag, 's');
            }
            if *nosave {
                crate::text::push_char(&mut flag, 'n');
            }
            assert(flag@ =~= remove_flag(*cascade, *nosave));
            let mut args: Vec<String> = Vec::new();
            push_string(&mut args, flag.as_str());
            push_string(&mut args, "--");
            assert(args.deep_view() =~= seq![remove_flag(*cascade, *nosave), "--"@]);
            extend_strings(&mut args, targets);
            Plan::Run(command("pacman", args, true))
        },
        Op::SetIgnorePkg { name, ignored } => {
            let v = validate_name(name.as_str());
            if v.is_err() {
                return refusal(v);
            }
            Plan::SetIgnore { name: string_from(name.as_str()), ignored: *ignored }
        },
        Op::RemoveDbLock => Plan::RemoveDbLock,
        Op::PaccacheClean { keep, keep_uninstalled } => {
            let mut a: Vec<String> = Vec::new();
            let f = numbered_flag("-rk", *keep);
            push_string(&mut a, f.as_str());
            let mut b: Vec<String> = Vec::new();
            let g = numbered_flag("-ruk", *keep_uninstalled);
            push_string(&mut b, g.as_str());
            assert(a.deep_view() =~= seq!["-rk"@ + decimal(*keep as nat)]);
            assert(b.deep_view() =~= seq!["-ruk"@ + decimal(*keep_uninstalled as nat)]);
            Plan::RunBoth(command("paccache", a, false), command("paccache", b, false))
        },
        Op::RestartService { name } => {
            let v = validate_name(name.as_str());
            if v.is_err() {
                return refusal(v);
            }
            let mut args: Vec<String> = Vec::new();
            push_string(&mut args, "restart");
            push_string(&mut args, name.as_str());
            assert(args.deep_view() =~= seq!["restart"@, name@]);
            Plan::Run(command("systemctl", args, false))
        },
        Op::SnapshotTimeshift { comment } => {
            let mut args: Vec<String> = Vec::new();
            push_string(&mut args, "--create");
            push_string(&mut args, "--comments");
            push_string(&mut args, comment.as_str());
            push_string(&mut args, "--tags");
            push_string(&mut args, "O");
            assert(args.deep_view() =~= seq![
                "--create"@,
                "--comments"@,
                comment@,
                "--tags"@,
                "O"@,
            ]);
            Plan::Run(command("timeshift", args, false))
        },
        Op::SnapshotSnapper { description } => {
            let mut args: Vec<String> = Vec::new();
            push_string(&mut args, "-c");
            push_string(&mut args, "root");
            push_string(&mut args, "create");
            push_string(&mut args, "--type");
            push_string(&mut args, "single");
            push_string(&mut args, "--description");
            push_string(&mut args, description.as_str());
            assert(args.deep_view() =~= seq![
                "-c"@,
                "root"@,
                "create"@,
                "--type"@,
                "single"@,
                "--description"@,
                description@,
            ]);
            Plan::Run(command("snapper", args, false))
        },
        Op::RefreshMirrors { tool } => Plan::RefreshMirrors(mirror_spec(*tool)),
        Op::RunPacdiff => {
            let args: Vec<String> = Vec::new();
            assert(args.deep_view() =~= Seq::<Seq<char>>::empty());
            let mut c = command("pacdiff", args, true);
            c.env.push((string_from("DIFFPROG"), String::new()));
            proof {
                assert(env_view(c.env@) =~= seq![("DIFFPROG"@, Seq::<char>::empty())]);
            }
            Plan::Run(c)
        },
    }
}

/// The operations before which a stale pacman database lock is cleared.
pub open spec fn uses_pacman_db(op: OpView) -> bool {
    ||| op is SyncDb
    ||| op is SysUpgrade
    ||| op is SysUpgradeNoConfirm
    ||| op is Install
    ||| op is InstallFiles
    ||| op is AurBuildInstall
    ||| op is RemoveMakeDeps
    ||| op is Remove
}

pub fn op_uses_pacman_db(op: &Op) -> (r: bool)
    ensures
        r == uses_pacman_db(op@),
{
    match op {
        Op::SyncDb | Op::SysUpgrade | Op::SysUpgradeNoConfirm | Op::Install { .. }
        | Op::InstallFiles { .. } | Op::AurBuildInstall { .. } | Op::RemoveMakeDeps { .. }
        | Op::Remove { .. } => true,
        _ => false,
    }
}

/// The answer for an operation that completed without output.
pub fn done_ok() -> (r: Response)
    ensures
        r@ == (ResponseView::Done { exit_code: 0, stdout: Seq::empty(), stderr: Seq::empty() }),
{
    Response::Done { exit_code: 0, stdout: String::new(), stderr: String::new() }
}

/// A name that cannot be read as a command-line option: non-empty, not
/// starting with `-`, and made of ASCII letters, digits and `@._+-:`.
pub open spec fn plain_name(n: Seq<char>) -> bool {
    &&& n.len() > 0
    &&& n[0] != '-'
    &&& forall|j: int| 0 <= j < n.len() ==> name_char_ok(#[trigger] n[j])
}

/// The package names that an install or removal request names.
pub open spec fn op_targets(op: OpView) -> Seq<Seq<char>> {
    match op {
        OpView::Install { targets, .. } => targets,
        OpView::Remove { targets, .. } => targets,
        OpView::RemoveMakeDeps { targets } => targets,
        _ => seq![],
    }
}

proof fn lemma_no_name_error_all_ok(names: Seq<Seq<char>>)
    requires
        first_name_error(names) is Ok,
    ensures
        forall|i: int| 0 <= i < names.len() ==> name_check(#[trigger] names[i]) is Ok,
    decreases names.len(),
{
    if names.len() > 0 {
        let rest = names.drop_first();
        lemma_no_name_error_all_ok(rest);
        assert forall|i: int| 0 <= i < names.len() implies name_check(#[trigger] names[i]) is Ok by {
            if i > 0 {
                assert(names[i] == rest[i - 1]);
            }
        }
    }
}

/// Law: an install or removal request that the helper accepts runs pacman with
/// the requested names, in order, as the last arguments, right after a `--`
/// argument; and none of those names is empty, starts with `-`, or holds a
/// character outside ASCII letters, digits and `@._+-:`. So no package name
/// can be taken for an option. A request that is not accepted runs nothing.
pub proof fn lemma_accepted_targets_are_not_options(op: OpView, facts: Seq<PathFacts>)
    requires
        op is Install || op is Remove || op is RemoveMakeDeps,
    ensures
        match plan_spec(op, facts) {
            PlanView::Run(c) => {
                let t = op_targets(op);
                let k = c.args.len() - t.len();
                &&& c.program == "pacman"@
                &&& k >= 1
                &&& c.args[k - 1] == "--"@
                &&& c.args.subrange(k, c.args.len() as int) == t
                &&& t.len() > 0
                &&& forall|i: int| 0 <= i < t.len() ==> plain_name(#[trigger] t[i])
            },
            PlanView::Respond(ResponseView::Error { .. }) => true,
            _ => false,
        },
{
    let t = op_targets(op);
    if names_check(t) is Ok {
        lemma_no_name_error_all_ok(t);
        let pre = match op {
            OpView::Install { as_deps, reinstall, .. } => install_flags(as_deps, reinstall),
            OpView::Remove { cascade, nosave, .. } => seq![remove_flag(cascade, nosave), "--"@],
            _ => seq!["-Rs"@, "--noconfirm"@, "--"@],
        };
        assert(pre.last() == "--"@);
        assert(pre.len() >= 1);
        let args = pre + t;
        assert(plan_spec(op, facts) == PlanView::Run(cmd("pacman"@, args, op is Install || op is Remove)));
        let k = args.len() - t.len();
        assert(k == pre.len());
        assert(args[k - 1] == pre[k - 1]);
        assert(args.subrange(k, args.len() as int) =~= t);
        assert forall|i: int| 0 <= i < t.len() implies plain_name(#[trigger] t[i]) by {
            assert(name_check(t[i]) is Ok);
        }
        assert(plan_spec(op, facts)->Run_0.args == args);
    } else {
        assert(names_check(t) is Err);
        match op {
            OpView::Install { targets, .. } => assert(plan_spec(op, facts) is Respond),
            OpView::Remove { targets, .. } => assert(plan_spec(op, facts) is Respond),
            OpView::RemoveMakeDeps { targets } => assert(plan_spec(op, facts) is Respond),
            _ => {},
        }
    }
}

// ---------------------------------------------------------------------
// Adopting the package databases of an earlier update check
// ---------------------------------------------------------------------

/// What the helper reads of a path without following links: its type and
/// its owner.
#[derive(Debug, Clone, Copy, PartialEq, Eq, Structural)]
pub struct EntryFacts {
    pub is_dir: bool,
    pub is_file: bool,
    pub owner: u32,
}

/// How long after it was written a check's database stamp is still fresh:
/// thirty minutes.
pub open spec fn check_db_max_age_secs() -> nat {
    1800
}

/// Whether an age of `secs` seconds and `nanos` nanoseconds is at most
/// thirty minutes.
pub open spec fn fresh_age(secs: u64, nanos: u32) -> bool {
    secs < check_db_max_age_secs() || (secs == check_db_max_age_secs() && nanos == 0)
}

/// The databases an update check downloaded for user `uid` are adopted,
/// instead of downloading them again, only when their directory is a real
/// directory owned by `uid`, and its stamp is a regular file owned by `uid`
/// whose age is known and at most thirty minutes.
pub open spec fn may_adopt_spec(
    uid: u32,
    dir: Option<EntryFacts>,
    stamp: Option<EntryFacts>,
    stamp_age: Option<(u64, u32)>,
) -> bool {
    &&& dir matches Some(d) && d.is_dir && d.owner == uid
    &&& stamp matches Some(st) && st.is_file && st.owner == uid
    &&& stamp_age matches Some(age) && fresh_age(age.0, age.1)
}

pub fn may_adopt_check_db(
    uid: u32,
    dir: Option<EntryFacts>,
    stamp: Option<EntryFacts>,
    stamp_age: Option<(u64, u32)>,
) -> (r: bool)
    ensures
        r == may_adopt_spec(uid, dir, stamp, stamp_age),
{
    let dir_ok = match dir {
        Some(d) => d.is_dir && d.owner == uid,
        None => false,
    };
    let stamp_ok = match stamp {
        Some(st) => st.is_file && st.owner == uid,
        None => false,
    };
    let fresh = match stamp_age {
        Some(age) => age.0 < 1800 || (age.0 == 1800 && age.1 == 0),
        None => false,
    };
    dir_ok && stamp_ok && fresh
}

/// The files of an update check's database directory that are copied:
/// those named `*.db` or `*.db.sig`.
pub open spec fn is_db_file_spec(name: Seq<char>) -> bool {
    ends_with(name, ".db"@) || ends_with(name, ".db.sig"@)
}

pub fn is_db_file_name(name: &str) -> (r: bool)
    ensures
        r == is_db_file_spec(name@),
{
    str_ends_with(name, ".db") || str_ends_with(name, ".db.sig")
}

/// A database file is copied only when, opened without following links, it
/// is a regular file owned by the user who ran the check.
pub fn trusted_db_source(meta: EntryFacts, uid: u32) -> (r: bool)
    ensures
        r == (meta.is_file && meta.owner == uid),
{
    meta.is_file && meta.owner == uid
}

/// The name of the directory, under the temporary directory, that holds
/// the databases of user `uid`'s update check.
pub open spec fn check_db_dir_spec(uid: u32) -> Seq<char> {
    "daim-checkup-db-"@ + decimal(uid as nat)
}

pub fn check_db_dir_name(uid: u32) -> (r: String)
    ensures
        r@ == check_db_dir_spec(uid),
{
    let mut s = string_from("daim-checkup-db-");
    let n = fmt_u64(uid as u64);
    push_str(&mut s, n.as_str());
    s
}

// ---------------------------------------------------------------------
// Running what a plan says
// ---------------------------------------------------------------------

/// The environment variables that are set for a command: those with a
/// non-empty value, in order.
pub open spec fn env_set(env: Seq<(Seq<char>, Seq<char>)>) -> Seq<(Seq<char>, Seq<char>)>
    decreases env.len(),
{
    if env.len() == 0 {
        seq![]
    } else if env.last().1.len() == 0 {
        env_set(env.drop_last())
    } else {
        env_set(env.drop_last()).push(env.last())
    }
}

pub fn env_to_set(c: &CommandSpec) -> (r: Vec<(String, String)>)
    ensures
        env_view(r@) == env_set(c@.env),
{
    let ghost all = env_view(c.env@);
    let mut out: Vec<(String, String)> = Vec::new();
    let mut i: usize = 0;
    while i < c.env.len()
        invariant
            all == env_view(c.env@),
            i <= c.env@.len(),
            env_view(out@) == env_set(all.take(i as int)),
        decreases c.env@.len() - i,
    {
        proof {
            assert(all.take(i + 1).drop_last() =~= all.take(i as int));
            assert(all.take(i + 1).last() == all[i as int]);
        }
        if !c.env[i].1.as_str().is_empty() {
            let ghost o0 = env_view(out@);
            out.push((c.env[i].0.clone(), c.env[i].1.clone()));
            proof {
                assert(env_view(out@) =~= o0.push(all[i as int]));
            }
        }
        i += 1;
    }
    proof {
        assert(all.take(i as int) =~= all);
    }
    out
}

/// The message given when an operation needs the caller's terminal but the
/// request did not pass all three of its descriptors.
pub open spec fn no_terminal_message() -> Seq<char> {
    "operation requires a terminal but none was provided"@
}

/// Whether a request passed the caller's terminal: exactly its standard
/// input, output and error.
pub fn has_terminal(fd_count: usize) -> (r: Result<(), String>)
    ensures
        r is Ok <==> fd_count == 3,
        r matches Err(m) ==> m@ == no_terminal_message(),
{
    if fd_count == 3 {
        Ok(())
    } else {
        Err(string_from("operation requires a terminal but none was provided"))
    }
}

/// The clone of the caller's AUR package `name`, under their home.
pub fn aur_source_dir(home: &str, name: &str) -> (r: String)
    ensures
        r@ == home@ + "/.cache/daim/aur/"@ + name@,
{
    let mut s = string_from(home);
    push_str(&mut s, "/.cache/daim/aur/");
    push_str(&mut s, name);
    s
}

/// The directory where the build user builds `name`.
pub fn aur_build_dir(name: &str) -> (r: String)
    ensures
        r@ == "/var/lib/daim/build/"@ + name@,
{
    let mut s = string_from("/var/lib/daim/build/");
    push_str(&mut s, name);
    s
}

/// The arguments of the `pacman` run that installs built package files.
pub fn package_install_args(as_deps: bool, files: &Vec<String>) -> (r: Vec<String>)
    ensures
        r.deep_view() == install_file_flags(as_deps) + files.deep_view(),
{
    let mut args: Vec<String> = Vec::new();
    push_string(&mut args, "-U");
    if as_deps {
        push_string(&mut args, "--asdeps");
    }
    push_string(&mut args, "--");
    assert(args.deep_view() =~= install_file_flags(as_deps));
    extend_strings(&mut args, files);
    args
}

// ---------------------------------------------------------------------
// The caller's terminal
// ---------------------------------------------------------------------

pub open spec fn no_terminal() -> ResponseView {
    ResponseView::Error { message: no_terminal_message() }
}

/// A plan as it stands once the descriptors that came with the request are
/// counted: a command that runs on the caller's terminal is refused when
/// fewer than three came (the mirror list is still backed up first), and an
/// AUR build when not exactly three came; anything else stays.
pub open spec fn gated_spec(p: PlanView, fd_count: nat) -> PlanView {
    match p {
        PlanView::Run(c) => if c.tty && fd_count < 3 {
            PlanView::Respond(no_terminal())
        } else {
            p
        },
        PlanView::RefreshMirrors(c) => if c.tty && fd_count < 3 {
            PlanView::BackUpMirrors(no_terminal())
        } else {
            p
        },
        PlanView::BuildAur { .. } => if fd_count != 3 {
            PlanView::Respond(no_terminal())
        } else {
            p
        },
        _ => p,
    }
}

fn no_terminal_response() -> (r: Response)
    ensures
        r@ == no_terminal(),
{
    Response::Error { message: string_from("operation requires a terminal but none was provided") }
}

/// Refuses what needs the caller's terminal when the request did not bring
/// one (see [`gated_spec`]).
pub fn terminal_gate(p: Plan, fd_count: usize) -> (r: Plan)
    ensures
        r@ == gated_spec(p@, fd_count as nat),
{
    match p {
        Plan::Run(c) => if c.tty && fd_count < 3 {
            Plan::Respond(no_terminal_response())
        } else {
            Plan::Run(c)
        },
        Plan::RefreshMirrors(c) => if c.tty && fd_count < 3 {
            Plan::BackUpMirrors(no_terminal_response())
        } else {
            Plan::RefreshMirrors(c)
        },
        Plan::BuildAur { name, as_deps } => if fd_count != 3 {
            Plan::Respond(no_terminal_response())
        } else {
            Plan::BuildAur { name, as_deps }
        },
        other => other,
    }
}

/// Law: a request for an operation that runs on the caller's terminal, which
/// the helper accepts but which brought fewer than three descriptors, is
/// answered with the terminal error and runs nothing (a mirror refresh only
/// backs up the mirror list first).
pub proof fn lemma_terminal_ops_refused_without_terminal(op: OpView, facts: Seq<PathFacts>, fd_count: nat)
    requires
        op_wants_tty(op),
        fd_count < 3,
        !(plan_spec(op, facts) is Respond),
    ensures
        gated_spec(plan_spec(op, facts), fd_count) == (if op is RefreshMirrors {
            PlanView::BackUpMirrors(no_terminal())
        } else {
            PlanView::Respond(no_terminal())
        }),
{
    match op {
        OpView::RefreshMirrors { tool } => {
            assert(mirror_command(tool).tty);
        },
        _ => {},
    }
}

// ---------------------------------------------------------------------
// Two commands in a row
// ---------------------------------------------------------------------

/// A command ran and exited with status 0.
pub open spec fn succeeded(r: ResponseView) -> bool {
    r matches ResponseView::Done { exit_code, .. } && exit_code == 0
}

/// What a [`Plan::RunBoth`] answers: the first command's answer when it did
/// not succeed (the second then never runs), else the second's.
pub open spec fn run_both_answer(first: ResponseView, second: ResponseView) -> ResponseView {
    if succeeded(first) {
        second
    } else {
        first
    }
}

/// The step after the first command of a [`Plan::RunBoth`] answered
/// `first`: its answer, when it failed, is the plan's answer and nothing else
/// runs; `None` when it succeeded, and the second command runs and its
/// answer is the plan's (see [`run_both_answer`]).
pub fn after_first(first: Response) -> (r: Option<Response>)
    ensures
        succeeded(first@) ==> r is None,
        !succeeded(first@) ==> r == Some(first),
        forall|second: ResponseView|
            run_both_answer(first@, second) == (match r {
                Some(x) => x@,
                None => second,
            }),
{
    if first.is_success() {
        None
    } else {
        Some(first)
    }
}

/// Law: a cache clean runs `paccache -rk<keep>` first; when that fails its
/// answer is the request's and the second `paccache` never runs, otherwise
/// the answer is that of `paccache -ruk<keep_uninstalled>`.
pub proof fn lemma_cache_clean_stops_at_first_failure(keep: u32, keep_uninstalled: u32, first: ResponseView, second: ResponseView)
    ensures
        plan_spec(OpView::PaccacheClean { keep, keep_uninstalled }, seq![]) == PlanView::RunBoth(
            cmd("paccache"@, seq!["-rk"@ + decimal(keep as nat)], false),
            cmd("paccache"@, seq!["-ruk"@ + decimal(keep_uninstalled as nat)], false),
        ),
        !succeeded(first) ==> run_both_answer(first, second) == first,
        succeeded(first) ==> run_both_answer(first, second) == second,
{
}

/// Law: an accepted removal runs `pacman` with the flag `-R`, followed by
/// `s` exactly when dependencies that nothing else needs go too (`cascade`)
/// and `n` exactly when configuration files are not kept (`nosave`), each
/// option on its own: `-R`, `-Rs`, `-Rn` or `-Rsn`.
pub proof fn lemma_remove_flag_follows_options(
    targets: Seq<Seq<char>>,
    cascade: bool,
    nosave: bool,
    facts: Seq<PathFacts>,
)
    requires
        names_check(targets) is Ok,
    ensures
        plan_spec(OpView::Remove { targets, cascade, nosave }, facts) matches PlanView::Run(c) && {
            &&& c.program == "pacman"@
            &&& c.args[0] == (if cascade && nosave {
                "-Rsn"@
            } else if cascade {
                "-Rs"@
            } else if nosave {
                "-Rn"@
            } else {
                "-R"@
            })
            &&& c.args[0].contains('s') == cascade
            &&& c.args[0].contains('n') == nosave
        },
{
    reveal_strlit("-R");
    reveal_strlit("-Rs");
    reveal_strlit("-Rn");
    reveal_strlit("-Rsn");
    reveal_strlit("pacman");
    let f = remove_flag(cascade, nosave);
    let c = cmd("pacman"@, seq![f, "--"@] + targets, true);
    assert(c.args[0] == f);
    if cascade && nosave {
        assert(f =~= "-Rsn"@);
        assert(f[2] == 's' && f[3] == 'n');
    } else if cascade {
        assert(f =~= "-Rs"@);
        assert(f[2] == 's');
        assert(!f.contains('n')) by {
            assert forall|i: int| 0 <= i < f.len() implies f[i] != 'n' by {}
        }
    } else if nosave {
        assert(f =~= "-Rn"@);
        assert(f[2] == 'n');
        assert(!f.contains('s')) by {
            assert forall|i: int| 0 <= i < f.len() implies f[i] != 's' by {}
        }
    } else {
        assert(f =~= "-R"@);
        assert(!f.contains('s') && !f.contains('n')) by {
            assert forall|i: int| 0 <= i < f.len() implies f[i] != 's' && f[i] != 'n' by {}
        }
    }
}

} // verus!
