use arch_install_manager::ipc::client::{
    check_not_traced, control_socket_name, ignore_request, request, resolve_launcher,
};
use arch_install_manager::ipc::protocol::{
    frame, frame_len, received_body_range, socket_dir_for_uid, MAX_FRAME_LEN,
};
use arch_install_manager::ipc::server::{
    check_db_dir_name, is_db_file_name, may_adopt_check_db, op_uses_pacman_db, plan_op,
    terminal_gate, trusted_db_source, validate_name, validate_names, validate_pkg_paths, EntryFacts, PathFacts,
    PathKind, Plan,
};
use arch_install_manager::models::mirror_tool::MirrorTool;
use arch_install_manager::models::op::Op;
use arch_install_manager::models::response::Response;

fn strings(v: &[&str]) -> Vec<String> {
    v.iter().map(|s| s.to_string()).collect()
}

fn refused(p: &Plan) -> Option<String> {
    match p {
        Plan::Respond(Response::Error { message }) => Some(message.clone()),
        _ => None,
    }
}

fn run_of(p: &Plan) -> (String, Vec<String>, bool) {
    match p {
        Plan::Run(c) => (c.program.clone(), c.args.clone(), c.tty),
        _ => panic!("not a single command"),
    }
}

#[test]
fn helper_ipc_round_trip() {
    let req = request(Op::Install { targets: vec![], as_deps: false, reinstall: false });
    assert!(req.with_tty);
    let plan = plan_op(&req.op, &[]);
    assert_eq!(refused(&plan), Some("no targets supplied".to_string()));
}

#[test]
fn frames_carry_a_big_endian_length() {
    let f = frame(b"hello");
    assert_eq!(f, vec![0, 0, 0, 5, b'h', b'e', b'l', b'l', b'o']);
    assert_eq!(frame_len(&f[..4]), Some(5));
    assert_eq!(frame(&[]), vec![0, 0, 0, 0]);
}

#[test]
fn frame_round_trip_of_a_long_body() {
    let body: Vec<u8> = (0..300u32).map(|i| (i % 251) as u8).collect();
    let f = frame(&body);
    let n = frame_len(&f[..4]).unwrap();
    assert_eq!(n, 300);
    assert_eq!(&f[4..4 + n], &body[..]);
}

#[test]
fn oversized_frames_are_refused() {
    assert_eq!(frame_len(&[0x01, 0x00, 0x00, 0x00]), Some(MAX_FRAME_LEN));
    assert_eq!(frame_len(&[0x01, 0x00, 0x00, 0x01]), None);
    assert_eq!(frame_len(&[0xff, 0xff, 0xff, 0xff]), None);
}

#[test]
fn received_body_ranges() {
    let buf = [0u8, 0, 0, 3, 7, 8, 9, 0, 0];
    assert_eq!(received_body_range(&buf, 7), Some((4, 7)));
    assert_eq!(received_body_range(&buf, 9), Some((4, 7)));
    assert_eq!(received_body_range(&buf, 5), Some((4, 5)));
    assert_eq!(received_body_range(&buf, 3), None);
}

#[test]
fn socket_paths_and_names() {
    assert_eq!(socket_dir_for_uid(1000), "/run/user/1000/daim");
    assert_eq!(control_socket_name(42, &[0x00, 0xab, 0x10]), "ctl-42-00ab10.sock");
    assert_eq!(control_socket_name(7, &[]), "ctl-7-.sock");
}

#[test]
fn launcher_choice() {
    assert_eq!(resolve_launcher(Some("doas".to_string()), Some("sudo".to_string())), "doas");
    assert_eq!(resolve_launcher(None, Some("sudo".to_string())), "sudo");
    assert_eq!(resolve_launcher(None, None), "pkexec");
}

#[test]
fn tracer_detection() {
    assert_eq!(check_not_traced("Name:\tdaim\nTracerPid:\t0\n"), Ok(()));
    assert_eq!(
        check_not_traced("Name:\tdaim\nTracerPid:\t1234\nUid:\t0\n"),
        Err("refusing to get admin rights while another process is tracing this app".to_string())
    );
    assert_eq!(check_not_traced("Name:\tdaim\n"), Ok(()));
    assert_eq!(check_not_traced("TracerPid:\tabc"), Ok(()));
    assert!(check_not_traced("TracerPid: -5").is_err());
}

#[test]
fn requests_ask_for_a_terminal_when_needed() {
    assert!(request(Op::SysUpgrade).with_tty);
    assert!(!request(Op::SyncDb).with_tty);
    assert!(!request(Op::SysUpgradeNoConfirm).with_tty);
    assert!(request(Op::RunPacdiff).with_tty);
}

#[test]
fn name_validation_messages() {
    assert_eq!(validate_name("firefox"), Ok(()));
    assert_eq!(validate_name("lib32-glibc:1.0+x@y_z"), Ok(()));
    assert_eq!(validate_name(""), Err("invalid name: \"\"".to_string()));
    assert_eq!(validate_name("-rf"), Err("invalid name: \"-rf\"".to_string()));
    assert_eq!(
        validate_name("a b"),
        Err("invalid characters in name: \"a b\"".to_string())
    );
    assert!(validate_name(&"x".repeat(256)).is_ok());
    assert!(validate_name(&"x".repeat(257)).is_err());
}

#[test]
fn names_need_at_least_one_target() {
    assert_eq!(validate_names(&vec![]), Err("no targets supplied".to_string()));
    assert_eq!(validate_names(&strings(&["a", "b"])), Ok(()));
    assert_eq!(
        validate_names(&strings(&["a", "b;c", "-x"])),
        Err("invalid characters in name: \"b;c\"".to_string())
    );
}

#[test]
fn package_paths_are_checked() {
    let ok = PathFacts { kind: PathKind::Regular, file_name: "foo-1-1-x86_64.pkg.tar.zst".to_string() };
    let paths = strings(&["/tmp/foo-1-1-x86_64.pkg.tar.zst"]);
    assert_eq!(validate_pkg_paths(&paths, &[ok]), Ok(()));
    assert_eq!(validate_pkg_paths(&vec![], &[]), Err("no package files supplied".to_string()));
    let missing = PathFacts { kind: PathKind::Missing, file_name: "x".to_string() };
    assert_eq!(
        validate_pkg_paths(&strings(&["/nope"]), &[missing]),
        Err("not a file: /nope".to_string())
    );
    let dir = PathFacts { kind: PathKind::NotRegular, file_name: "d".to_string() };
    assert_eq!(
        validate_pkg_paths(&strings(&["/d"]), &[dir]),
        Err("not a regular file: /d".to_string())
    );
    let txt = PathFacts { kind: PathKind::Regular, file_name: "notes.txt".to_string() };
    assert_eq!(
        validate_pkg_paths(&strings(&["/notes.txt"]), &[txt]),
        Err("not a package file: /notes.txt".to_string())
    );
    let any = PathFacts { kind: PathKind::Regular, file_name: "a.pkg.tar".to_string() };
    assert_eq!(
        validate_pkg_paths(&strings(&["-a.pkg.tar"]), &[any]),
        Err("invalid package path: -a.pkg.tar".to_string())
    );
}

#[test]
fn installs_run_pacman_with_flags() {
    let op = Op::Install { targets: strings(&["vim"]), as_deps: true, reinstall: false };
    let (prog, args, tty) = run_of(&plan_op(&op, &[]));
    assert_eq!(prog, "pacman");
    assert_eq!(args, strings(&["-S", "--needed", "--asdeps", "--", "vim"]));
    assert!(tty);
    let op = Op::Install { targets: strings(&["vim"]), as_deps: false, reinstall: true };
    assert_eq!(run_of(&plan_op(&op, &[])).1, strings(&["-S", "--", "vim"]));
}

#[test]
fn removals_build_their_flag() {
    let op = Op::Remove { targets: strings(&["a", "b"]), cascade: true, nosave: true };
    assert_eq!(run_of(&plan_op(&op, &[])).1, strings(&["-Rsn", "--", "a", "b"]));
    let op = Op::Remove { targets: strings(&["a"]), cascade: false, nosave: false };
    assert_eq!(run_of(&plan_op(&op, &[])).1, strings(&["-R", "--", "a"]));
    let op = Op::Remove { targets: vec![], cascade: false, nosave: false };
    assert_eq!(refused(&plan_op(&op, &[])), Some("no targets supplied".to_string()));
}

#[test]
fn refused_operations_run_nothing() {
    let op = Op::RestartService { name: "--now".to_string() };
    assert_eq!(refused(&plan_op(&op, &[])), Some("invalid name: \"--now\"".to_string()));
    assert_eq!(
        refused(&plan_op(&Op::NewSession, &[])),
        Some("a new session is handled by the server loop".to_string())
    );
    let op = Op::AurBuildInstall { name: "a/b".to_string(), as_deps: false };
    assert_eq!(refused(&plan_op(&op, &[])), Some("invalid characters in name: \"a/b\"".to_string()));
}

#[test]
fn other_plans() {
    match plan_op(&Op::PaccacheClean { keep: 3, keep_uninstalled: 0 }, &[]) {
        Plan::RunBoth(a, b) => {
            assert_eq!(a.program, "paccache");
            assert_eq!(a.args, strings(&["-rk3"]));
            assert_eq!(b.args, strings(&["-ruk0"]));
        }
        _ => panic!("paccache runs twice"),
    }
    match plan_op(&Op::RefreshMirrors { tool: MirrorTool::Reflector }, &[]) {
        Plan::RefreshMirrors(c) => {
            assert_eq!(c.program, "reflector");
            assert_eq!(c.args[0], "--save");
        }
        _ => panic!("mirrors"),
    }
    match plan_op(&Op::RunPacdiff, &[]) {
        Plan::Run(c) => {
            assert_eq!(c.program, "pacdiff");
            assert_eq!(c.env, vec![("DIFFPROG".to_string(), String::new())]);
        }
        _ => panic!("pacdiff"),
    }
    assert!(matches!(plan_op(&Op::SyncDb, &[]), Plan::SyncDatabases));
    assert!(matches!(plan_op(&Op::RemoveDbLock, &[]), Plan::RemoveDbLock));
    match plan_op(&Op::SetIgnorePkg { name: "linux".to_string(), ignored: true }, &[]) {
        Plan::SetIgnore { name, ignored } => {
            assert_eq!(name, "linux");
            assert!(ignored);
        }
        _ => panic!("ignore"),
    }
    let (prog, args, _) = run_of(&plan_op(&Op::SnapshotTimeshift { comment: "before".to_string() }, &[]));
    assert_eq!(prog, "timeshift");
    assert_eq!(args, strings(&["--create", "--comments", "before", "--tags", "O"]));
}

#[test]
fn which_operations_touch_the_database() {
    assert!(op_uses_pacman_db(&Op::SyncDb));
    assert!(op_uses_pacman_db(&Op::Install { targets: vec![], as_deps: false, reinstall: false }));
    assert!(!op_uses_pacman_db(&Op::RestartService { name: "x".to_string() }));
}

#[test]
fn check_databases_are_adopted_only_when_trusted_and_fresh() {
    let dir = EntryFacts { is_dir: true, is_file: false, owner: 1000 };
    let stamp = EntryFacts { is_dir: false, is_file: true, owner: 1000 };
    assert!(may_adopt_check_db(1000, Some(dir), Some(stamp), Some((60, 0))));
    assert!(may_adopt_check_db(1000, Some(dir), Some(stamp), Some((1800, 0))));
    assert!(!may_adopt_check_db(1000, Some(dir), Some(stamp), Some((1800, 1))));
    assert!(!may_adopt_check_db(1000, Some(dir), Some(stamp), None));
    assert!(!may_adopt_check_db(1001, Some(dir), Some(stamp), Some((60, 0))));
    assert!(!may_adopt_check_db(1000, None, Some(stamp), Some((60, 0))));
    assert!(!may_adopt_check_db(1000, Some(stamp), Some(stamp), Some((60, 0))));
    assert!(is_db_file_name("core.db"));
    assert!(is_db_file_name("extra.db.sig"));
    assert!(!is_db_file_name("core.files"));
    assert!(trusted_db_source(stamp, 1000));
    assert!(!trusted_db_source(dir, 1000));
    assert_eq!(check_db_dir_name(1000), "daim-checkup-db-1000");
}

#[test]
fn terminal_operations_need_the_callers_terminal() {
    let install = Op::Install { targets: vec!["vim".to_string()], as_deps: false, reinstall: false };
    match terminal_gate(plan_op(&install, &[]), 0) {
        Plan::Respond(Response::Error { message }) => {
            assert_eq!(message, "operation requires a terminal but none was provided")
        }
        _ => panic!("expected the terminal error"),
    }
    assert!(matches!(terminal_gate(plan_op(&install, &[]), 3), Plan::Run(_)));
    assert!(matches!(terminal_gate(plan_op(&Op::SysUpgradeNoConfirm, &[]), 0), Plan::Run(_)));
    let refresh = Op::RefreshMirrors { tool: MirrorTool::Reflector };
    assert!(matches!(
        terminal_gate(plan_op(&refresh, &[]), 2),
        Plan::BackUpMirrors(Response::Error { .. })
    ));
    let build = Op::AurBuildInstall { name: "foo".to_string(), as_deps: false };
    assert!(matches!(terminal_gate(plan_op(&build, &[]), 4), Plan::Respond(Response::Error { .. })));
    assert!(matches!(terminal_gate(plan_op(&build, &[]), 3), Plan::BuildAur { .. }));
    // A rejected request keeps its own error.
    let bad = Op::Install { targets: vec!["-x".to_string()], as_deps: false, reinstall: false };
    match terminal_gate(plan_op(&bad, &[]), 0) {
        Plan::Respond(Response::Error { message }) => {
            assert_ne!(message, "operation requires a terminal but none was provided")
        }
        _ => panic!("expected the refusal"),
    }
}

#[test]
fn blacklist_requests_go_without_a_terminal() {
    let r = ignore_request("linux", true);
    assert!(!r.with_tty);
    assert!(matches!(&r.op, Op::SetIgnorePkg { name, ignored: true } if name == "linux"));
}
