use arch_install_manager::engine::{install_stop, review_wanted};
use arch_install_manager::ipc::client::{peer_step, PeerAction, PeerEvent};
use arch_install_manager::ipc::server::{after_first, plan_op, Plan};
use arch_install_manager::models::op::Op;
use arch_install_manager::models::response::Response;
use arch_install_manager::ui::panels::{ignore_outcome, snapshot_outcome, IgnoreOutcome};

fn done(code: i32) -> Response {
    Response::Done { exit_code: code, stdout: String::new(), stderr: String::new() }
}

#[test]
fn cache_clean_stops_after_a_failed_first_command() {
    match plan_op(&Op::PaccacheClean { keep: 3, keep_uninstalled: 0 }, &[]) {
        Plan::RunBoth(first, second) => {
            assert_eq!(first.args, vec!["-rk3".to_string()]);
            assert_eq!(second.args, vec!["-ruk0".to_string()]);
        }
        _ => panic!("expected two commands"),
    }
    assert!(after_first(done(0)).is_none());
    match after_first(done(1)) {
        Some(Response::Done { exit_code, .. }) => assert_eq!(exit_code, 1),
        _ => panic!("expected the first answer"),
    }
    match after_first(Response::Error { message: "x".to_string() }) {
        Some(Response::Error { message }) => assert_eq!(message, "x"),
        _ => panic!("expected the first answer"),
    }
}

#[test]
fn only_root_is_taken_for_the_helper() {
    assert!(matches!(peer_step(PeerEvent::Connected { peer_uid: Some(0) }), PeerAction::Accept));
    assert!(matches!(peer_step(PeerEvent::Connected { peer_uid: Some(1000) }), PeerAction::Reject));
    assert!(matches!(peer_step(PeerEvent::Connected { peer_uid: None }), PeerAction::Reject));
    assert!(matches!(
        peer_step(PeerEvent::Nobody { exited: None, past_deadline: false }),
        PeerAction::Wait
    ));
    match peer_step(PeerEvent::Nobody { exited: None, past_deadline: true }) {
        PeerAction::TimedOut(m) => assert_eq!(m, "timed out waiting for daim-helper to start"),
        _ => panic!("expected a timeout"),
    }
    match peer_step(PeerEvent::Nobody { exited: Some("exit status: 126".to_string()), past_deadline: true }) {
        PeerAction::Denied(m) => {
            assert_eq!(m, "authorization for daim-helper failed (exit exit status: 126)")
        }
        _ => panic!("expected a refusal"),
    }
}

#[test]
fn installs_stop_early_without_targets_or_on_a_declined_review() {
    assert_eq!(install_stop(0, false, true), Some(2));
    assert_eq!(install_stop(2, true, false), Some(1));
    assert_eq!(install_stop(2, true, true), None);
    assert_eq!(install_stop(2, false, false), None);
    assert!(review_wanted(false, 1));
    assert!(!review_wanted(true, 1));
    assert!(!review_wanted(false, 0));
}

#[test]
fn blacklist_changes_and_snapshots_end_as_the_helper_says() {
    assert!(matches!(ignore_outcome(Ok(done(0))), IgnoreOutcome::Applied));
    match ignore_outcome(Ok(Response::Done { exit_code: 1, stdout: String::new(), stderr: "no".to_string() })) {
        IgnoreOutcome::Failed(m) => assert_eq!(m, "no"),
        _ => panic!("expected a failure"),
    }
    match ignore_outcome(Err("broken pipe".to_string())) {
        IgnoreOutcome::Failed(m) => assert_eq!(m, "broken pipe"),
        _ => panic!("expected a failure"),
    }
    assert_eq!(snapshot_outcome(Ok(done(0)), "f".to_string()), Ok(()));
    assert_eq!(snapshot_outcome(Ok(done(2)), "f".to_string()), Err("f".to_string()));
    assert_eq!(snapshot_outcome(Err("e".to_string()), "f".to_string()), Err("e".to_string()));
}
