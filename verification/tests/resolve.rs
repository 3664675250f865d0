use arch_install_manager::engine::resolve::{ResolveAction, ResolveEvent, Resolver};

fn fetched(srcinfo: &str) -> ResolveEvent {
    ResolveEvent::Fetched {
        dir: "/cache/pkg".to_string(),
        fresh: true,
        prev_commit: None,
        srcinfo: Some(srcinfo.to_string()),
    }
}

fn fetch_name(a: &ResolveAction) -> String {
    match a {
        ResolveAction::Fetch(n) => n.clone(),
        _ => panic!("expected a fetch"),
    }
}

fn is_done_ok(a: &ResolveAction) -> bool {
    matches!(a, ResolveAction::Done(Ok(())))
}

#[test]
fn resolver_builds_dependencies_first() {
    let mut r = Resolver::new();
    let a = r.begin("app", true);
    assert_eq!(fetch_name(&a), "app");
    let a = r.feed(fetched("depends = libfoo>=1\ndepends = glibc\n"));
    match &a {
        ResolveAction::CheckSatisfied(d) => assert_eq!(d, "libfoo>=1"),
        _ => panic!("expected a dependency check"),
    }
    let a = r.feed(ResolveEvent::Satisfied(false));
    match &a {
        ResolveAction::CheckRepo(b) => assert_eq!(b, "libfoo"),
        _ => panic!("expected a repository check"),
    }
    let a = r.feed(ResolveEvent::InRepo(false));
    assert_eq!(fetch_name(&a), "libfoo");
    let a = r.feed(fetched("makedepends = cmake\n"));
    assert!(matches!(a, ResolveAction::CheckSatisfied(_)));
    let a = r.feed(ResolveEvent::Satisfied(false));
    assert!(matches!(a, ResolveAction::CheckRepo(_)));
    let a = r.feed(ResolveEvent::InRepo(true));
    match &a {
        ResolveAction::CheckSatisfied(d) => assert_eq!(d, "glibc"),
        _ => panic!("expected the next dependency of app"),
    }
    let a = r.feed(ResolveEvent::Satisfied(true));
    assert!(is_done_ok(&a));
    let names: Vec<String> = r.plan.builds.iter().map(|b| b.name.clone()).collect();
    assert_eq!(names, vec!["libfoo".to_string(), "app".to_string()]);
    assert!(r.plan.builds[1].explicit);
    assert!(!r.plan.builds[0].explicit);
    assert_eq!(r.plan.repo_deps, vec!["cmake".to_string()]);
}

#[test]
fn resolver_builds_each_package_once() {
    let mut r = Resolver::new();
    assert_eq!(fetch_name(&r.begin("a", true)), "a");
    assert!(matches!(r.feed(fetched("depends = b\n")), ResolveAction::CheckSatisfied(_)));
    assert!(matches!(r.feed(ResolveEvent::Satisfied(false)), ResolveAction::CheckRepo(_)));
    assert_eq!(fetch_name(&r.feed(ResolveEvent::InRepo(false))), "b");
    // b depends on a again: a is being resolved already, so nothing is fetched.
    assert!(matches!(r.feed(fetched("depends = a\n")), ResolveAction::CheckSatisfied(_)));
    assert!(matches!(r.feed(ResolveEvent::Satisfied(false)), ResolveAction::CheckRepo(_)));
    assert!(is_done_ok(&r.feed(ResolveEvent::InRepo(false))));
    // A second target that was built already needs nothing.
    assert!(is_done_ok(&r.begin("b", true)));
    let names: Vec<String> = r.plan.builds.iter().map(|b| b.name.clone()).collect();
    assert_eq!(names, vec!["b".to_string(), "a".to_string()]);
}

#[test]
fn resolver_refuses_invalid_names() {
    let mut r = Resolver::new();
    match r.begin("../etc", true) {
        ResolveAction::Done(Err(m)) => assert_eq!(m, "invalid package name: ../etc"),
        _ => panic!("expected an error"),
    }
}

#[test]
fn resolver_reports_fetch_failures() {
    let mut r = Resolver::new();
    r.begin("x", true);
    match r.feed(ResolveEvent::FetchFailed("git clone failed".to_string())) {
        ResolveAction::Done(Err(m)) => assert_eq!(m, "git clone failed"),
        _ => panic!("expected an error"),
    }
}

#[test]
fn resolver_without_srcinfo_builds_at_once() {
    let mut r = Resolver::new();
    r.begin("x", false);
    let a = r.feed(ResolveEvent::Fetched {
        dir: "/d".to_string(),
        fresh: false,
        prev_commit: Some("abc".to_string()),
        srcinfo: None,
    });
    assert!(is_done_ok(&a));
    assert_eq!(r.plan.builds.len(), 1);
    assert_eq!(r.plan.builds[0].prev_commit, Some("abc".to_string()));
    assert_eq!(r.plan.builds[0].dir, "/d");
}

#[test]
fn resolver_rejects_unexpected_reports() {
    let mut r = Resolver::new();
    match r.feed(ResolveEvent::Satisfied(true)) {
        ResolveAction::Done(Err(_)) => {}
        _ => panic!("expected an error"),
    }
}
