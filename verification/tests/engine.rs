use arch_install_manager::engine::picks::{parse_picks, push_pick};
use arch_install_manager::engine::{
    answer_accepts, aur_build_op, check_build_response, dependency_base_name, failure_exit_code,
    is_valid_aur_name, parse_srcinfo_deps, partition_targets, pending_repo_deps,
    split_selected_updates,
};
use arch_install_manager::models::aur_build::AurBuild;
use arch_install_manager::models::op::Op;
use arch_install_manager::models::package_source::PackageSource;
use arch_install_manager::models::package_update::PackageUpdate;
use arch_install_manager::models::response::Response;

fn strings(v: &[&str]) -> Vec<String> {
    v.iter().map(|s| s.to_string()).collect()
}

fn pkg(name: &str, source: PackageSource) -> PackageUpdate {
    PackageUpdate {
        source,
        repository: String::new(),
        selected: true,
        name: name.to_string(),
        description: String::new(),
        current_version: String::new(),
        new_version: "1.0".to_string(),
        size: 0,
        url: None,
        build_date: None,
        first_submitted: None,
        out_of_date: None,
        orphaned: false,
        maintainer: None,
        previous_maintainer: None,
        num_votes: None,
        is_repo_switch: false,
        security_severity: None,
        security_issues: Vec::new(),
        new_permissions: Vec::new(),
        extra_dependencies: Vec::new(),
        pkgbuild_needs_review: false,
        flatpak_installation: None,
        aur_scan_findings: Vec::new(),
        appimage_path: None,
    }
}

#[test]
fn parse_picks_reads_numbers_commas_and_ranges() {
    assert_eq!(parse_picks("1, 3 5-7", 10), vec![0, 2, 4, 5, 6]);
}

#[test]
fn parse_picks_reversed_range_and_duplicates() {
    assert_eq!(parse_picks("4-2 3 2", 5), vec![1, 2, 3]);
}

#[test]
fn parse_picks_drops_out_of_range_and_junk() {
    assert_eq!(parse_picks("0 11 x 2-a 10", 10), vec![9]);
    assert_eq!(parse_picks("", 3), Vec::<usize>::new());
    assert_eq!(parse_picks("   ,,  ", 3), Vec::<usize>::new());
}

#[test]
fn parse_picks_range_past_the_end_keeps_the_valid_part() {
    assert_eq!(parse_picks("2-9", 3), vec![1, 2]);
}

#[test]
fn push_pick_skips_known_and_invalid() {
    let mut out = vec![1];
    push_pick(&mut out, 2, 5);
    assert_eq!(out, vec![1]);
    push_pick(&mut out, 0, 5);
    push_pick(&mut out, 6, 5);
    assert_eq!(out, vec![1]);
    push_pick(&mut out, 5, 5);
    assert_eq!(out, vec![1, 4]);
}

#[test]
fn partition_sends_prefixed_and_unknown_targets_to_the_aur() {
    let targets = strings(&["aur/yay", "firefox", "mystery"]);
    let (repo, aur) = partition_targets(&targets, &[true, true, false]);
    assert_eq!(repo, strings(&["firefox"]));
    assert_eq!(aur, strings(&["yay", "mystery"]));
}

#[test]
fn partition_counts_add_up() {
    let targets = strings(&["a", "aur/b", "c", "d"]);
    let (repo, aur) = partition_targets(&targets, &[false, true, true, false]);
    assert_eq!(repo.len() + aur.len(), targets.len());
    assert_eq!(repo, strings(&["c"]));
    assert_eq!(aur, strings(&["a", "b", "d"]));
}

#[test]
fn pending_repo_deps_drops_satisfied_and_repeats() {
    let deps = strings(&["cmake", "ninja", "cmake", "git"]);
    let out = pending_repo_deps(&deps, &[false, true, false, false]);
    assert_eq!(out, strings(&["cmake", "git"]));
}

#[test]
fn aur_names_are_checked() {
    assert!(is_valid_aur_name("yay-bin"));
    assert!(is_valid_aur_name("lib32-foo_bar+1@2.0"));
    assert!(!is_valid_aur_name(""));
    assert!(!is_valid_aur_name("-rf"));
    assert!(!is_valid_aur_name(".hidden"));
    assert!(!is_valid_aur_name("a b"));
    assert!(!is_valid_aur_name("ä"));
    assert!(is_valid_aur_name(&"a".repeat(256)));
    assert!(!is_valid_aur_name(&"a".repeat(257)));
}

#[test]
fn dependency_base_names_drop_versions() {
    assert_eq!(dependency_base_name("python>=3.10"), "python");
    assert_eq!(dependency_base_name("glibc<3"), "glibc");
    assert_eq!(dependency_base_name("foo=1.2"), "foo");
    assert_eq!(dependency_base_name("plain"), "plain");
    assert_eq!(dependency_base_name(">=1"), "");
}

#[test]
fn srcinfo_dependencies_are_read_in_order() {
    let text = "pkgbase = foo\n\tdepends = glibc\n\tmakedepends = cmake>=3\n\
                \tcheckdepends=python-pytest\n\toptdepends = bash: completion\n\
                \tdepends =   \n  depends = zlib  \r\n";
    assert_eq!(
        parse_srcinfo_deps(text),
        strings(&["glibc", "cmake>=3", "python-pytest", "zlib"])
    );
    assert_eq!(parse_srcinfo_deps(""), Vec::<String>::new());
}

#[test]
fn answers_accept_yes_and_empty_when_allowed() {
    assert!(answer_accepts("y\n", true));
    assert!(answer_accepts("  YES ", false));
    assert!(answer_accepts("\n", true));
    assert!(!answer_accepts("\n", false));
    assert!(!answer_accepts("no", true));
    assert!(!answer_accepts("yess", true));
}

#[test]
fn failure_exit_codes() {
    let done = Response::Done { exit_code: 7, stdout: String::new(), stderr: "x".to_string() };
    assert_eq!(failure_exit_code(&done), 7);
    let err = Response::error("boom".to_string());
    assert_eq!(failure_exit_code(&err), 1);
}

#[test]
fn aur_build_requests_mark_dependencies() {
    let b = AurBuild {
        name: "foo".to_string(),
        dir: "/tmp/foo".to_string(),
        explicit: false,
        fresh: true,
        prev_commit: None,
    };
    match aur_build_op(&b) {
        Op::AurBuildInstall { name, as_deps } => {
            assert_eq!(name, "foo");
            assert!(as_deps);
        }
        other => panic!("unexpected {other:?}"),
    }
}

#[test]
fn build_responses_are_checked() {
    let ok = Response::Done { exit_code: 0, stdout: String::new(), stderr: String::new() };
    assert_eq!(check_build_response("foo", &ok), Ok(()));
    let bad = Response::Done { exit_code: 2, stdout: String::new(), stderr: String::new() };
    assert_eq!(check_build_response("foo", &bad), Err("failed to install foo".to_string()));
    let err = Response::error("denied".to_string());
    assert_eq!(check_build_response("bar", &err), Err("failed to install bar".to_string()));
}

#[test]
fn selected_updates_are_split_by_source() {
    let selected = vec![
        pkg("firefox", PackageSource::Official),
        pkg("yay", PackageSource::Aur),
        pkg("org.gimp.GIMP", PackageSource::Flatpak),
        pkg("tool", PackageSource::AppImage),
        pkg("vlc", PackageSource::Official),
    ];
    let (targets, flatpak, appimage) = split_selected_updates(&selected);
    assert_eq!(targets, strings(&["firefox", "aur/yay", "vlc"]));
    assert_eq!(flatpak, vec![2]);
    assert_eq!(appimage, vec![3]);
}
