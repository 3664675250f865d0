use std::time::{SystemTime, UNIX_EPOCH};

use arch_install_manager::constants::is_recently_created;
use arch_install_manager::engine::render::item_chips;
use arch_install_manager::engine::resolve::contains_str;
use arch_install_manager::helpers::aur::{aur_search_hit, aur_version_of};
use arch_install_manager::helpers::format::format_build_date;
use arch_install_manager::helpers::installed::repo_update_from_line;
use arch_install_manager::ipc::server::{
    aur_build_dir, aur_source_dir, done_ok, env_to_set, has_terminal, package_install_args,
    CommandSpec,
};
use arch_install_manager::models::aur_info::AurInfo;
use arch_install_manager::models::op::Op;
use arch_install_manager::models::package_source::PackageSource;
use arch_install_manager::models::response::Response;
use arch_install_manager::text::words_of;

fn now() -> i64 {
    SystemTime::now().duration_since(UNIX_EPOCH).unwrap().as_secs() as i64
}

fn info(version: Option<&str>) -> AurInfo {
    AurInfo {
        version: version.map(|v| v.to_string()),
        description: None,
        url: None,
        last_modified: None,
        first_submitted: None,
        out_of_date: None,
        maintainer: None,
        num_votes: None,
    }
}

#[test]
fn build_date_is_relative_within_a_week() {
    assert_eq!(format_build_date(now() - 2 * 86_400 - 30), "2 days ago");
    assert_eq!(format_build_date(now() - 3 * 3_600 - 5), "3 hours ago");
    let old = format_build_date(86_400 * 365 * 20);
    assert_eq!(old.len(), 10);
    assert!(old.starts_with("1989") || old.starts_with("1990"), "{old}");
}

#[test]
fn packages_submitted_this_week_are_new() {
    assert!(is_recently_created(Some(now() - 3_600)));
    assert!(!is_recently_created(Some(now() - 8 * 86_400)));
    assert!(!is_recently_created(None));
}

#[test]
fn chips_of_a_new_installed_package() {
    let mut hit = aur_search_hit("foo".to_string(), "1.0".to_string(), "a tool".to_string());
    hit.current_version = "0.9".to_string();
    hit.first_submitted = Some(now() - 60);
    hit.orphaned = true;
    let chips: Vec<(String, &str)> = item_chips(&hit).into_iter().map(|c| (c.text, c.code)).collect();
    assert_eq!(
        chips,
        vec![
            ("installed".to_string(), "1;32"),
            ("new".to_string(), "1;31"),
            ("orphaned".to_string(), "1;33"),
        ]
    );
}

#[test]
fn aur_search_hits_are_unselected_aur_entries() {
    let hit = aur_search_hit("foo".to_string(), "1.0-1".to_string(), "a tool".to_string());
    assert!(hit.source == PackageSource::Aur);
    assert_eq!(hit.repository, "AUR");
    assert!(!hit.selected);
    assert_eq!(hit.name, "foo");
    assert_eq!(hit.new_version, "1.0-1");
    assert_eq!(hit.description, "a tool");
    assert!(hit.current_version.is_empty());
}

#[test]
fn aur_version_is_looked_up_by_name() {
    let infos = vec![("a".to_string(), info(Some("1"))), ("b".to_string(), info(None))];
    assert_eq!(aur_version_of(&infos, "a"), Some("1".to_string()));
    assert_eq!(aur_version_of(&infos, "b"), None);
    assert_eq!(aur_version_of(&infos, "c"), None);
}

#[test]
fn repo_update_lines_need_an_arrow() {
    let u = repo_update_from_line("  linux 6.1-1 -> 6.2-1 ").unwrap();
    assert_eq!(u.name, "linux");
    assert_eq!(u.current_version, "6.1-1");
    assert_eq!(u.new_version, "6.2-1");
    assert!(u.selected);
    assert!(u.source == PackageSource::Official);
    assert!(repo_update_from_line("linux 6.1-1 6.2-1").is_none());
    assert!(repo_update_from_line("linux 6.1-1 ->").is_none());
}

#[test]
fn words_split_on_whitespace() {
    assert_eq!(words_of("  a\tbb  c \n"), vec!["a".to_string(), "bb".to_string(), "c".to_string()]);
    assert!(words_of("   ").is_empty());
}

#[test]
fn visited_names_are_found() {
    let v = vec!["a".to_string(), "b".to_string()];
    assert!(contains_str(&v, "b"));
    assert!(!contains_str(&v, "c"));
}

#[test]
fn helper_paths_and_arguments() {
    assert_eq!(aur_source_dir("/home/u", "foo"), "/home/u/.cache/daim/aur/foo");
    assert_eq!(aur_build_dir("foo"), "/var/lib/daim/build/foo");
    let files = vec!["/b/foo-1-x86_64.pkg.tar.zst".to_string()];
    assert_eq!(
        package_install_args(true, &files),
        vec!["-U".to_string(), "--asdeps".to_string(), "--".to_string(), files[0].clone()]
    );
    assert_eq!(package_install_args(false, &vec![]), vec!["-U".to_string(), "--".to_string()]);
}

#[test]
fn commands_on_a_terminal_need_three_descriptors() {
    assert!(has_terminal(3).is_ok());
    assert_eq!(
        has_terminal(0).err(),
        Some("operation requires a terminal but none was provided".to_string())
    );
    assert!(has_terminal(2).is_err());
}

#[test]
fn empty_environment_values_are_not_set() {
    let c = CommandSpec {
        program: "pacdiff".to_string(),
        args: vec![],
        env: vec![("DIFFPROG".to_string(), String::new()), ("A".to_string(), "1".to_string())],
        tty: true,
    };
    assert_eq!(env_to_set(&c), vec![("A".to_string(), "1".to_string())]);
}

#[test]
fn a_plain_success_response() {
    match done_ok() {
        Response::Done { exit_code, stdout, stderr } => {
            assert_eq!(exit_code, 0);
            assert!(stdout.is_empty() && stderr.is_empty());
        }
        _ => panic!("expected Done"),
    }
}

#[test]
fn which_operations_run_on_a_terminal() {
    assert!(Op::SysUpgrade.wants_tty());
    assert!(Op::RunPacdiff.wants_tty());
    assert!(!Op::SyncDb.wants_tty());
    assert!(!Op::NewSession.wants_tty());
}
