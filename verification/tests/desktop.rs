use arch_install_manager::engine::install_requests;
use arch_install_manager::engine::render::item_chips_with;
use arch_install_manager::models::aur_build::AurBuild;
use arch_install_manager::engine::resolve::{ResolveAction, ResolveEvent, Resolver};
use arch_install_manager::helpers::aur_pkgbuild::{review_from_sources, reviews_to_show};
use arch_install_manager::helpers::shortcuts::{
    accels_equal, is_modifier_key, shortcut_display, shortcut_matches,
};
use arch_install_manager::models::app_settings::AppSettings;
use arch_install_manager::models::package_source::PackageSource;
use arch_install_manager::models::package_update::PackageUpdate;
use arch_install_manager::models::pkgbuild_review::PkgbuildReview;
use arch_install_manager::models::review_file::ReviewFile;
use arch_install_manager::models::op::Op;
use arch_install_manager::ui::panels::{
    collect_selected_names, info_panel, info_title_markup, mirror_banner, selection_command, review_button_label,
    review_header, review_next, snapshot_requests,
};

fn shortcut_settings() -> AppSettings {
    AppSettings {
        shortcut_install_tab: "<Control>1".to_string(),
        shortcut_update_tab: String::new(),
        shortcut_manage_tab: "<Control>3".to_string(),
        shortcut_focus_search: "<Control>f".to_string(),
        snapshot_on_update: false,
        snapshot_on_install: false,
        snapshot_on_remove: false,
        create_timeshift_snapshot: false,
        create_snapper_snapshot: false,
        always_show_pkgbuild: false,
    }
}

fn update(name: &str, selected: bool) -> PackageUpdate {
    PackageUpdate {
        source: PackageSource::Official,
        repository: "extra".to_string(),
        selected,
        name: name.to_string(),
        description: String::new(),
        current_version: "1".to_string(),
        new_version: "2".to_string(),
        size: 0,
        url: None,
        build_date: None,
        first_submitted: None,
        out_of_date: None,
        orphaned: false,
        maintainer: None,
        previous_maintainer: None,
        num_votes: None,
        is_repo_switch: false,
        security_severity: None,
        security_issues: Vec::new(),
        new_permissions: Vec::new(),
        extra_dependencies: Vec::new(),
        pkgbuild_needs_review: false,
        flatpak_installation: None,
        aur_scan_findings: Vec::new(),
        appimage_path: None,
    }
}

fn file(name: &str, content: &str) -> ReviewFile {
    ReviewFile { name: name.to_string(), content: content.to_string() }
}

#[test]
fn disabled_shortcut_is_shown_as_disabled() {
    let s = shortcut_settings();
    assert_eq!(shortcut_display(&s, 1, Some("ignored".to_string())), "Disabled");
}

#[test]
fn shortcut_shows_the_gtk_label_or_the_accelerator() {
    let s = shortcut_settings();
    assert_eq!(shortcut_display(&s, 0, Some("Ctrl+1".to_string())), "Ctrl+1");
    assert_eq!(shortcut_display(&s, 3, None), "<Control>f");
}

#[test]
fn shortcut_matches_on_key_and_masked_modifiers() {
    // Control is 0x4; a lock bit outside the default mask does not count.
    assert!(shortcut_matches("<Control>f", Some((0x66, 0x4)), 0x66, 0x4 | 0x2, 0x4 | 0x1 | 0x8));
    assert!(!shortcut_matches("<Control>f", Some((0x66, 0x4)), 0x67, 0x4, 0xd));
    assert!(!shortcut_matches("<Control>f", Some((0x66, 0x4)), 0x66, 0x1, 0xd));
    assert!(!shortcut_matches("", Some((0x66, 0x4)), 0x66, 0x4, 0xd));
    assert!(!shortcut_matches("bogus", None, 0x66, 0x4, 0xd));
}

#[test]
fn accelerators_compare_by_parse_or_text() {
    assert!(accels_equal("<Control>F", "<Ctrl>f", Some((0x66, 0x4)), Some((0x66, 0x4))));
    assert!(!accels_equal("<Control>f", "<Alt>f", Some((0x66, 0x4)), Some((0x66, 0x8))));
    assert!(accels_equal("weird", "weird", None, None));
    assert!(!accels_equal("weird", "other", None, Some((0x66, 0x4))));
    assert!(!accels_equal("", "", None, None));
}

#[test]
fn modifier_keys_are_recognised() {
    for k in [0xffe1u32, 0xffe2, 0xffe3, 0xffe4, 0xffe5, 0xffe6, 0xffe7, 0xffe8, 0xffe9, 0xffea, 0xffeb, 0xffec, 0xfe03] {
        assert!(is_modifier_key(k), "{k:#x}");
    }
    for k in [0x61u32, 0x66, 0xffe0, 0xffed, 0xff0d, 0xfe02] {
        assert!(!is_modifier_key(k), "{k:#x}");
    }
}

#[test]
fn selected_names_keep_list_order() {
    let v = vec![update("a", true), update("b", false), update("c", true)];
    assert_eq!(collect_selected_names(&v), vec!["a".to_string(), "c".to_string()]);
    assert!(collect_selected_names(&vec![update("x", false)]).is_empty());
}

#[test]
fn info_title_carries_the_date_when_given() {
    assert_eq!(info_title_markup("a&amp;b".to_string(), None, true), "a&amp;b");
    assert_eq!(
        info_title_markup("pkg".to_string(), Some("3 days ago".to_string()), false),
        "pkg <span foreground=\"#9a9996\" size=\"small\">[3 days ago]</span>"
    );
    assert_eq!(
        info_title_markup("pkg".to_string(), Some("x".to_string()), true),
        "pkg <span foreground=\"#c0bfbc\" size=\"small\">[x]</span>"
    );
}

#[test]
fn mirror_banner_needs_all_three_conditions() {
    let (shown, text) = mirror_banner(true, true, true, Some(12));
    assert!(shown);
    assert_eq!(text, "It was last updated 12 days ago. Refreshing it can make downloads faster.");
    assert!(!mirror_banner(false, true, true, Some(12)).0);
    assert!(!mirror_banner(true, false, true, Some(12)).0);
    assert!(!mirror_banner(true, true, false, Some(12)).0);
    assert_eq!(
        mirror_banner(true, true, true, None).1,
        "It was last updated 0 days ago. Refreshing it can make downloads faster."
    );
}

#[test]
fn review_prefers_an_earlier_clone() {
    let r = review_from_sources(
        "foo",
        Some(("+x\n".to_string(), true, vec![file("PKGBUILD", "a")])),
        vec![file("other", "b")],
        None,
    )
    .unwrap();
    assert_eq!(r.package, "foo");
    assert_eq!(r.diff.as_deref(), Some("+x\n"));
    assert!(r.needs_review);
    assert_eq!(r.files.len(), 1);
    assert_eq!(r.files[0].content, "a");
}

#[test]
fn review_falls_back_to_a_fresh_clone_then_the_web() {
    let r = review_from_sources("foo", None, vec![file("PKGBUILD", "b")], None).unwrap();
    assert!(r.diff.is_none());
    assert!(!r.needs_review);
    assert_eq!(r.files[0].content, "b");
    let r = review_from_sources("foo", None, vec![], Some(Ok("pkgname=foo".to_string()))).unwrap();
    assert_eq!(r.files.len(), 1);
    assert_eq!(r.files[0].name, "PKGBUILD");
    assert_eq!(r.files[0].content, "pkgname=foo");
    let e = review_from_sources("foo", None, vec![], Some(Err("offline".to_string())));
    assert_eq!(e.err(), Some("offline".to_string()));
}

#[test]
fn resolver_records_repository_dependencies() {
    let mut r = Resolver::new();
    assert!(matches!(r.begin("app", true), ResolveAction::Fetch(_)));
    let a = r.feed(ResolveEvent::Fetched {
        dir: "/d".to_string(),
        fresh: true,
        prev_commit: None,
        srcinfo: Some("depends = zlib\n".to_string()),
    });
    assert!(matches!(a, ResolveAction::CheckSatisfied(_)));
    assert!(matches!(r.feed(ResolveEvent::Satisfied(false)), ResolveAction::CheckRepo(_)));
    assert!(matches!(r.feed(ResolveEvent::InRepo(true)), ResolveAction::Done(Ok(()))));
    assert_eq!(r.plan.repo_deps, vec!["zlib".to_string()]);
    // A report that answers nothing that was asked fails the resolution.
    assert!(matches!(r.feed(ResolveEvent::Satisfied(true)), ResolveAction::Done(Err(_))));
}

#[test]
fn snapshots_are_requested_timeshift_first() {
    assert!(snapshot_requests(false, false).is_empty());
    let both = snapshot_requests(true, true);
    assert_eq!(both.len(), 2);
    assert!(matches!(&both[0].0, Op::SnapshotTimeshift { comment } if comment == "arch-install-manager"));
    assert_eq!(both[0].1, "Could not create the Timeshift snapshot. Nothing was changed.");
    assert!(matches!(&both[1].0, Op::SnapshotSnapper { description } if description == "arch-install-manager"));
    assert_eq!(both[1].1, "Could not create the Snapper snapshot. Nothing was changed.");
    let only = snapshot_requests(false, true);
    assert_eq!(only.len(), 1);
    assert!(matches!(&only[0].0, Op::SnapshotSnapper { .. }));
}

#[test]
fn removing_selected_packages_needs_a_selection() {
    assert_eq!(selection_command("remove", &vec![]), None);
    assert_eq!(
        selection_command("remove", &vec!["a".to_string(), "b".to_string()]),
        Some("daim remove a b".to_string())
    );
    assert_eq!(
        selection_command("install", &vec!["vlc".to_string()]),
        Some("daim install vlc".to_string())
    );
}

fn review(package: &str, diff: Option<&str>, needs_review: bool) -> PkgbuildReview {
    PkgbuildReview {
        package: package.to_string(),
        diff: diff.map(|d| d.to_string()),
        needs_review,
        files: vec![file("PKGBUILD", "")],
    }
}

#[test]
fn only_reviews_that_need_a_look_are_shown() {
    let rs = vec![
        review("a", Some("+x"), false),
        review("b", None, false),
        review("c", Some("+y"), true),
    ];
    let shown: Vec<String> = reviews_to_show(rs, false).into_iter().map(|r| r.package).collect();
    assert_eq!(shown, vec!["b".to_string(), "c".to_string()]);
    let all = vec![review("a", Some("+x"), false), review("b", None, false)];
    assert_eq!(reviews_to_show(all, true).len(), 2);
    assert!(reviews_to_show(vec![review("a", Some(""), false)], false).is_empty());
}

#[test]
fn the_review_window_steps_through_the_packages() {
    assert_eq!(review_header("foo", 0, 3), "<b>foo</b>   <span size=\"small\">(1 of 3)</span>");
    assert_eq!(review_button_label(0, 3), "Next");
    assert_eq!(review_button_label(2, 3), "Install");
    assert_eq!(review_next(0, 3), Some(1));
    assert_eq!(review_next(2, 3), None);
    assert_eq!(review_next(0, 1), None);
}

#[test]
fn aur_scan_findings_show_a_chip_and_the_scan_button() {
    let mut p = update("foo", true);
    p.current_version = String::new();
    assert!(!info_panel(&p).show_aur_scan);
    assert!(item_chips_with(&p, false).is_empty());
    p.aur_scan_findings = vec![("high".to_string(), 2), ("low".to_string(), 5)];
    assert!(info_panel(&p).show_aur_scan);
    let chips: Vec<(String, &str)> = item_chips_with(&p, false).into_iter().map(|c| (c.text, c.code)).collect();
    assert_eq!(chips, vec![("aur-scan: high (2)".to_string(), "1;31")]);
    p.name = "arch-install-manager".to_string();
    assert!(item_chips_with(&p, false).is_empty());
    assert!(info_panel(&p).show_aur_scan);
}

#[test]
fn install_requests_come_in_order() {
    let builds = vec![
        AurBuild { name: "dep".to_string(), dir: String::new(), explicit: false, fresh: true, prev_commit: None },
        AurBuild { name: "app".to_string(), dir: String::new(), explicit: true, fresh: true, prev_commit: None },
    ];
    let ops = install_requests(vec!["vim".to_string()], true, vec!["cmake".to_string()], &builds);
    assert_eq!(ops.len(), 4);
    assert!(matches!(&ops[0], Op::Install { targets, as_deps: false, reinstall: true } if targets == &vec!["vim".to_string()]));
    assert!(matches!(&ops[1], Op::Install { targets, as_deps: true, reinstall: false } if targets == &vec!["cmake".to_string()]));
    assert!(matches!(&ops[2], Op::AurBuildInstall { name, as_deps: true } if name == "dep"));
    assert!(matches!(&ops[3], Op::AurBuildInstall { name, as_deps: false } if name == "app"));
    let only = install_requests(vec![], false, vec![], &builds);
    assert_eq!(only.len(), 2);
    assert!(install_requests(vec![], false, vec![], &vec![]).is_empty());
}
