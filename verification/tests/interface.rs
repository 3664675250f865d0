use arch_install_manager::cli::{aur_update_line, check_skip_reason, filter_update_lines};
use arch_install_manager::engine::{picked_targets, recipe_show, removable_make_deps, wants_diff, RecipeShow};
use arch_install_manager::helpers::installed::{installed_listing, installed_names, InstalledRow};
use arch_install_manager::models::app_settings::AppSettings;
use arch_install_manager::models::change_kind::ChangeKind;
use arch_install_manager::models::package_source::PackageSource;
use arch_install_manager::models::package_update::PackageUpdate;
use arch_install_manager::models::response::Response;
use arch_install_manager::ui::panels::{
    command_outcome, ignore_confirmation, ignore_error_message, info_panel, join_with,
    snapshot_flags,
};
use arch_install_manager::ui::theme::{prefers_dark, system_gtk_theme};
use arch_install_manager::ui::update_list::{prepare_update_list, ListFilters};

fn strings(v: &[&str]) -> Vec<String> {
    v.iter().map(|s| s.to_string()).collect()
}

fn pkg(name: &str, source: PackageSource) -> PackageUpdate {
    PackageUpdate {
        source,
        repository: String::new(),
        selected: true,
        name: name.to_string(),
        description: String::new(),
        current_version: String::new(),
        new_version: "1".to_string(),
        size: 0,
        url: None,
        build_date: None,
        first_submitted: None,
        out_of_date: None,
        orphaned: false,
        maintainer: None,
        previous_maintainer: None,
        num_votes: None,
        is_repo_switch: false,
        security_severity: None,
        security_issues: Vec::new(),
        new_permissions: Vec::new(),
        extra_dependencies: Vec::new(),
        pkgbuild_needs_review: false,
        flatpak_installation: None,
        aur_scan_findings: Vec::new(),
        appimage_path: None,
    }
}

fn filters() -> ListFilters {
    ListFilters {
        blacklist: vec![],
        min_age_days: 0,
        min_age_aur_only: false,
        favorites: vec![],
        favorites_enabled: false,
        unselected: vec![],
    }
}

fn names(v: &[PackageUpdate]) -> Vec<String> {
    v.iter().map(|p| p.name.clone()).collect()
}

#[test]
fn installed_packages_are_listed_by_name_with_their_origin() {
    let row = |n: &str| InstalledRow {
        name: n.to_string(),
        description: None,
        version: "1".to_string(),
        installed_size: 5,
    };
    let repos = vec![
        ("vim".to_string(), "extra".to_string()),
        ("bash".to_string(), "core".to_string()),
        ("vim".to_string(), "testing".to_string()),
    ];
    let foreign = strings(&["yay"]);
    let r = installed_listing(vec![row("vim"), row("yay"), row("bash"), row("zzz")], &repos, &foreign);
    assert_eq!(names(&r), strings(&["bash", "vim", "yay", "zzz"]));
    assert_eq!(r[0].repository, "core");
    assert_eq!(r[1].repository, "extra");
    assert_eq!((r[2].source, r[2].repository.as_str()), (PackageSource::Aur, "AUR"));
    assert_eq!((r[3].source, r[3].repository.as_str()), (PackageSource::Official, "Official"));
    assert!(!r[0].selected);
    assert_eq!(r[0].size, 5);
    assert_eq!(installed_names("bash 5.2-1\n\nvim 9.1-1\n"), strings(&["bash", "vim"]));
}

#[test]
fn update_list_filters_sorts_and_unchecks() {
    let mut old = pkg("old", PackageSource::Official);
    old.build_date = Some(1_000);
    let mut fresh = pkg("fresh", PackageSource::Official);
    fresh.build_date = Some(1_000_000 - 10);
    let mut fresh_aur = pkg("fresh-aur", PackageSource::Aur);
    fresh_aur.build_date = Some(1_000_000 - 10);
    let packages = vec![
        old,
        pkg("blocked", PackageSource::Official),
        fresh,
        fresh_aur,
        pkg("aurpkg", PackageSource::Aur),
        pkg("fav", PackageSource::Official),
    ];
    let f = ListFilters {
        blacklist: strings(&["blocked"]),
        min_age_days: 1,
        min_age_aur_only: false,
        favorites: strings(&["fav"]),
        favorites_enabled: true,
        unselected: strings(&["old"]),
    };
    let r = prepare_update_list(packages, &f, 1_000_000);
    assert_eq!(names(&r), strings(&["fav", "aurpkg", "old"]));
    assert!(!r[2].selected);
    assert!(r[0].selected);
}

#[test]
fn update_list_age_limit_for_aur_only() {
    let mut fresh = pkg("fresh", PackageSource::Official);
    fresh.build_date = Some(99);
    let mut fresh_aur = pkg("fresh-aur", PackageSource::Aur);
    fresh_aur.build_date = Some(99);
    let mut f = filters();
    f.min_age_days = 3;
    f.min_age_aur_only = true;
    let r = prepare_update_list(vec![fresh, fresh_aur], &f, 100);
    assert_eq!(names(&r), strings(&["fresh"]));
    let r = prepare_update_list(vec![pkg("a", PackageSource::Official), pkg("b", PackageSource::Aur)], &filters(), 0);
    assert_eq!(names(&r), strings(&["b", "a"]));
}

#[test]
fn information_panel() {
    let mut p = pkg("yay", PackageSource::Aur);
    p.previous_maintainer = Some("bob".to_string());
    p.new_permissions = strings(&["network", "home"]);
    p.extra_dependencies = strings(&["git"]);
    let v = info_panel(&p);
    assert!(v.show_aur_line && v.show_pkgbuild && v.show_ignore && !v.show_url);
    assert_eq!(v.maintainer_change, Some(("bob".to_string(), "unknown".to_string())));
    assert_eq!(v.new_permissions, Some("network, home".to_string()));
    assert_eq!(v.extra_dependencies, Some("Will also install: git".to_string()));
    let mut q = pkg("gimp", PackageSource::Flatpak);
    q.url = Some("https://gimp.org".to_string());
    let w = info_panel(&q);
    assert!(!w.show_aur_line && !w.show_ignore && w.show_url);
    assert_eq!(w.maintainer_change, None);
    assert_eq!(w.new_permissions, None);
    assert_eq!(join_with(&strings(&["a", "b", "c"]), "-"), "a-b-c");
    assert_eq!(join_with(&vec![], ", "), "");
}

#[test]
fn blacklist_dialogs() {
    let (t, m, a) = ignore_confirmation("linux", true);
    assert_eq!(t, "Add to blacklist?");
    assert_eq!(m, "Add 'linux' to /etc/pacman.conf IgnorePkg? Pacman will skip updates for this package until it is removed from the list.");
    assert_eq!(a, "Add");
    let (t, m, a) = ignore_confirmation("linux", false);
    assert_eq!(t, "Remove from blacklist?");
    assert_eq!(m, "Remove 'linux' from /etc/pacman.conf IgnorePkg? Pacman will resume updating this package.");
    assert_eq!(a, "Remove");
    assert_eq!(ignore_error_message(Ok(Response::error("bad name".to_string()))), "bad name");
    let done = |e: &str| Response::Done { exit_code: 1, stdout: String::new(), stderr: e.to_string() };
    assert_eq!(ignore_error_message(Ok(done("denied"))), "denied");
    assert_eq!(ignore_error_message(Ok(done(""))), "the helper reported a failure");
    assert_eq!(ignore_error_message(Err("broken pipe".to_string())), "broken pipe");
}

#[test]
fn command_dialog_outcomes() {
    assert_eq!(command_outcome(0, true, true), ("Done".to_string(), true));
    assert_eq!(command_outcome(0, false, true), ("Done".to_string(), false));
    assert_eq!(command_outcome(2, true, true), ("Failed (exit 2)".to_string(), false));
    assert_eq!(command_outcome(-1, true, true), ("Failed (exit -1)".to_string(), false));
}

#[test]
fn snapshots_before_changes() {
    let s = AppSettings {
        shortcut_install_tab: String::new(),
        shortcut_update_tab: String::new(),
        shortcut_manage_tab: String::new(),
        shortcut_focus_search: String::new(),
        snapshot_on_update: true,
        snapshot_on_install: false,
        snapshot_on_remove: true,
        create_timeshift_snapshot: true,
        create_snapper_snapshot: true,
        always_show_pkgbuild: false,
    };
    assert_eq!(snapshot_flags(ChangeKind::Update, &s, true, false), (true, true));
    assert_eq!(snapshot_flags(ChangeKind::Update, &s, true, true), (true, false));
    assert_eq!(snapshot_flags(ChangeKind::Remove, &s, false, false), (true, false));
    assert_eq!(snapshot_flags(ChangeKind::Install, &s, true, false), (false, false));
}

#[test]
fn desktop_theme() {
    assert_eq!(system_gtk_theme(Some("Adwaita".to_string()), None), Some("Adwaita".to_string()));
    assert_eq!(system_gtk_theme(None, Some("'Arc-Dark'\n".to_string())), Some("Arc-Dark".to_string()));
    assert_eq!(system_gtk_theme(None, Some("''\n".to_string())), None);
    assert_eq!(system_gtk_theme(None, None), None);
    assert_eq!(prefers_dark(Some("Adwaita:DARK".to_string()), None, None), Some(true));
    assert_eq!(prefers_dark(Some("Adwaita".to_string()), Some("'prefer-dark'".to_string()), None), Some(false));
    assert_eq!(prefers_dark(None, Some("'prefer-dark'\n".to_string()), None), Some(true));
    assert_eq!(prefers_dark(None, Some("'default'".to_string()), Some("'Arc-Dark'".to_string())), Some(false));
    assert_eq!(prefers_dark(None, Some("'other'".to_string()), Some("'Arc-Dark'".to_string())), Some(true));
    assert_eq!(prefers_dark(None, None, Some("'Adwaita'".to_string())), None);
}

#[test]
fn update_check_decisions() {
    assert_eq!(check_skip_reason(false, true, true, false, false), Some("Skipping update check: network is metered."));
    assert_eq!(check_skip_reason(true, true, true, true, true), None);
    assert_eq!(check_skip_reason(false, false, true, true, true), Some("Skipping update check: running on battery."));
    assert_eq!(check_skip_reason(false, true, false, false, true), None);
    let lines = strings(&["linux 6.1 -> 6.2", "vim 9 -> 9.1", ""]);
    assert_eq!(filter_update_lines(lines, &strings(&["linux"])), strings(&["vim 9 -> 9.1", ""]));
    assert_eq!(aur_update_line("yay", "1", "2"), "yay 1 -> 2");
}

#[test]
fn engine_follow_ups() {
    let items = vec![pkg("vim", PackageSource::Official), pkg("yay", PackageSource::Aur)];
    assert_eq!(picked_targets(&items, &vec![1, 0]), strings(&["aur/yay", "vim"]));
    assert_eq!(
        removable_make_deps(&strings(&["cmake", "ninja", "meson"]), &strings(&["meson", "cmake", "x"])),
        strings(&["cmake", "meson"])
    );
    assert!(wants_diff(false, &Some("abc".to_string())));
    assert!(!wants_diff(true, &Some("abc".to_string())));
    assert!(!wants_diff(false, &None));
    assert_eq!(recipe_show(Some("diff --git a b\n".to_string())), RecipeShow::Changes("diff --git a b\n".to_string()));
    assert_eq!(recipe_show(Some("  \n".to_string())), RecipeShow::NoChanges);
    assert_eq!(recipe_show(None), RecipeShow::Pkgbuild);
}
