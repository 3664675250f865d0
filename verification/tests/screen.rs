use arch_install_manager::engine::picker::{
    checked_count, checked_rows, every_checked, format_row, list_line, scroll_offset,
    status_line, truncate, visible_rows, window_end, KeyPress, PickerAction, PickerKey,
    PickerState,
};
use arch_install_manager::engine::render::{
    format_item, format_item_with, item_chips_with, paint, render_blocks,
};
use arch_install_manager::models::package_source::PackageSource;
use arch_install_manager::models::package_update::PackageUpdate;

fn pkg(name: &str, source: PackageSource) -> PackageUpdate {
    PackageUpdate {
        source,
        repository: String::new(),
        selected: true,
        name: name.to_string(),
        description: String::new(),
        current_version: String::new(),
        new_version: "2.0".to_string(),
        size: 0,
        url: None,
        build_date: None,
        first_submitted: None,
        out_of_date: None,
        orphaned: false,
        maintainer: None,
        previous_maintainer: None,
        num_votes: None,
        is_repo_switch: false,
        security_severity: None,
        security_issues: Vec::new(),
        new_permissions: Vec::new(),
        extra_dependencies: Vec::new(),
        pkgbuild_needs_review: false,
        flatpak_installation: None,
        aur_scan_findings: Vec::new(),
        appimage_path: None,
    }
}

fn key(k: PickerKey) -> KeyPress {
    KeyPress { key: k, control: false }
}

#[test]
fn picker_starts_all_checked_and_finishes_with_them() {
    let mut p = PickerState::new(3);
    assert_eq!(p.cursor, 0);
    assert_eq!(p.selected, vec![true, true, true]);
    assert_eq!(p.press(key(PickerKey::Enter)), PickerAction::Finish(vec![0, 1, 2]));
}

#[test]
fn picker_moves_and_toggles() {
    let mut p = PickerState::new(3);
    assert_eq!(p.press(key(PickerKey::Down)), PickerAction::Redraw);
    assert_eq!(p.press(key(PickerKey::Char('j'))), PickerAction::Redraw);
    assert_eq!(p.cursor, 2);
    p.press(key(PickerKey::Down));
    assert_eq!(p.cursor, 2);
    p.press(key(PickerKey::Char(' ')));
    assert_eq!(p.selected, vec![true, true, false]);
    p.press(key(PickerKey::Up));
    p.press(key(PickerKey::Tab));
    assert_eq!(p.selected, vec![true, false, false]);
    p.press(key(PickerKey::Char('k')));
    p.press(key(PickerKey::Char('k')));
    assert_eq!(p.cursor, 0);
    assert_eq!(p.press(key(PickerKey::Enter)), PickerAction::Finish(vec![0]));
}

#[test]
fn picker_toggle_twice_restores() {
    let mut p = PickerState::new(2);
    p.press(key(PickerKey::Tab));
    p.press(key(PickerKey::Tab));
    assert_eq!(p.selected, vec![true, true]);
}

#[test]
fn picker_all_key_clears_then_checks() {
    let mut p = PickerState::new(3);
    p.press(key(PickerKey::Char('a')));
    assert_eq!(p.selected, vec![false, false, false]);
    p.press(key(PickerKey::Char('a')));
    assert_eq!(p.selected, vec![true, true, true]);
    p.press(key(PickerKey::Char(' ')));
    p.press(key(PickerKey::Char('a')));
    assert_eq!(p.selected, vec![true, true, true]);
}

#[test]
fn picker_cancels() {
    let mut p = PickerState::new(2);
    assert_eq!(p.press(key(PickerKey::Esc)), PickerAction::Cancel);
    assert_eq!(p.press(key(PickerKey::Char('q'))), PickerAction::Cancel);
    assert_eq!(
        p.press(KeyPress { key: PickerKey::Char('c'), control: true }),
        PickerAction::Cancel
    );
    assert_eq!(p.press(key(PickerKey::Char('c'))), PickerAction::Redraw);
    assert_eq!(p.press(key(PickerKey::Other)), PickerAction::Redraw);
    assert_eq!(p.selected, vec![true, true]);
}

#[test]
fn checked_helpers() {
    let sel = vec![true, false, true, false];
    assert_eq!(checked_rows(&sel), vec![0, 2]);
    assert_eq!(checked_count(&sel), 2);
    assert!(!every_checked(&sel));
    assert!(every_checked(&vec![true, true]));
    assert!(every_checked(&vec![]));
}

#[test]
fn scrolling_keeps_the_cursor_visible() {
    assert_eq!(visible_rows(24), 20);
    assert_eq!(visible_rows(5), 1);
    assert_eq!(visible_rows(0), 1);
    assert_eq!(scroll_offset(3, 5, 4), 3);
    assert_eq!(scroll_offset(9, 2, 4), 6);
    assert_eq!(scroll_offset(4, 2, 4), 2);
    assert_eq!(window_end(6, 4, 8), 8);
    assert_eq!(window_end(2, 4, 8), 6);
}

#[test]
fn picker_rows() {
    let mut a = pkg("yay", PackageSource::Aur);
    a.current_version = "1.0".to_string();
    assert_eq!(format_row(&a), "aur/yay  1.0 -> 2.0");
    let mut b = pkg("vim", PackageSource::Official);
    b.repository = "extra".to_string();
    assert_eq!(format_row(&b), "extra/vim  2.0");
    let c = pkg("x", PackageSource::Official);
    assert_eq!(format_row(&c), "repo/x  2.0");
    assert_eq!(list_line(true, &b, 100), "[x] extra/vim  2.0");
    assert_eq!(list_line(false, &b, 7), "[ ] ext");
    assert_eq!(status_line(3, 12), "3 of 12 selected");
}

#[test]
fn truncate_counts_characters() {
    assert_eq!(truncate("héllo", 2), "hé");
    assert_eq!(truncate("abc", 10), "abc");
    assert_eq!(truncate("abc", 0), "");
}

#[test]
fn paint_wraps_only_on_terminals() {
    assert_eq!(paint(true, "1;32", "ok"), "\x1b[1;32mok\x1b[0m");
    assert_eq!(paint(false, "1;32", "ok"), "ok");
}

#[test]
fn chips_in_order() {
    let mut p = pkg("foo", PackageSource::Aur);
    p.current_version = "1".to_string();
    p.orphaned = true;
    p.previous_maintainer = Some("bob".to_string());
    p.security_severity = Some("High".to_string());
    let chips = item_chips_with(&p, true);
    let texts: Vec<(String, &str)> = chips.into_iter().map(|c| (c.text, c.code)).collect();
    assert_eq!(
        texts,
        vec![
            ("installed".to_string(), "1;32"),
            ("new".to_string(), "1;31"),
            ("maintainer changed".to_string(), "33"),
            ("orphaned".to_string(), "1;33"),
            ("High".to_string(), "1;31"),
        ]
    );
    assert!(item_chips_with(&pkg("bar", PackageSource::Official), false).is_empty());
}

#[test]
fn list_items_plain_and_painted() {
    let mut p = pkg("yay", PackageSource::Aur);
    p.description = "AUR helper".to_string();
    p.out_of_date = Some(1);
    let plain = format_item_with(Some(2), &p, false, false, Some("3 days ago".to_string()));
    assert_eq!(plain, "2 aur/yay 2.0 [out of date]  updated 3 days ago\n    AUR helper");
    let painted = format_item_with(None, &pkg("vim", PackageSource::Official), true, false, None);
    assert_eq!(painted, "\x1b[1;35mrepo\x1b[0m/\x1b[1mvim\x1b[0m \x1b[1;32m2.0\x1b[0m");
}

#[test]
fn list_item_without_dates_does_not_depend_on_the_clock() {
    let p = pkg("vim", PackageSource::Official);
    assert_eq!(format_item(Some(1), &p, false), "1 repo/vim 2.0");
}

#[test]
fn numbered_listings_print_last_first() {
    let items = vec![pkg("a", PackageSource::Official), pkg("b", PackageSource::Official)];
    assert_eq!(render_blocks(&items, true, false), vec!["2 repo/b 2.0", "1 repo/a 2.0"]);
    assert_eq!(render_blocks(&items, false, false), vec!["repo/a 2.0", "repo/b 2.0"]);
}
