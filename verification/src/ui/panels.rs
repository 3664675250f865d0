//! What the information panel, the confirmation dialogs and the command
//! dialog of the graphical interface show.
use vstd::prelude::*;

use crate::models::app_settings::AppSettings;
use crate::constants::TIMESHIFT_COMMENT;
use crate::models::change_kind::ChangeKind;
use crate::models::op::{Op, OpView};
use crate::models::package_source::PackageSource;
use crate::models::package_update::PackageUpdate;
use crate::models::response::{Response, ResponseView};
use crate::text::{decimal, fmt_u64, push_str, string_from};

verus! {

// ---------------------------------------------------------------------
// Joining words
// ---------------------------------------------------------------------

/// The strings of `ws` joined with `sep` between them.
pub open spec fn joined(ws: Seq<Seq<char>>, sep: Seq<char>) -> Seq<char>
    decreases ws.len(),
{
    if ws.len() == 0 {
        seq![]
    } else if ws.len() == 1 {
        ws[0]
    } else {
        joined(ws.drop_last(), sep) + sep + ws.last()
    }
}

pub fn join_with(ws: &Vec<String>, sep: &str) -> (r: String)
    ensures
        r@ == joined(ws.deep_view(), sep@),
{
    let ghost v = ws.deep_view();
    let mut r = String::new();
    let mut i: usize = 0;
    while i < ws.len()
        invariant
            v == ws.deep_view(),
            i <= ws@.len(),
            r@ == joined(v.take(i as int), sep@),
        decreases ws@.len() - i,
    {
        proof {
            assert(v.take(i + 1).drop_last() =~= v.take(i as int));
            assert(v.take(i + 1).last() == ws@[i as int]@);
        }
        if i > 0 {
            push_str(&mut r, sep);
        } else {
            proof {
                assert(v.take(1) =~= seq![ws@[0]@]);
            }
        }
        push_str(&mut r, ws[i].as_str());
        proof {
            if i == 0 {
                assert(r@ =~= ws@[0]@);
            }
        }
        i += 1;
    }
    proof {
        assert(v.take(i as int) =~= v);
    }
    r
}

// ---------------------------------------------------------------------
// The information panel of the Update tab
// ---------------------------------------------------------------------

/// What the information panel shows for the selected update.
pub struct InfoPanelView {
    /// The AUR line (creation age, votes, comments link) is shown for AUR
    /// packages only.
    pub show_aur_line: bool,
    /// The earlier and the current maintainer, when the maintainer changed.
    pub maintainer_change: Option<(String, String)>,
    /// The new permissions, joined with commas, when there are any.
    pub new_permissions: Option<String>,
    /// `Will also install: ` and the extra dependencies, when there are any.
    pub extra_dependencies: Option<String>,
    pub show_url: bool,
    pub show_pkgbuild: bool,
    /// The AUR scan button, for packages in which the scan found something.
    pub show_aur_scan: bool,
    /// The blacklist toggle is offered for pacman packages only.
    pub show_ignore: bool,
}

pub open spec fn name_or_unknown(v: Option<String>) -> Seq<char> {
    match v {
        Some(s) => s@,
        None => "unknown"@,
    }
}

pub open spec fn info_panel_spec(p: PackageUpdate, v: InfoPanelView) -> bool {
    &&& v.show_aur_line == (p.source == PackageSource::Aur)
    &&& (if p.spec_maintainer_changed() {
        v.maintainer_change matches Some(m) && m.0@ == name_or_unknown(p.previous_maintainer)
            && m.1@ == name_or_unknown(p.maintainer)
    } else {
        v.maintainer_change is None
    })
    &&& (if p.new_permissions@.len() == 0 {
        v.new_permissions is None
    } else {
        v.new_permissions matches Some(s) && s@ == joined(p.new_permissions.deep_view(), ", "@)
    })
    &&& (if p.extra_dependencies@.len() == 0 {
        v.extra_dependencies is None
    } else {
        v.extra_dependencies matches Some(s) && s@ == "Will also install: "@ + joined(
            p.extra_dependencies.deep_view(),
            ", "@,
        )
    })
    &&& v.show_url == p.url is Some
    &&& v.show_pkgbuild == (p.source == PackageSource::Aur)
    &&& v.show_aur_scan == (p.aur_scan_findings@.len() > 0)
    &&& v.show_ignore == !(p.source == PackageSource::Flatpak || p.source == PackageSource::AppImage)
}

fn name_or_unknown_of(v: &Option<String>) -> (r: String)
    ensures
        r@ == name_or_unknown(*v),
{
    match v {
        Some(s) => s.clone(),
        None => string_from("unknown"),
    }
}

pub fn info_panel(p: &PackageUpdate) -> (v: InfoPanelView)
    ensures
        info_panel_spec(*p, v),
{
    let maintainer_change = if p.maintainer_changed() {
        Some((name_or_unknown_of(&p.previous_maintainer), name_or_unknown_of(&p.maintainer)))
    } else {
        None
    };
    let new_permissions = if p.new_permissions.len() == 0 {
        None
    } else {
        Some(join_with(&p.new_permissions, ", "))
    };
    let extra_dependencies = if p.extra_dependencies.len() == 0 {
        None
    } else {
        let mut s = string_from("Will also install: ");
        let j = join_with(&p.extra_dependencies, ", ");
        push_str(&mut s, j.as_str());
        Some(s)
    };
    InfoPanelView {
        show_aur_line: p.source == PackageSource::Aur,
        maintainer_change,
        new_permissions,
        extra_dependencies,
        show_url: p.url.is_some(),
        show_pkgbuild: p.source == PackageSource::Aur,
        show_aur_scan: p.aur_scan_findings.len() > 0,
        show_ignore: !(p.source == PackageSource::Flatpak || p.source == PackageSource::AppImage),
    }
}

// ---------------------------------------------------------------------
// Blacklisting a package
// ---------------------------------------------------------------------

/// The confirmation asked before a package is added to (`add`) or removed
/// from `IgnorePkg`: its title, its message and its accept button.
pub open spec fn ignore_confirmation_spec(pkg: Seq<char>, add: bool) -> (Seq<char>, Seq<char>, Seq<char>) {
    if add {
        (
            "Add to blacklist?"@,
            "Add '"@ + pkg
                + "' to /etc/pacman.conf IgnorePkg? Pacman will skip updates for this package until it is removed from the list."@,
            "Add"@,
        )
    } else {
        (
            "Remove from blacklist?"@,
            "Remove '"@ + pkg
                + "' from /etc/pacman.conf IgnorePkg? Pacman will resume updating this package."@,
            "Remove"@,
        )
    }
}

pub fn ignore_confirmation(pkg: &str, add: bool) -> (r: (String, String, String))
    ensures
        (r.0@, r.1@, r.2@) == ignore_confirmation_spec(pkg@, add),
{
    if add {
        let mut m = string_from("Add '");
        push_str(&mut m, pkg);
        push_str(
            &mut m,
            "' to /etc/pacman.conf IgnorePkg? Pacman will skip updates for this package until it is removed from the list.",
        );
        (string_from("Add to blacklist?"), m, string_from("Add"))
    } else {
        let mut m = string_from("Remove '");
        push_str(&mut m, pkg);
        push_str(&mut m, "' from /etc/pacman.conf IgnorePkg? Pacman will resume updating this package.");
        (string_from("Remove from blacklist?"), m, string_from("Remove"))
    }
}

/// What is shown when changing `IgnorePkg` failed: the helper's error, or
/// the command's error output when it printed any, or a general message;
/// or the reason the helper could not be asked.
pub open spec fn ignore_error_spec(result: Result<ResponseView, Seq<char>>) -> Seq<char> {
    match result {
        Ok(ResponseView::Error { message }) => message,
        Ok(ResponseView::Done { stderr, .. }) => if stderr.len() > 0 {
            stderr
        } else {
            "the helper reported a failure"@
        },
        Err(e) => e,
    }
}

pub open spec fn response_result_view(r: Result<Response, String>) -> Result<ResponseView, Seq<char>> {
    match r {
        Ok(x) => Ok(x@),
        Err(e) => Err(e@),
    }
}

pub fn ignore_error_message(result: Result<Response, String>) -> (r: String)
    ensures
        r@ == ignore_error_spec(response_result_view(result)),
{
    match result {
        Ok(Response::Error { message }) => message,
        Ok(Response::Done { stderr, .. }) => {
            if stderr.as_str().is_empty() {
                string_from("the helper reported a failure")
            } else {
                stderr
            }
        },
        Err(e) => e,
    }
}

// ---------------------------------------------------------------------
// The command dialog
// ---------------------------------------------------------------------

/// How the command dialog ends: its title (`Done`, or the failure with the
/// exit status), and whether the post-update checks are offered (after a
/// successful update, when the user wants them).
pub open spec fn outcome_title(status: i32) -> Seq<char> {
    if status == 0 {
        "Done"@
    } else if status < 0 {
        "Failed (exit "@ + "-"@ + decimal((-status) as nat) + ")"@
    } else {
        "Failed (exit "@ + decimal(status as nat) + ")"@
    }
}

pub fn command_outcome(status: i32, offer_checks: bool, run_checks: bool) -> (r: (String, bool))
    ensures
        r.0@ == outcome_title(status),
        r.1 == (status == 0 && offer_checks && run_checks),
{
    if status == 0 {
        return (string_from("Done"), offer_checks && run_checks);
    }
    let mut t = string_from("Failed (exit ");
    if status < 0 {
        push_str(&mut t, "-");
        let neg: i64 = 0i64 - (status as i64);
        let magnitude: u64 = neg as u64;
        let d = fmt_u64(magnitude);
        push_str(&mut t, d.as_str());
    } else {
        let d = fmt_u64(status as u64);
        push_str(&mut t, d.as_str());
    }
    push_str(&mut t, ")");
    (t, false)
}

// ---------------------------------------------------------------------
// Snapshots before changes
// ---------------------------------------------------------------------

/// Which snapshots are taken before a change of this kind: none unless the
/// user wants snapshots for it; a Timeshift snapshot when enabled; a
/// Snapper snapshot when enabled and Snapper is installed, unless snap-pac
/// is installed (it takes its own).
pub open spec fn snapshot_flags_spec(
    kind: ChangeKind,
    s: AppSettings,
    snapper_installed: bool,
    snap_pac_installed: bool,
) -> (bool, bool) {
    let wanted = match kind {
        ChangeKind::Update => s.snapshot_on_update,
        ChangeKind::Install => s.snapshot_on_install,
        ChangeKind::Remove => s.snapshot_on_remove,
    };
    if !wanted {
        (false, false)
    } else {
        (s.create_timeshift_snapshot, s.create_snapper_snapshot && snapper_installed && !snap_pac_installed)
    }
}

pub fn snapshot_flags(
    kind: ChangeKind,
    s: &AppSettings,
    snapper_installed: bool,
    snap_pac_installed: bool,
) -> (r: (bool, bool))
    ensures
        r == snapshot_flags_spec(kind, *s, snapper_installed, snap_pac_installed),
{
    let wanted = match kind {
        ChangeKind::Update => s.snapshot_on_update,
        ChangeKind::Install => s.snapshot_on_install,
        ChangeKind::Remove => s.snapshot_on_remove,
    };
    if !wanted {
        return (false, false);
    }
    (s.create_timeshift_snapshot, s.create_snapper_snapshot && snapper_installed && !snap_pac_installed)
}

// ---------------------------------------------------------------------
// The update list
// ---------------------------------------------------------------------

/// The names of the selected packages, in list order.
pub open spec fn selected_names_of(ps: Seq<PackageUpdate>) -> Seq<Seq<char>>
    decreases ps.len(),
{
    if ps.len() == 0 {
        seq![]
    } else if ps.last().selected {
        selected_names_of(ps.drop_last()).push(ps.last().name@)
    } else {
        selected_names_of(ps.drop_last())
    }
}

/// The names of the packages that are ticked in the update list.
pub fn collect_selected_names(packages: &Vec<PackageUpdate>) -> (r: Vec<String>)
    ensures
        r.deep_view() == selected_names_of(packages@),
{
    let mut names: Vec<String> = Vec::new();
    let mut i: usize = 0;
    while i < packages.len()
        invariant
            i <= packages@.len(),
            names.deep_view() == selected_names_of(packages@.take(i as int)),
        decreases packages@.len() - i,
    {
        proof {
            assert(packages@.take(i + 1).drop_last() =~= packages@.take(i as int));
        }
        if packages[i].selected {
            let ghost before = names.deep_view();
            names.push(packages[i].name.clone());
            proof {
                assert(names.deep_view() =~= before.push(packages@[i as int].name@));
            }
        }
        i += 1;
    }
    proof {
        assert(packages@.take(packages@.len() as int) =~= packages@);
    }
    names
}

/// The title of the information panel: the package's name (escaped for
/// markup), followed, when the settings show update dates and the package
/// has one, by that date (escaped) in a small grey span, lighter on a dark
/// theme.
pub open spec fn info_title_of(escaped_name: Seq<char>, date: Option<Seq<char>>, dark: bool) -> Seq<char> {
    match date {
        None => escaped_name,
        Some(d) => escaped_name + " <span foreground=\""@ + (if dark {
            "#c0bfbc"@
        } else {
            "#9a9996"@
        }) + "\" size=\"small\">["@ + d + "]</span>"@,
    }
}

pub fn info_title_markup(escaped_name: String, date: Option<String>, dark: bool) -> (r: String)
    ensures
        r@ == info_title_of(escaped_name@, match date {
            Some(d) => Some(d@),
            None => None,
        }, dark),
{
    let mut markup = escaped_name;
    match date {
        None => {},
        Some(d) => {
            push_str(&mut markup, " <span foreground=\"");
            if dark {
                push_str(&mut markup, "#c0bfbc");
            } else {
                push_str(&mut markup, "#9a9996");
            }
            push_str(&mut markup, "\" size=\"small\">[");
            push_str(&mut markup, d.as_str());
            push_str(&mut markup, "]</span>");
        },
    }
    markup
}

// ---------------------------------------------------------------------
// The mirror banner
// ---------------------------------------------------------------------

pub open spec fn mirror_banner_text(age_days: Option<u64>) -> Seq<char> {
    "It was last updated "@ + decimal(
        match age_days {
            Some(d) => d as nat,
            None => 0nat,
        },
    ) + " days ago. Refreshing it can make downloads faster."@
}

/// The banner that offers to refresh the mirror list: shown when refreshing
/// is enabled, the list is stale and a refresh command is known; its text
/// gives the list's age in days (0 when unknown).
pub fn mirror_banner(enabled: bool, stale: bool, has_command: bool, age_days: Option<u64>) -> (r: (
    bool,
    String,
))
    ensures
        r.0 == (enabled && stale && has_command),
        r.1@ == mirror_banner_text(age_days),
{
    let age: u64 = match age_days {
        Some(d) => d,
        None => 0,
    };
    let mut body = string_from("It was last updated ");
    let n = fmt_u64(age);
    push_str(&mut body, n.as_str());
    push_str(&mut body, " days ago. Refreshing it can make downloads faster.");
    (enabled && stale && has_command, body)
}

/// The helper requests that take the snapshots before a change, in order,
/// each with the message shown when the helper reports a failure: Timeshift
/// first, then Snapper, each when wanted. A failed one stops the change.
pub open spec fn snapshot_requests_spec(timeshift: bool, snapper: bool) -> Seq<(OpView, Seq<char>)> {
    (if timeshift {
        seq![
            (
                OpView::SnapshotTimeshift { comment: TIMESHIFT_COMMENT@ },
                "Could not create the Timeshift snapshot. Nothing was changed."@,
            ),
        ]
    } else {
        seq![]
    }) + (if snapper {
        seq![
            (
                OpView::SnapshotSnapper { description: TIMESHIFT_COMMENT@ },
                "Could not create the Snapper snapshot. Nothing was changed."@,
            ),
        ]
    } else {
        seq![]
    })
}

pub open spec fn request_views(v: Seq<(Op, String)>) -> Seq<(OpView, Seq<char>)> {
    v.map_values(|x: (Op, String)| (x.0@, x.1@))
}

pub fn snapshot_requests(timeshift: bool, snapper: bool) -> (r: Vec<(Op, String)>)
    ensures
        request_views(r@) == snapshot_requests_spec(timeshift, snapper),
{
    let mut v: Vec<(Op, String)> = Vec::new();
    if timeshift {
        v.push(
            (
                Op::SnapshotTimeshift { comment: string_from(TIMESHIFT_COMMENT) },
                string_from("Could not create the Timeshift snapshot. Nothing was changed."),
            ),
        );
    }
    if snapper {
        v.push(
            (
                Op::SnapshotSnapper { description: string_from(TIMESHIFT_COMMENT) },
                string_from("Could not create the Snapper snapshot. Nothing was changed."),
            ),
        );
    }
    proof {
        assert(request_views(v@) =~= snapshot_requests_spec(timeshift, snapper));
    }
    v
}

/// The command that acts on the packages selected in a list: `daim`, the
/// action (`install` on the Install tab, `remove` on the Manage tab) and the
/// names; none when nothing is selected.
pub fn selection_command(action: &str, names: &Vec<String>) -> (r: Option<String>)
    ensures
        names@.len() == 0 ==> r is None,
        names@.len() > 0 ==> (r matches Some(c) && c@ == "daim "@ + action@ + " "@ + joined(
            names.deep_view(),
            " "@,
        )),
{
    if names.len() == 0 {
        return None;
    }
    let mut c = string_from("daim ");
    push_str(&mut c, action);
    push_str(&mut c, " ");
    let j = join_with(names, " ");
    push_str(&mut c, j.as_str());
    Some(c)
}

// ---------------------------------------------------------------------
// The review window
// ---------------------------------------------------------------------

pub open spec fn review_header_of(escaped_name: Seq<char>, current: nat, total: nat) -> Seq<char> {
    "<b>"@ + escaped_name + "</b>   <span size=\"small\">("@ + decimal(current + 1) + " of "@
        + decimal(total) + ")</span>"@
}

/// The heading of the review of package `current` (counted from 0) of
/// `total`: its name (escaped for markup) in bold, then its place.
pub fn review_header(escaped_name: &str, current: usize, total: usize) -> (r: String)
    requires
        current < total,
    ensures
        r@ == review_header_of(escaped_name@, current as nat, total as nat),
{
    let mut h = string_from("<b>");
    push_str(&mut h, escaped_name);
    push_str(&mut h, "</b>   <span size=\"small\">(");
    let a = fmt_u64((current + 1) as u64);
    push_str(&mut h, a.as_str());
    push_str(&mut h, " of ");
    let b = fmt_u64(total as u64);
    push_str(&mut h, b.as_str());
    push_str(&mut h, ")</span>");
    h
}

/// The main button of the review window: "Install" on the last review,
/// "Next" before it.
pub fn review_button_label(current: usize, total: usize) -> (r: &'static str)
    ensures
        current + 1 >= total ==> r@ == "Install"@,
        current + 1 < total ==> r@ == "Next"@,
{
    if current >= total || total - current <= 1 {
        "Install"
    } else {
        "Next"
    }
}

/// What the main button does: on the last review the install goes ahead
/// (`None`); before it the next review is shown.
pub fn review_next(current: usize, total: usize) -> (r: Option<usize>)
    ensures
        current + 1 >= total ==> r is None,
        current + 1 < total ==> r == Some((current + 1) as usize),
{
    if current >= total || total - current <= 1 {
        None
    } else {
        Some(current + 1)
    }
}

// ---------------------------------------------------------------------
// What follows a request from the graphical interface
// ---------------------------------------------------------------------

/// How a blacklist change that the user confirmed ended.
pub enum IgnoreOutcome {
    /// pacman.conf was changed: the update list is loaded again.
    Applied,
    /// It was not: this message is shown and the toggle goes back to where
    /// it was.
    Failed(String),
}

/// The outcome of a confirmed blacklist change from the helper's answer,
/// or from why the helper could not be asked. (A change that the user
/// declines sends nothing and puts the toggle back.)
pub fn ignore_outcome(result: Result<Response, String>) -> (r: IgnoreOutcome)
    ensures
        (match result {
            Ok(x) => succeeded_view(x@),
            Err(_) => false,
        }) ==> r is Applied,
        !(match result {
            Ok(x) => succeeded_view(x@),
            Err(_) => false,
        }) ==> (r matches IgnoreOutcome::Failed(m) && m@ == ignore_error_spec(response_result_view(result))),
{
    let ok = match &result {
        Ok(x) => x.is_success(),
        Err(_) => false,
    };
    if ok {
        IgnoreOutcome::Applied
    } else {
        IgnoreOutcome::Failed(ignore_error_message(result))
    }
}

pub open spec fn succeeded_view(r: ResponseView) -> bool {
    r matches ResponseView::Done { exit_code, .. } && exit_code == 0
}

/// What a snapshot request (see [`snapshot_requests`]) gives: nothing to
/// report when the helper took the snapshot; the request's own message when
/// the helper reported a failure; the reason when the helper could not be
/// asked. Any failure stops the change before it starts.
pub fn snapshot_outcome(answer: Result<Response, String>, failure: String) -> (r: Result<(), String>)
    ensures
        match answer {
            Ok(x) => if succeeded_view(x@) {
                r is Ok
            } else {
                r == Err::<(), String>(failure)
            },
            Err(e) => r == Err::<(), String>(e),
        },
{
    match answer {
        Ok(x) => if x.is_success() {
            Ok(())
        } else {
            Err(failure)
        },
        Err(e) => Err(e),
    }
}

} // verus!
