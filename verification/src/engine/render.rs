//! How the command line lists packages: a header line with the repository,
//! name, version, status chips and build age, then the description.
use vstd::prelude::*;

use crate::clock::{local_date, unix_now};
use crate::constants::{is_own_package, is_recently_created_at, own_package_names, recently_created_at};
use crate::helpers::format::{age_text, describe_age};
use crate::models::package_source::PackageSource;
use crate::models::package_update::PackageUpdate;
use crate::text::{decimal, fmt_u64, push_str, string_from};

verus! {

/// Text in an ANSI colour when writing to a terminal, plain otherwise.
pub open spec fn paint_spec(tty: bool, code: Seq<char>, text: Seq<char>) -> Seq<char> {
    if tty {
        "\x1b["@ + code + "m"@ + text + "\x1b[0m"@
    } else {
        text
    }
}

pub fn paint(tty: bool, code: &str, text: &str) -> (r: String)
    ensures
        r@ == paint_spec(tty, code@, text@),
{
    if tty {
        let mut s = string_from("\x1b[");
        push_str(&mut s, code);
        push_str(&mut s, "m");
        push_str(&mut s, text);
        push_str(&mut s, "\x1b[0m");
        s
    } else {
        string_from(text)
    }
}

/// A status chip: its text and its colour.
pub struct Chip {
    pub text: String,
    pub code: &'static str,
}

pub open spec fn chip_views(v: Seq<Chip>) -> Seq<(Seq<char>, Seq<char>)> {
    v.map_values(|c: Chip| (c.text@, c.code@))
}

pub open spec fn chip_if(on: bool, text: Seq<char>, code: Seq<char>) -> Seq<(Seq<char>, Seq<char>)> {
    if on {
        seq![(text, code)]
    } else {
        seq![]
    }
}

/// The chips of a package, in order: installed, repo switch, new,
/// maintainer changed, new permissions, review PKGBUILD, orphaned, out of
/// date, its security severity and its AUR scan result. `is_new` says whether it was first
/// submitted within the last week.
pub open spec fn chips_spec(pkg: PackageUpdate, is_new: bool) -> Seq<(Seq<char>, Seq<char>)> {
    chip_if(pkg.current_version@.len() != 0, "installed"@, "1;32"@)
        + chip_if(pkg.is_repo_switch, "repo switch"@, "1;34"@)
        + chip_if(is_new, "new"@, "1;31"@)
        + chip_if(pkg.spec_maintainer_changed(), "maintainer changed"@, "33"@)
        + chip_if(pkg.new_permissions@.len() != 0, "new permissions"@, "33"@)
        + chip_if(pkg.pkgbuild_needs_review, "review PKGBUILD"@, "33"@)
        + chip_if(pkg.orphaned, "orphaned"@, "1;33"@)
        + chip_if(pkg.out_of_date is Some, "out of date"@, "90"@)
        + match pkg.security_severity {
        Some(s) => seq![(s@, "1;31"@)],
        None => seq![],
    } + scan_chip(pkg)
}

/// The AUR scan chip, `aur-scan: <severity> (<count>)` for the most severe
/// group of findings; never for this application's own packages.
pub open spec fn scan_chip(pkg: PackageUpdate) -> Seq<(Seq<char>, Seq<char>)> {
    if own_package_names().contains(pkg.name@) {
        seq![]
    } else {
        match pkg.spec_aur_scan_summary() {
            Some((sev, count)) => seq![
                ("aur-scan: "@ + sev@ + " ("@ + decimal(count as nat) + ")"@, "1;31"@),
            ],
            None => seq![],
        }
    }
}

fn push_chip(v: &mut Vec<Chip>, on: bool, text: &str, code: &'static str)
    ensures
        chip_views(final(v)@) == chip_views(old(v)@) + chip_if(on, text@, code@),
{
    if on {
        v.push(Chip { text: string_from(text), code });
        proof {
            assert(chip_views(v@) =~= chip_views(old(v)@) + chip_if(on, text@, code@));
        }
    } else {
        proof {
            assert(chip_views(v@) =~= chip_views(old(v)@) + chip_if(on, text@, code@));
        }
    }
}

/// The chips of `pkg`, given whether it counts as new.
pub fn item_chips_with(pkg: &PackageUpdate, is_new: bool) -> (r: Vec<Chip>)
    ensures
        chip_views(r@) == chips_spec(*pkg, is_new),
{
    let mut v: Vec<Chip> = Vec::new();
    proof {
        assert(chip_views(v@) =~= seq![]);
    }
    push_chip(&mut v, !pkg.current_version.as_str().is_empty(), "installed", "1;32");
    push_chip(&mut v, pkg.is_repo_switch, "repo switch", "1;34");
    push_chip(&mut v, is_new, "new", "1;31");
    push_chip(&mut v, pkg.maintainer_changed(), "maintainer changed", "33");
    push_chip(&mut v, pkg.new_permissions.len() != 0, "new permissions", "33");
    push_chip(&mut v, pkg.pkgbuild_needs_review, "review PKGBUILD", "33");
    push_chip(&mut v, pkg.orphaned, "orphaned", "1;33");
    push_chip(&mut v, pkg.out_of_date.is_some(), "out of date", "90");
    match &pkg.security_severity {
        Some(s) => {
            let ghost before = v@;
            v.push(Chip { text: s.clone(), code: "1;31" });
            proof {
                assert(chip_views(v@) =~= chip_views(before) + seq![(s@, "1;31"@)]);
            }
        },
        None => {},
    }
    if !is_own_package(pkg.name.as_str()) {
        match pkg.aur_scan_summary() {
            Some((sev, count)) => {
                let ghost before = v@;
                let mut t = string_from("aur-scan: ");
                push_str(&mut t, sev.as_str());
                push_str(&mut t, " (");
                let c = fmt_u64(count);
                push_str(&mut t, c.as_str());
                push_str(&mut t, ")");
                v.push(Chip { text: t, code: "1;31" });
                proof {
                    assert(chip_views(v@) =~= chip_views(before) + scan_chip(*pkg));
                }
            },
            None => {},
        }
    }
    proof {
        assert(chip_views(v@) =~= chips_spec(*pkg, is_new));
    }
    v
}

/// The chips of `pkg`, with "new" decided by the clock now.
pub fn item_chips(pkg: &PackageUpdate) -> (r: Vec<Chip>)
    ensures
        exists|now: i64|
            chip_views(r@) == chips_spec(*pkg, recently_created_at(pkg.first_submitted, now)),
{
    let now = unix_now();
    let is_new = is_recently_created_at(pkg.first_submitted, now);
    item_chips_with(pkg, is_new)
}

/// The chips as they follow the header: a space and `[text]` in the chip's
/// colour, for each.
pub open spec fn chips_text(tty: bool, chips: Seq<(Seq<char>, Seq<char>)>) -> Seq<char>
    decreases chips.len(),
{
    if chips.len() == 0 {
        seq![]
    } else {
        chips_text(tty, chips.drop_last()) + " "@ + paint_spec(
            tty,
            chips.last().1,
            "["@ + chips.last().0 + "]"@,
        )
    }
}

pub open spec fn repo_label(pkg: PackageUpdate) -> Seq<char> {
    if pkg.source == PackageSource::Aur {
        "aur"@
    } else if pkg.repository@.len() == 0 {
        "repo"@
    } else {
        pkg.repository@
    }
}

pub open spec fn repo_color(pkg: PackageUpdate) -> Seq<char> {
    if pkg.source == PackageSource::Aur {
        "1;36"@
    } else {
        "1;35"@
    }
}

/// The number in front of a numbered listing, and a space.
pub open spec fn number_part(number: Option<nat>, tty: bool) -> Seq<char> {
    match number {
        Some(n) => paint_spec(tty, "1;34"@, decimal(n)) + " "@,
        None => seq![],
    }
}

/// The repository, a slash, the name, a space and the new version.
pub open spec fn title_part(pkg: PackageUpdate, tty: bool) -> Seq<char> {
    paint_spec(tty, repo_color(pkg), repo_label(pkg)) + "/"@ + paint_spec(tty, "1"@, pkg.name@)
        + " "@ + paint_spec(tty, "1;32"@, pkg.new_version@)
}

/// Two spaces and `updated` with the build age, when it is known.
pub open spec fn built_part(built: Option<Seq<char>>, tty: bool) -> Seq<char> {
    match built {
        Some(b) => "  "@ + paint_spec(tty, "90"@, "updated "@ + b),
        None => seq![],
    }
}

/// The description on its own line, indented by four spaces, when there is
/// one.
pub open spec fn description_part(pkg: PackageUpdate) -> Seq<char> {
    if pkg.description@.len() == 0 {
        seq![]
    } else {
        "\n    "@ + pkg.description@
    }
}

/// A package as the command line lists it. The header holds the number (for
/// numbered lists), the repository, a slash, the name, the new version, the
/// chips and, when the build date is known, `updated` and its age; the
/// description follows on its own line, indented by four spaces.
pub open spec fn item_text(
    number: Option<nat>,
    pkg: PackageUpdate,
    tty: bool,
    is_new: bool,
    built: Option<Seq<char>>,
) -> Seq<char> {
    number_part(number, tty) + title_part(pkg, tty) + chips_text(tty, chips_spec(pkg, is_new))
        + built_part(built, tty) + description_part(pkg)
}

fn number_text(number: Option<usize>, tty: bool) -> (r: String)
    ensures
        r@ == number_part(opt_nat(number), tty),
{
    match number {
        Some(n) => {
            let num = fmt_u64(n as u64);
            let mut s = paint(tty, "1;34", num.as_str());
            push_str(&mut s, " ");
            s
        },
        None => String::new(),
    }
}

fn title_text(pkg: &PackageUpdate, tty: bool) -> (r: String)
    ensures
        r@ == title_part(*pkg, tty),
{
    let repo = if pkg.source == PackageSource::Aur {
        string_from("aur")
    } else if pkg.repository.as_str().is_empty() {
        string_from("repo")
    } else {
        pkg.repository.clone()
    };
    let color = if pkg.source == PackageSource::Aur {
        "1;36"
    } else {
        "1;35"
    };
    let mut s = paint(tty, color, repo.as_str());
    push_str(&mut s, "/");
    let p = paint(tty, "1", pkg.name.as_str());
    push_str(&mut s, p.as_str());
    push_str(&mut s, " ");
    let p = paint(tty, "1;32", pkg.new_version.as_str());
    push_str(&mut s, p.as_str());
    proof {
        reveal_strlit("aur");
        reveal_strlit("repo");
    }
    s
}

fn chips_line(chips: &Vec<Chip>, tty: bool) -> (r: String)
    ensures
        r@ == chips_text(tty, chip_views(chips@)),
{
    let mut s = String::new();
    let mut i: usize = 0;
    while i < chips.len()
        invariant
            i <= chips@.len(),
            s@ == chips_text(tty, chip_views(chips@).take(i as int)),
        decreases chips@.len() - i,
    {
        let mut bracketed = string_from("[");
        push_str(&mut bracketed, chips[i].text.as_str());
        push_str(&mut bracketed, "]");
        push_str(&mut s, " ");
        let p = paint(tty, chips[i].code, bracketed.as_str());
        push_str(&mut s, p.as_str());
        proof {
            let cv = chip_views(chips@);
            assert(cv.take(i + 1).drop_last() =~= cv.take(i as int));
            assert(cv.take(i + 1).last() == cv[i as int]);
        }
        i += 1;
    }
    proof {
        assert(chip_views(chips@).take(chips@.len() as int) =~= chip_views(chips@));
    }
    s
}

fn built_text(built: Option<String>, tty: bool) -> (r: String)
    ensures
        r@ == built_part(
            opt_view(built),
            tty,
        ),
{
    match built {
        Some(b) => {
            let mut s = string_from("  ");
            let mut u = string_from("updated ");
            push_str(&mut u, b.as_str());
            let p = paint(tty, "90", u.as_str());
            push_str(&mut s, p.as_str());
            s
        },
        None => String::new(),
    }
}

/// Formats a package for the list, given whether it counts as new and the
/// text of its build age.
pub fn format_item_with(
    number: Option<usize>,
    pkg: &PackageUpdate,
    tty: bool,
    is_new: bool,
    built: Option<String>,
) -> (r: String)
    ensures
        r@ == item_text(
            opt_nat(number),
            *pkg,
            tty,
            is_new,
            opt_view(built),
        ),
{
    let ghost bv = opt_view(built);
    let mut s = number_text(number, tty);
    let t = title_text(pkg, tty);
    push_str(&mut s, t.as_str());
    let chips = item_chips_with(pkg, is_new);
    let c = chips_line(&chips, tty);
    push_str(&mut s, c.as_str());
    let b = built_text(built, tty);
    push_str(&mut s, b.as_str());
    if !pkg.description.as_str().is_empty() {
        push_str(&mut s, "\n    ");
        push_str(&mut s, pkg.description.as_str());
    }
    proof {
        assert(s@ =~= item_text(opt_nat(number), *pkg, tty, is_new, bv));
    }
    s
}

pub open spec fn opt_view(o: Option<String>) -> Option<Seq<char>> {
    match o {
        Some(b) => Some(b@),
        None => None,
    }
}

pub open spec fn opt_nat(o: Option<usize>) -> Option<nat> {
    match o {
        Some(n) => Some(n as nat),
        None => None,
    }
}

/// The listing of a package when the clock reads `now` and the local date
/// of its build is `absolute`.
pub open spec fn item_at(
    number: Option<nat>,
    pkg: PackageUpdate,
    tty: bool,
    now: i64,
    absolute: Seq<char>,
) -> Seq<char> {
    item_text(
        number,
        pkg,
        tty,
        recently_created_at(pkg.first_submitted, now),
        match pkg.build_date {
            Some(ts) => Some(age_text(ts as int, now as int, absolute)),
            None => None,
        },
    )
}

/// `block` is how the package is listed at some time `now`, with some local
/// date `absolute` for its build.
pub open spec fn listed_as(block: Seq<char>, number: Option<nat>, pkg: PackageUpdate, tty: bool) -> bool {
    exists|now: i64, absolute: Seq<char>| block == #[trigger] item_at(number, pkg, tty, now, absolute)
}

/// Formats a package for the list, deciding "new" and the build age by the
/// clock now and the build date in the local time zone.
pub fn format_item(number: Option<usize>, pkg: &PackageUpdate, tty: bool) -> (r: String)
    ensures
        listed_as(r@, opt_nat(number), *pkg, tty),
{
    let now = unix_now();
    let is_new = is_recently_created_at(pkg.first_submitted, now);
    match pkg.build_date {
        Some(ts) => {
            let absolute = local_date(ts);
            let ghost a = absolute@;
            let b = describe_age(ts, now, absolute);
            let r = format_item_with(number, pkg, tty, is_new, Some(b));
            assert(r@ == item_at(opt_nat(number), *pkg, tty, now, a));
            r
        },
        None => {
            let r = format_item_with(number, pkg, tty, is_new, None);
            assert(r@ == item_at(opt_nat(number), *pkg, tty, now, seq![]));
            r
        },
    }
}

/// The position in a listing of `n` packages at which package `i` is
/// printed: numbered lists print the last package first, so that the first
/// ends up next to the prompt.
pub open spec fn print_position(n: nat, i: nat, numbered: bool) -> nat {
    if numbered {
        (n - 1 - i) as nat
    } else {
        i
    }
}

/// The package printed at position `j` of a listing of `n`.
pub open spec fn printed_item(n: nat, j: nat, numbered: bool) -> nat {
    if numbered {
        (n - 1 - j) as nat
    } else {
        j
    }
}

pub open spec fn list_number(i: nat, numbered: bool) -> Option<nat> {
    if numbered {
        Some(i + 1)
    } else {
        None
    }
}

/// The listing's blocks in the order they are printed, numbered from one
/// when `numbered`.
pub fn render_blocks(items: &Vec<PackageUpdate>, numbered: bool, tty: bool) -> (r: Vec<String>)
    ensures
        r@.len() == items@.len(),
        forall|i: int|
            0 <= i < items@.len() ==> listed_as(
                #[trigger] r@[print_position(items@.len(), i as nat, numbered) as int]@,
                list_number(i as nat, numbered),
                items@[i],
                tty,
            ),
{
    let n = items.len();
    let mut r: Vec<String> = Vec::new();
    let mut k: usize = 0;
    while k < n
        invariant
            n == items@.len(),
            k <= n,
            r@.len() == k,
            forall|j: int|
                0 <= j < k ==> listed_as(
                    #[trigger] r@[j]@,
                    list_number(printed_item(n as nat, j as nat, numbered), numbered),
                    items@[printed_item(n as nat, j as nat, numbered) as int],
                    tty,
                ),
        decreases n - k,
    {
        let i = if numbered {
            n - 1 - k
        } else {
            k
        };
        let number = if numbered {
            Some(i + 1)
        } else {
            None
        };
        let block = format_item(number, &items[i], tty);
        proof {
            assert(opt_nat(number) == list_number(printed_item(n as nat, k as nat, numbered), numbered));
        }
        r.push(block);
        k += 1;
    }
    proof {
        assert forall|i: int| 0 <= i < items@.len() implies listed_as(
            #[trigger] r@[print_position(items@.len(), i as nat, numbered) as int]@,
            list_number(i as nat, numbered),
            items@[i],
            tty,
        ) by {
            let j = print_position(n as nat, i as nat, numbered);
            assert(printed_item(n as nat, j, numbered) == i);
            assert(0 <= j < n);
            assert(listed_as(
                r@[j as int]@,
                list_number(printed_item(n as nat, j, numbered), numbered),
                items@[printed_item(n as nat, j, numbered) as int],
                tty,
            ));
        }
    }
    r
}

} // verus!
