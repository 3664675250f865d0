//! Talking to the AUR: addresses of its web interface, reading the list of
//! foreign packages, and turning what the AUR reports into updates.
use vstd::prelude::*;
use vstd::utf8::{decode_utf8, encode_utf8};

use crate::models::aur_info::AurInfo;
use crate::models::package_source::{source_label, PackageSource};
use crate::models::package_update::PackageUpdate;
use crate::text::{
    chars_eq, chars_of, is_whitespace, is_ws, lines, lines_of, push_char, push_str, string_from,
    string_of, trim, trim_str,
};

verus! {

// ---------------------------------------------------------------------
// Percent-encoding
// ---------------------------------------------------------------------

/// The bytes that stay as they are in a URL: ASCII letters, digits and
/// `-_.~`.
pub open spec fn unreserved(b: u8) -> bool {
    (65 <= b && b <= 90) || (97 <= b && b <= 122) || (48 <= b && b <= 57) || b == 45 || b == 95
        || b == 46 || b == 126
}

pub open spec fn hex_upper(d: nat) -> char {
    if d < 10 {
        ((48 + d) as u32) as char
    } else {
        ((55 + d) as u32) as char
    }
}

/// One byte percent-encoded: itself when unreserved, else `%` and two
/// upper-case hexadecimal digits.
pub open spec fn encode_byte(b: u8) -> Seq<char> {
    if unreserved(b) {
        seq![(b as u32) as char]
    } else {
        seq!['%', hex_upper((b / 16) as nat), hex_upper((b % 16) as nat)]
    }
}

pub open spec fn percent_encoded(bs: Seq<u8>) -> Seq<char>
    decreases bs.len(),
{
    if bs.len() == 0 {
        seq![]
    } else {
        encode_byte(bs[0]) + percent_encoded(bs.drop_first())
    }
}

fn hex_upper_char(d: u8) -> (c: char)
    requires
        d < 16,
    ensures
        c == hex_upper(d as nat),
{
    if d < 10 {
        (48u8 + d) as char
    } else {
        (55u8 + d) as char
    }
}

/// Percent-encodes the UTF-8 bytes of `s` for use in a URL.
pub fn url_encode(s: &str) -> (r: String)
    ensures
        r@ == percent_encoded(encode_utf8(s@)),
        percent_decoded(r@) == encode_utf8(s@),
        decode_utf8(percent_decoded(r@)) == s@,
{
    let bytes = s.as_bytes();
    let ghost bs = bytes@;
    let mut out = String::new();
    let mut i: usize = 0;
    proof {
        assert(bs.skip(0) =~= bs);
    }
    while i < bytes.len()
        invariant
            bs == bytes@,
            i <= bs.len(),
            percent_encoded(bs) == out@ + percent_encoded(bs.skip(i as int)),
        decreases bs.len() - i,
    {
        let b = bytes[i];
        proof {
            let rest = bs.skip(i as int);
            assert(rest[0] == b);
            assert(rest.drop_first() =~= bs.skip(i + 1));
        }
        let ghost before = out@;
        if (65 <= b && b <= 90) || (97 <= b && b <= 122) || (48 <= b && b <= 57) || b == 45 || b
            == 95 || b == 46 || b == 126 {
            push_char(&mut out, b as char);
            proof {
                assert(out@ =~= before + encode_byte(b));
            }
        } else {
            push_char(&mut out, '%');
            push_char(&mut out, hex_upper_char(b / 16));
            push_char(&mut out, hex_upper_char(b % 16));
            proof {
                assert(out@ =~= before + encode_byte(b));
            }
        }
        proof {
            assert(before + (encode_byte(b) + percent_encoded(bs.skip(i + 1))) =~= (before
                + encode_byte(b)) + percent_encoded(bs.skip(i + 1)));
        }
        i += 1;
    }
    proof {
        assert(percent_encoded(bs.skip(i as int)) =~= Seq::<char>::empty());
        assert(out@ + Seq::<char>::empty() =~= out@);
        lemma_url_encode_round_trip(s@);
    }
    out
}

pub open spec fn hex_value(c: char) -> nat {
    if '0' <= c && c <= '9' {
        ((c as u32) - 48) as nat
    } else if 'A' <= c && c <= 'F' {
        ((c as u32) - 55) as nat
    } else if 'a' <= c && c <= 'f' {
        ((c as u32) - 87) as nat
    } else {
        0
    }
}

/// Percent-decoding: `%` and two hexadecimal digits stand for a byte, any
/// other character for its own code.
pub open spec fn percent_decoded(cs: Seq<char>) -> Seq<u8>
    decreases cs.len(),
{
    if cs.len() == 0 {
        seq![]
    } else if cs[0] == '%' && cs.len() >= 3 {
        seq![(hex_value(cs[1]) * 16 + hex_value(cs[2])) as u8] + percent_decoded(cs.skip(3))
    } else {
        seq![(cs[0] as u32) as u8] + percent_decoded(cs.drop_first())
    }
}

proof fn lemma_decode_byte(b: u8, rest: Seq<char>)
    ensures
        percent_decoded(encode_byte(b) + rest) == seq![b] + percent_decoded(rest),
{
    let e = encode_byte(b) + rest;
    if unreserved(b) {
        assert(e[0] == (b as u32) as char);
        assert(e.drop_first() =~= rest);
        assert(((b as u32) as char) as u32 == b as u32);
    } else {
        let hi = (b / 16) as nat;
        let lo = (b % 16) as nat;
        assert(e[0] == '%');
        assert(e[1] == hex_upper(hi));
        assert(e[2] == hex_upper(lo));
        assert(e.skip(3) =~= rest);
        assert(hex_value(hex_upper(hi)) == hi);
        assert(hex_value(hex_upper(lo)) == lo);
        assert(hi * 16 + lo == b);
    }
}

/// Law: percent-decoding gives back the bytes that were encoded, so the AUR
/// receives exactly the package names that were asked for.
pub proof fn lemma_percent_round_trip(bs: Seq<u8>)
    ensures
        percent_decoded(percent_encoded(bs)) == bs,
    decreases bs.len(),
{
    if bs.len() > 0 {
        lemma_percent_round_trip(bs.drop_first());
        lemma_decode_byte(bs[0], percent_encoded(bs.drop_first()));
        assert(seq![bs[0]] + bs.drop_first() =~= bs);
    }
}

/// Law: decoding what [`url_encode`] gives for a string yields the UTF-8
/// bytes of that string, and so, read as UTF-8, the string itself.
pub proof fn lemma_url_encode_round_trip(s: Seq<char>)
    ensures
        percent_decoded(percent_encoded(encode_utf8(s))) == encode_utf8(s),
        decode_utf8(percent_decoded(percent_encoded(encode_utf8(s)))) == s,
{
    lemma_percent_round_trip(encode_utf8(s));
    vstd::utf8::encode_utf8_decode_utf8(s);
}

// ---------------------------------------------------------------------
// Addresses
// ---------------------------------------------------------------------

pub open spec fn info_query(names: Seq<Seq<char>>) -> Seq<char>
    decreases names.len(),
{
    if names.len() == 0 {
        seq![]
    } else if names.len() == 1 {
        "arg%5B%5D="@ + percent_encoded(encode_utf8(names[0]))
    } else {
        info_query(names.drop_last()) + "&"@ + "arg%5B%5D="@ + percent_encoded(
            encode_utf8(names.last()),
        )
    }
}

/// The AUR web interface address that asks for information on all `names`.
pub open spec fn info_url(names: Seq<Seq<char>>) -> Seq<char> {
    "https://aur.archlinux.org/rpc/v5/info?"@ + info_query(names)
}

pub fn aur_rpc_info_url(names: &[&str]) -> (r: String)
    ensures
        r@ == info_url(names@.map_values(|n: &str| n@)),
{
    let ghost ns = names@.map_values(|n: &str| n@);
    let mut url = string_from("https://aur.archlinux.org/rpc/v5/info?");
    let ghost base = url@;
    let mut i: usize = 0;
    while i < names.len()
        invariant
            ns == names@.map_values(|n: &str| n@),
            base == "https://aur.archlinux.org/rpc/v5/info?"@,
            i <= names@.len(),
            url@ == base + info_query(ns.take(i as int)),
        decreases names@.len() - i,
    {
        proof {
            assert(ns.take(i + 1).drop_last() =~= ns.take(i as int));
            assert(ns.take(i + 1).last() == names@[i as int]@);
        }
        let ghost before = url@;
        if i > 0 {
            push_char(&mut url, '&');
        }
        push_str(&mut url, "arg%5B%5D=");
        let e = url_encode(names[i]);
        push_str(&mut url, e.as_str());
        proof {
            if i == 0 {
                assert(ns.take(1) =~= seq![ns[0]]);
                assert(url@ =~= base + info_query(ns.take(1)));
            } else {
                reveal_strlit("&");
                assert(url@ =~= base + info_query(ns.take(i + 1)));
            }
        }
        i += 1;
    }
    proof {
        assert(ns.take(i as int) =~= ns);
    }
    url
}

/// The address of the AUR web search for `term`.
pub fn aur_search_url(term: &str) -> (r: String)
    ensures
        r@ == "https://aur.archlinux.org/rpc/v5/search/"@ + percent_encoded(encode_utf8(term@)),
{
    let mut s = string_from("https://aur.archlinux.org/rpc/v5/search/");
    let e = url_encode(term);
    push_str(&mut s, e.as_str());
    s
}

/// The address from which the current build recipe of `package` is fetched.
pub fn remote_pkgbuild_url(package: &str) -> (r: String)
    ensures
        r@ == "https://aur.archlinux.org/cgit/aur.git/plain/PKGBUILD?h="@ + percent_encoded(
            encode_utf8(package@),
        ),
{
    let mut s = string_from("https://aur.archlinux.org/cgit/aur.git/plain/PKGBUILD?h=");
    let e = url_encode(package);
    push_str(&mut s, e.as_str());
    s
}

/// The address of the git repository of an AUR package.
pub fn aur_clone_url(name: &str) -> (r: String)
    ensures
        r@ == "https://aur.archlinux.org/"@ + name@ + ".git"@,
{
    let mut s = string_from("https://aur.archlinux.org/");
    push_str(&mut s, name);
    push_str(&mut s, ".git");
    s
}

// ---------------------------------------------------------------------
// Foreign packages and updates
// ---------------------------------------------------------------------

pub open spec fn take_field(s: Seq<char>) -> Seq<char>
    decreases s.len(),
{
    if s.len() == 0 || is_ws(s[0]) {
        seq![]
    } else {
        seq![s[0]] + take_field(s.drop_first())
    }
}

pub open spec fn skip_ws(s: Seq<char>) -> Seq<char>
    decreases s.len(),
{
    if s.len() > 0 && is_ws(s[0]) {
        skip_ws(s.drop_first())
    } else {
        s
    }
}

pub open spec fn after_field(s: Seq<char>) -> Seq<char>
    decreases s.len(),
{
    if s.len() == 0 || is_ws(s[0]) {
        s
    } else {
        after_field(s.drop_first())
    }
}

/// The first two whitespace-separated fields of a line, if it has two.
pub open spec fn two_fields(line: Seq<char>) -> Option<(Seq<char>, Seq<char>)> {
    let a = take_field(skip_ws(line));
    let b = take_field(skip_ws(after_field(skip_ws(line))));
    if a.len() > 0 && b.len() > 0 {
        Some((a, b))
    } else {
        None
    }
}

pub open spec fn name_version_pairs(ls: Seq<Seq<char>>) -> Seq<(Seq<char>, Seq<char>)>
    decreases ls.len(),
{
    if ls.len() == 0 {
        seq![]
    } else {
        match two_fields(ls.last()) {
            Some(p) => name_version_pairs(ls.drop_last()).push(p),
            None => name_version_pairs(ls.drop_last()),
        }
    }
}

fn skip_ws_from(s: &[char], i: usize) -> (j: usize)
    requires
        i <= s@.len(),
    ensures
        i <= j <= s@.len(),
        s@.skip(j as int) == skip_ws(s@.skip(i as int)),
    decreases s@.len() - i,
{
    if i < s.len() && is_whitespace(s[i]) {
        proof {
            assert(s@.skip(i as int)[0] == s@[i as int]);
            assert(s@.skip(i as int).drop_first() =~= s@.skip(i + 1));
        }
        skip_ws_from(s, i + 1)
    } else {
        proof {
            if i < s@.len() {
                assert(s@.skip(i as int)[0] == s@[i as int]);
            }
        }
        i
    }
}

fn field_end(s: &[char], i: usize) -> (j: usize)
    requires
        i <= s@.len(),
    ensures
        i <= j <= s@.len(),
        s@.subrange(i as int, j as int) == take_field(s@.skip(i as int)),
        s@.skip(j as int) == after_field(s@.skip(i as int)),
    decreases s@.len() - i,
{
    if i < s.len() && !is_whitespace(s[i]) {
        let j = field_end(s, i + 1);
        proof {
            assert(s@.skip(i as int)[0] == s@[i as int]);
            assert(s@.skip(i as int).drop_first() =~= s@.skip(i + 1));
            assert(s@.subrange(i as int, j as int) =~= seq![s@[i as int]] + s@.subrange(
                i + 1,
                j as int,
            ));
        }
        j
    } else {
        proof {
            if i < s@.len() {
                assert(s@.skip(i as int)[0] == s@[i as int]);
            }
            assert(s@.subrange(i as int, i as int) =~= Seq::<char>::empty());
        }
        i
    }
}

fn copy_chars(s: &[char], a: usize, b: usize) -> (r: String)
    requires
        a <= b <= s@.len(),
    ensures
        r@ == s@.subrange(a as int, b as int),
{
    let mut v: Vec<char> = Vec::new();
    let mut i = a;
    while i < b
        invariant
            a <= i <= b <= s@.len(),
            v@ == s@.subrange(a as int, i as int),
        decreases b - i,
    {
        v.push(s[i]);
        proof {
            assert(s@.subrange(a as int, i + 1) =~= s@.subrange(a as int, i as int).push(s@[i as int]));
        }
        i += 1;
    }
    string_of(v.as_slice())
}

/// The packages that `pacman -Qm` lists: the name and version from each line
/// that has both.
pub fn parse_foreign_packages(stdout: &str) -> (r: Vec<(String, String)>)
    ensures
        r@.map_values(|p: (String, String)| (p.0@, p.1@)) == name_version_pairs(lines(stdout@)),
{
    let ls = lines_of(stdout);
    let ghost all = ls.deep_view();
    let mut out: Vec<(String, String)> = Vec::new();
    let mut i: usize = 0;
    while i < ls.len()
        invariant
            all == ls.deep_view(),
            all.len() == ls@.len(),
            i <= ls@.len(),
            out@.map_values(|p: (String, String)| (p.0@, p.1@)) == name_version_pairs(
                all.take(i as int),
            ),
        decreases ls@.len() - i,
    {
        let line = ls[i].as_slice();
        proof {
            assert(ls@[i as int]@ == all[i as int]);
            assert(all.take(i + 1).drop_last() =~= all.take(i as int));
            assert(all.take(i + 1).last() == line@);
            assert(line@.skip(0) =~= line@);
        }
        let a0 = skip_ws_from(line, 0);
        let a1 = field_end(line, a0);
        let b0 = skip_ws_from(line, a1);
        let b1 = field_end(line, b0);
        let ghost before = out@.map_values(|p: (String, String)| (p.0@, p.1@));
        if a1 > a0 && b1 > b0 {
            let name = copy_chars(line, a0, a1);
            let version = copy_chars(line, b0, b1);
            out.push((name, version));
            proof {
                assert(out@.map_values(|p: (String, String)| (p.0@, p.1@)) =~= before.push(
                    two_fields(line@)->Some_0,
                ));
            }
        }
        i += 1;
    }
    proof {
        assert(all.take(i as int) =~= all);
    }
    out
}

/// The fields of a new AUR update of `name` from `current` to `new`, as the
/// update list shows it before AUR metadata is added.
pub open spec fn is_new_aur_update(p: PackageUpdate, name: Seq<char>, current: Seq<char>, new: Seq<
    char,
>) -> bool {
    &&& p.source == PackageSource::Aur
    &&& p.repository@ == source_label(PackageSource::Aur)
    &&& p.selected
    &&& p.name@ == name
    &&& p.description@ == "AUR package: "@ + name
    &&& p.current_version@ == current
    &&& p.new_version@ == new
    &&& p.size == 0
    &&& p.url matches Some(u) && u@ == "https://aur.archlinux.org/packages/"@ + name
    &&& p.build_date is None
    &&& p.first_submitted is None
    &&& p.out_of_date is None
    &&& !p.orphaned
    &&& p.maintainer is None
    &&& p.previous_maintainer is None
    &&& p.num_votes is None
    &&& !p.is_repo_switch
    &&& p.security_severity is None
    &&& p.security_issues@.len() == 0
    &&& p.new_permissions@.len() == 0
    &&& p.extra_dependencies@.len() == 0
    &&& !p.pkgbuild_needs_review
    &&& p.flatpak_installation is None
    &&& p.aur_scan_findings@.len() == 0
    &&& p.appimage_path is None
}

pub fn new_aur_update(name: &str, current_version: &str, new_version: &str) -> (p: PackageUpdate)
    ensures
        is_new_aur_update(p, name@, current_version@, new_version@),
{
    let mut description = string_from("AUR package: ");
    push_str(&mut description, name);
    let mut url = string_from("https://aur.archlinux.org/packages/");
    push_str(&mut url, name);
    PackageUpdate {
        source: PackageSource::Aur,
        repository: string_from(PackageSource::Aur.label()),
        selected: true,
        name: string_from(name),
        description,
        current_version: string_from(current_version),
        new_version: string_from(new_version),
        size: 0,
        url: Some(url),
        build_date: None,
        first_submitted: None,
        out_of_date: None,
        orphaned: false,
        maintainer: None,
        previous_maintainer: None,
        num_votes: None,
        is_repo_switch: false,
        security_severity: None,
        security_issues: Vec::new(),
        new_permissions: Vec::new(),
        extra_dependencies: Vec::new(),
        pkgbuild_needs_review: false,
        flatpak_installation: None,
        aur_scan_findings: Vec::new(),
        appimage_path: None,
    }
}

/// What is known of one foreign package: the version that the AUR has, if
/// it has the package, and whether that version is newer than the installed
/// one (as `alpm::vercmp` orders versions).
pub struct VersionCheck {
    pub aur_version: Option<String>,
    pub newer: bool,
}

/// The positions of the foreign packages that have a newer AUR version.
pub open spec fn outdated_positions(checks: Seq<VersionCheck>) -> Seq<int>
    decreases checks.len(),
{
    if checks.len() == 0 {
        seq![]
    } else {
        let prev = outdated_positions(checks.drop_last());
        if checks.last().aur_version is Some && checks.last().newer {
            prev.push(checks.len() - 1)
        } else {
            prev
        }
    }
}

/// The AUR updates among the foreign packages, in order: one for each
/// package whose AUR version is newer than the installed one.
pub fn select_aur_updates(foreign: &Vec<(String, String)>, checks: &Vec<VersionCheck>) -> (r: Vec<
    PackageUpdate,
>)
    requires
        checks@.len() == foreign@.len(),
    ensures
        r@.len() == outdated_positions(checks@).len(),
        forall|k: int|
            0 <= k < r@.len() ==> {
                let i = outdated_positions(checks@)[k];
                is_new_aur_update(
                    #[trigger] r@[k],
                    foreign@[i].0@,
                    foreign@[i].1@,
                    checks@[i].aur_version->Some_0@,
                )
            },
{
    let mut out: Vec<PackageUpdate> = Vec::new();
    let mut i: usize = 0;
    while i < foreign.len()
        invariant
            checks@.len() == foreign@.len(),
            i <= foreign@.len(),
            out@.len() == outdated_positions(checks@.take(i as int)).len(),
            forall|k: int|
                0 <= k < out@.len() ==> {
                    let j = outdated_positions(checks@.take(i as int))[k];
                    &&& 0 <= j < i
                    &&& is_new_aur_update(
                        #[trigger] out@[k],
                        foreign@[j].0@,
                        foreign@[j].1@,
                        checks@[j].aur_version->Some_0@,
                    )
                },
        decreases foreign@.len() - i,
    {
        proof {
            assert(checks@.take(i + 1).drop_last() =~= checks@.take(i as int));
            assert(checks@.take(i + 1).last() == checks@[i as int]);
            lemma_outdated_positions_below(checks@.take(i as int));
        }
        match &checks[i].aur_version {
            Some(v) => {
                if checks[i].newer {
                    let u = new_aur_update(
                        foreign[i].0.as_str(),
                        foreign[i].1.as_str(),
                        v.as_str(),
                    );
                    out.push(u);
                }
            },
            None => {},
        }
        i += 1;
    }
    proof {
        assert(checks@.take(i as int) =~= checks@);
    }
    out
}

proof fn lemma_outdated_positions_below(checks: Seq<VersionCheck>)
    ensures
        forall|k: int|
            0 <= k < outdated_positions(checks).len() ==> 0 <= #[trigger] outdated_positions(
                checks,
            )[k] < checks.len(),
    decreases checks.len(),
{
    if checks.len() > 0 {
        lemma_outdated_positions_below(checks.drop_last());
        let prev = outdated_positions(checks.drop_last());
        let cur = outdated_positions(checks);
        assert forall|k: int| 0 <= k < cur.len() implies 0 <= #[trigger] cur[k] < checks.len() by {
            if k < prev.len() {
                assert(cur[k] == prev[k]);
            }
        }
    }
}

// ---------------------------------------------------------------------
// AUR metadata
// ---------------------------------------------------------------------

/// The information that the AUR reported for `name`: the last entry under
/// that name, as a map filled entry by entry keeps it.
pub open spec fn info_for(infos: Seq<(String, AurInfo)>, name: Seq<char>) -> Option<AurInfo>
    decreases infos.len(),
{
    if infos.len() == 0 {
        None
    } else if infos.last().0@ == name {
        Some(infos.last().1)
    } else {
        info_for(infos.drop_last(), name)
    }
}

/// The maintainer recorded for `name` on an earlier check.
pub open spec fn known_get(known: Seq<(String, String)>, name: Seq<char>) -> Option<String>
    decreases known.len(),
{
    if known.len() == 0 {
        None
    } else if known.last().0@ == name {
        Some(known.last().1)
    } else {
        known_get(known.drop_last(), name)
    }
}

pub open spec fn non_empty_or(v: Option<String>, old_value: String) -> String {
    match v {
        Some(d) => if d@.len() > 0 {
            d
        } else {
            old_value
        },
        None => old_value,
    }
}

pub open spec fn url_or(v: Option<String>, old_value: Option<String>) -> Option<String> {
    match v {
        Some(d) => if d@.len() > 0 {
            Some(d)
        } else {
            old_value
        },
        None => old_value,
    }
}

/// One update with the AUR's information applied: description and address
/// when the AUR gives non-empty ones, dates, maintainer and votes as the AUR
/// gives them, orphaned when it names no maintainer; and the earlier
/// maintainer when a different one was recorded before. A maintainer seen
/// for the first time is recorded.
pub open spec fn enrich_one(u: PackageUpdate, info: AurInfo, known: Seq<(String, String)>) -> (
    PackageUpdate,
    Seq<(String, String)>,
    bool,
) {
    let base = PackageUpdate {
        description: non_empty_or(info.description, u.description),
        url: url_or(info.url, u.url),
        build_date: info.last_modified,
        first_submitted: info.first_submitted,
        out_of_date: info.out_of_date,
        orphaned: info.maintainer is None,
        maintainer: info.maintainer,
        num_votes: info.num_votes,
        ..u
    };
    match info.maintainer {
        Some(current) => match known_get(known, u.name@) {
            Some(previous) => if previous@ != current@ {
                (PackageUpdate { previous_maintainer: Some(previous), ..base }, known, false)
            } else {
                (base, known, false)
            },
            None => (base, known.push((u.name, current)), true),
        },
        None => (base, known, false),
    }
}

pub open spec fn enrich_all(
    us: Seq<PackageUpdate>,
    infos: Seq<(String, AurInfo)>,
    known: Seq<(String, String)>,
) -> (Seq<PackageUpdate>, Seq<(String, String)>, bool)
    decreases us.len(),
{
    if us.len() == 0 {
        (seq![], known, false)
    } else {
        let (ps, k, c) = enrich_all(us.drop_last(), infos, known);
        match info_for(infos, us.last().name@) {
            Some(info) => {
                let (p, k2, c2) = enrich_one(us.last(), info, k);
                (ps.push(p), k2, c || c2)
            },
            None => (ps.push(us.last()), k, c),
        }
    }
}

fn clone_opt(v: &Option<String>) -> (r: Option<String>)
    ensures
        r == *v,
{
    match v {
        Some(s) => Some(s.clone()),
        None => None,
    }
}

fn find_info(infos: &Vec<(String, AurInfo)>, name: &str) -> (r: Option<usize>)
    ensures
        match r {
            Some(j) => j < infos@.len() && info_for(infos@, name@) == Some(infos@[j as int].1),
            None => info_for(infos@, name@) is None,
        },
{
    let target = chars_of(name);
    let mut j = infos.len();
    proof {
        assert(infos@.take(infos@.len() as int) =~= infos@);
    }
    while j > 0
        invariant
            j <= infos@.len(),
            target@ == name@,
            info_for(infos@, name@) == info_for(infos@.take(j as int), name@),
        decreases j,
    {
        let c = chars_of(infos[j - 1].0.as_str());
        proof {
            assert(infos@.take(j as int).drop_last() =~= infos@.take(j - 1));
            assert(infos@.take(j as int).last() == infos@[j - 1]);
        }
        if chars_eq(c.as_slice(), target.as_slice()) {
            return Some(j - 1);
        }
        j -= 1;
    }
    None
}

fn find_known(known: &Vec<(String, String)>, name: &str) -> (r: Option<usize>)
    ensures
        match r {
            Some(j) => j < known@.len() && known_get(known@, name@) == Some(known@[j as int].1),
            None => known_get(known@, name@) is None,
        },
{
    let target = chars_of(name);
    let mut j = known.len();
    proof {
        assert(known@.take(known@.len() as int) =~= known@);
    }
    while j > 0
        invariant
            j <= known@.len(),
            target@ == name@,
            known_get(known@, name@) == known_get(known@.take(j as int), name@),
        decreases j,
    {
        let c = chars_of(known[j - 1].0.as_str());
        proof {
            assert(known@.take(j as int).drop_last() =~= known@.take(j - 1));
            assert(known@.take(j as int).last() == known@[j - 1]);
        }
        if chars_eq(c.as_slice(), target.as_slice()) {
            return Some(j - 1);
        }
        j -= 1;
    }
    None
}

fn enrich_entry(u: &mut PackageUpdate, info: &AurInfo, known: &mut Vec<(String, String)>) -> (c:
    bool)
    ensures
        (*final(u), final(known)@, c) == enrich_one(*old(u), *info, old(known)@),
{
    if let Some(d) = &info.description {
        if !d.as_str().is_empty() {
            u.description = d.clone();
        }
    }
    if let Some(x) = &info.url {
        if !x.as_str().is_empty() {
            u.url = Some(x.clone());
        }
    }
    u.build_date = info.last_modified;
    u.first_submitted = info.first_submitted;
    u.out_of_date = info.out_of_date;
    u.orphaned = info.maintainer.is_none();
    u.maintainer = clone_opt(&info.maintainer);
    u.num_votes = info.num_votes;
    if let Some(current) = &info.maintainer {
        match find_known(known, u.name.as_str()) {
            Some(m) => {
                let p = chars_of(known[m].1.as_str());
                let c = chars_of(current.as_str());
                if !chars_eq(p.as_slice(), c.as_slice()) {
                    u.previous_maintainer = Some(known[m].1.clone());
                }
                false
            },
            None => {
                let entry = (u.name.clone(), current.clone());
                known.push(entry);
                true
            },
        }
    } else {
        false
    }
}

/// Applies the AUR's information to the updates that it covers (see
/// [`enrich_one`]), updating the record of known maintainers; returns
/// whether a maintainer was recorded for the first time.
pub fn apply_aur_info(
    updates: &mut Vec<PackageUpdate>,
    infos: &Vec<(String, AurInfo)>,
    known: &mut Vec<(String, String)>,
) -> (changed: bool)
    ensures
        (final(updates)@, final(known)@, changed) == enrich_all(old(updates)@, infos@, old(known)@),
{
    let ghost orig = updates@;
    let ghost k0 = known@;
    let mut changed = false;
    let mut i: usize = 0;
    proof {
        assert(orig.take(0) =~= Seq::<PackageUpdate>::empty());
    }
    while i < updates.len()
        invariant
            updates@.len() == orig.len(),
            i <= orig.len(),
            updates@.take(i as int) == enrich_all(orig.take(i as int), infos@, k0).0,
            known@ == enrich_all(orig.take(i as int), infos@, k0).1,
            changed == enrich_all(orig.take(i as int), infos@, k0).2,
            forall|k: int| i <= k < orig.len() ==> updates@[k] == orig[k],
        decreases orig.len() - i,
    {
        proof {
            assert(orig.take(i + 1).drop_last() =~= orig.take(i as int));
            assert(orig.take(i + 1).last() == orig[i as int]);
        }
        let ghost before = updates@;
        let ghost kb = known@;
        match find_info(infos, updates[i].name.as_str()) {
            Some(j) => {
                let c = enrich_entry(&mut updates[i], &infos[j].1, known);
                if c {
                    changed = true;
                }
                proof {
                    assert(updates@.take(i + 1) =~= before.take(i as int).push(updates@[i as int]));
                }
            },
            None => {
                proof {
                    assert(updates@.take(i + 1) =~= before.take(i as int).push(orig[i as int]));
                }
            },
        }
        i += 1;
    }
    proof {
        assert(orig.take(i as int) =~= orig);
        assert(updates@.take(i as int) =~= updates@);
    }
    changed
}

// ---------------------------------------------------------------------
// Answers of the AUR's web interface
// ---------------------------------------------------------------------

/// The address of the AUR web search for `term`, or none when the term is
/// blank (nothing is searched then).
pub fn aur_search_request(term: &str) -> (r: Option<String>)
    ensures
        trim(term@).len() == 0 ==> r is None,
        trim(term@).len() != 0 ==> (r matches Some(u) && u@ == "https://aur.archlinux.org/rpc/v5/search/"@
            + percent_encoded(encode_utf8(term@))),
{
    let t = trim_str(term);
    if t.as_str().is_empty() {
        return None;
    }
    Some(aur_search_url(term))
}

/// An AUR search hit as a listed package: from the AUR, not selected, with
/// its name, version and description and nothing else.
pub open spec fn aur_hit_spec(name: Seq<char>, version: Seq<char>, description: Seq<char>, u: PackageUpdate) -> bool {
    &&& u.source == PackageSource::Aur
    &&& u.repository@ == source_label(PackageSource::Aur)
    &&& !u.selected
    &&& u.name@ == name
    &&& u.description@ == description
    &&& u.current_version@.len() == 0
    &&& u.new_version@ == version
    &&& u.size == 0
    &&& u.url is None
    &&& u.build_date is None
    &&& u.first_submitted is None
    &&& u.out_of_date is None
    &&& !u.orphaned
    &&& u.maintainer is None
    &&& u.previous_maintainer is None
    &&& u.num_votes is None
    &&& !u.is_repo_switch
    &&& u.security_severity is None
    &&& u.security_issues@.len() == 0
    &&& u.new_permissions@.len() == 0
    &&& u.extra_dependencies@.len() == 0
    &&& !u.pkgbuild_needs_review
    &&& u.flatpak_installation is None
    &&& u.aur_scan_findings@.len() == 0
    &&& u.appimage_path is None
}

pub fn aur_search_hit(name: String, version: String, description: String) -> (u: PackageUpdate)
    ensures
        aur_hit_spec(name@, version@, description@, u),
{
    PackageUpdate {
        source: PackageSource::Aur,
        repository: string_from(PackageSource::Aur.label()),
        selected: false,
        name,
        description,
        current_version: String::new(),
        new_version: version,
        size: 0,
        url: None,
        build_date: None,
        first_submitted: None,
        out_of_date: None,
        orphaned: false,
        maintainer: None,
        previous_maintainer: None,
        num_votes: None,
        is_repo_switch: false,
        security_severity: None,
        security_issues: Vec::new(),
        new_permissions: Vec::new(),
        extra_dependencies: Vec::new(),
        pkgbuild_needs_review: false,
        flatpak_installation: None,
        aur_scan_findings: Vec::new(),
        appimage_path: None,
    }
}

/// The version that the AUR reported for `name`, if it reported the
/// package and a version for it.
pub fn aur_version_of(infos: &Vec<(String, AurInfo)>, name: &str) -> (r: Option<String>)
    ensures
        match info_for(infos@, name@) {
            Some(info) => r == info.version,
            None => r is None,
        },
{
    match find_info(infos, name) {
        Some(j) => clone_opt(&infos[j].1.version),
        None => None,
    }
}
} // verus!
