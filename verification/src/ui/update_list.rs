//! Preparing the list of available updates for the Update tab: which
//! updates are shown, in what order, and which start unchecked.
use vstd::prelude::*;

use crate::models::package_source::PackageSource;
use crate::models::package_update::PackageUpdate;
use crate::ordering::{
    apply_order, is_permutation, key_views, sort_order, stable_before, stably_sorted, KeyView, SortKey,
};
use crate::text::str_eq;

verus! {

/// Whether `v` holds `s`.
fn holds(v: &Vec<String>, s: &str) -> (r: bool)
    ensures
        r == v.deep_view().contains(s@),
{
    let mut i: usize = 0;
    while i < v.len()
        invariant
            i <= v@.len(),
            forall|j: int| 0 <= j < i ==> v.deep_view()[j] != s@,
        decreases v@.len() - i,
    {
        if str_eq(v[i].as_str(), s) {
            assert(v.deep_view()[i as int] == s@);
            return true;
        }
        i += 1;
    }
    false
}

/// The filters of the Update tab: what the user blacklisted, and how old
/// an update must be before it is offered.
pub struct ListFilters {
    pub blacklist: Vec<String>,
    pub min_age_days: u32,
    pub min_age_aur_only: bool,
    pub favorites: Vec<String>,
    pub favorites_enabled: bool,
    pub unselected: Vec<String>,
}

/// An update is offered unless its package is blacklisted or it is too
/// new: with a minimum age set, an update built after `now` minus that many
/// days is held back, unless the age applies to AUR packages only and this
/// one is not from the AUR, or its build date is unknown.
pub open spec fn offered(p: PackageUpdate, blacklist: Seq<Seq<char>>, min_age_days: u32, aur_only: bool, now: i64) -> bool {
    &&& !blacklist.contains(p.name@)
    &&& (min_age_days == 0 || (aur_only && p.source != PackageSource::Aur) || match p.build_date {
        Some(ts) => ts <= now - min_age_days * 86400,
        None => true,
    })
}

/// The update as first shown: unchecked when the user unchecked it before.
pub open spec fn as_shown(p: PackageUpdate, unselected: Seq<Seq<char>>) -> PackageUpdate {
    if unselected.contains(p.name@) {
        PackageUpdate { selected: false, ..p }
    } else {
        p
    }
}

/// The offered updates, in their first order.
pub open spec fn offered_updates(
    ps: Seq<PackageUpdate>,
    blacklist: Seq<Seq<char>>,
    min_age_days: u32,
    aur_only: bool,
    now: i64,
) -> Seq<PackageUpdate>
    decreases ps.len(),
{
    if ps.len() == 0 {
        seq![]
    } else {
        let rest = offered_updates(ps.drop_last(), blacklist, min_age_days, aur_only, now);
        if offered(ps.last(), blacklist, min_age_days, aur_only, now) {
            rest.push(ps.last())
        } else {
            rest
        }
    }
}

/// Favorites come first, then AUR packages, then the rest.
pub open spec fn list_key(p: PackageUpdate, favorites: Seq<Seq<char>>, favorites_enabled: bool) -> KeyView {
    KeyView {
        a: if favorites_enabled && favorites.contains(p.name@) { 0 } else { 1 },
        b: if p.source == PackageSource::Aur { 0 } else { 1 },
        c: 0,
        name: seq![],
    }
}

pub open spec fn list_keys(ps: Seq<PackageUpdate>, favorites: Seq<Seq<char>>, favorites_enabled: bool) -> Seq<KeyView> {
    ps.map_values(|p: PackageUpdate| list_key(p, favorites, favorites_enabled))
}

/// The offered updates (see [`offered`]) sorted stably, favorites first and
/// then AUR packages, each unchecked when the user unchecked it before.
pub fn prepare_update_list(packages: Vec<PackageUpdate>, f: &ListFilters, now: i64) -> (r: Vec<
    PackageUpdate,
>)
    ensures
        ({
            let kept = offered_updates(
                packages@,
                f.blacklist.deep_view(),
                f.min_age_days,
                f.min_age_aur_only,
                now,
            );
            &&& r@.len() == kept.len()
            &&& exists|p: Seq<usize>|
                {
                    &&& is_permutation(p, kept.len())
                    &&& stably_sorted(p, list_keys(kept, f.favorites.deep_view(), f.favorites_enabled))
                    &&& forall|k: int|
                        0 <= k < r@.len() ==> #[trigger] r@[k] == as_shown(
                            kept[p[k] as int],
                            f.unselected.deep_view(),
                        )
                }
        }),
{
    let ghost bl = f.blacklist.deep_view();
    let ghost un = f.unselected.deep_view();
    let ghost fav = f.favorites.deep_view();
    let ghost ps = packages@;
    let ghost kept = offered_updates(ps, bl, f.min_age_days, f.min_age_aur_only, now);
    let cutoff: i128 = (now as i128) - (f.min_age_days as i128) * 86400;
    let mut pending = packages;
    let mut rest: Vec<PackageUpdate> = Vec::new();
    while pending.len() > 0
        invariant
            ps == pending@ + rest@.reverse(),
        decreases pending@.len(),
    {
        let e = pending.pop().unwrap();
        let ghost before = rest@;
        rest.push(e);
        proof {
            assert(rest@.reverse() =~= seq![e] + before.reverse());
        }
    }
    proof {
        assert(ps =~= rest@.reverse());
    }
    let mut shown: Vec<PackageUpdate> = Vec::new();
    let mut keys: Vec<SortKey> = Vec::new();
    let ghost mut i: int = 0;
    while rest.len() > 0
        invariant
            0 <= i <= ps.len(),
            i + rest@.len() == ps.len(),
            ps == ps.take(i) + rest@.reverse(),
            cutoff == now - f.min_age_days * 86400,
            bl == f.blacklist.deep_view(),
            un == f.unselected.deep_view(),
            fav == f.favorites.deep_view(),
            shown@.len() == offered_updates(ps.take(i), bl, f.min_age_days, f.min_age_aur_only, now).len(),
            keys@.len() == shown@.len(),
            forall|k: int|
                0 <= k < shown@.len() ==> #[trigger] shown@[k] == as_shown(
                    offered_updates(ps.take(i), bl, f.min_age_days, f.min_age_aur_only, now)[k],
                    un,
                ),
            forall|k: int|
                0 <= k < keys@.len() ==> (#[trigger] keys@[k])@ == list_key(
                    offered_updates(ps.take(i), bl, f.min_age_days, f.min_age_aur_only, now)[k],
                    fav,
                    f.favorites_enabled,
                ),
        decreases rest@.len(),
    {
        let e = rest.pop().unwrap();
        let ghost prev = offered_updates(ps.take(i), bl, f.min_age_days, f.min_age_aur_only, now);
        proof {
            assert(ps[i] == e);
            assert(ps.take(i + 1).drop_last() =~= ps.take(i));
            assert(ps.take(i + 1).last() == e);
        }
        let blocked = holds(&f.blacklist, e.name.as_str());
        let young = match e.build_date {
            Some(ts) => (ts as i128) > cutoff,
            None => false,
        };
        let exempt = f.min_age_aur_only && e.source != PackageSource::Aur;
        let keep = !blocked && (f.min_age_days == 0 || exempt || !young);
        proof {
            assert(keep == offered(e, bl, f.min_age_days, f.min_age_aur_only, now));
        }
        if keep {
            let fav_hit = f.favorites_enabled && holds(&f.favorites, e.name.as_str());
            let a: u8 = if fav_hit { 0 } else { 1 };
            let b: u8 = if e.source == PackageSource::Aur { 0 } else { 1 };
            keys.push(SortKey { a, b, c: 0, name: Vec::new() });
            let mut x = e;
            if holds(&f.unselected, x.name.as_str()) {
                x.selected = false;
            }
            let ghost s0 = shown@;
            shown.push(x);
            proof {
                assert(offered_updates(ps.take(i + 1), bl, f.min_age_days, f.min_age_aur_only, now)
                    == prev.push(e));
                assert forall|k: int| 0 <= k < shown@.len() implies #[trigger] shown@[k] == as_shown(
                    prev.push(e)[k],
                    un,
                ) by {
                    if k < s0.len() {
                        assert(shown@[k] == s0[k]);
                    }
                }
            }
        }
        proof {
            i = i + 1;
            assert(ps.take(i) + rest@.reverse() =~= ps);
        }
    }
    proof {
        assert(ps.take(i) =~= ps);
        assert(key_views(keys@) =~= list_keys(kept, fav, f.favorites_enabled));
    }
    let order = sort_order(&keys);
    let ghost sh = shown@;
    let r = apply_order(shown, &order);
    proof {
        assert forall|k: int| 0 <= k < r@.len() implies #[trigger] r@[k] == as_shown(
            kept[order@[k] as int],
            un,
        ) by {
            assert(r@[k] == sh[order@[k] as int]);
        }
    }
    r
}

/// Every update in the list was offered: it is one of the updates found,
/// its package is not blacklisted, and it is old enough.
pub proof fn lemma_shown_updates_are_offered(
    ps: Seq<PackageUpdate>,
    blacklist: Seq<Seq<char>>,
    min_age_days: u32,
    aur_only: bool,
    now: i64,
)
    ensures
        forall|k: int|
            0 <= k < offered_updates(ps, blacklist, min_age_days, aur_only, now).len() ==> {
                let u = #[trigger] offered_updates(ps, blacklist, min_age_days, aur_only, now)[k];
                &&& ps.contains(u)
                &&& !blacklist.contains(u.name@)
                &&& offered(u, blacklist, min_age_days, aur_only, now)
            },
    decreases ps.len(),
{
    if ps.len() > 0 {
        lemma_shown_updates_are_offered(ps.drop_last(), blacklist, min_age_days, aur_only, now);
        let rest = offered_updates(ps.drop_last(), blacklist, min_age_days, aur_only, now);
        assert forall|k: int| 0 <= k < rest.len() implies ps.contains(#[trigger] rest[k]) by {
            let j = choose|j: int| 0 <= j < ps.drop_last().len() && ps.drop_last()[j] == rest[k];
            assert(ps[j] == rest[k]);
        }
        assert(ps[ps.len() - 1] == ps.last());
    }
}

/// In a list ordered by [`list_key`], no favorite comes after a package
/// that is not one, and among favorites (and among the others) no AUR
/// package comes after one that is not from the AUR.
pub proof fn lemma_favorites_come_first(
    kept: Seq<PackageUpdate>,
    p: Seq<usize>,
    favorites: Seq<Seq<char>>,
    favorites_enabled: bool,
)
    requires
        is_permutation(p, kept.len()),
        stably_sorted(p, list_keys(kept, favorites, favorites_enabled)),
    ensures
        forall|k: int, l: int|
            0 <= k < l < p.len() ==> {
                let x = #[trigger] kept[p[k] as int];
                let y = #[trigger] kept[p[l] as int];
                let fx = favorites_enabled && favorites.contains(x.name@);
                let fy = favorites_enabled && favorites.contains(y.name@);
                &&& fy ==> fx
                &&& fx == fy && y.source == PackageSource::Aur ==> x.source == PackageSource::Aur
            },
{
    assert forall|k: int, l: int| 0 <= k < l < p.len() implies {
        let x = #[trigger] kept[p[k] as int];
        let y = #[trigger] kept[p[l] as int];
        let fx = favorites_enabled && favorites.contains(x.name@);
        let fy = favorites_enabled && favorites.contains(y.name@);
        &&& fy ==> fx
        &&& fx == fy && y.source == PackageSource::Aur ==> x.source == PackageSource::Aur
    } by {
        let keys = list_keys(kept, favorites, favorites_enabled);
        assert(keys[p[k] as int] == list_key(kept[p[k] as int], favorites, favorites_enabled));
        assert(keys[p[l] as int] == list_key(kept[p[l] as int], favorites, favorites_enabled));
        assert(stable_before(keys[p[k] as int], p[k], keys[p[l] as int], p[l]));
    }
}

} // verus!
