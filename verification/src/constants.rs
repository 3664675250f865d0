use vstd::prelude::*;

use crate::clock::unix_now;
use crate::text::str_eq;

verus! {

/// The names under which this application itself is packaged.
pub open spec fn own_package_names() -> Seq<Seq<char>> {
    seq!["arch-install-manager"@, "arch-install-manager-bin"@, "arch-install-manager-git"@]
}

/// Whether `name` is one of this application's own package names.
pub fn is_own_package(name: &str) -> (r: bool)
    ensures
        r == own_package_names().contains(name@),
{
    let a = "arch-install-manager";
    let b = "arch-install-manager-bin";
    let c = "arch-install-manager-git";
    let r = str_eq(name, a) || str_eq(name, b) || str_eq(name, c);
    proof {
        assert(own_package_names()[0] == a@);
        assert(own_package_names()[1] == b@);
        assert(own_package_names()[2] == c@);
        if own_package_names().contains(name@) {
            let i = choose|i: int| 0 <= i < 3 && own_package_names()[i] == name@;
        }
    }
    r
}

/// The comment and description given to snapshots taken before changes.
pub const TIMESHIFT_COMMENT: &'static str = "arch-install-manager";

/// The application's identifier on the desktop.
pub const APP_ID: &'static str = "com.destbg.arch-install-manager";

/// A package first submitted less than a week before `now` (and not in the
/// future) counts as new.
pub open spec fn recently_created_at(first_submitted: Option<i64>, now: i64) -> bool {
    match first_submitted {
        Some(ts) => 0 <= now - ts && now - ts < 604800,
        None => false,
    }
}

pub fn is_recently_created_at(first_submitted: Option<i64>, now: i64) -> (r: bool)
    ensures
        r == recently_created_at(first_submitted, now),
{
    match first_submitted {
        Some(ts) => {
            let diff: i128 = (now as i128) - (ts as i128);
            diff >= 0 && diff < 604800
        },
        None => false,
    }
}

/// Whether a package counts as new by the clock now.
pub fn is_recently_created(first_submitted: Option<i64>) -> (r: bool)
    ensures
        exists|now: i64| r == recently_created_at(first_submitted, now),
        r ==> first_submitted is Some,
{
    let now = unix_now();
    is_recently_created_at(first_submitted, now)
}

} // verus!
