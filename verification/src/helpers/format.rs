//! Wording of counts and ages.
use vstd::prelude::*;

use crate::clock::{local_date, unix_now};
use crate::text::{decimal, fmt_u64, push_str, string_from};

verus! {

pub open spec fn plural_suffix(n: int) -> Seq<char> {
    if n == 1 {
        ""@
    } else {
        "s"@
    }
}

/// The plural ending for a count of `n`: nothing for one, `s` otherwise.
pub fn plural(n: i64) -> (r: &'static str)
    ensures
        r@ == plural_suffix(n as int),
{
    if n == 1 {
        ""
    } else {
        "s"
    }
}

pub open spec fn hour_secs() -> int {
    3600
}

pub open spec fn day_secs() -> int {
    86400
}

pub open spec fn week_secs() -> int {
    604800
}

pub open spec fn count_ago(n: int, unit: Seq<char>) -> Seq<char> {
    decimal(n as nat) + " "@ + unit + plural_suffix(n) + " ago"@
}

/// How long ago `timestamp` was at `now`: "just now", minutes, hours or
/// days ago within the last week, else the given absolute date (also for
/// times in the future).
pub open spec fn age_text(timestamp: int, now: int, absolute: Seq<char>) -> Seq<char> {
    let diff = now - timestamp;
    if diff < 0 || diff >= week_secs() {
        absolute
    } else if diff < hour_secs() {
        if diff / 60 < 1 {
            "just now"@
        } else {
            count_ago(diff / 60, "minute"@)
        }
    } else if diff < day_secs() {
        count_ago(diff / hour_secs(), "hour"@)
    } else {
        count_ago(diff / day_secs(), "day"@)
    }
}

/// Law: how an age reads. With `d` the seconds from `timestamp` to `now`:
/// the given date when `d` is negative or a week or more; "just now" under a
/// minute; else the whole minutes (under an hour), hours (under a day) or
/// days, at least one and in the singular for exactly one, then " ago".
pub proof fn lemma_age_wording(timestamp: int, now: int, absolute: Seq<char>)
    ensures
        ({
            let d = now - timestamp;
            let t = age_text(timestamp, now, absolute);
            &&& (d < 0 || d >= 604800) ==> t == absolute
            &&& 0 <= d < 60 ==> t == "just now"@
            &&& 60 <= d < 3600 ==> 1 <= d / 60 < 60 && t == decimal((d / 60) as nat) + (if d / 60 == 1 {
                " minute ago"@
            } else {
                " minutes ago"@
            })
            &&& 3600 <= d < 86400 ==> 1 <= d / 3600 < 24 && t == decimal((d / 3600) as nat) + (if d
                / 3600 == 1 {
                " hour ago"@
            } else {
                " hours ago"@
            })
            &&& 86400 <= d < 604800 ==> 1 <= d / 86400 < 7 && t == decimal((d / 86400) as nat) + (if d
                / 86400 == 1 {
                " day ago"@
            } else {
                " days ago"@
            })
        }),
{
    reveal_strlit("just now");
    reveal_strlit(" ");
    reveal_strlit(" ago");
    reveal_strlit("s");
    reveal_strlit("");
    reveal_strlit("minute");
    reveal_strlit("hour");
    reveal_strlit("day");
    reveal_strlit(" minute ago");
    reveal_strlit(" minutes ago");
    reveal_strlit(" hour ago");
    reveal_strlit(" hours ago");
    reveal_strlit(" day ago");
    reveal_strlit(" days ago");
    let d = now - timestamp;
    let t = age_text(timestamp, now, absolute);
    if 60 <= d < 3600 {
        let n = d / 60;
        assert(decimal(n as nat) + " "@ + "minute"@ + plural_suffix(n) + " ago"@ =~= decimal(n as nat) + (
        if n == 1 {
            " minute ago"@
        } else {
            " minutes ago"@
        }));
    }
    if 3600 <= d < 86400 {
        let n = d / 3600;
        assert(decimal(n as nat) + " "@ + "hour"@ + plural_suffix(n) + " ago"@ =~= decimal(n as nat) + (
        if n == 1 {
            " hour ago"@
        } else {
            " hours ago"@
        }));
    }
    if 86400 <= d < 604800 {
        let n = d / 86400;
        assert(decimal(n as nat) + " "@ + "day"@ + plural_suffix(n) + " ago"@ =~= decimal(n as nat) + (
        if n == 1 {
            " day ago"@
        } else {
            " days ago"@
        }));
    }
}

fn count_text(n: i64, unit: &str) -> (r: String)
    requires
        n >= 0,
    ensures
        r@ == count_ago(n as int, unit@),
{
    let mut s = fmt_u64(n as u64);
    push_str(&mut s, " ");
    push_str(&mut s, unit);
    push_str(&mut s, plural(n));
    push_str(&mut s, " ago");
    s
}

/// Describes `timestamp` relative to `now`; `absolute` is the date shown
/// when it lies more than a week back or in the future.
pub fn describe_age(timestamp: i64, now: i64, absolute: String) -> (r: String)
    ensures
        r@ == age_text(timestamp as int, now as int, absolute@),
{
    let diff: i128 = (now as i128) - (timestamp as i128);
    if diff < 0 || diff >= 604800 {
        return absolute;
    }
    let d = diff as i64;
    if d < 3600 {
        let minutes = d / 60;
        if minutes < 1 {
            return string_from("just now");
        }
        return count_text(minutes, "minute");
    }
    if d < 86400 {
        return count_text(d / 3600, "hour");
    }
    count_text(d / 86400, "day")
}

/// When a package was built, as shown in lists: relative within the last
/// week (by the clock), else the local date.
pub fn format_build_date(timestamp: i64) -> (r: String)
    ensures
        exists|now: i64, absolute: Seq<char>| r@ == age_text(timestamp as int, now as int, absolute),
{
    let now = unix_now();
    let absolute = local_date(timestamp);
    let r = describe_age(timestamp, now, absolute);
    r
}

} // verus!
