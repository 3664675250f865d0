//! The clock and the local time zone, from chrono.
use vstd::prelude::*;

verus! {

/// `chrono::Utc::now().timestamp()`: the current Unix time in seconds.
/// Nothing is stated of the result: it comes from the system clock.
#[verifier::external_body]
pub(crate) fn unix_now() -> i64 {
    chrono::Utc::now().timestamp()
}

/// `chrono::Local.timestamp_opt(timestamp, 0)`, formatted with
/// `%Y-%m-%d`: the local calendar date of the Unix time `timestamp`, or an
/// empty string where the local time zone maps it to no single time.
/// Nothing is stated of the result: it depends on the machine's time zone.
#[verifier::external_body]
pub(crate) fn local_date(timestamp: i64) -> String {
    match chrono::TimeZone::timestamp_opt(&chrono::Local, timestamp, 0) {
        chrono::LocalResult::Single(t) => t.format("%Y-%m-%d").to_string(),
        chrono::LocalResult::Ambiguous(_, _) => String::new(),
        chrono::LocalResult::None => String::new(),
    }
}

} // verus!
