//! Acting on behalf of the user who started the application.
use vstd::prelude::*;

use crate::text::{chars_of, chars_start_with, starts_with};

verus! {

/// The user on whose behalf an elevated run acts; runs are never elevated
/// here, so there is none.
pub fn get_original_user() -> (r: Option<String>)
    ensures
        r is None,
{
    None
}

/// Gives a file back to the original user; with no elevated run there is
/// nothing to do.
pub fn chown_to_user(_path: &str) {
}

/// The address schemes that may be handed to the desktop to open.
pub open spec fn safe_url(url: Seq<char>) -> bool {
    starts_with(url, "http://"@) || starts_with(url, "https://"@) || starts_with(
        url,
        "appstream://"@,
    )
}

pub fn is_safe_url(url: &str) -> (r: bool)
    ensures
        r == safe_url(url@),
{
    let u = chars_of(url);
    let a = chars_of("http://");
    let b = chars_of("https://");
    let c = chars_of("appstream://");
    chars_start_with(u.as_slice(), a.as_slice()) || chars_start_with(u.as_slice(), b.as_slice())
        || chars_start_with(u.as_slice(), c.as_slice())
}

} // verus!
