use vstd::prelude::*;

use crate::models::review_file::ReviewFile;

verus! {

/// What is shown to the user before an AUR package is built.
pub struct PkgbuildReview {
    pub package: String,
    pub diff: Option<String>,
    pub needs_review: bool,
    pub files: Vec<ReviewFile>,
}

} // verus!
