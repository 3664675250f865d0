use vstd::prelude::*;

verus! {

/// One file of a package's build recipe, as shown for review.
pub struct ReviewFile {
    pub name: String,
    pub content: String,
}

} // verus!
