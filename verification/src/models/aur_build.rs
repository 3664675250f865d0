use vstd::prelude::*;

verus! {

/// One AUR package that is to be built, with the directory of its clone.
pub struct AurBuild {
    pub name: String,
    pub dir: String,
    pub explicit: bool,
    pub fresh: bool,
    pub prev_commit: Option<String>,
}

} // verus!
