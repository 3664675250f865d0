use vstd::prelude::*;

verus! {

/// Where a search looks for packages.
#[derive(Debug, Clone, Copy)]
pub struct SearchSources {
    pub official: bool,
    pub aur: bool,
    pub flatpak: bool,
}

} // verus!
