use vstd::prelude::*;

use crate::models::aur_build::AurBuild;

verus! {

/// The AUR packages to build, in build order, and the repository packages
/// that they need.
pub struct AurPlan {
    pub builds: Vec<AurBuild>,
    pub repo_deps: Vec<String>,
}

impl AurPlan {
    pub fn new() -> (p: AurPlan)
        ensures
            p.builds@.len() == 0,
            p.repo_deps@.len() == 0,
    {
        AurPlan { builds: Vec::new(), repo_deps: Vec::new() }
    }
}

} // verus!
