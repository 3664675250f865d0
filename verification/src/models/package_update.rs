use vstd::prelude::*;

use crate::models::package_source::PackageSource;

verus! {

/// A package as listed for install, update or removal.
#[derive(Debug, Clone)]
pub struct PackageUpdate {
    pub source: PackageSource,
    pub repository: String,
    pub selected: bool,
    pub name: String,
    pub description: String,
    pub current_version: String,
    pub new_version: String,
    pub size: i64,
    pub url: Option<String>,
    pub build_date: Option<i64>,
    pub first_submitted: Option<i64>,
    pub out_of_date: Option<i64>,
    pub orphaned: bool,
    pub maintainer: Option<String>,
    pub previous_maintainer: Option<String>,
    pub num_votes: Option<i64>,
    pub is_repo_switch: bool,
    pub security_severity: Option<String>,
    pub security_issues: Vec<String>,
    pub new_permissions: Vec<String>,
    pub extra_dependencies: Vec<String>,
    pub pkgbuild_needs_review: bool,
    /// What the AUR scan found in the package's build recipe, grouped by
    /// severity, most severe first: each severity with its number of
    /// findings.
    pub aur_scan_findings: Vec<(String, u64)>,
    pub flatpak_installation: Option<String>,
    pub appimage_path: Option<String>,
}

impl PackageUpdate {
    /// The AUR maintainer differs from the one recorded on an earlier check.
    pub open spec fn spec_maintainer_changed(&self) -> bool {
        self.previous_maintainer is Some
    }

    /// The most severe group of AUR scan findings, if the scan found any.
    pub open spec fn spec_aur_scan_summary(&self) -> Option<(String, u64)> {
        if self.aur_scan_findings@.len() == 0 {
            None
        } else {
            Some(self.aur_scan_findings@[0])
        }
    }

    pub fn aur_scan_summary(&self) -> (r: Option<(String, u64)>)
        ensures
            r matches Some(x) ==> self.spec_aur_scan_summary() matches Some(y) && x.0@ == y.0@ && x.1 == y.1,
            r is None <==> self.spec_aur_scan_summary() is None,
    {
        if self.aur_scan_findings.len() == 0 {
            None
        } else {
            let (sev, count) = &self.aur_scan_findings[0];
            Some((sev.clone(), *count))
        }
    }

    pub fn maintainer_changed(&self) -> (r: bool)
        ensures
            r == self.spec_maintainer_changed(),
    {
        self.previous_maintainer.is_some()
    }
}

} // verus!
