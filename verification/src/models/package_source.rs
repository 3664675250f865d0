use vstd::prelude::*;

verus! {

/// Where a package comes from.
#[derive(Debug, Clone, Copy, PartialEq, Eq, Structural)]
pub enum PackageSource {
    Official,
    Aur,
    Flatpak,
    AppImage,
}

pub open spec fn source_label(s: PackageSource) -> Seq<char> {
    match s {
        PackageSource::Official => "Official"@,
        PackageSource::Aur => "AUR"@,
        PackageSource::Flatpak => "Flatpak"@,
        PackageSource::AppImage => "AppImage"@,
    }
}

impl PackageSource {
    /// The name under which this source is shown.
    pub fn label(&self) -> (r: &'static str)
        ensures
            r@ == source_label(*self),
    {
        match self {
            PackageSource::Official => "Official",
            PackageSource::Aur => "AUR",
            PackageSource::Flatpak => "Flatpak",
            PackageSource::AppImage => "AppImage",
        }
    }
}

} // verus!
