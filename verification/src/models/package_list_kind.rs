use vstd::prelude::*;

verus! {

#[derive(Debug, Clone, Copy, PartialEq, Eq, Structural)]
pub enum PackageListKind {
    Install,
    Update,
    Manage,
}

impl PackageListKind {
    /// Lists of this kind show packages that are installed already.
    pub fn is_installed(&self) -> (r: bool)
        ensures
            r == (*self is Update || *self is Manage),
    {
        match self {
            PackageListKind::Update | PackageListKind::Manage => true,
            PackageListKind::Install => false,
        }
    }
}

} // verus!
