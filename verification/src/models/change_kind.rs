use vstd::prelude::*;

verus! {

/// The kind of change that a user starts from the interface.
#[derive(Clone, Copy, PartialEq, Eq, Structural)]
pub enum ChangeKind {
    Update,
    Install,
    Remove,
}

} // verus!
