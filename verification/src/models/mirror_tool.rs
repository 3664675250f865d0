use vstd::prelude::*;

verus! {

/// The program that ranks mirrors and rewrites the mirror list.
#[derive(Debug, Clone, Copy, PartialEq, Eq, Structural)]
pub enum MirrorTool {
    RateMirrors,
    Reflector,
}

} // verus!
