use vstd::prelude::*;

use crate::models::op::Op;

verus! {

/// A request to the privileged helper.
#[derive(Debug, Clone)]
pub struct Request {
    pub op: Op,
    pub with_tty: bool,
}

} // verus!
