//! Endpoints for the operator.
use vstd::prelude::*;

verus! {

/// The status of the answer when the policy was written anew.
pub fn reconcile() -> (r: u16)
    ensures
        r == 204,
{
    204
}

} // verus!
