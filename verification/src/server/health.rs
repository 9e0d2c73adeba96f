//! The health endpoints.
use vstd::prelude::*;

verus! {

/// The status of the liveness endpoint: always well.
pub fn healthz() -> (r: u16)
    ensures
        r == 200,
{
    200
}

/// The status of the readiness endpoint.
pub fn readyz(ready: bool) -> (r: u16)
    ensures
        r == (if ready {
            200u16
        } else {
            503u16
        }),
{
    if ready {
        200
    } else {
        503
    }
}

} // verus!
