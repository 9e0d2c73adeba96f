//! The bearer token of the service.
use crate::scim::types;
use crate::scim::types::ScimError;
use crate::text;
use vstd::prelude::*;

verus! {

/// Lets a request pass whose `Authorization` header carries the bearer token.
pub fn require_bearer(authorization: Option<&str>, scim_token: &str) -> (r: Result<(), ScimError>)
    ensures
        if authorization matches Some(header) && header@ == "Bearer "@ + scim_token@ {
            r is Ok
        } else {
            r matches Err(e) && e.deep_view() == types::unauthorized()
        },
{
    match authorization {
        Some(header) => {
            let expected: String = text::cat2("Bearer ", scim_token);
            if text::same(header, expected.as_str()) {
                Ok(())
            } else {
                Err(ScimError::unauthorized())
            }
        },
        None => Err(ScimError::unauthorized()),
    }
}

} // verus!
