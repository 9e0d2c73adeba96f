//! The settings of the operator.
use crate::text;
use vstd::prelude::*;

verus! {

/// A setting does not have one of the values that it can have.
#[derive(Clone, Copy, Debug, PartialEq, Eq, Structural)]
pub struct InvalidSetting;

/// Whether the operator serves Ingresses, as a setting says: it does where there is
/// none.
pub fn ingress_enabled(setting: Option<&str>) -> (r: Result<bool, InvalidSetting>)
    ensures
        r == (match setting {
            Some(word) => if word@ == "true"@ {
                Ok(true)
            } else if word@ == "false"@ {
                Ok(false)
            } else {
                Err(InvalidSetting)
            },
            None => Ok(true),
        }),
{
    match setting {
        Some(word) => if text::same(word, "true") {
            Ok(true)
        } else if text::same(word, "false") {
            Ok(false)
        } else {
            Err(InvalidSetting)
        },
        None => Ok(true),
    }
}

/// Whether the operator takes the Ingresses that name no deployment, as a setting
/// says: by force, not at all, or, where there is no setting, if nobody else does.
pub fn claim_default(setting: Option<&str>) -> (r: Result<Option<bool>, InvalidSetting>)
    ensures
        r == (match setting {
            Some(word) => if word@ == "force"@ {
                Ok(Some(true))
            } else if word@ == "false"@ {
                Ok(Some(false))
            } else {
                Err(InvalidSetting)
            },
            None => Ok(None),
        }),
{
    match setting {
        Some(word) => if text::same(word, "force") {
            Ok(Some(true))
        } else if text::same(word, "false") {
            Ok(Some(false))
        } else {
            Err(InvalidSetting)
        },
        None => Ok(None),
    }
}

} // verus!
