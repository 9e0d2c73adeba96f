//! Labels of the resources that the operator manages.
use crate::text;
use vstd::prelude::*;

verus! {

/// The name of the application.
pub const APP_NAME: &'static str = "app.kubernetes.io/name";

/// The instance of the application.
pub const APP_INSTANCE: &'static str = "app.kubernetes.io/instance";

/// The tool that manages the resource.
pub const APP_MANAGED_BY: &'static str = "app.kubernetes.io/managed-by";

/// The operator as the tool that manages a resource.
pub const MANAGED_BY_VALUE: &'static str = "headmaster";

/// The Ingress that a resource serves.
pub const INGRESS_NAME: &'static str = "headmaster.potatonode.github.io/ingress-name";

/// The namespace of that Ingress.
pub const INGRESS_NAMESPACE: &'static str = "headmaster.potatonode.github.io/ingress-namespace";

/// Selects the resources that the operator manages.
pub fn managed_by_selector() -> (r: String)
    ensures
        r@ == APP_MANAGED_BY@ + "="@ + MANAGED_BY_VALUE@,
{
    text::cat3(APP_MANAGED_BY, "=", MANAGED_BY_VALUE)
}

} // verus!
