//! The IngressClass of the operator, and which deployment is the default one.
use crate::controllers::ingress::reconcile::{CONTROLLER_NAME, INGRESS_CLASS_NAME};
use crate::json;
use crate::json::{Fields, Json};
use crate::text;
use vstd::prelude::*;

verus! {

/// What came of writing the claim to be the default deployment.
pub enum ClaimOutcome<E> {
    Done,
    /// Another deployment holds the claim.
    Conflict(E),
    Failed(E),
}

/// What follows once the class is there: write the claim, by force or not, or
/// leave it alone.
pub open spec fn claim_by_force(claim: Option<bool>) -> Option<bool> {
    match claim {
        None => Some(false),
        Some(true) => Some(true),
        Some(false) => None,
    }
}

/// Says whether to write the claim to be the default deployment, and whether by
/// force. Without a setting the claim is tried for; with `true` it is taken; with
/// `false` it is left alone.
pub fn ensure_ingress_class(claim: Option<bool>) -> (r: Option<bool>)
    ensures
        r == claim_by_force(claim),
{
    match claim {
        None => Some(false),
        Some(force) => if force {
            Some(true)
        } else {
            None
        },
    }
}

/// Says whether this deployment is the default one after it wrote the claim. A
/// claim that was only tried for may be held by another deployment.
pub fn holds_claim<E>(force: bool, outcome: ClaimOutcome<E>) -> (r: Result<bool, E>)
    ensures
        match outcome {
            ClaimOutcome::Done => r == Ok::<bool, E>(true),
            ClaimOutcome::Conflict(e) => if force {
                r == Err::<bool, E>(e)
            } else {
                r == Ok::<bool, E>(false)
            },
            ClaimOutcome::Failed(e) => r == Err::<bool, E>(e),
        },
{
    match outcome {
        ClaimOutcome::Done => Ok(true),
        ClaimOutcome::Conflict(e) => if force {
            Err(e)
        } else {
            Ok(false)
        },
        ClaimOutcome::Failed(e) => Err(e),
    }
}

/// The field manager under which the claim is written.
pub fn claim_manager(operator_namespace: &str) -> (r: String)
    ensures
        r@ == "headmaster-"@ + operator_namespace@ + "-claim-default"@,
{
    let manager: String = crate::field_manager(operator_namespace);
    text::cat2(manager.as_str(), "-claim-default")
}

/// The IngressClass itself.
pub fn class_manifest() -> (r: serde_json::Value)
    ensures
        json::json(r) == json::object(
            Seq::empty().push(("apiVersion"@, Json::Text("networking.k8s.io/v1"@))).push(
                ("kind"@, Json::Text("IngressClass"@)),
            ).push(
                (
                    "metadata"@,
                    json::object(
                        Seq::empty().push(("name"@, Json::Text(INGRESS_CLASS_NAME@))),
                    ),
                ),
            ).push(
                (
                    "spec"@,
                    json::object(
                        Seq::empty().push(("controller"@, Json::Text(CONTROLLER_NAME@))),
                    ),
                ),
            ),
        ),
{
    Fields::new().with_text("apiVersion", "networking.k8s.io/v1").with_text(
        "kind",
        "IngressClass",
    ).with("metadata", Fields::new().with_text("name", INGRESS_CLASS_NAME).done()).with(
        "spec",
        Fields::new().with_text("controller", CONTROLLER_NAME).done(),
    ).done()
}

/// The claim of the deployment in a namespace to be the default one.
pub fn claim_annotation_manifest(operator_namespace: &str) -> (r: serde_json::Value)
    ensures
        json::json(r) == json::object(
            Seq::empty().push(("apiVersion"@, Json::Text("networking.k8s.io/v1"@))).push(
                ("kind"@, Json::Text("IngressClass"@)),
            ).push(
                (
                    "metadata"@,
                    json::object(
                        Seq::empty().push(("name"@, Json::Text(INGRESS_CLASS_NAME@))).push(
                            (
                                "annotations"@,
                                json::object(
                                    Seq::empty().push(
                                        (
                                            crate::ANNOTATION_DEFAULT_NAMESPACE@,
                                            Json::Text(operator_namespace@),
                                        ),
                                    ),
                                ),
                            ),
                        ),
                    ),
                ),
            ),
        ),
{
    let annotations: serde_json::Value = Fields::new().with_text(
        crate::ANNOTATION_DEFAULT_NAMESPACE,
        operator_namespace,
    ).done();
    let metadata: serde_json::Value = Fields::new().with_text("name", INGRESS_CLASS_NAME).with(
        "annotations",
        annotations,
    ).done();
    Fields::new().with_text("apiVersion", "networking.k8s.io/v1").with_text(
        "kind",
        "IngressClass",
    ).with("metadata", metadata).done()
}

// Laws.

/// Without a setting the claim is tried for, with `true` it is taken, and with `false` it is
/// left alone.
pub proof fn claims_follow_the_setting()
    ensures
        claim_by_force(None) == Some(false),
        claim_by_force(Some(true)) == Some(true),
        claim_by_force(Some(false)) is None,
{
}

} // verus!
