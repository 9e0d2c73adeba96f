use vstd::prelude::*;

pub mod controllers;
pub mod digest;
pub mod json;
pub mod labels;
pub mod policy_document;
pub mod scim;
pub mod server;
pub mod settings;
pub mod table;
pub mod text;
pub mod time;
pub mod tools;
pub mod types;

verus! {

/// The API group of the operator's resources.
pub const GROUP: &'static str = "headmaster.potatonode.github.io";

/// The annotation that names the deployment which manages an Ingress.
pub const ANNOTATION_CLAIMED_BY: &'static str = "headmaster.potatonode.github.io/claimed-by";

/// The annotation that names the default deployment.
pub const ANNOTATION_DEFAULT_NAMESPACE: &'static str =
    "headmaster.potatonode.github.io/default-namespace";

/// The finalizer of the deployment in a namespace.
pub open spec fn finalizer_of(operator_namespace: Seq<char>) -> Seq<char> {
    "headmaster.potatonode.github.io/cleanup-"@ + operator_namespace
}

/// The finalizer of the deployment in a namespace.
pub fn finalizer(operator_ns: &str) -> (r: String)
    ensures
        r@ == finalizer_of(operator_ns@),
{
    text::cat2("headmaster.potatonode.github.io/cleanup-", operator_ns)
}

/// The field manager of the deployment in a namespace.
pub fn field_manager(operator_ns: &str) -> (r: String)
    ensures
        r@ == "headmaster-"@ + operator_ns@,
{
    text::cat2("headmaster-", operator_ns)
}

/// The names that the operator goes by: its annotations, and the finalizer of a deployment,
/// which is another one for every namespace.
pub proof fn deployments_have_their_own_finalizers(here: Seq<char>, there: Seq<char>)
    ensures
        finalizer_of(here) == "headmaster.potatonode.github.io/cleanup-"@ + here,
        here != there ==> finalizer_of(here) != finalizer_of(there),
        GROUP@ == "headmaster.potatonode.github.io"@,
        ANNOTATION_CLAIMED_BY@ == "headmaster.potatonode.github.io/claimed-by"@,
        ANNOTATION_DEFAULT_NAMESPACE@ == "headmaster.potatonode.github.io/default-namespace"@,
{
    let prefix = "headmaster.potatonode.github.io/cleanup-"@;
    let a = finalizer_of(here);
    let b = finalizer_of(there);
    assert(a.skip(prefix.len() as int) =~= here);
    assert(b.skip(prefix.len() as int) =~= there);
}

} // verus!
