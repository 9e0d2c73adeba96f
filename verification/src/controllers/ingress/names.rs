//! Names derived from an Ingress.
use crate::text;
use vstd::prelude::*;

verus! {

/// The policy tag of the proxy of an Ingress.
pub open spec fn auto_tag(namespace: Seq<char>, name: Seq<char>) -> Seq<char> {
    "tag:hm-"@ + namespace + "-"@ + name
}

/// The policy tag of the proxy of an Ingress.
pub fn ingress_auto_tag(namespace: &str, name: &str) -> (r: String)
    ensures
        r@ == auto_tag(namespace@, name@),
{
    text::cat4("tag:hm-", namespace, "-", name)
}

/// Different Ingresses of one namespace have different tags, and every tag is the operator's.
pub proof fn tags_tell_ingresses_apart(namespace: Seq<char>, name: Seq<char>, other: Seq<char>)
    ensures
        auto_tag(namespace, name) == "tag:hm-"@ + namespace + "-"@ + name,
        name != other ==> auto_tag(namespace, name) != auto_tag(namespace, other),
{
    let prefix = "tag:hm-"@ + namespace + "-"@;
    assert(auto_tag(namespace, name).skip(prefix.len() as int) =~= name);
    assert(auto_tag(namespace, other).skip(prefix.len() as int) =~= other);
}

} // verus!
