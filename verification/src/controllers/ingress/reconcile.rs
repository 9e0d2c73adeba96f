//! Which Ingresses the operator adopts, and the steps that bring the proxy of an
//! Ingress up or take it down.
use crate::controllers::outcome::Lookup;
use crate::text;
use crate::types::headscale_instance;
use crate::types::ingress_annotations;
use crate::types::ingress_annotations::{AnnotationError, IngressAccessGrant, IngressAnnotations};
use vstd::prelude::*;

verus! {

/// The class of the Ingresses that the operator serves.
pub const INGRESS_CLASS_NAME: &'static str = "headmaster";

/// The name under which the operator serves its class.
pub const CONTROLLER_NAME: &'static str = "headmaster.potatonode.github.io/ingress-controller";

/// What the operator reads of an Ingress.
pub struct IngressObject {
    pub namespace: Option<String>,
    pub name: String,
    /// `spec.ingressClassName`.
    pub class_name: Option<String>,
    /// The `kubernetes.io/ingress.class` annotation.
    pub class_annotation: Option<String>,
    /// The text of the configuration annotation.
    pub config: Option<String>,
    pub finalizers: Vec<String>,
}

/// The class of an Ingress; the field comes before the annotation.
pub open spec fn class_of(ingress: IngressObject) -> Option<Seq<char>> {
    match ingress.class_name {
        Some(class) => Some(class@),
        None => ingress.class_annotation.deep_view(),
    }
}

/// The deployment that an Ingress asks for.
pub open spec fn target_of(ingress: IngressObject) -> Option<Seq<char>> {
    ingress_annotations::named_field(ingress.config.deep_view(), "headscale-namespace"@)
}

/// An Ingress that names a deployment belongs to that one; any other belongs to
/// the default deployment.
pub open spec fn belongs(
    target: Option<Seq<char>>,
    operator_namespace: Seq<char>,
    claim_default: bool,
) -> bool {
    match target {
        Some(namespace) => namespace == operator_namespace,
        None => claim_default,
    }
}

/// Whether an Ingress that asks for `target` belongs to the deployment in
/// `operator_namespace`.
pub fn targets_deployment(
    target: Option<&String>,
    operator_namespace: &str,
    claim_default: bool,
) -> (r: bool)
    ensures
        r == belongs(
            (match target {
                Some(t) => Some(t@),
                None => None,
            }),
            operator_namespace@,
            claim_default,
        ),
{
    match target {
        Some(namespace) => text::same(namespace.as_str(), operator_namespace),
        None => claim_default,
    }
}

impl IngressObject {
    /// Whether the Ingress is of the operator's class.
    pub fn is_headmaster(&self) -> (r: bool)
        ensures
            r == (class_of(*self) == Some(INGRESS_CLASS_NAME@)),
    {
        match &self.class_name {
            Some(class) => text::same(class.as_str(), INGRESS_CLASS_NAME),
            None => match &self.class_annotation {
                Some(class) => text::same(class.as_str(), INGRESS_CLASS_NAME),
                None => false,
            },
        }
    }

    /// Whether the Ingress belongs to the deployment in `operator_namespace`.
    pub fn is_ours(&self, operator_namespace: &str, claim_default: bool) -> (r: bool)
        ensures
            r == belongs(target_of(*self), operator_namespace@, claim_default),
    {
        let target: Option<String> = match &self.config {
            Some(text) => IngressAnnotations::headscale_namespace(Some(text.as_str())),
            None => None,
        };
        targets_deployment(target.as_ref(), operator_namespace, claim_default)
    }
}

/// What is known of an Ingress before it is adopted.
#[derive(Clone, Copy, Debug, PartialEq, Eq, Structural)]
pub struct AdoptionFacts {
    /// It is of the operator's class.
    pub is_class: bool,
    /// It carries the operator's finalizer.
    pub has_finalizer: bool,
    /// It has a namespace.
    pub has_namespace: bool,
    /// It belongs to this deployment.
    pub is_ours: bool,
    /// Its configuration is valid.
    pub is_valid: bool,
}

/// What to do with an Ingress.
#[derive(Clone, Copy, Debug, PartialEq, Eq, Structural)]
pub enum Adoption {
    /// Leave it alone until it changes.
    Skip,
    /// It has no namespace, which is an error.
    MissingNamespace,
    /// Ask the instance that it refers to.
    AskInstance,
    /// Go on with it.
    Proceed,
}

/// An Ingress that carries the operator's finalizer is always gone on with.
/// Another one is adopted only when it is of the class, belongs to the
/// deployment and is valid, and its instance does not exclude it.
pub open spec fn adoption(facts: AdoptionFacts) -> Adoption {
    if !facts.is_class && !facts.has_finalizer {
        Adoption::Skip
    } else if !facts.has_namespace {
        Adoption::MissingNamespace
    } else if facts.has_finalizer {
        Adoption::Proceed
    } else if facts.is_ours && facts.is_valid {
        Adoption::AskInstance
    } else {
        Adoption::Skip
    }
}

/// Gathers what is known of an Ingress. `annotations` is its checked
/// configuration.
pub fn adoption_facts(
    ingress: &IngressObject,
    annotations: &Result<IngressAnnotations, AnnotationError>,
    operator_namespace: &str,
    claim_default: bool,
) -> (r: AdoptionFacts)
    ensures
        r == (AdoptionFacts {
            is_class: class_of(*ingress) == Some(INGRESS_CLASS_NAME@),
            has_finalizer: ingress.finalizers.deep_view().contains(
                crate::finalizer_of(operator_namespace@),
            ),
            has_namespace: ingress.namespace is Some,
            is_ours: belongs(target_of(*ingress), operator_namespace@, claim_default),
            is_valid: annotations is Ok,
        }),
{
    let finalizer: String = crate::finalizer(operator_namespace);
    AdoptionFacts {
        is_class: ingress.is_headmaster(),
        has_finalizer: text::contains(&ingress.finalizers, finalizer.as_str()),
        has_namespace: ingress.namespace.is_some(),
        is_ours: ingress.is_ours(operator_namespace, claim_default),
        is_valid: annotations.is_ok(),
    }
}

/// Decides what to do with an Ingress.
pub fn reconcile(facts: AdoptionFacts) -> (r: Adoption)
    ensures
        r == adoption(facts),
{
    if !facts.is_class && !facts.has_finalizer {
        return Adoption::Skip;
    }
    if !facts.has_namespace {
        return Adoption::MissingNamespace;
    }
    if !facts.is_ours && !facts.has_finalizer {
        return Adoption::Skip;
    }
    if facts.has_finalizer {
        return Adoption::Proceed;
    }
    if facts.is_valid {
        Adoption::AskInstance
    } else {
        Adoption::Skip
    }
}

/// Decides on an Ingress in `namespace` once its instance has been asked; the
/// instance names the namespaces that it watches. An instance that does not
/// exist excludes nobody.
pub fn reconcile_with_instance<E>(watched: Lookup<Vec<String>, E>, namespace: &str) -> (r: Result<
    Adoption,
    E,
>)
    ensures
        match watched {
            Lookup::Found(list) => r == Ok::<Adoption, E>(
                if headscale_instance::allows(list.deep_view(), namespace@) {
                    Adoption::Proceed
                } else {
                    Adoption::Skip
                },
            ),
            Lookup::NotFound => r == Ok::<Adoption, E>(Adoption::Proceed),
            Lookup::Failed(e) => r == Err::<Adoption, E>(e),
        },
{
    match watched {
        Lookup::Found(list) => if headscale_instance::is_allowed(&list, namespace) {
            Ok(Adoption::Proceed)
        } else {
            Ok(Adoption::Skip)
        },
        Lookup::NotFound => Ok(Adoption::Proceed),
        Lookup::Failed(e) => Err(e),
    }
}

/// What is known of an Ingress when its proxy is brought up.
#[derive(Clone, Copy, Debug, PartialEq, Eq, Structural)]
pub struct ApplyFacts {
    /// It is of the operator's class.
    pub is_class: bool,
    /// It belongs to this deployment.
    pub is_ours: bool,
    /// It names an instance.
    pub has_ref: bool,
    /// Its configuration is valid.
    pub is_valid: bool,
    /// One of its access grants names nobody.
    pub has_empty_grant: bool,
}

/// An access grant that names nobody.
pub open spec fn some_grant_is_empty(access: Seq<ingress_annotations::AccessV>) -> bool {
    exists|i: int| 0 <= i < access.len() && (#[trigger] access[i]).from.len() == 0
}

pub(crate) fn has_empty_grant(access: &Vec<IngressAccessGrant>) -> (r: bool)
    ensures
        r == some_grant_is_empty(access.deep_view()),
{
    let mut i: usize = 0;
    while i < access.len()
        invariant
            i <= access@.len(),
            forall|j: int| 0 <= j < i ==> (#[trigger] access@[j]).from@.len() > 0,
        decreases access@.len() - i,
    {
        if access[i].from.len() == 0 {
            assert(access.deep_view()[i as int].from.len() == 0);
            return true;
        }
        i += 1;
    }
    assert forall|j: int| 0 <= j < access.deep_view().len() implies (#[trigger] access.deep_view()[j]).from.len()
        > 0 by {
        assert(access.deep_view()[j] == access@[j].deep_view());
    }
    false
}

/// Gathers what is known of an Ingress whose proxy is to be brought up.
pub fn apply_facts(
    ingress: &IngressObject,
    annotations: &Result<IngressAnnotations, AnnotationError>,
    operator_namespace: &str,
    claim_default: bool,
) -> (r: ApplyFacts)
    ensures
        r == (ApplyFacts {
            is_class: class_of(*ingress) == Some(INGRESS_CLASS_NAME@),
            is_ours: belongs(target_of(*ingress), operator_namespace@, claim_default),
            has_ref: ingress_annotations::named_field(
                ingress.config.deep_view(),
                "headscale-ref"@,
            ) is Some,
            is_valid: annotations is Ok,
            has_empty_grant: annotations matches Ok(a) && some_grant_is_empty(
                a.access.deep_view(),
            ),
        }),
{
    let has_ref: bool = match &ingress.config {
        Some(text) => IngressAnnotations::headscale_ref(Some(text.as_str())).is_some(),
        None => false,
    };
    let empty: bool = match annotations {
        Ok(a) => has_empty_grant(&a.access),
        Err(_) => false,
    };
    ApplyFacts {
        is_class: ingress.is_headmaster(),
        is_ours: ingress.is_ours(operator_namespace, claim_default),
        has_ref,
        is_valid: annotations.is_ok(),
        has_empty_grant: empty,
    }
}

// Laws.

/// An Ingress of another class that does not carry the operator's finalizer is left alone,
/// whatever else is known of it. One that carries the finalizer is gone on with wherever it
/// has a namespace. Any other one is adopted only where it belongs to the deployment and is
/// valid, and its instance is asked first.
pub proof fn ingresses_are_adopted_by_rule(facts: AdoptionFacts)
    ensures
        adoption(facts) is AskInstance <==> facts.is_class && !facts.has_finalizer
            && facts.has_namespace && facts.is_ours && facts.is_valid,
        adoption(facts) is Proceed <==> facts.has_finalizer && facts.has_namespace,
        adoption(facts) is MissingNamespace <==> !facts.has_namespace && (facts.is_class
            || facts.has_finalizer),
{
}

/// The class of an Ingress is what its field says, and only where there is no field what its
/// annotation says.
pub proof fn class_field_comes_first(ingress: IngressObject)
    ensures
        ingress.class_name is Some ==> class_of(ingress) == Some(ingress.class_name->0@),
        ingress.class_name is None && ingress.class_annotation is Some
            ==> class_of(ingress) == Some(
            ingress.class_annotation->0@,
        ),
        ingress.class_name is None && ingress.class_annotation is None ==> class_of(ingress)
            is None,
        INGRESS_CLASS_NAME@ == "headmaster"@,
        CONTROLLER_NAME@ == "headmaster.potatonode.github.io/ingress-controller"@,
{
}

/// An Ingress that names a deployment belongs to that one alone, and one that names none to
/// the default deployment alone.
pub proof fn ingress_belongs_to_one_deployment(
    target: Option<Seq<char>>,
    here: Seq<char>,
    there: Seq<char>,
    default_here: bool,
)
    ensures
        target is Some ==> (belongs(target, here, default_here) <==> target->0 == here),
        target is Some && here != there ==> !(belongs(target, here, default_here) && belongs(
            target,
            there,
            !default_here,
        )),
        target is None ==> belongs(target, here, default_here) == default_here,
{
}

/// What an Ingress asks for is the text under `headscale-namespace` in the JSON of its
/// annotation; it asks for nothing where there is no such text.
pub proof fn target_is_read_from_the_annotation(ingress: IngressObject, fields: Map<
    Seq<char>,
    crate::json::Json,
>)
    requires
        ingress.config is Some,
        crate::json::json_text(ingress.config->0@) == Some(crate::json::Json::Object(fields)),
    ensures
        target_of(ingress) is Some <==> fields.dom().contains("headscale-namespace"@)
            && fields["headscale-namespace"@] is Text,
        target_of(ingress) is Some ==> fields["headscale-namespace"@] == crate::json::Json::Text(
            target_of(ingress)->0,
        ),
{
}

/// A list of access grants has an empty one exactly where one of them names nobody.
pub proof fn empty_grants_name_nobody(access: Seq<ingress_annotations::AccessV>)
    ensures
        some_grant_is_empty(access) <==> !(forall|i: int|
            0 <= i < access.len() ==> (#[trigger] access[i]).from.len() > 0),
{
    if some_grant_is_empty(access) {
        let i = choose|i: int| 0 <= i < access.len() && (#[trigger] access[i]).from.len() == 0;
        assert(access[i].from.len() == 0);
    } else {
        assert forall|i: int| 0 <= i < access.len() implies (#[trigger] access[i]).from.len()
            > 0 by {
            assert(access[i].from.len() != 0);
        }
    }
}

} // verus!
