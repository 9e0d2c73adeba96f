//! The steps that take the proxy of an Ingress down, and the documents that give
//! the Ingress up.
use crate::controllers::manifest;
use crate::json;
use crate::json::{Fields, Json};
use crate::text;
use vstd::prelude::*;

verus! {

/// Something to do to take a proxy down.
#[derive(Clone, Copy, Debug, PartialEq, Eq, Structural)]
pub enum Action {
    /// Read the state Secret.
    GetStateSecret,
    /// Connect to the headscale server that this node is registered with.
    Connect(u64),
    /// Publish that this node may be left behind; that may fail.
    WarnOrphaned(u64),
    /// Delete this node; that may fail.
    DeleteNode(u64),
    /// Publish that the proxy is gone; that may fail.
    PublishDeleted,
    /// Delete the proxy's resources, the state Secret among them; that may fail.
    DeleteProxy,
}

/// Where the work stands: what it is waiting for.
#[derive(Clone, Copy, Debug, PartialEq, Eq, Structural)]
pub enum Stage {
    Begin,
    StateSecret,
    Connected(u64),
    Warned,
    Node,
    Published,
    Proxy,
}

/// What came of the last action.
pub enum Event<E> {
    /// Nothing yet: the work begins.
    Start,
    /// It was done.
    Done,
    /// What it was about is not there.
    Absent,
    /// It failed.
    Failed(E),
    /// The node that the state Secret names.
    Node(Option<u64>),
}

/// What comes next.
pub enum Step<E> {
    /// Do this, and go on with what comes of it.
    Do(Action, Stage),
    /// The proxy has been taken down.
    End,
    /// The work is over with this error.
    Fail(E),
    /// The event does not belong to the stage.
    Unexpected,
}

/// The course of the work. A state Secret that cannot be read is an error, so that
/// the work is done again; nothing else is, and the proxy goes all the same.
pub open spec fn next<E>(stage: Stage, event: Event<E>) -> Step<E> {
    match (stage, event) {
        (Stage::Begin, Event::Start) => Step::Do(Action::GetStateSecret, Stage::StateSecret),
        (Stage::StateSecret, Event::Node(Some(id))) => Step::Do(
            Action::Connect(id),
            Stage::Connected(id),
        ),
        (Stage::StateSecret, Event::Node(None)) => Step::Do(Action::DeleteProxy, Stage::Proxy),
        (Stage::StateSecret, Event::Absent) => Step::Do(Action::DeleteProxy, Stage::Proxy),
        (Stage::StateSecret, Event::Failed(e)) => Step::Fail(e),
        (Stage::Connected(id), Event::Done) => Step::Do(Action::DeleteNode(id), Stage::Node),
        (Stage::Connected(id), Event::Failed(_)) => Step::Do(
            Action::WarnOrphaned(id),
            Stage::Warned,
        ),
        (Stage::Warned, Event::Done) => Step::Do(Action::DeleteProxy, Stage::Proxy),
        (Stage::Warned, Event::Failed(_)) => Step::Do(Action::DeleteProxy, Stage::Proxy),
        (Stage::Node, Event::Done) => Step::Do(Action::PublishDeleted, Stage::Published),
        (Stage::Node, Event::Absent) => Step::Do(Action::PublishDeleted, Stage::Published),
        (Stage::Node, Event::Failed(_)) => Step::Do(Action::DeleteProxy, Stage::Proxy),
        (Stage::Published, Event::Done) => Step::Do(Action::DeleteProxy, Stage::Proxy),
        (Stage::Published, Event::Failed(_)) => Step::Do(Action::DeleteProxy, Stage::Proxy),
        (Stage::Proxy, Event::Done) => Step::End,
        (Stage::Proxy, Event::Failed(_)) => Step::End,
        _ => Step::Unexpected,
    }
}

/// Says what to do next to take a proxy down.
pub fn deregister_and_cleanup<E>(stage: Stage, event: Event<E>) -> (r: Step<E>)
    ensures
        r == next(stage, event),
{
    match stage {
        Stage::Begin => match event {
            Event::Start => Step::Do(Action::GetStateSecret, Stage::StateSecret),
            _ => Step::Unexpected,
        },
        Stage::StateSecret => match event {
            Event::Node(Some(id)) => Step::Do(Action::Connect(id), Stage::Connected(id)),
            Event::Node(None) => Step::Do(Action::DeleteProxy, Stage::Proxy),
            Event::Absent => Step::Do(Action::DeleteProxy, Stage::Proxy),
            Event::Failed(e) => Step::Fail(e),
            _ => Step::Unexpected,
        },
        Stage::Connected(id) => match event {
            Event::Done => Step::Do(Action::DeleteNode(id), Stage::Node),
            Event::Failed(_) => Step::Do(Action::WarnOrphaned(id), Stage::Warned),
            _ => Step::Unexpected,
        },
        Stage::Warned => match event {
            Event::Done => Step::Do(Action::DeleteProxy, Stage::Proxy),
            Event::Failed(_) => Step::Do(Action::DeleteProxy, Stage::Proxy),
            _ => Step::Unexpected,
        },
        Stage::Node => match event {
            Event::Done => Step::Do(Action::PublishDeleted, Stage::Published),
            Event::Absent => Step::Do(Action::PublishDeleted, Stage::Published),
            Event::Failed(_) => Step::Do(Action::DeleteProxy, Stage::Proxy),
            _ => Step::Unexpected,
        },
        Stage::Published => match event {
            Event::Done => Step::Do(Action::DeleteProxy, Stage::Proxy),
            Event::Failed(_) => Step::Do(Action::DeleteProxy, Stage::Proxy),
            _ => Step::Unexpected,
        },
        Stage::Proxy => match event {
            Event::Done => Step::End,
            Event::Failed(_) => Step::End,
            _ => Step::Unexpected,
        },
    }
}

/// The node that a state Secret names, and the instance that it belongs to: the
/// one that the Secret names, or else `fallback`.
pub fn registered_node(
    device_id: Option<&String>,
    headscale_ref: Option<&String>,
    fallback: &str,
) -> (r: (Option<u64>, String))
    ensures
        r.0 == (match device_id {
            Some(id) => text::number_of(id@),
            None => None,
        }),
        r.1@ == (match headscale_ref {
            Some(name) => name@,
            None => fallback@,
        }),
{
    let node: Option<u64> = match device_id {
        Some(id) => text::parse_number(id.as_str()),
        None => None,
    };
    let instance: String = match headscale_ref {
        Some(name) => name.clone(),
        None => fallback.to_owned(),
    };
    (node, instance)
}

/// The reason that is given when a node may be left behind.
pub const ORPHANED_REASON: &'static str = "NodeOrphaned";

/// What is said of a node that may be left behind.
pub fn orphaned_note(node: u64, error: &str) -> (r: String)
    ensures
        r@ == "could not connect to headscale to delete node "@ + text::decimal(node as nat) + ": "@
            + error@ + "; the node may remain registered in headscale"@,
{
    let id: String = text::decimal_of(node);
    text::cat5(
        "could not connect to headscale to delete node ",
        id.as_str(),
        ": ",
        error,
        "; the node may remain registered in headscale",
    )
}

/// The finalizers that stay when the deployment in a namespace gives an object up.
pub open spec fn without_finalizer(finalizers: Seq<Seq<char>>, ours: Seq<char>) -> Seq<Seq<char>>
    decreases finalizers.len(),
{
    if finalizers.len() == 0 {
        Seq::empty()
    } else if finalizers.last() == ours {
        without_finalizer(finalizers.drop_last(), ours)
    } else {
        without_finalizer(finalizers.drop_last(), ours).push(finalizers.last())
    }
}

/// Lists the finalizers that stay when the deployment gives an object up.
pub fn remaining_finalizers(finalizers: &Vec<String>, operator_namespace: &str) -> (r: Vec<String>)
    ensures
        r.deep_view() == without_finalizer(
            finalizers.deep_view(),
            crate::finalizer_of(operator_namespace@),
        ),
{
    let ours: String = crate::finalizer(operator_namespace);
    let ghost all = finalizers.deep_view();
    let mut out: Vec<String> = Vec::new();
    let mut i: usize = 0;
    proof {
        assert(all.take(0) =~= Seq::<Seq<char>>::empty());
        assert(out.deep_view() =~= Seq::<Seq<char>>::empty());
    }
    while i < finalizers.len()
        invariant
            i <= finalizers@.len(),
            all == finalizers.deep_view(),
            out.deep_view() == without_finalizer(all.take(i as int), ours@),
        decreases finalizers@.len() - i,
    {
        proof {
            assert(all.take(i + 1).drop_last() =~= all.take(i as int));
            assert(all.take(i + 1).last() == finalizers@[i as int]@);
        }
        if finalizers[i] != ours {
            let ghost before = out.deep_view();
            out.push(finalizers[i].clone());
            proof {
                assert(out.deep_view() =~= before.push(finalizers@[i as int]@));
            }
        }
        i += 1;
    }
    proof {
        assert(all.take(i as int) =~= all);
    }
    out
}

/// The metadata that names an Ingress.
pub open spec fn ingress_metadata(namespace: Seq<char>, name: Seq<char>) -> Seq<(Seq<char>, Json)> {
    Seq::empty().push(("name"@, Json::Text(name))).push(("namespace"@, Json::Text(namespace)))
}

/// An Ingress document with this metadata.
pub open spec fn ingress_document(metadata: Json) -> Seq<(Seq<char>, Json)> {
    Seq::empty().push(("apiVersion"@, Json::Text("networking.k8s.io/v1"@))).push(
        ("kind"@, Json::Text("Ingress"@)),
    ).push(("metadata"@, metadata))
}

/// The document that clears the status of an Ingress.
pub fn cleared_status(namespace: &str, name: &str) -> (r: serde_json::Value)
    ensures
        json::json(r) == json::object(
            ingress_document(json::object(ingress_metadata(namespace@, name@))).push(
                ("status"@, json::object(Seq::empty())),
            ),
        ),
{
    let metadata: serde_json::Value = Fields::new().with_text("name", name).with_text(
        "namespace",
        namespace,
    ).done();
    Fields::new().with_text("apiVersion", "networking.k8s.io/v1").with_text(
        "kind",
        "Ingress",
    ).with("metadata", metadata).with("status", Fields::new().done()).done()
}

/// The document that records which deployment manages an Ingress.
pub fn owner_record(namespace: &str, name: &str, operator_namespace: &str) -> (r: serde_json::Value)
    ensures
        json::json(r) == json::object(
            ingress_document(
                json::object(
                    ingress_metadata(namespace@, name@).push(
                        (
                            "annotations"@,
                            json::object(
                                Seq::empty().push(
                                    (
                                        crate::ANNOTATION_CLAIMED_BY@,
                                        Json::Text(operator_namespace@),
                                    ),
                                ),
                            ),
                        ),
                    ),
                ),
            ),
        ),
{
    let annotations: serde_json::Value = Fields::new().with_text(
        crate::ANNOTATION_CLAIMED_BY,
        operator_namespace,
    ).done();
    let metadata: serde_json::Value = Fields::new().with_text("name", name).with_text(
        "namespace",
        namespace,
    ).with("annotations", annotations).done();
    Fields::new().with_text("apiVersion", "networking.k8s.io/v1").with_text(
        "kind",
        "Ingress",
    ).with("metadata", metadata).done()
}

/// The patch that gives an Ingress up: without the operator's finalizer and
/// without its record of ownership, and only as long as the Ingress is still at
/// this version.
pub fn release_ingress(
    resource_version: &str,
    finalizers: &Vec<String>,
    operator_namespace: &str,
) -> (r: serde_json::Value)
    ensures
        json::json(r) == json::object(
            Seq::empty().push(
                (
                    "metadata"@,
                    json::object(
                        Seq::empty().push(("resourceVersion"@, Json::Text(resource_version@))).push(
                            (
                                "finalizers"@,
                                json::text_items(
                                    without_finalizer(
                                        finalizers.deep_view(),
                                        crate::finalizer_of(operator_namespace@),
                                    ),
                                ),
                            ),
                        ).push(
                            (
                                "annotations"@,
                                json::object(
                                    Seq::empty().push(
                                        (crate::ANNOTATION_CLAIMED_BY@, Json::Null),
                                    ),
                                ),
                            ),
                        ),
                    ),
                ),
            ),
        ),
{
    let remaining: Vec<String> = remaining_finalizers(finalizers, operator_namespace);
    let annotations: serde_json::Value = Fields::new().with(
        crate::ANNOTATION_CLAIMED_BY,
        json::null(),
    ).done();
    let metadata: serde_json::Value = Fields::new().with_text(
        "resourceVersion",
        resource_version,
    ).with("finalizers", json::text_array(&remaining)).with("annotations", annotations).done();
    Fields::new().with("metadata", metadata).done()
}

// Laws.

/// The stage that a course of events leads to, as long as the work goes on.
pub open spec fn stage_after<E>(events: Seq<Event<E>>) -> Option<Stage>
    decreases events.len(),
{
    if events.len() == 0 {
        Some(Stage::Begin)
    } else {
        match stage_after(events.drop_last()) {
            Some(stage) => match next(stage, events.last()) {
                Step::Do(_, after) => Some(after),
                _ => None,
            },
            None => None,
        }
    }
}

/// The proxy's resources, and with them the state Secret, are deleted only after the
/// deletion of the node was tried, unless no node was known or its server could not
/// be reached.
pub proof fn node_is_tried_before_the_state_goes<E>(events: Seq<Event<E>>)
    requires
        stage_after(events) == Some(Stage::Proxy),
    ensures
        ({
            let n = events.len();
            ||| n == 2 && (events[1] == Event::<E>::Node(None) || events[1] is Absent)
            ||| n == 4 && events[1] is Node && events[2] is Failed
            ||| n == 4 && events[1] is Node && events[2] is Done && events[3] is Failed
            ||| n == 5 && events[1] is Node && events[2] is Done && (events[3] is Done
                || events[3] is Absent)
        }),
{
    stages_are_bounded(events);
}

proof fn stages_are_bounded<E>(events: Seq<Event<E>>)
    ensures
        stage_after(events) matches Some(stage) ==> {
            let n = events.len();
            match stage {
                Stage::Begin => n == 0,
                Stage::StateSecret => n == 1,
                Stage::Connected(_) => n == 2 && events[1] is Node,
                Stage::Warned => n == 3 && events[1] is Node && events[2] is Failed,
                Stage::Node => n == 3 && events[1] is Node && events[2] is Done,
                Stage::Published => n == 4 && events[1] is Node && events[2] is Done && (
                events[3] is Done || events[3] is Absent),
                Stage::Proxy => (n == 2 && (events[1] == Event::<E>::Node(None)
                    || events[1] is Absent)) || (n == 4 && events[1] is Node && (
                events[2] is Failed || (events[2] is Done && events[3] is Failed))) || (n == 5
                    && events[1] is Node && events[2] is Done && (events[3] is Done
                    || events[3] is Absent)),
            }
        },
    decreases events.len(),
{
    if events.len() > 0 {
        stages_are_bounded(events.drop_last());
        assert(events.last() == events[events.len() - 1]);
    }
}

/// The work ends with an error only where the state Secret could not be read, and
/// well only after the deletion of the proxy's resources was asked for: whatever else
/// fails, they go.
pub proof fn proxy_goes_unless_the_state_is_unreadable<E>(stage: Stage, event: Event<E>)
    ensures
        next(stage, event) is Fail ==> stage is StateSecret && event is Failed,
        next(stage, event) is End ==> stage is Proxy,
        next(stage, event) matches Step::Do(action, after) ==> (after is Proxy <==> action
            == Action::DeleteProxy),
{
}

/// Giving an object up takes out the operator's finalizer and no other.
pub proof fn only_our_finalizer_goes(finalizers: Seq<Seq<char>>, ours: Seq<char>, f: Seq<char>)
    ensures
        without_finalizer(finalizers, ours).contains(f) <==> finalizers.contains(f) && f != ours,
    decreases finalizers.len(),
{
    if finalizers.len() > 0 {
        let rest = finalizers.drop_last();
        only_our_finalizer_goes(rest, ours, f);
        let out = without_finalizer(finalizers, ours);
        let kept = without_finalizer(rest, ours);
        assert(finalizers[finalizers.len() - 1] == finalizers.last());
        if rest.contains(f) {
            let i = choose|i: int| 0 <= i < rest.len() && rest[i] == f;
            assert(finalizers[i] == f);
        }
        if finalizers.contains(f) {
            let i = choose|i: int| 0 <= i < finalizers.len() && finalizers[i] == f;
            if i < rest.len() {
                assert(rest[i] == f);
            }
        }
        if finalizers.last() != ours {
            assert(out == kept.push(finalizers.last()));
            if kept.contains(f) {
                let i = choose|i: int| 0 <= i < kept.len() && kept[i] == f;
                assert(out[i] == f);
            }
            if f == finalizers.last() {
                assert(out[out.len() - 1] == f);
            }
            if out.contains(f) {
                let i = choose|i: int| 0 <= i < out.len() && out[i] == f;
                if i < kept.len() {
                    assert(kept[i] == f);
                }
            }
        }
    }
}

/// Taking a proxy down deletes its node, publishes that, and deletes the proxy's resources; a node
/// that cannot be reached is warned of instead. Where no node is known, only the resources go.
pub proof fn node_goes_and_then_the_proxy<E>(id: u64, e: E, settled: Event<E>, gone: Event<E>)
    requires
        settled is Done || settled is Failed,
        gone is Done || gone is Absent,
    ensures
        next(Stage::Begin, Event::<E>::Start) matches Step::Do(Action::GetStateSecret, a0)
            && (next(a0, Event::<E>::Node(Some(id))) matches Step::Do(Action::Connect(x), a1)
            && x == id && (next(a1, Event::<E>::Done) matches Step::Do(Action::DeleteNode(y), a2)
            && y == id && (next(a2, gone) matches Step::Do(Action::PublishDeleted, a3)
            && (next(a3, settled) matches Step::Do(Action::DeleteProxy, a4)
            && next(a4, settled) == Step::<E>::End)))),
        next(Stage::Begin, Event::<E>::Start) matches Step::Do(Action::GetStateSecret, a0)
            && (next(a0, Event::<E>::Node(Some(id))) matches Step::Do(Action::Connect(_), a1)
            && (next(a1, Event::Failed(e)) matches Step::Do(Action::WarnOrphaned(x), a2) && x == id
            && (next(a2, settled) matches Step::Do(Action::DeleteProxy, a3)
            && next(a3, settled) == Step::<E>::End))),
        next(Stage::Begin, Event::<E>::Start) matches Step::Do(Action::GetStateSecret, a0)
            && (next(a0, Event::<E>::Node(Some(id))) matches Step::Do(Action::Connect(_), a1)
            && (next(a1, Event::<E>::Done) matches Step::Do(Action::DeleteNode(_), a2)
            && (next(a2, Event::Failed(e)) matches Step::Do(Action::DeleteProxy, a3)
            && next(a3, settled) == Step::<E>::End))),
        next(Stage::Begin, Event::<E>::Start) matches Step::Do(Action::GetStateSecret, a0)
            && (next(a0, Event::<E>::Node(None)) matches Step::Do(Action::DeleteProxy, a1)
            && next(a1, settled) == Step::<E>::End),
        next(Stage::Begin, Event::<E>::Start) matches Step::Do(Action::GetStateSecret, a0)
            && (next(a0, Event::<E>::Absent) matches Step::Do(Action::DeleteProxy, a1)
            && next(a1, settled) == Step::<E>::End),
        next(Stage::Begin, Event::<E>::Start) matches Step::Do(Action::GetStateSecret, a0)
            && next(a0, Event::Failed(e)) == Step::<E>::Fail(e),
{
}

/// The finalizers that stay keep their order, each for itself: those of two lists are those
/// of the one and then those of the other.
pub proof fn finalizers_keep_their_order(
    first: Seq<Seq<char>>,
    second: Seq<Seq<char>>,
    ours: Seq<char>,
)
    ensures
        without_finalizer(first + second, ours) == without_finalizer(first, ours)
            + without_finalizer(second, ours),
        first.len() == 1 ==> without_finalizer(first, ours) == (if first[0] == ours {
            Seq::empty()
        } else {
            first
        }),
    decreases second.len(),
{
    if second.len() == 0 {
        assert(first + second =~= first);
        assert(without_finalizer(first, ours) + without_finalizer(second, ours)
            =~= without_finalizer(first, ours));
    } else {
        finalizers_keep_their_order(first, second.drop_last(), ours);
        assert((first + second).drop_last() =~= first + second.drop_last());
        assert((first + second).last() == second.last());
        assert(without_finalizer(first + second, ours) =~= without_finalizer(first, ours)
            + without_finalizer(second, ours));
    }
    if first.len() == 1 {
        reveal_with_fuel(without_finalizer, 2);
        assert(first.drop_last() =~= Seq::<Seq<char>>::empty());
        assert(Seq::<Seq<char>>::empty().push(first[0]) =~= first);
        assert(first.last() == first[0]);
    }
}

/// A document for an Ingress says what it is and has the metadata that it is given.
pub proof fn ingress_documents_have_their_kind(metadata: Json)
    ensures
        ({
            let d = json::object(ingress_document(metadata));
            &&& d is Object
            &&& d->Object_0.dom() == set!["apiVersion"@, "kind"@, "metadata"@]
            &&& d->Object_0["apiVersion"@] == Json::Text("networking.k8s.io/v1"@)
            &&& d->Object_0["kind"@] == Json::Text("Ingress"@)
            &&& d->Object_0["metadata"@] == metadata
        }),
{
    manifest::names_differ();
    broadcast use json::object_grows;

    let d = json::object(ingress_document(metadata));
    assert(d->Object_0.dom() =~= set!["apiVersion"@, "kind"@, "metadata"@]);
}

/// The metadata of such a document name the Ingress and its namespace.
pub proof fn ingress_documents_name_the_ingress(namespace: Seq<char>, name: Seq<char>)
    ensures
        ({
            let d = json::object(ingress_metadata(namespace, name));
            &&& d is Object
            &&& d->Object_0.dom() == set!["name"@, "namespace"@]
            &&& d->Object_0["name"@] == Json::Text(name)
            &&& d->Object_0["namespace"@] == Json::Text(namespace)
        }),
{
    manifest::names_differ();
    broadcast use json::object_grows;

    let d = json::object(ingress_metadata(namespace, name));
    assert(d->Object_0.dom() =~= set!["name"@, "namespace"@]);
}

} // verus!
