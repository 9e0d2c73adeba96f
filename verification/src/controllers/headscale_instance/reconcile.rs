//! The course of the work on a HeadscaleInstance.
//!
//! [`advance`] takes the stage that the work is in and what came of the last
//! action, and says what to do next.
use crate::controllers::headscale_instance::builders;
use crate::controllers::ingress::reconcile::IngressObject;
use crate::controllers::outcome::Schedule;
use crate::text;
use crate::types::headscale_instance;
use crate::types::headscale_instance::HeadscaleInstanceSpec;
use crate::types::ingress_annotations;
use crate::types::ingress_annotations::IngressAnnotations;
use vstd::prelude::*;

verus! {

/// What is known of an instance before the work.
#[derive(Clone, Copy, Debug, PartialEq, Eq, Structural)]
pub struct Facts {
    /// It has a SCIM service.
    pub has_scim: bool,
    /// Its own policy has groups with members.
    pub has_groups: bool,
}

/// What is reported of an instance.
#[derive(Clone, Copy, Debug, PartialEq, Eq, Structural)]
pub enum Report {
    /// A child could not be applied.
    ChildFailed,
    /// The server is not ready.
    NotReady,
    /// The instance's own policy has groups that SCIM owns.
    Conflict,
    /// The rest of the work failed.
    Failed,
    /// All is well.
    Ready,
}

/// Something to do for an instance.
#[derive(Clone, Copy, Debug, PartialEq, Eq, Structural)]
pub enum Action {
    /// Apply the server's ConfigMap, Service and StatefulSet.
    EnsureHeadscale,
    /// Read the server's StatefulSet.
    GetStatefulSet,
    /// Make sure that there is an API key.
    EnsureApiKey,
    /// List the Ingresses that refer to the instance.
    ListIngresses,
    /// Bring the server's policy in line.
    SyncPolicy,
    /// Apply the SCIM service.
    EnsureScim,
    /// Delete the SCIM service.
    DeleteScim,
    /// Write this into the instance's status.
    Report(Report),
    /// Publish the transitions of the status; that may fail.
    PublishTransitions,
}

/// Where the work stands: what it is waiting for.
pub enum Stage<E> {
    Begin,
    Headscale,
    StatefulSet,
    ApiKey,
    Ingresses,
    Policy,
    Scim,
    /// The work failed with this error, and that was reported.
    ReportedFailure(E),
    /// The conflict was reported.
    ReportedConflict,
    /// The state was reported; then the work is over.
    Reported(Schedule),
    Published(Schedule),
}

/// What came of the last action.
pub enum Event<E> {
    /// Nothing yet: the work begins.
    Start,
    /// It was done.
    Done,
    /// It failed.
    Failed(E),
    /// Whether the server has a ready replica.
    Ready(bool),
}

/// What comes next.
pub enum Step<E> {
    /// Do this, and go on with what comes of it.
    Do(Action, Stage<E>),
    /// The work is over.
    End(Schedule),
    /// The work is over with this error.
    Fail(E),
    /// The instance's own policy has groups that SCIM owns, which is an error.
    Conflict,
    /// The event does not belong to the stage.
    Unexpected,
}

/// Once the server is ready, a failure is reported before the work ends with it.
pub open spec fn or_report<E>(event: Event<E>, next: Step<E>) -> Step<E> {
    match event {
        Event::Done => next,
        Event::Failed(e) => Step::Do(Action::Report(Report::Failed), Stage::ReportedFailure(e)),
        _ => Step::Unexpected,
    }
}

/// The course of the work on an instance.
pub open spec fn next<E>(facts: Facts, stage: Stage<E>, event: Event<E>) -> Step<E> {
    match stage {
        Stage::Begin => match event {
            Event::Start => Step::Do(Action::EnsureHeadscale, Stage::Headscale),
            _ => Step::Unexpected,
        },
        Stage::Headscale => match event {
            Event::Done => Step::Do(Action::GetStatefulSet, Stage::StatefulSet),
            Event::Failed(e) => Step::Do(
                Action::Report(Report::ChildFailed),
                Stage::ReportedFailure(e),
            ),
            _ => Step::Unexpected,
        },
        Stage::StatefulSet => match event {
            Event::Ready(ready) => if ready {
                Step::Do(Action::EnsureApiKey, Stage::ApiKey)
            } else {
                Step::Do(
                    Action::Report(Report::NotReady),
                    Stage::Reported(Schedule::Requeue(10)),
                )
            },
            Event::Failed(e) => Step::Fail(e),
            _ => Step::Unexpected,
        },
        Stage::ApiKey => or_report(
            event,
            if facts.has_scim && facts.has_groups {
                Step::Do(Action::Report(Report::Conflict), Stage::ReportedConflict)
            } else {
                Step::Do(Action::ListIngresses, Stage::Ingresses)
            },
        ),
        Stage::Ingresses => or_report(event, Step::Do(Action::SyncPolicy, Stage::Policy)),
        Stage::Policy => or_report(
            event,
            Step::Do(
                if facts.has_scim {
                    Action::EnsureScim
                } else {
                    Action::DeleteScim
                },
                Stage::Scim,
            ),
        ),
        Stage::Scim => or_report(
            event,
            Step::Do(Action::Report(Report::Ready), Stage::Reported(Schedule::Requeue(60))),
        ),
        Stage::ReportedFailure(e) => match event {
            Event::Done => Step::Fail(e),
            Event::Failed(_) => Step::Fail(e),
            _ => Step::Unexpected,
        },
        Stage::ReportedConflict => match event {
            Event::Done => Step::Conflict,
            Event::Failed(_) => Step::Conflict,
            _ => Step::Unexpected,
        },
        Stage::Reported(schedule) => match event {
            Event::Done => Step::Do(Action::PublishTransitions, Stage::Published(schedule)),
            Event::Failed(e) => Step::Fail(e),
            _ => Step::Unexpected,
        },
        Stage::Published(schedule) => match event {
            Event::Done => Step::End(schedule),
            Event::Failed(_) => Step::End(schedule),
            _ => Step::Unexpected,
        },
    }
}

fn reported<E>(event: Event<E>, next: Step<E>) -> (r: Step<E>)
    ensures
        r == or_report(event, next),
{
    match event {
        Event::Done => next,
        Event::Failed(e) => Step::Do(Action::Report(Report::Failed), Stage::ReportedFailure(e)),
        _ => Step::Unexpected,
    }
}

/// Says what to do next for an instance.
pub fn advance<E>(facts: Facts, stage: Stage<E>, event: Event<E>) -> (r: Step<E>)
    ensures
        r == next(facts, stage, event),
{
    match stage {
        Stage::Begin => match event {
            Event::Start => Step::Do(Action::EnsureHeadscale, Stage::Headscale),
            _ => Step::Unexpected,
        },
        Stage::Headscale => match event {
            Event::Done => Step::Do(Action::GetStatefulSet, Stage::StatefulSet),
            Event::Failed(e) => Step::Do(
                Action::Report(Report::ChildFailed),
                Stage::ReportedFailure(e),
            ),
            _ => Step::Unexpected,
        },
        Stage::StatefulSet => match event {
            Event::Ready(true) => Step::Do(Action::EnsureApiKey, Stage::ApiKey),
            Event::Ready(false) => Step::Do(
                Action::Report(Report::NotReady),
                Stage::Reported(Schedule::Requeue(10)),
            ),
            Event::Failed(e) => Step::Fail(e),
            _ => Step::Unexpected,
        },
        Stage::ApiKey => if facts.has_scim && facts.has_groups {
            reported(
                event,
                Step::Do(Action::Report(Report::Conflict), Stage::ReportedConflict),
            )
        } else {
            reported(event, Step::Do(Action::ListIngresses, Stage::Ingresses))
        },
        Stage::Ingresses => reported(event, Step::Do(Action::SyncPolicy, Stage::Policy)),
        Stage::Policy => if facts.has_scim {
            reported(event, Step::Do(Action::EnsureScim, Stage::Scim))
        } else {
            reported(event, Step::Do(Action::DeleteScim, Stage::Scim))
        },
        Stage::Scim => reported(
            event,
            Step::Do(Action::Report(Report::Ready), Stage::Reported(Schedule::Requeue(60))),
        ),
        Stage::ReportedFailure(e) => match event {
            Event::Done => Step::Fail(e),
            Event::Failed(_) => Step::Fail(e),
            _ => Step::Unexpected,
        },
        Stage::ReportedConflict => match event {
            Event::Done => Step::Conflict,
            Event::Failed(_) => Step::Conflict,
            _ => Step::Unexpected,
        },
        Stage::Reported(schedule) => match event {
            Event::Done => Step::Do(Action::PublishTransitions, Stage::Published(schedule)),
            Event::Failed(e) => Step::Fail(e),
            _ => Step::Unexpected,
        },
        Stage::Published(schedule) => match event {
            Event::Done => Step::End(schedule),
            Event::Failed(_) => Step::End(schedule),
            _ => Step::Unexpected,
        },
    }
}

/// The reason that a report gives.
pub open spec fn report_reason(report: Report) -> Seq<char> {
    match report {
        Report::ChildFailed => "ChildApplyFailed"@,
        Report::NotReady => "StatefulSetNotReady"@,
        Report::Conflict => "ScimPolicyConflict"@,
        Report::Failed => "ReconcileFailed"@,
        Report::Ready => "StatefulSetReady"@,
    }
}

/// Says which reason a report gives.
pub fn reason(report: Report) -> (r: &'static str)
    ensures
        r@ == report_reason(report),
{
    match report {
        Report::ChildFailed => "ChildApplyFailed",
        Report::NotReady => "StatefulSetNotReady",
        Report::Conflict => "ScimPolicyConflict",
        Report::Failed => "ReconcileFailed",
        Report::Ready => "StatefulSetReady",
    }
}

/// What a report says; `error` is the error that it is about.
pub open spec fn report_message(report: Report, error: Seq<char>) -> Seq<char> {
    match report {
        Report::ChildFailed => "failed to apply child resource: "@ + error,
        Report::NotReady => "headscale StatefulSet is not yet ready"@,
        Report::Conflict => error,
        Report::Failed => error,
        Report::Ready => "headscale StatefulSet is ready"@,
    }
}

/// Writes what a report says.
pub fn message(report: Report, error: &str) -> (r: String)
    ensures
        r@ == report_message(report, error@),
{
    match report {
        Report::ChildFailed => text::cat2("failed to apply child resource: ", error),
        Report::NotReady => "headscale StatefulSet is not yet ready".to_owned(),
        Report::Conflict => error.to_owned(),
        Report::Failed => error.to_owned(),
        Report::Ready => "headscale StatefulSet is ready".to_owned(),
    }
}

/// Whether a report says that the instance is ready.
pub fn is_ready(report: Report) -> (r: bool)
    ensures
        r == (report == Report::Ready),
{
    match report {
        Report::Ready => true,
        _ => false,
    }
}

/// Whether a server with this many ready replicas is ready.
pub fn server_is_ready(ready_replicas: Option<i32>) -> (r: bool)
    ensures
        r == (ready_replicas matches Some(n) && n > 0),
{
    match ready_replicas {
        Some(n) => n > 0,
        None => false,
    }
}

/// What is said of a conflict.
pub const CONFLICT_MESSAGE: &'static str =
    "spec.policy.inline contains groups with members while spec.scim is set; SCIM owns the groups section — remove member entries from 'groups' in spec.policy.inline";

/// An Ingress that refers to the instance and is in a namespace that it watches.
pub open spec fn contributes(
    ingress: IngressObject,
    instance: Seq<char>,
    watched: Seq<Seq<char>>,
) -> bool {
    let namespace = match ingress.namespace {
        Some(ns) => ns@,
        None => Seq::empty(),
    };
    ingress_annotations::named_field(ingress.config.deep_view(), "headscale-ref"@) == Some(instance)
        && headscale_instance::allows(watched, namespace)
}

/// The positions of those that contribute, in order.
pub open spec fn contributing(
    ingresses: Seq<IngressObject>,
    instance: Seq<char>,
    watched: Seq<Seq<char>>,
) -> Seq<usize>
    decreases ingresses.len(),
{
    if ingresses.len() == 0 {
        Seq::empty()
    } else {
        let rest = contributing(ingresses.drop_last(), instance, watched);
        if contributes(ingresses.last(), instance, watched) {
            rest.push((ingresses.len() - 1) as usize)
        } else {
            rest
        }
    }
}

/// Whether an Ingress that names the instance `named` belongs to `instance`.
pub fn names_instance(named: Option<&String>, instance: &str) -> (r: bool)
    ensures
        r == (named matches Some(name) && name@ == instance@),
{
    match named {
        Some(name) => text::same(name.as_str(), instance),
        None => false,
    }
}

/// Lists the positions of the Ingresses that refer to the instance and are in a
/// namespace that it watches.
pub fn list_contributing_ingresses(
    ingresses: &Vec<IngressObject>,
    instance: &str,
    watched: &Vec<String>,
) -> (r: Vec<usize>)
    ensures
        r@ == contributing(ingresses@, instance@, watched.deep_view()),
{
    let ghost all = ingresses@;
    let mut out: Vec<usize> = Vec::new();
    let mut i: usize = 0;
    proof {
        assert(all.take(0) =~= Seq::<IngressObject>::empty());
    }
    while i < ingresses.len()
        invariant
            i <= ingresses@.len(),
            all == ingresses@,
            out@ == contributing(all.take(i as int), instance@, watched.deep_view()),
        decreases ingresses@.len() - i,
    {
        proof {
            assert(all.take(i + 1).drop_last() =~= all.take(i as int));
            assert(all.take(i + 1).last() == all[i as int]);
        }
        let ingress: &IngressObject = &ingresses[i];
        let named: Option<String> = match &ingress.config {
            Some(text) => IngressAnnotations::headscale_ref(Some(text.as_str())),
            None => None,
        };
        let allowed: bool = match &ingress.namespace {
            Some(ns) => headscale_instance::is_allowed(watched, ns.as_str()),
            None => {
                proof {
                    reveal_strlit("");
                    assert(""@ =~= Seq::<char>::empty());
                }
                headscale_instance::is_allowed(watched, "")
            },
        };
        if names_instance(named.as_ref(), instance) && allowed {
            out.push(i);
        }
        i += 1;
    }
    proof {
        assert(all.take(i as int) =~= all);
    }
    out
}

/// The resources of a headscale server, in the order in which they are applied.
pub struct HeadscaleResources {
    pub config_map: serde_json::Value,
    pub service: serde_json::Value,
    pub statefulset: serde_json::Value,
}

/// Builds the resources of an instance's headscale server.
pub fn ensure_headscale(instance: &str, image: &str, spec: &HeadscaleInstanceSpec) -> (r: Result<
    HeadscaleResources,
    serde_yaml::Error,
>)
    ensures
        ({
            let name = "headscale-server-"@ + instance@;
            let file = crate::json::yaml_text(
                crate::json::Json::Object(
                    builders::config(
                        spec.server_url@,
                        spec.dns_base_domain@,
                        crate::json::held(spec.extra_config@),
                    ),
                ),
            );
            &&& r is Ok <==> file is Some
            &&& r matches Ok(built) ==> {
                &&& crate::json::json(built.config_map) == builders::config_map(
                    name,
                    "config.yaml"@,
                    file->0,
                )
                &&& crate::json::json(built.service) == builders::service(name)
                &&& crate::json::json(built.statefulset) == builders::statefulset(
                    name,
                    image@,
                    spec.storage,
                    match spec.resources {
                        Some(v) => Some(crate::json::json(v)),
                        None => None,
                    },
                    builders::text_hash(file->0),
                )
            }
        }),
{
    let name: String = text::cat2("headscale-server-", instance);
    match builders::build_configmap(
        name.as_str(),
        spec.server_url.as_str(),
        spec.dns_base_domain.as_str(),
        &spec.extra_config,
    ) {
        Ok((config_map, hash)) => Ok(
            HeadscaleResources {
                config_map,
                service: builders::headscale_service(name.as_str()),
                statefulset: builders::desired_statefulset(
                    name.as_str(),
                    image,
                    &spec.storage,
                    spec.resources.as_ref(),
                    hash.as_str(),
                ),
            },
        ),
        Err(e) => Err(e),
    }
}

// Laws.

/// The stage that a course of events leads to, as long as the work goes on.
pub open spec fn stage_after<E>(facts: Facts, events: Seq<Event<E>>) -> Option<Stage<E>>
    decreases events.len(),
{
    if events.len() == 0 {
        Some(Stage::Begin)
    } else {
        match stage_after(facts, events.drop_last()) {
            Some(stage) => match next(facts, stage, events.last()) {
                Step::Do(_, after) => Some(after),
                _ => None,
            },
            None => None,
        }
    }
}

/// What lies behind a stage.
proof fn course<E>(facts: Facts, events: Seq<Event<E>>)
    ensures
        stage_after(facts, events) matches Some(stage) ==> {
            let n = events.len();
            &&& stage is Begin ==> n == 0
            &&& stage is Headscale ==> n == 1
            &&& stage is StatefulSet ==> n == 2
            &&& stage is ApiKey ==> n == 3
            &&& stage is Ingresses ==> n == 4
            &&& stage is Policy ==> n == 5
            &&& stage is Scim ==> n == 6
            &&& stage is StatefulSet || stage is ApiKey || stage is Ingresses || stage is Policy
                || stage is Scim ==> events[1] is Done
            &&& stage is ApiKey || stage is Ingresses || stage is Policy || stage is Scim
                ==> events[2] == Event::<E>::Ready(true)
            &&& stage is Ingresses || stage is Policy || stage is Scim ==> events[3] is Done && !(
            facts.has_scim && facts.has_groups)
            &&& stage is Policy || stage is Scim ==> events[4] is Done
            &&& stage is Scim ==> events[5] is Done
        },
    decreases events.len(),
{
    if events.len() > 0 {
        course(facts, events.drop_last());
        assert(events.last() == events[events.len() - 1]);
    }
}

/// An instance is reported ready only after its children were applied, its server
/// was found ready, and its API key, the list of its Ingresses, its policy and its
/// SCIM service have all been dealt with without a failure.
pub proof fn ready_comes_last<E>(facts: Facts, events: Seq<Event<E>>, event: Event<E>)
    requires
        stage_after(facts, events) matches Some(stage) && next(facts, stage, event) matches Step::Do(
            Action::Report(Report::Ready),
            _,
        ),
    ensures
        events.len() == 6,
        events[1] is Done,
        events[2] == Event::<E>::Ready(true),
        events[3] is Done,
        events[4] is Done,
        events[5] is Done,
        event is Done,
        !(facts.has_scim && facts.has_groups),
{
    course(facts, events);
}

/// The server's policy is touched only once the server was found ready, and never
/// while the instance's own policy has groups that SCIM owns.
pub proof fn policy_needs_a_ready_server<E>(facts: Facts, events: Seq<Event<E>>)
    requires
        stage_after(facts, events) matches Some(stage) && stage is Policy,
    ensures
        events.len() == 5,
        events[2] == Event::<E>::Ready(true),
        !(facts.has_scim && facts.has_groups),
{
    course(facts, events);
}

/// A failure after the server was found ready is reported as such, and then the
/// work ends with it.
pub proof fn late_failure_is_reported<E>(facts: Facts, stage: Stage<E>, e: E, after: Event<E>)
    requires
        stage is ApiKey || stage is Ingresses || stage is Policy || stage is Scim,
        after is Done || after is Failed,
    ensures
        next(facts, stage, Event::Failed(e)) == Step::<E>::Do(
            Action::Report(Report::Failed),
            Stage::ReportedFailure(e),
        ),
        next(facts, Stage::ReportedFailure(e), after) == Step::<E>::Fail(e),
{
}

/// A good instance is brought up step by step: its children, the server, the API key, the policy,
/// the SCIM service where it has one and its removal where it has none, and then it is reported
/// ready and looked at again after a minute.
pub proof fn good_instance_is_brought_up<E>(facts: Facts, published: Event<E>)
    requires
        !(facts.has_scim && facts.has_groups),
        published is Done || published is Failed,
    ensures
        facts.has_scim
            ==> (next(facts, Stage::Begin, Event::<E>::Start)
            matches Step::Do(Action::EnsureHeadscale, a0)
            && (next(facts, a0, Event::<E>::Done) matches Step::Do(Action::GetStatefulSet, a1)
            && (next(facts, a1, Event::<E>::Ready(true)) matches Step::Do(Action::EnsureApiKey, a2)
            && (next(facts, a2, Event::<E>::Done) matches Step::Do(Action::ListIngresses, a3)
            && (next(facts, a3, Event::<E>::Done) matches Step::Do(Action::SyncPolicy, a4)
            && (next(facts, a4, Event::<E>::Done) matches Step::Do(Action::EnsureScim, a5)
            && (next(facts, a5, Event::<E>::Done)
            matches Step::Do(Action::Report(Report::Ready), a6)
            && (next(facts, a6, Event::<E>::Done) matches Step::Do(Action::PublishTransitions, a7)
            && next(facts, a7, published) == Step::<E>::End(Schedule::Requeue(60)))))))))),
        !facts.has_scim
            ==> (next(facts, Stage::Begin, Event::<E>::Start)
            matches Step::Do(Action::EnsureHeadscale, a0)
            && (next(facts, a0, Event::<E>::Done) matches Step::Do(Action::GetStatefulSet, a1)
            && (next(facts, a1, Event::<E>::Ready(true)) matches Step::Do(Action::EnsureApiKey, a2)
            && (next(facts, a2, Event::<E>::Done) matches Step::Do(Action::ListIngresses, a3)
            && (next(facts, a3, Event::<E>::Done) matches Step::Do(Action::SyncPolicy, a4)
            && (next(facts, a4, Event::<E>::Done) matches Step::Do(Action::DeleteScim, a5)
            && (next(facts, a5, Event::<E>::Done)
            matches Step::Do(Action::Report(Report::Ready), a6)
            && (next(facts, a6, Event::<E>::Done) matches Step::Do(Action::PublishTransitions, a7)
            && next(facts, a7, published) == Step::<E>::End(Schedule::Requeue(60)))))))))),
{
}

/// Children that cannot be applied, a server that is not ready, and a policy with groups that SCIM
/// owns are reported as such. The first and the last end the work with an error, the other has it
/// done again soon.
pub proof fn bad_instance_is_reported<E>(facts: Facts, e: E, settled: Event<E>)
    requires
        settled is Done || settled is Failed,
    ensures
        next(facts, Stage::Begin, Event::<E>::Start) matches Step::Do(Action::EnsureHeadscale, a0)
            && (next(facts, a0, Event::Failed(e))
            matches Step::Do(Action::Report(Report::ChildFailed), a1)
            && next(facts, a1, settled) == Step::<E>::Fail(e)),
        next(facts, Stage::Begin, Event::<E>::Start) matches Step::Do(Action::EnsureHeadscale, a0)
            && (next(facts, a0, Event::<E>::Done) matches Step::Do(Action::GetStatefulSet, a1)
            && (next(facts, a1, Event::<E>::Ready(false))
            matches Step::Do(Action::Report(Report::NotReady), a2)
            && (next(facts, a2, Event::<E>::Done) matches Step::Do(Action::PublishTransitions, a3)
            && next(facts, a3, settled) == Step::<E>::End(Schedule::Requeue(10))))),
        facts.has_scim && facts.has_groups
            ==> (next(facts, Stage::Begin, Event::<E>::Start)
            matches Step::Do(Action::EnsureHeadscale, a0)
            && (next(facts, a0, Event::<E>::Done) matches Step::Do(Action::GetStatefulSet, a1)
            && (next(facts, a1, Event::<E>::Ready(true)) matches Step::Do(Action::EnsureApiKey, a2)
            && (next(facts, a2, Event::<E>::Done)
            matches Step::Do(Action::Report(Report::Conflict), a3)
            && next(facts, a3, settled) == Step::<E>::Conflict)))),
        next(facts, Stage::StatefulSet, Event::Failed(e)) == Step::<E>::Fail(e),
        forall|schedule: Schedule| #[trigger] next(facts, Stage::Reported(schedule),
            Event::Failed(e)) == Step::<E>::Fail(e),
{
}

/// The reasons that reports give, and what they say.
pub proof fn reports_give_their_reasons(error: Seq<char>)
    ensures
        report_reason(Report::ChildFailed) == "ChildApplyFailed"@,
        report_reason(Report::NotReady) == "StatefulSetNotReady"@,
        report_reason(Report::Conflict) == "ScimPolicyConflict"@,
        report_reason(Report::Failed) == "ReconcileFailed"@,
        report_reason(Report::Ready) == "StatefulSetReady"@,
        report_message(Report::ChildFailed, error) == "failed to apply child resource: "@ + error,
        report_message(Report::NotReady, error) == "headscale StatefulSet is not yet ready"@,
        report_message(Report::Conflict, error) == error,
        report_message(Report::Failed, error) == error,
        report_message(Report::Ready, error) == "headscale StatefulSet is ready"@,
{
}

/// The Ingresses that contribute to an instance are exactly those that name it under
/// `headscale-ref` and are in a namespace that it watches, in their order; an instance that
/// names no namespaces watches all.
pub proof fn contributing_ingresses_name_the_instance(
    ingresses: Seq<IngressObject>,
    instance: Seq<char>,
    watched: Seq<Seq<char>>,
    i: int,
)
    requires
        ingresses.len() <= usize::MAX,
    ensures
        forall|a: int, b: int|
            0 <= a < b < contributing(ingresses, instance, watched).len()
                ==> #[trigger] contributing(ingresses, instance, watched)[a]
                < #[trigger] contributing(ingresses, instance, watched)[b],
        0 <= i < ingresses.len() ==> (contributing(ingresses, instance, watched).contains(
            i as usize,
        ) <==> {
            let x = ingresses[i];
            let namespace = if x.namespace is Some {
                x.namespace->0@
            } else {
                Seq::empty()
            };
            &&& x.config is Some
            &&& crate::json::json_text(x.config->0@) matches Some(crate::json::Json::Object(m))
            &&& m.dom().contains("headscale-ref"@)
            &&& m["headscale-ref"@] == crate::json::Json::Text(instance)
            &&& watched.len() == 0 || watched.contains(namespace)
        }),
        forall|a: int|
            0 <= a < contributing(ingresses, instance, watched).len()
                ==> #[trigger] contributing(ingresses, instance, watched)[a] < ingresses.len(),
    decreases ingresses.len(),
{
    if ingresses.len() > 0 {
        let fewer = ingresses.drop_last();
        let rest = contributing(fewer, instance, watched);
        let all = contributing(ingresses, instance, watched);
        contributing_ingresses_name_the_instance(fewer, instance, watched, i);
        let last = (ingresses.len() - 1) as usize;
        if contributes(ingresses.last(), instance, watched) {
            assert(all == rest.push(last));
            assert forall|a: int, b: int| 0 <= a < b < all.len() implies #[trigger] all[a]
                < #[trigger] all[b] by {
                assert(all[a] == rest[a]);
                if b < rest.len() {
                    assert(all[b] == rest[b]);
                }
            }
            assert forall|a: int| 0 <= a < all.len() implies #[trigger] all[a]
                < ingresses.len() by {
                if a < rest.len() {
                    assert(all[a] == rest[a]);
                }
            }
            assert(all[rest.len() as int] == last);
        }
        if 0 <= i < ingresses.len() {
            if all.contains(i as usize) {
                let a = choose|a: int| 0 <= a < all.len() && all[a] == i as usize;
                if a < rest.len() {
                    assert(rest[a] == i as usize);
                    assert(rest[a] < fewer.len());
                }
            }
            if rest.contains(i as usize) {
                let a = choose|a: int| 0 <= a < rest.len() && rest[a] == i as usize;
                assert(all[a] == i as usize);
                assert(rest[a] < fewer.len());
            }
        }
    }
}

} // verus!
