//! The steps that bring the proxy of an adopted Ingress up, or give the Ingress
//! back when it is no longer the operator's.
//!
//! [`advance`] takes the stage that the work is in and what came of the last
//! action, and says what to do next. Nothing is read or written here.
use crate::controllers::ingress::names;
use crate::controllers::ingress::reconcile::ApplyFacts;
use crate::controllers::outcome::Schedule;
use crate::json;
use crate::json::Json;
use crate::table;
use crate::table::Table;
use crate::text;
use crate::types::ingress_annotations::{AccessV, IngressAccessGrant};
use vstd::prelude::*;

verus! {

/// Warnings that are published on an Ingress.
#[derive(Clone, Copy, Debug, PartialEq, Eq, Structural)]
pub enum Warning {
    InstanceMissing,
    NamespaceExcluded,
    InstanceNotReady,
    EmptyGrant,
    NoPathRules,
    BackendPending,
    NotRegistered,
}

/// What an instance says of an Ingress.
#[derive(Clone, Copy, Debug, PartialEq, Eq, Structural)]
pub struct InstanceState {
    /// It accepts Ingresses of that namespace.
    pub allowed: bool,
    /// It is ready.
    pub ready: bool,
}

/// What the state Secret says of an earlier registration with another instance.
#[derive(Clone, Copy, Debug, PartialEq, Eq, Structural)]
pub enum Retarget {
    /// The proxy was registered with this instance, or not at all.
    Keep,
    /// The proxy was registered with another instance, as this node.
    FromNode(u64),
    /// The proxy was meant for another instance and no node is known.
    FromNothing,
}

/// What the state Secret says of the proxy.
#[derive(Clone, Copy, Debug, PartialEq, Eq, Structural)]
pub struct Registration {
    /// The proxy has a device.
    pub registered: bool,
    /// The node of the device.
    pub node_id: Option<u64>,
    /// The device has an address.
    pub has_ip: bool,
}

/// Something to do for an Ingress.
#[derive(Clone, Copy, Debug, PartialEq, Eq, Structural)]
pub enum Action {
    /// Read the Ingress's namespace.
    GetNamespace,
    /// Read the instance that the Ingress refers to.
    GetInstance,
    /// Publish a warning; that may fail.
    Warn(Warning),
    /// Deregister the proxy's node and delete the proxy's resources.
    Deregister,
    /// Delete the proxy's resources; that may fail.
    DeleteProxy,
    /// Give up ownership of the Ingress.
    Release,
    /// Work out the routes of the Ingress.
    CollectRoutes,
    /// Connect to the headscale server.
    Connect,
    /// Apply the WireGuard Service.
    ApplyWireguard,
    /// Read the state Secret.
    GetStateSecret,
    /// Connect to the headscale server that the proxy was registered with before.
    ConnectOld,
    /// Delete this node there.
    DeleteOldNode(u64),
    /// Delete the Secret with the pre-auth key.
    DeleteConfigSecret,
    /// Delete the state Secret.
    DeleteStateSecret,
    /// Make sure that there is a pre-auth key.
    EnsureAuthKey,
    /// Make sure that there is a state Secret, and read it.
    EnsureStateSecret,
    /// Apply the serve configuration.
    ApplyServeConfig,
    /// Apply the proxy's access rights.
    ApplyRbac,
    /// Apply the proxy itself.
    ApplyProxy,
    /// Set the tags of this node.
    SetTags(u64),
    /// Report the proxy's address on the Ingress.
    PatchStatus,
    /// Publish that the Ingress is ready; that may fail.
    PublishReady,
    /// Record on the Ingress which deployment manages it.
    RecordOwner,
}

/// What follows a warning.
#[derive(Clone, Copy, Debug, PartialEq, Eq, Structural)]
pub enum AfterWarning {
    Stop(Schedule),
    /// Deregister, and release the Ingress if so marked.
    Deregister { release: bool },
    /// Record the owner.
    Record { tags_failed: bool },
}

/// Where the work on an Ingress stands: what it is waiting for.
#[derive(Clone, Copy, Debug, PartialEq, Eq, Structural)]
pub enum Stage {
    Begin,
    Namespace,
    Instance,
    Warned(AfterWarning),
    Deregistered { release: bool },
    Released,
    Routes,
    Connected,
    Wireguard,
    StateSecret,
    OldConnected(u64),
    OldNode,
    ConfigSecretGone,
    StateSecretGone,
    AuthKey,
    State,
    ServeConfig(Registration),
    Rbac(Registration),
    Proxy(Registration),
    Tags(Registration),
    Status { tags_failed: bool },
    Ready { tags_failed: bool },
    Owner { tags_failed: bool },
}

/// What came of the last action.
pub enum Event<E> {
    /// Nothing yet: the work begins.
    Start,
    /// It was done.
    Done,
    /// What it was about is not there.
    Absent,
    /// It failed.
    Failed(E),
    /// Whether the namespace is being deleted.
    Namespace { deleting: bool },
    /// The instance is there.
    Instance(InstanceState),
    /// The Ingress has no path rules.
    NoRules,
    /// The number of routes.
    Routes(usize),
    /// What the state Secret says of an earlier registration.
    Retarget(Retarget),
    /// The pre-auth key waits for its user.
    Waiting,
    /// What the state Secret says of the proxy.
    State(Registration),
}

/// What comes next.
pub enum Step<E> {
    /// Do this, and go on with what comes of it.
    Do(Action, Stage),
    /// The work is over.
    End(Schedule),
    /// The Ingress's configuration is not valid, which is an error.
    Invalid,
    /// The work is over with this error.
    Fail(E),
    /// The event does not belong to the stage.
    Unexpected,
}

/// The Ingress is given up without a node to deregister: only the proxy's resources
/// are deleted.
pub open spec fn only_deletes(facts: ApplyFacts) -> bool {
    (!facts.is_class || !facts.is_ours) && !facts.has_ref
}

/// How the work begins: an Ingress that is not for this deployment is given up, and
/// one whose configuration is not valid is an error.
pub open spec fn begin<E>(facts: ApplyFacts) -> Step<E> {
    if !facts.is_class || !facts.is_ours {
        Step::Do(
            if facts.has_ref {
                Action::Deregister
            } else {
                Action::DeleteProxy
            },
            Stage::Deregistered { release: true },
        )
    } else if !facts.is_valid {
        Step::Invalid
    } else {
        Step::Do(Action::GetNamespace, Stage::Namespace)
    }
}

/// What the instance's answer leads to.
pub open spec fn with_instance<E>(facts: ApplyFacts, state: InstanceState) -> Step<E> {
    if !state.allowed {
        Step::Do(
            Action::Warn(Warning::NamespaceExcluded),
            Stage::Warned(AfterWarning::Deregister { release: true }),
        )
    } else if !state.ready {
        Step::Do(
            Action::Warn(Warning::InstanceNotReady),
            Stage::Warned(AfterWarning::Stop(Schedule::Requeue(5))),
        )
    } else if facts.has_empty_grant {
        Step::Do(
            Action::Warn(Warning::EmptyGrant),
            Stage::Warned(AfterWarning::Stop(Schedule::AwaitChange)),
        )
    } else {
        Step::Do(Action::CollectRoutes, Stage::Routes)
    }
}

/// What follows once the node's tags have been dealt with.
pub open spec fn report<E>(r: Registration, tags_failed: bool) -> Step<E> {
    if !r.registered {
        Step::Do(
            Action::Warn(Warning::NotRegistered),
            Stage::Warned(AfterWarning::Record { tags_failed }),
        )
    } else if r.has_ip {
        Step::Do(Action::PatchStatus, Stage::Status { tags_failed })
    } else {
        Step::Do(Action::RecordOwner, Stage::Owner { tags_failed })
    }
}

/// What follows a warning.
pub open spec fn after_warning<E>(next: AfterWarning) -> Step<E> {
    match next {
        AfterWarning::Stop(schedule) => Step::End(schedule),
        AfterWarning::Deregister { release } => Step::Do(
            Action::Deregister,
            Stage::Deregistered { release },
        ),
        AfterWarning::Record { tags_failed } => Step::Do(
            Action::RecordOwner,
            Stage::Owner { tags_failed },
        ),
    }
}

/// What follows an action that must succeed.
pub open spec fn must<E>(event: Event<E>, next: Step<E>) -> Step<E> {
    match event {
        Event::Done => next,
        Event::Failed(e) => Step::Fail(e),
        _ => Step::Unexpected,
    }
}

/// What follows an action that may fail.
pub open spec fn may<E>(event: Event<E>, next: Step<E>) -> Step<E> {
    match event {
        Event::Done => next,
        Event::Failed(_) => next,
        _ => Step::Unexpected,
    }
}

/// What follows an action whose object may be gone already.
pub open spec fn must_or_absent<E>(event: Event<E>, next: Step<E>) -> Step<E> {
    match event {
        Event::Done => next,
        Event::Absent => next,
        Event::Failed(e) => Step::Fail(e),
        _ => Step::Unexpected,
    }
}

/// The course of the work on an Ingress.
pub open spec fn next<E>(facts: ApplyFacts, stage: Stage, event: Event<E>) -> Step<E> {
    match stage {
        Stage::Begin => match event {
            Event::Start => begin(facts),
            _ => Step::Unexpected,
        },
        Stage::Namespace => match event {
            Event::Namespace { deleting } => if deleting {
                Step::End(Schedule::AwaitChange)
            } else {
                Step::Do(Action::GetInstance, Stage::Instance)
            },
            Event::Failed(e) => Step::Fail(e),
            _ => Step::Unexpected,
        },
        Stage::Instance => match event {
            Event::Instance(state) => with_instance(facts, state),
            Event::Absent => Step::Do(
                Action::Warn(Warning::InstanceMissing),
                Stage::Warned(AfterWarning::Stop(Schedule::Requeue(30))),
            ),
            Event::Failed(e) => Step::Fail(e),
            _ => Step::Unexpected,
        },
        Stage::Warned(then_what) => may(event, after_warning(then_what)),
        Stage::Deregistered { release } => {
            let after = if release {
                Step::Do(Action::Release, Stage::Released)
            } else {
                Step::End(Schedule::AwaitChange)
            };
            if only_deletes(facts) {
                may(event, after)
            } else {
                must(event, after)
            }
        },
        Stage::Released => must(event, Step::End(Schedule::AwaitChange)),
        Stage::Routes => match event {
            Event::NoRules => Step::Do(
                Action::Warn(Warning::NoPathRules),
                Stage::Warned(AfterWarning::Deregister { release: false }),
            ),
            Event::Routes(n) => if n == 0 {
                Step::Do(
                    Action::Warn(Warning::BackendPending),
                    Stage::Warned(AfterWarning::Stop(Schedule::Requeue(30))),
                )
            } else {
                Step::Do(Action::Connect, Stage::Connected)
            },
            _ => Step::Unexpected,
        },
        Stage::Connected => must(event, Step::Do(Action::ApplyWireguard, Stage::Wireguard)),
        Stage::Wireguard => must(event, Step::Do(Action::GetStateSecret, Stage::StateSecret)),
        Stage::StateSecret => match event {
            Event::Retarget(Retarget::Keep) => Step::Do(Action::EnsureAuthKey, Stage::AuthKey),
            Event::Retarget(Retarget::FromNode(id)) => Step::Do(
                Action::ConnectOld,
                Stage::OldConnected(id),
            ),
            Event::Retarget(Retarget::FromNothing) => Step::Do(
                Action::DeleteConfigSecret,
                Stage::ConfigSecretGone,
            ),
            Event::Absent => Step::Do(Action::EnsureAuthKey, Stage::AuthKey),
            Event::Failed(e) => Step::Fail(e),
            _ => Step::Unexpected,
        },
        Stage::OldConnected(id) => match event {
            Event::Done => Step::Do(Action::DeleteOldNode(id), Stage::OldNode),
            Event::Absent => Step::Do(Action::DeleteConfigSecret, Stage::ConfigSecretGone),
            Event::Failed(e) => Step::Fail(e),
            _ => Step::Unexpected,
        },
        Stage::OldNode => must_or_absent(
            event,
            Step::Do(Action::DeleteConfigSecret, Stage::ConfigSecretGone),
        ),
        Stage::ConfigSecretGone => must_or_absent(
            event,
            Step::Do(Action::DeleteStateSecret, Stage::StateSecretGone),
        ),
        Stage::StateSecretGone => must_or_absent(
            event,
            Step::Do(Action::EnsureAuthKey, Stage::AuthKey),
        ),
        Stage::AuthKey => match event {
            Event::Done => Step::Do(Action::EnsureStateSecret, Stage::State),
            Event::Waiting => Step::End(Schedule::Requeue(30)),
            Event::Failed(e) => Step::Fail(e),
            _ => Step::Unexpected,
        },
        Stage::State => match event {
            Event::State(r) => Step::Do(Action::ApplyServeConfig, Stage::ServeConfig(r)),
            Event::Failed(e) => Step::Fail(e),
            _ => Step::Unexpected,
        },
        Stage::ServeConfig(r) => must(event, Step::Do(Action::ApplyRbac, Stage::Rbac(r))),
        Stage::Rbac(r) => must(event, Step::Do(Action::ApplyProxy, Stage::Proxy(r))),
        Stage::Proxy(r) => must(
            event,
            match r.node_id {
                Some(id) => Step::Do(Action::SetTags(id), Stage::Tags(r)),
                None => report(r, false),
            },
        ),
        Stage::Tags(r) => match event {
            Event::Done => report(r, false),
            Event::Failed(_) => report(r, true),
            _ => Step::Unexpected,
        },
        Stage::Status { tags_failed } => must(
            event,
            Step::Do(Action::PublishReady, Stage::Ready { tags_failed }),
        ),
        Stage::Ready { tags_failed } => may(
            event,
            Step::Do(Action::RecordOwner, Stage::Owner { tags_failed }),
        ),
        Stage::Owner { tags_failed } => must(
            event,
            Step::End(
                if tags_failed {
                    Schedule::Requeue(30)
                } else {
                    Schedule::AwaitChange
                },
            ),
        ),
    }
}

fn required<E>(event: Event<E>, next: Step<E>) -> (r: Step<E>)
    ensures
        r == must(event, next),
{
    match event {
        Event::Done => next,
        Event::Failed(e) => Step::Fail(e),
        _ => Step::Unexpected,
    }
}

fn optional<E>(event: Event<E>, next: Step<E>) -> (r: Step<E>)
    ensures
        r == may(event, next),
{
    match event {
        Event::Done => next,
        Event::Failed(_) => next,
        _ => Step::Unexpected,
    }
}

fn required_gone<E>(event: Event<E>, next: Step<E>) -> (r: Step<E>)
    ensures
        r == must_or_absent(event, next),
{
    match event {
        Event::Done => next,
        Event::Absent => next,
        Event::Failed(e) => Step::Fail(e),
        _ => Step::Unexpected,
    }
}

fn start<E>(facts: ApplyFacts) -> (r: Step<E>)
    ensures
        r == begin::<E>(facts),
{
    if !facts.is_class || !facts.is_ours {
        let action: Action = if facts.has_ref {
            Action::Deregister
        } else {
            Action::DeleteProxy
        };
        return Step::Do(action, Stage::Deregistered { release: true });
    }
    if !facts.is_valid {
        return Step::Invalid;
    }
    Step::Do(Action::GetNamespace, Stage::Namespace)
}

fn judge<E>(facts: ApplyFacts, state: InstanceState) -> (r: Step<E>)
    ensures
        r == with_instance::<E>(facts, state),
{
    if !state.allowed {
        return Step::Do(
            Action::Warn(Warning::NamespaceExcluded),
            Stage::Warned(AfterWarning::Deregister { release: true }),
        );
    }
    if !state.ready {
        return Step::Do(
            Action::Warn(Warning::InstanceNotReady),
            Stage::Warned(AfterWarning::Stop(Schedule::Requeue(5))),
        );
    }
    if facts.has_empty_grant {
        return Step::Do(
            Action::Warn(Warning::EmptyGrant),
            Stage::Warned(AfterWarning::Stop(Schedule::AwaitChange)),
        );
    }
    Step::Do(Action::CollectRoutes, Stage::Routes)
}

fn publish<E>(r: Registration, tags_failed: bool) -> (s: Step<E>)
    ensures
        s == report::<E>(r, tags_failed),
{
    if !r.registered {
        return Step::Do(
            Action::Warn(Warning::NotRegistered),
            Stage::Warned(AfterWarning::Record { tags_failed }),
        );
    }
    if r.has_ip {
        Step::Do(Action::PatchStatus, Stage::Status { tags_failed })
    } else {
        Step::Do(Action::RecordOwner, Stage::Owner { tags_failed })
    }
}

/// Says what to do next for an Ingress.
pub fn advance<E>(facts: ApplyFacts, stage: Stage, event: Event<E>) -> (r: Step<E>)
    ensures
        r == next(facts, stage, event),
{
    match stage {
        Stage::Begin => match event {
            Event::Start => start(facts),
            _ => Step::Unexpected,
        },
        Stage::Namespace => match event {
            Event::Namespace { deleting: false } => Step::Do(Action::GetInstance, Stage::Instance),
            Event::Namespace { deleting: true } => Step::End(Schedule::AwaitChange),
            Event::Failed(e) => Step::Fail(e),
            _ => Step::Unexpected,
        },
        Stage::Instance => match event {
            Event::Instance(state) => judge(facts, state),
            Event::Absent => Step::Do(
                Action::Warn(Warning::InstanceMissing),
                Stage::Warned(AfterWarning::Stop(Schedule::Requeue(30))),
            ),
            Event::Failed(e) => Step::Fail(e),
            _ => Step::Unexpected,
        },
        Stage::Warned(AfterWarning::Stop(schedule)) => optional(event, Step::End(schedule)),
        Stage::Warned(AfterWarning::Deregister { release }) => optional(
            event,
            Step::Do(Action::Deregister, Stage::Deregistered { release }),
        ),
        Stage::Warned(AfterWarning::Record { tags_failed }) => optional(
            event,
            Step::Do(Action::RecordOwner, Stage::Owner { tags_failed }),
        ),
        Stage::Deregistered { release } => {
            let after: Step<E> = if release {
                Step::Do(Action::Release, Stage::Released)
            } else {
                Step::End(Schedule::AwaitChange)
            };
            if (!facts.is_class || !facts.is_ours) && !facts.has_ref {
                optional(event, after)
            } else {
                required(event, after)
            }
        },
        Stage::Released => required(event, Step::End(Schedule::AwaitChange)),
        Stage::Routes => match event {
            Event::NoRules => Step::Do(
                Action::Warn(Warning::NoPathRules),
                Stage::Warned(AfterWarning::Deregister { release: false }),
            ),
            Event::Routes(n) => if n == 0 {
                Step::Do(
                    Action::Warn(Warning::BackendPending),
                    Stage::Warned(AfterWarning::Stop(Schedule::Requeue(30))),
                )
            } else {
                Step::Do(Action::Connect, Stage::Connected)
            },
            _ => Step::Unexpected,
        },
        Stage::Connected => required(event, Step::Do(Action::ApplyWireguard, Stage::Wireguard)),
        Stage::Wireguard => required(event, Step::Do(Action::GetStateSecret, Stage::StateSecret)),
        Stage::StateSecret => match event {
            Event::Retarget(Retarget::Keep) => Step::Do(Action::EnsureAuthKey, Stage::AuthKey),
            Event::Retarget(Retarget::FromNode(id)) => Step::Do(
                Action::ConnectOld,
                Stage::OldConnected(id),
            ),
            Event::Retarget(Retarget::FromNothing) => Step::Do(
                Action::DeleteConfigSecret,
                Stage::ConfigSecretGone,
            ),
            Event::Absent => Step::Do(Action::EnsureAuthKey, Stage::AuthKey),
            Event::Failed(e) => Step::Fail(e),
            _ => Step::Unexpected,
        },
        Stage::OldConnected(id) => match event {
            Event::Done => Step::Do(Action::DeleteOldNode(id), Stage::OldNode),
            Event::Absent => Step::Do(Action::DeleteConfigSecret, Stage::ConfigSecretGone),
            Event::Failed(e) => Step::Fail(e),
            _ => Step::Unexpected,
        },
        Stage::OldNode => required_gone(
            event,
            Step::Do(Action::DeleteConfigSecret, Stage::ConfigSecretGone),
        ),
        Stage::ConfigSecretGone => required_gone(
            event,
            Step::Do(Action::DeleteStateSecret, Stage::StateSecretGone),
        ),
        Stage::StateSecretGone => required_gone(
            event,
            Step::Do(Action::EnsureAuthKey, Stage::AuthKey),
        ),
        Stage::AuthKey => match event {
            Event::Done => Step::Do(Action::EnsureStateSecret, Stage::State),
            Event::Waiting => Step::End(Schedule::Requeue(30)),
            Event::Failed(e) => Step::Fail(e),
            _ => Step::Unexpected,
        },
        Stage::State => match event {
            Event::State(r) => Step::Do(Action::ApplyServeConfig, Stage::ServeConfig(r)),
            Event::Failed(e) => Step::Fail(e),
            _ => Step::Unexpected,
        },
        Stage::ServeConfig(r) => required(event, Step::Do(Action::ApplyRbac, Stage::Rbac(r))),
        Stage::Rbac(r) => required(event, Step::Do(Action::ApplyProxy, Stage::Proxy(r))),
        Stage::Proxy(r) => match r.node_id {
            Some(id) => required(event, Step::Do(Action::SetTags(id), Stage::Tags(r))),
            None => required(event, publish(r, false)),
        },
        Stage::Tags(r) => match event {
            Event::Done => publish(r, false),
            Event::Failed(_) => publish(r, true),
            _ => Step::Unexpected,
        },
        Stage::Status { tags_failed } => required(
            event,
            Step::Do(Action::PublishReady, Stage::Ready { tags_failed }),
        ),
        Stage::Ready { tags_failed } => optional(
            event,
            Step::Do(Action::RecordOwner, Stage::Owner { tags_failed }),
        ),
        Stage::Owner { tags_failed } => if tags_failed {
            required(event, Step::End(Schedule::Requeue(30)))
        } else {
            required(event, Step::End(Schedule::AwaitChange))
        },
    }
}

/// The reason that a warning gives.
pub open spec fn warning_reason(warning: Warning) -> Seq<char> {
    match warning {
        Warning::InstanceMissing => "Pending"@,
        Warning::NamespaceExcluded => "NamespaceExcluded"@,
        Warning::InstanceNotReady => "Pending"@,
        Warning::EmptyGrant => "InvalidConfig"@,
        Warning::NoPathRules => "NoPathRules"@,
        Warning::BackendPending => "Pending"@,
        Warning::NotRegistered => "ProxyNotRegistered"@,
    }
}

/// Says which reason a warning gives.
pub fn reason(warning: Warning) -> (r: &'static str)
    ensures
        r@ == warning_reason(warning),
{
    match warning {
        Warning::InstanceMissing => "Pending",
        Warning::NamespaceExcluded => "NamespaceExcluded",
        Warning::InstanceNotReady => "Pending",
        Warning::EmptyGrant => "InvalidConfig",
        Warning::NoPathRules => "NoPathRules",
        Warning::BackendPending => "Pending",
        Warning::NotRegistered => "ProxyNotRegistered",
    }
}

/// What a warning says.
pub open spec fn warning_note(
    warning: Warning,
    headscale_ref: Seq<char>,
    namespace: Seq<char>,
    name: Seq<char>,
    config_secret: Seq<char>,
) -> Seq<char> {
    match warning {
        Warning::InstanceMissing => "HeadscaleInstance '"@ + headscale_ref + "' does not exist"@,
        Warning::NamespaceExcluded => "namespace '"@ + namespace
            + "' is not in HeadscaleInstance '"@ + headscale_ref
            + "' watchedNamespaces; this Ingress is now orphaned"@,
        Warning::InstanceNotReady => "HeadscaleInstance '"@ + headscale_ref
            + "' is not yet ready"@,
        Warning::EmptyGrant => "access grant 'from' must not be empty"@,
        Warning::NoPathRules =>
            "Ingress has no HTTP path rules; add spec.rules with at least one backend"@,
        Warning::BackendPending =>
            "backend Service not yet available; waiting for named port to resolve"@,
        Warning::NotRegistered => "proxy for Ingress '"@ + name
            + "' has not registered with headscale; if this persists beyond the auth-key expiry window, delete the Secret '"@
            + config_secret + "' to force key rotation"@,
    }
}

/// Writes what a warning says about the Ingress `namespace`/`name`.
pub fn note(
    warning: Warning,
    headscale_ref: &str,
    namespace: &str,
    name: &str,
    config_secret: &str,
) -> (r: String)
    ensures
        r@ == warning_note(warning, headscale_ref@, namespace@, name@, config_secret@),
{
    match warning {
        Warning::InstanceMissing => text::cat3(
            "HeadscaleInstance '",
            headscale_ref,
            "' does not exist",
        ),
        Warning::NamespaceExcluded => text::cat5(
            "namespace '",
            namespace,
            "' is not in HeadscaleInstance '",
            headscale_ref,
            "' watchedNamespaces; this Ingress is now orphaned",
        ),
        Warning::InstanceNotReady => text::cat3(
            "HeadscaleInstance '",
            headscale_ref,
            "' is not yet ready",
        ),
        Warning::EmptyGrant => "access grant 'from' must not be empty".to_owned(),
        Warning::NoPathRules => {
            "Ingress has no HTTP path rules; add spec.rules with at least one backend".to_owned()
        },
        Warning::BackendPending => {
            "backend Service not yet available; waiting for named port to resolve".to_owned()
        },
        Warning::NotRegistered => text::cat5(
            "proxy for Ingress '",
            name,
            "' has not registered with headscale; if this persists beyond the auth-key expiry window, delete the Secret '",
            config_secret,
            "' to force key rotation",
        ),
    }
}

/// Reads off a state Secret whether the proxy of an Ingress that refers to
/// `headscale_ref` was registered with another instance.
pub fn retarget(
    old_ref: Option<&String>,
    device_id: Option<&String>,
    headscale_ref: &str,
) -> (r: Retarget)
    ensures
        match old_ref {
            Some(old) if old@ != headscale_ref@ => match device_id {
                Some(id) => match text::number_of(id@) {
                    Some(n) => r == Retarget::FromNode(n),
                    None => r == Retarget::FromNothing,
                },
                None => r == Retarget::FromNothing,
            },
            _ => r == Retarget::Keep,
        },
{
    match old_ref {
        Some(old) => {
            if text::same(old.as_str(), headscale_ref) {
                return Retarget::Keep;
            }
            match device_id {
                Some(id) => match text::parse_number(id.as_str()) {
                    Some(n) => Retarget::FromNode(n),
                    None => Retarget::FromNothing,
                },
                None => Retarget::FromNothing,
            }
        },
        None => Retarget::Keep,
    }
}

/// Reads off a state Secret how far the proxy has come.
pub fn registration(device_id: Option<&String>, device_ips: &Vec<String>) -> (r: Registration)
    ensures
        r == (Registration {
            registered: device_id is Some,
            node_id: match device_id {
                Some(id) => text::number_of(id@),
                None => None,
            },
            has_ip: device_ips@.len() > 0,
        }),
{
    let node_id: Option<u64> = match device_id {
        Some(id) => text::parse_number(id.as_str()),
        None => None,
    };
    Registration { registered: device_id.is_some(), node_id, has_ip: device_ips.len() > 0 }
}

/// The tag that the operator gives the proxy: only an Ingress with access grants
/// has one.
pub fn proxy_tag(namespace: &str, name: &str, access: &Vec<IngressAccessGrant>) -> (r: Option<
    String,
>)
    ensures
        r.deep_view() == (if access@.len() > 0 {
            Some(names::auto_tag(namespace@, name@))
        } else {
            None
        }),
{
    if access.len() > 0 {
        Some(names::ingress_auto_tag(namespace, name))
    } else {
        None
    }
}

/// The tags that the node of a proxy should have, in order and each once: those
/// that the Ingress names and the operator's own.
pub fn desired_tags(managed: &Vec<String>, auto_tag: Option<&String>) -> (r: Vec<String>)
    ensures
        table::ascending(r.deep_view()),
        forall|tag: Seq<char>|
            #![trigger r.deep_view().contains(tag)]
            r.deep_view().contains(tag) <==> managed.deep_view().contains(tag) || (
            auto_tag matches Some(own) && own@ == tag),
{
    let mut tags: Table<()> = Table::new();
    tags.add_all(managed);
    if let Some(own) = auto_tag {
        tags.insert(own.clone(), ());
    }
    let out: Vec<String> = tags.keys();
    proof {
        assert forall|tag: Seq<char>|
            #![trigger out.deep_view().contains(tag)]
            out.deep_view().contains(tag) <==> managed.deep_view().contains(tag) || (
            auto_tag matches Some(own) && own@ == tag) by {
            assert(out.deep_view().contains(tag) <==> out.deep_view().to_set().contains(tag));
            assert(managed.deep_view().contains(tag) <==> managed.deep_view().to_set().contains(
                tag,
            ));
        }
    }
    out
}

/// A capability that an access grant gives.
pub open spec fn grant_gives(access: AccessV, capability: Seq<char>) -> bool {
    access.capabilities matches Some(Json::Object(caps)) && caps.dom().contains(capability)
}

/// A capability that one of the access grants gives.
pub open spec fn gives(access: Seq<AccessV>, capability: Seq<char>) -> bool {
    exists|i: int| 0 <= i < access.len() && grant_gives(#[trigger] access[i], capability)
}

/// The names of the capabilities that the access grants give, in order and each
/// once.
pub fn capability_names(access: &Vec<IngressAccessGrant>) -> (r: Vec<String>)
    ensures
        table::ascending(r.deep_view()),
        forall|capability: Seq<char>|
            #![trigger r.deep_view().contains(capability)]
            r.deep_view().contains(capability) <==> gives(access.deep_view(), capability),
{
    let ghost all = access.deep_view();
    let mut found: Table<()> = Table::new();
    let mut i: usize = 0;
    while i < access.len()
        invariant
            i <= access@.len(),
            all == access.deep_view(),
            forall|c: Seq<char>|
                #![trigger found@.dom().contains(c)]
                found@.dom().contains(c) <==> gives(all.take(i as int), c),
        decreases access@.len() - i,
    {
        let ghost before = found@.dom();
        let ghost now = all.take(i + 1);
        proof {
            assert(now[i as int] == access@[i as int].deep_view());
            let before = all.take(i as int);
            assert forall|c: Seq<char>| gives(now, c) <==> gives(before, c) || grant_gives(
                now[i as int],
                c,
            ) by {
                if gives(before, c) {
                    let j = choose|j: int|
                        0 <= j < before.len() && grant_gives(#[trigger] before[j], c);
                    assert(now[j] == before[j]);
                }
                if gives(now, c) {
                    let j = choose|j: int| 0 <= j < now.len() && grant_gives(#[trigger] now[j], c);
                    if j < i {
                        assert(now[j] == before[j]);
                    }
                }
            }
        }
        if let Some(caps) = &access[i].capabilities {
            if let Some(names) = json::field_names(caps) {
                found.add_all(&names);
                proof {
                    assert forall|c: Seq<char>|
                        #![trigger found@.dom().contains(c)]
                        found@.dom().contains(c) <==> gives(now, c) by {
                        assert(before.contains(c) <==> gives(all.take(i as int), c));
                    }
                }
            }
        }
        i += 1;
    }
    proof {
        assert(all.take(i as int) =~= all);
    }
    let out: Vec<String> = found.keys();
    proof {
        assert forall|c: Seq<char>|
            #![trigger out.deep_view().contains(c)]
            out.deep_view().contains(c) <==> gives(all, c) by {
            assert(out.deep_view().contains(c) <==> out.deep_view().to_set().contains(c));
            assert(found@.dom().contains(c) <==> gives(all, c));
        }
    }
    out
}

/// The address of an instance's server inside the cluster.
pub fn internal_url(headscale_ref: &str, operator_namespace: &str) -> (r: String)
    ensures
        r@ == "http://headscale-server-"@ + headscale_ref@ + "."@ + operator_namespace@
            + ".svc.cluster.local:8080"@,
{
    text::cat5(
        "http://headscale-server-",
        headscale_ref,
        ".",
        operator_namespace,
        ".svc.cluster.local:8080",
    )
}

/// The name of the proxy in the tailnet.
pub fn tailnet_fqdn(hostname: &str, dns_base_domain: &str) -> (r: String)
    ensures
        r@ == hostname@ + "."@ + dns_base_domain@,
{
    text::cat3(hostname, ".", dns_base_domain)
}

/// The stage that a course of events leads to, as long as the work goes on.
pub open spec fn stage_after<E>(facts: ApplyFacts, events: Seq<Event<E>>) -> Option<Stage>
    decreases events.len(),
{
    if events.len() == 0 {
        Some(Stage::Begin)
    } else {
        match stage_after(facts, events.drop_last()) {
            Some(stage) => match next(facts, stage, events.last()) {
                Step::Do(_, after) => Some(after),
                _ => None,
            },
            None => None,
        }
    }
}

/// The stages in which the proxy is being brought up.
pub open spec fn provisions(stage: Stage) -> bool {
    match stage {
        Stage::Begin => false,
        Stage::Namespace => false,
        Stage::Instance => false,
        Stage::Warned(AfterWarning::Stop(_)) => false,
        Stage::Warned(AfterWarning::Deregister { .. }) => false,
        Stage::Deregistered { .. } => false,
        Stage::Released => false,
        Stage::Routes => false,
        _ => true,
    }
}

/// The namespace was found alive.
pub open spec fn saw_namespace<E>(events: Seq<Event<E>>) -> bool {
    exists|i: int|
        0 <= i < events.len() && #[trigger] events[i] == (Event::<E>::Namespace {
            deleting: false,
        })
}

/// The instance was found to accept the namespace and to be ready.
pub open spec fn saw_instance<E>(events: Seq<Event<E>>) -> bool {
    exists|i: int|
        0 <= i < events.len() && #[trigger] events[i] == Event::<E>::Instance(
            InstanceState { allowed: true, ready: true },
        )
}

/// The Ingress was found to have a backend.
pub open spec fn saw_routes<E>(events: Seq<Event<E>>) -> bool {
    exists|i: int|
        0 <= i < events.len() && (#[trigger] events[i] matches Event::Routes(n) && n > 0)
}

proof fn seen_stays<E>(events: Seq<Event<E>>)
    requires
        events.len() > 0,
    ensures
        saw_namespace(events.drop_last()) ==> saw_namespace(events),
        saw_instance(events.drop_last()) ==> saw_instance(events),
        saw_routes(events.drop_last()) ==> saw_routes(events),
{
    let before = events.drop_last();
    assert forall|i: int| 0 <= i < before.len() implies #[trigger] before[i] == events[i] by {}
    if saw_namespace(before) {
        let i = choose|i: int|
            0 <= i < before.len() && #[trigger] before[i] == (Event::<E>::Namespace {
                deleting: false,
            });
        assert(events[i] == before[i]);
    }
    if saw_instance(before) {
        let i = choose|i: int|
            0 <= i < before.len() && #[trigger] before[i] == Event::<E>::Instance(
                InstanceState { allowed: true, ready: true },
            );
        assert(events[i] == before[i]);
    }
    if saw_routes(before) {
        let i = choose|i: int|
            0 <= i < before.len() && (#[trigger] before[i] matches Event::Routes(n) && n > 0);
        assert(events[i] == before[i]);
    }
}

/// A proxy is brought up only for an Ingress of the operator's class that belongs
/// to this deployment, is valid and has no empty grant, and only after its
/// namespace was found alive, its instance willing and ready, and a backend there.
pub proof fn provisioning_passes_all_gates<E>(facts: ApplyFacts, events: Seq<Event<E>>)
    requires
        stage_after(facts, events) matches Some(stage) && provisions(stage),
    ensures
        facts.is_class,
        facts.is_ours,
        facts.is_valid,
        !facts.has_empty_grant,
        saw_namespace(events),
        saw_instance(events),
        saw_routes(events),
{
    gates(facts, events);
}

proof fn gates<E>(facts: ApplyFacts, events: Seq<Event<E>>)
    ensures
        stage_after(facts, events) matches Some(stage) ==> {
            let own = facts.is_class && facts.is_ours && facts.is_valid;
            &&& stage is Namespace ==> own
            &&& stage is Instance ==> own && saw_namespace(events)
            &&& stage is Routes ==> own && !facts.has_empty_grant && saw_namespace(events)
                && saw_instance(events)
            &&& provisions(stage) ==> own && !facts.has_empty_grant && saw_namespace(events)
                && saw_instance(events) && saw_routes(events)
        },
    decreases events.len(),
{
    if events.len() > 0 {
        gates(facts, events.drop_last());
        seen_stays(events);
        assert(events[events.len() - 1] == events.last());
    }
}

/// After a change of instance, the Secrets of the old registration are deleted
/// only when its node is known to be gone, or no node was known.
pub proof fn secrets_outlive_the_old_node<E>(facts: ApplyFacts, stage: Stage, event: Event<E>)
    requires
        next(facts, stage, event) matches Step::Do(Action::DeleteConfigSecret, _),
    ensures
        ({
            ||| stage is StateSecret && event == Event::<E>::Retarget(Retarget::FromNothing)
            ||| stage is OldConnected && event is Absent
            ||| stage is OldNode && (event is Done || event is Absent)
        }),
{
}

/// The operator gives an Ingress up only after its proxy has been taken down, or
/// after the deletion of its resources was tried where there was no node to
/// deregister.
pub proof fn release_follows_deregistration<E>(facts: ApplyFacts, stage: Stage, event: Event<E>)
    requires
        next(facts, stage, event) matches Step::Do(Action::Release, _),
    ensures
        stage == (Stage::Deregistered { release: true }),
        event is Done || (event is Failed && only_deletes(facts)),
{
}

/// An Ingress that is no longer the operator's is taken down and given up, whatever
/// else is known of it; that its resources cannot be deleted does not stop that.
pub proof fn lost_ingress_is_given_up<E>(facts: ApplyFacts)
    requires
        !facts.is_class || !facts.is_ours,
    ensures
        next(facts, Stage::Begin, Event::<E>::Start) matches Step::Do(action, stage) && (action
            == Action::Deregister || action == Action::DeleteProxy) && next(
            facts,
            stage,
            Event::<E>::Done,
        ) == Step::<E>::Do(Action::Release, Stage::Released) && (action == Action::DeleteProxy
            ==> forall|e: E| #[trigger]
            next(facts, stage, Event::Failed(e)) == Step::<E>::Do(
                Action::Release,
                Stage::Released,
            )) && next(
            facts,
            Stage::Released,
            Event::<E>::Done,
        ) == Step::<E>::End(Schedule::AwaitChange),
{
}

/// A good Ingress whose instance is ready and whose backends are there gets its proxy step by
/// step: the connection, the WireGuard Service, the pre-auth key, the state, and then the proxy
/// itself.
pub proof fn good_ingress_is_brought_up<E>(
    facts: ApplyFacts,
    routes: usize,
    secret: Event<E>,
    state: Registration,
)
    requires
        facts.is_class,
        facts.is_ours,
        facts.is_valid,
        !facts.has_empty_grant,
        routes > 0,
        secret is Absent || secret == Event::<E>::Retarget(Retarget::Keep),
    ensures
        next(facts, Stage::Begin, Event::<E>::Start) matches Step::Do(Action::GetNamespace, a0)
            && (next(facts, a0, Event::<E>::Namespace { deleting: false })
            matches Step::Do(Action::GetInstance, a1)
            && (next(facts, a1, Event::<E>::Instance(InstanceState { allowed: true, ready: true }))
            matches Step::Do(Action::CollectRoutes, a2)
            && (next(facts, a2, Event::<E>::Routes(routes)) matches Step::Do(Action::Connect, a3)
            && (next(facts, a3, Event::<E>::Done) matches Step::Do(Action::ApplyWireguard, a4)
            && (next(facts, a4, Event::<E>::Done) matches Step::Do(Action::GetStateSecret, a5)
            && (next(facts, a5, secret) matches Step::Do(Action::EnsureAuthKey, a6)
            && (next(facts, a6, Event::<E>::Done) matches Step::Do(Action::EnsureStateSecret, a7)
            && (next(facts, a7, Event::<E>::State(state))
            matches Step::Do(Action::ApplyServeConfig, a8)
            && (next(facts, a8, Event::<E>::Done) matches Step::Do(Action::ApplyRbac, a9)
            && next(facts, a9, Event::<E>::Done)
            == Step::<E>::Do(Action::ApplyProxy, Stage::Proxy(state))))))))))),
{
}

/// Once the proxy is applied, its node gets its tags, its address is reported, that it is ready is
/// published, and the owner is recorded. A tag that cannot be set does not stop that, but the work
/// is done again soon.
pub proof fn registered_proxy_is_reported<E>(facts: ApplyFacts, id: u64, e: E, published: Event<E>)
    requires
        published is Done || published is Failed,
    ensures
        ({
            let state = Registration { registered: true, node_id: Some(id), has_ip: true };
            &&& next(facts, Stage::Proxy(state), Event::<E>::Done)
                matches Step::Do(Action::SetTags(node), a0) && node == id
                && next(facts, a0, Event::<E>::Done)
                == Step::<E>::Do(Action::PatchStatus, Stage::Status { tags_failed: false })
            &&& next(facts, Stage::Proxy(state), Event::<E>::Done)
                matches Step::Do(Action::SetTags(_), a0)
                && next(facts, a0, Event::Failed(e))
                == Step::<E>::Do(Action::PatchStatus, Stage::Status { tags_failed: true })
        }),
        next(facts, Stage::Status { tags_failed: false }, Event::<E>::Done)
            matches Step::Do(Action::PublishReady, a0)
            && (next(facts, a0, published) matches Step::Do(Action::RecordOwner, a1)
            && next(facts, a1, Event::<E>::Done) == Step::<E>::End(Schedule::AwaitChange)),
        next(facts, Stage::Status { tags_failed: true }, Event::<E>::Done)
            matches Step::Do(Action::PublishReady, a0)
            && (next(facts, a0, published) matches Step::Do(Action::RecordOwner, a1)
            && next(facts, a1, Event::<E>::Done) == Step::<E>::End(Schedule::Requeue(30))),
{
}

/// A proxy that has not registered yet is warned of, one without an address is not reported, and
/// one without a known node gets no tags; the owner is recorded all the same.
pub proof fn unregistered_proxy_is_waited_for<E>(
    facts: ApplyFacts,
    state: Registration,
    warned: Event<E>,
)
    requires
        state.node_id is None,
        warned is Done || warned is Failed,
    ensures
        !state.registered
            ==> (next(facts, Stage::Proxy(state), Event::<E>::Done)
            matches Step::Do(Action::Warn(Warning::NotRegistered), a0)
            && (next(facts, a0, warned) matches Step::Do(Action::RecordOwner, a1)
            && next(facts, a1, Event::<E>::Done) == Step::<E>::End(Schedule::AwaitChange))),
        state.registered && !state.has_ip
            ==> (next(facts, Stage::Proxy(state), Event::<E>::Done)
            matches Step::Do(Action::RecordOwner, a0)
            && next(facts, a0, Event::<E>::Done) == Step::<E>::End(Schedule::AwaitChange)),
        state.registered && state.has_ip
            ==> next(facts, Stage::Proxy(state), Event::<E>::Done) == Step::<E>::Do(
            Action::PatchStatus,
            Stage::Status { tags_failed: false },
        ),
{
}

/// An Ingress whose instance is missing waits for it; one in a namespace that the instance excludes
/// is warned of, taken down and given up; one whose instance is not ready is looked at again soon;
/// and one with an empty grant waits for a change. Whether the warning can be published does not
/// matter.
pub proof fn instance_decides_on_the_ingress<E>(facts: ApplyFacts, ready: bool, warned: Event<E>)
    requires
        facts.is_class,
        facts.is_ours,
        facts.is_valid,
        warned is Done || warned is Failed,
    ensures
        next(facts, Stage::Begin, Event::<E>::Start) matches Step::Do(Action::GetNamespace, a0)
            && (next(facts, a0, Event::<E>::Namespace { deleting: false })
            matches Step::Do(Action::GetInstance, a1)
            && (next(facts, a1, Event::<E>::Absent)
            matches Step::Do(Action::Warn(Warning::InstanceMissing), a2)
            && next(facts, a2, warned) == Step::<E>::End(Schedule::Requeue(30)))),
        next(facts, Stage::Begin, Event::<E>::Start) matches Step::Do(Action::GetNamespace, a0)
            && (next(facts, a0, Event::<E>::Namespace { deleting: false })
            matches Step::Do(Action::GetInstance, a1)
            && (next(facts, a1, Event::<E>::Instance(InstanceState { allowed: false,
            ready: ready })) matches Step::Do(Action::Warn(Warning::NamespaceExcluded), a2)
            && (next(facts, a2, warned) matches Step::Do(Action::Deregister, a3)
            && (next(facts, a3, Event::<E>::Done) matches Step::Do(Action::Release, a4)
            && next(facts, a4, Event::<E>::Done) == Step::<E>::End(Schedule::AwaitChange))))),
        next(facts, Stage::Begin, Event::<E>::Start) matches Step::Do(Action::GetNamespace, a0)
            && (next(facts, a0, Event::<E>::Namespace { deleting: false })
            matches Step::Do(Action::GetInstance, a1)
            && (next(facts, a1, Event::<E>::Instance(InstanceState { allowed: true, ready: false }))
            matches Step::Do(Action::Warn(Warning::InstanceNotReady), a2)
            && next(facts, a2, warned) == Step::<E>::End(Schedule::Requeue(5)))),
        facts.has_empty_grant
            ==> (next(facts, Stage::Begin, Event::<E>::Start)
            matches Step::Do(Action::GetNamespace, a0)
            && (next(facts, a0, Event::<E>::Namespace { deleting: false })
            matches Step::Do(Action::GetInstance, a1)
            && (next(facts, a1, Event::<E>::Instance(InstanceState { allowed: true, ready: true }))
            matches Step::Do(Action::Warn(Warning::EmptyGrant), a2)
            && next(facts, a2, warned) == Step::<E>::End(Schedule::AwaitChange)))),
{
}

/// An Ingress without path rules is warned of and taken down, but stays the operator's; one whose
/// backends are not there yet is looked at again.
pub proof fn ingress_needs_a_backend<E>(facts: ApplyFacts, warned: Event<E>)
    requires
        facts.is_class,
        facts.is_ours,
        facts.is_valid,
        !facts.has_empty_grant,
        warned is Done || warned is Failed,
    ensures
        next(facts, Stage::Begin, Event::<E>::Start) matches Step::Do(Action::GetNamespace, a0)
            && (next(facts, a0, Event::<E>::Namespace { deleting: false })
            matches Step::Do(Action::GetInstance, a1)
            && (next(facts, a1, Event::<E>::Instance(InstanceState { allowed: true, ready: true }))
            matches Step::Do(Action::CollectRoutes, a2)
            && (next(facts, a2, Event::<E>::NoRules)
            matches Step::Do(Action::Warn(Warning::NoPathRules), a3)
            && (next(facts, a3, warned) matches Step::Do(Action::Deregister, a4)
            && next(facts, a4, Event::<E>::Done) == Step::<E>::End(Schedule::AwaitChange))))),
        next(facts, Stage::Begin, Event::<E>::Start) matches Step::Do(Action::GetNamespace, a0)
            && (next(facts, a0, Event::<E>::Namespace { deleting: false })
            matches Step::Do(Action::GetInstance, a1)
            && (next(facts, a1, Event::<E>::Instance(InstanceState { allowed: true, ready: true }))
            matches Step::Do(Action::CollectRoutes, a2)
            && (next(facts, a2, Event::<E>::Routes(0))
            matches Step::Do(Action::Warn(Warning::BackendPending), a3)
            && next(facts, a3, warned) == Step::<E>::End(Schedule::Requeue(30))))),
{
}

/// An Ingress that is not for this deployment is deregistered where it names an instance, and only
/// its resources are deleted where it names none. One whose configuration is not valid is an
/// error. In a namespace that goes away nothing is done.
pub proof fn work_begins_with_the_facts<E>(facts: ApplyFacts)
    ensures
        (!facts.is_class || !facts.is_ours) && facts.has_ref
            ==> (next(facts, Stage::Begin, Event::<E>::Start)
            matches Step::Do(Action::Deregister, a0)
            && (next(facts, a0, Event::<E>::Done) matches Step::Do(Action::Release, a1)
            && next(facts, a1, Event::<E>::Done) == Step::<E>::End(Schedule::AwaitChange))),
        (!facts.is_class || !facts.is_ours) && !facts.has_ref
            ==> (next(facts, Stage::Begin, Event::<E>::Start)
            matches Step::Do(Action::DeleteProxy, a0)
            && (next(facts, a0, Event::<E>::Done) matches Step::Do(Action::Release, a1)
            && next(facts, a1, Event::<E>::Done) == Step::<E>::End(Schedule::AwaitChange))),
        facts.is_class && facts.is_ours && !facts.is_valid
            ==> next(facts, Stage::Begin, Event::<E>::Start) is Invalid,
        facts.is_class && facts.is_ours && facts.is_valid
            ==> (next(facts, Stage::Begin, Event::<E>::Start)
            matches Step::Do(Action::GetNamespace, a0)
            && next(facts, a0, Event::<E>::Namespace { deleting: true })
            == Step::<E>::End(Schedule::AwaitChange)),
{
}

/// A proxy that was registered with another instance leaves it first: its node there is deleted,
/// then the Secrets of that registration, and then there is a new key. What is gone already does
/// not stop that.
pub proof fn changed_instance_is_left_cleanly<E>(facts: ApplyFacts, id: u64, gone: Event<E>)
    requires
        gone is Done || gone is Absent,
    ensures
        next(facts, Stage::StateSecret, Event::<E>::Retarget(Retarget::FromNode(id)))
            matches Step::Do(Action::ConnectOld, a0)
            && (next(facts, a0, Event::<E>::Done) matches Step::Do(Action::DeleteOldNode(node), a1)
            && node == id && (next(facts, a1, gone) matches Step::Do(Action::DeleteConfigSecret, a2)
            && (next(facts, a2, gone) matches Step::Do(Action::DeleteStateSecret, a3)
            && next(facts, a3, gone) == Step::<E>::Do(Action::EnsureAuthKey, Stage::AuthKey)))),
        next(facts, Stage::StateSecret, Event::<E>::Retarget(Retarget::FromNode(id)))
            matches Step::Do(Action::ConnectOld, a0)
            && (next(facts, a0, Event::<E>::Absent) matches Step::Do(Action::DeleteConfigSecret, a1)
            && (next(facts, a1, gone) matches Step::Do(Action::DeleteStateSecret, a2)
            && next(facts, a2, gone) == Step::<E>::Do(Action::EnsureAuthKey, Stage::AuthKey))),
        next(facts, Stage::StateSecret, Event::<E>::Retarget(Retarget::FromNothing))
            matches Step::Do(Action::DeleteConfigSecret, a0)
            && (next(facts, a0, gone) matches Step::Do(Action::DeleteStateSecret, a1)
            && next(facts, a1, gone) == Step::<E>::Do(Action::EnsureAuthKey, Stage::AuthKey)),
        next(facts, Stage::AuthKey, Event::<E>::Waiting) == Step::<E>::End(Schedule::Requeue(30)),
{
}

/// Whatever must be done for the proxy and fails ends the work with its error.
pub proof fn failures_end_the_work<E>(facts: ApplyFacts, stage: Stage, e: E)
    requires
        match stage {
            Stage::Begin => false,
            Stage::Warned(_) => false,
            Stage::Deregistered { .. } => (facts.is_class && facts.is_ours) || facts.has_ref,
            Stage::Routes => false,
            Stage::Tags(_) => false,
            Stage::Ready { .. } => false,
            _ => true,
        },
    ensures
        next(facts, stage, Event::Failed(e)) == Step::<E>::Fail(e),
{
}

/// The reasons that warnings give.
pub proof fn warnings_give_their_reasons()
    ensures
        warning_reason(Warning::InstanceMissing) == "Pending"@,
        warning_reason(Warning::InstanceNotReady) == "Pending"@,
        warning_reason(Warning::BackendPending) == "Pending"@,
        warning_reason(Warning::NamespaceExcluded) == "NamespaceExcluded"@,
        warning_reason(Warning::EmptyGrant) == "InvalidConfig"@,
        warning_reason(Warning::NoPathRules) == "NoPathRules"@,
        warning_reason(Warning::NotRegistered) == "ProxyNotRegistered"@,
{
}

/// A warning names what it is about: the instance, the namespace that is excluded, or the
/// Ingress and the Secret with its key.
pub proof fn warnings_name_what_they_are_about(
    headscale_ref: Seq<char>,
    namespace: Seq<char>,
    name: Seq<char>,
    secret: Seq<char>,
)
    ensures
        ({
            let said = |w: Warning| warning_note(w, headscale_ref, namespace, name, secret);
            &&& said(Warning::InstanceMissing) == "HeadscaleInstance '"@ + headscale_ref
                + "' does not exist"@
            &&& said(Warning::InstanceNotReady) == "HeadscaleInstance '"@ + headscale_ref
                + "' is not yet ready"@
            &&& said(Warning::NamespaceExcluded) == "namespace '"@ + namespace
                + "' is not in HeadscaleInstance '"@ + headscale_ref
                + "' watchedNamespaces; this Ingress is now orphaned"@
            &&& said(Warning::NotRegistered) == "proxy for Ingress '"@ + name
                + "' has not registered with headscale; if this persists beyond the auth-key expiry window, delete the Secret '"@
                + secret + "' to force key rotation"@
            &&& said(Warning::EmptyGrant) == "access grant 'from' must not be empty"@
        }),
{
}

/// A capability is given by the access grants exactly where the capabilities of one of them
/// have it as a key.
pub proof fn capabilities_are_the_keys(access: Seq<AccessV>, capability: Seq<char>)
    ensures
        gives(access, capability) <==> exists|i: int|
            0 <= i < access.len() && (#[trigger] access[i]).capabilities is Some
                && access[i].capabilities->0 is Object
                && access[i].capabilities->0->Object_0.dom().contains(capability),
{
    if gives(access, capability) {
        let i = choose|i: int| 0 <= i < access.len()
            && grant_gives(#[trigger] access[i], capability);
        assert(access[i].capabilities is Some);
    }
    if exists|i: int|
        0 <= i < access.len() && (#[trigger] access[i]).capabilities is Some
            && access[i].capabilities->0 is Object
            && access[i].capabilities->0->Object_0.dom().contains(capability) {
        let i = choose|i: int|
            0 <= i < access.len() && (#[trigger] access[i]).capabilities is Some
                && access[i].capabilities->0 is Object
                && access[i].capabilities->0->Object_0.dom().contains(capability);
        assert(grant_gives(access[i], capability));
    }
}

} // verus!
