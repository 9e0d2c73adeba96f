//! The HeadscaleInstance resource.
use crate::table::Table;
use crate::text;
use crate::time;
use crate::time::Timestamp;
use crate::types::condition;
use crate::types::condition::{Condition, ConditionV, ResourceStatus};
use vstd::prelude::*;

verus! {

/// What a headscale control-plane instance should be.
pub struct HeadscaleInstanceSpec {
    /// The URL under which the server is reached.
    pub server_url: String,
    /// The domain of the node host names.
    pub dns_base_domain: String,
    /// Storage for the database.
    pub storage: StorageSpec,
    /// The access-control policy.
    pub policy: Option<HeadscaleInstancePolicy>,
    /// Extra labels for all child resources.
    pub labels: Table<String>,
    /// Extra configuration, merged into the headscale config file.
    pub extra_config: Table<serde_json::Value>,
    /// Resource requests and limits of the headscale container.
    pub resources: Option<serde_json::Value>,
    /// The SCIM server, where there is to be one.
    pub scim: Option<ScimSpec>,
    /// Namespaces whose Ingresses may refer to this instance; empty means all.
    pub watched_namespaces: Vec<String>,
}

/// Whether an instance accepts Ingresses of a namespace.
pub open spec fn allows(watched: Seq<Seq<char>>, namespace: Seq<char>) -> bool {
    watched.len() == 0 || watched.contains(namespace)
}

/// Whether an instance that watches these namespaces accepts Ingresses of
/// `namespace`.
pub fn is_allowed(watched: &Vec<String>, namespace: &str) -> (r: bool)
    ensures
        r == allows(watched.deep_view(), namespace@),
{
    watched.len() == 0 || text::contains(watched, namespace)
}

impl HeadscaleInstanceSpec {
    /// Whether Ingresses of `namespace` may refer to this instance.
    pub fn namespace_allowed(&self, namespace: &str) -> (r: bool)
        ensures
            r == allows(self.watched_namespaces.deep_view(), namespace@),
    {
        is_allowed(&self.watched_namespaces, namespace)
    }
}

/// The SCIM server of an instance.
pub struct ScimSpec {
    /// Storage for the mapping file.
    pub storage: StorageSpec,
    /// Which identifier stands for a user in the policy: `email`, `username` or
    /// `external_id`.
    pub policy_user_key: Option<String>,
    /// The OIDC issuer.
    pub oidc_issuer: Option<String>,
    /// Whether a changed identifier ends the user's sessions.
    pub expire_nodes_on_change: bool,
}

/// A persistent volume claim.
pub struct StorageSpec {
    /// The size of the claim.
    pub size: String,
    /// The storage class; the cluster's default without it.
    pub storage_class: Option<String>,
}

/// The access-control policy of an instance.
pub enum HeadscaleInstancePolicy {
    /// A policy document.
    Inline { inline: String },
}

/// What is known of an instance.
pub struct HeadscaleInstanceStatus {
    /// The generation of the spec that this is about.
    pub observed_generation: i64,
    /// The conditions of the instance.
    pub conditions: Vec<Condition>,
}

/// A [`HeadscaleInstanceStatus`] as plain values.
pub struct StatusV {
    pub observed_generation: i64,
    pub conditions: Seq<ConditionV>,
}

impl View for HeadscaleInstanceStatus {
    type V = StatusV;

    open spec fn view(&self) -> StatusV {
        StatusV {
            observed_generation: self.observed_generation,
            conditions: self.conditions.deep_view(),
        }
    }
}

impl Clone for HeadscaleInstanceStatus {
    fn clone(&self) -> (r: Self)
        ensures
            r@ == self@,
    {
        HeadscaleInstanceStatus {
            observed_generation: self.observed_generation,
            conditions: condition::copy_conditions(&self.conditions),
        }
    }
}

impl Default for HeadscaleInstanceStatus {
    fn default() -> (r: Self)
        ensures
            r.observed_generation == 0,
            r.conditions@.len() == 0,
    {
        HeadscaleInstanceStatus { observed_generation: 0, conditions: Vec::new() }
    }
}

impl ResourceStatus for HeadscaleInstanceStatus {
    open spec fn listed(&self) -> Seq<ConditionV> {
        self.conditions.deep_view()
    }

    fn conditions(&self) -> (r: &Vec<Condition>) {
        &self.conditions
    }

    fn conditions_mut(&mut self) -> (r: &mut Vec<Condition>)
        ensures
            final(self).observed_generation == old(self).observed_generation,
    {
        &mut self.conditions
    }

    fn set_observed_generation(&mut self, generation: i64)
        ensures
            final(self).observed_generation == generation,
            final(self).conditions == old(self).conditions,
    {
        self.observed_generation = generation;
    }

    fn update_ready_at(
        &mut self,
        is_ready: bool,
        reason: &str,
        message: &str,
        generation: i64,
        at: Timestamp,
    )
        ensures
            final(self)@ == with_ready(
                old(self)@,
                is_ready,
                reason@,
                message@,
                generation,
                at,
            ),
    {
        condition::set_condition_at(
            &mut self.conditions,
            "Ready",
            is_ready,
            reason.to_owned(),
            message.to_owned(),
            generation,
            at,
        );
        self.set_observed_generation(generation);
    }

    fn update_ready(&mut self, is_ready: bool, reason: &str, message: &str, generation: i64)
        ensures
            exists|at: Timestamp|
                time::on_the_clock(at) && final(self)@ == #[trigger] with_ready(
                    old(self)@,
                    is_ready,
                    reason@,
                    message@,
                    generation,
                    at,
                ),
    {
        let now: Timestamp = time::now();
        self.update_ready_at(is_ready, reason, message, generation, now);
    }
}

/// A status with the `Ready` condition set.
pub open spec fn with_ready(
    status: StatusV,
    is_ready: bool,
    reason: Seq<char>,
    message: Seq<char>,
    generation: i64,
    at: Timestamp,
) -> StatusV {
    StatusV {
        observed_generation: generation,
        conditions: condition::with_condition(
            status.conditions,
            ConditionV {
                type_: "Ready"@,
                status: condition::status_word(is_ready),
                reason,
                message,
                observed_generation: Some(generation),
                last_transition_time: at,
            },
        ),
    }
}

impl HeadscaleInstanceStatus {
    /// This status with the `Ready` condition set.
    pub fn reporting(
        &self,
        is_ready: bool,
        reason: &str,
        message: &str,
        generation: i64,
        at: Timestamp,
    ) -> (r: Self)
        ensures
            r@ == with_ready(self@, is_ready, reason@, message@, generation, at),
    {
        let mut status: HeadscaleInstanceStatus = self.clone();
        status.update_ready_at(is_ready, reason, message, generation, at);
        status
    }
}

// Laws.

/// Reporting on an instance records the generation that it is about, and leaves the `Ready`
/// condition saying whether it is ready, for that generation.
pub proof fn report_is_about_its_generation(
    status: StatusV,
    is_ready: bool,
    reason: Seq<char>,
    message: Seq<char>,
    generation: i64,
    at: Timestamp,
)
    ensures
        ({
            let after = with_ready(status, is_ready, reason, message, generation, at);
            &&& after.observed_generation == generation
            &&& condition::says_ready(after.conditions) == is_ready
            &&& exists|i: int|
                0 <= i < after.conditions.len() && (#[trigger] after.conditions[i]).type_
                    == "Ready"@ && after.conditions[i].reason == reason
                    && after.conditions[i].message == message
                    && after.conditions[i].observed_generation == Some(generation)
                    && after.conditions[i].status == (if is_ready {
                    "True"@
                } else {
                    "False"@
                })
        }),
{
    let new = ConditionV {
        type_: "Ready"@,
        status: condition::status_word(is_ready),
        reason,
        message,
        observed_generation: Some(generation),
        last_transition_time: at,
    };
    condition::readiness_is_what_was_written(status.conditions, is_ready, new);
    condition::written_condition_is_there(status.conditions, new);
    let after = with_ready(status, is_ready, reason, message, generation, at).conditions;
    assert(after == condition::with_condition(status.conditions, new));
    let i = choose|i: int|
        0 <= i < after.len() && (#[trigger] after[i]).type_ == new.type_ && after[i].status
            == new.status && after[i].reason == reason && after[i].message == message
            && after[i].observed_generation == Some(generation);
    assert(with_ready(status, is_ready, reason, message, generation, at).conditions[i].type_
        == "Ready"@);
}

/// An instance that names no namespaces accepts Ingresses of all of them, and one that names
/// some accepts those of exactly these.
pub proof fn watched_namespaces_are_accepted(watched: Seq<Seq<char>>, namespace: Seq<char>)
    ensures
        watched.len() == 0 ==> allows(watched, namespace),
        watched.len() > 0 ==> (allows(watched, namespace) <==> exists|i: int|
            0 <= i < watched.len() && #[trigger] watched[i] == namespace),
{
    if watched.contains(namespace) {
        let i = choose|i: int| 0 <= i < watched.len() && watched[i] == namespace;
        assert(watched[i] == namespace);
    }
}

/// A status stands for its generation and its conditions.
pub proof fn statuses_are_seen_as_they_are(status: HeadscaleInstanceStatus)
    ensures
        status.view().observed_generation == status.observed_generation,
        status.view().conditions == status.conditions.deep_view(),
{
}

} // verus!
