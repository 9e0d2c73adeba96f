//! The admission of HeadscaleInstances and Ingresses.
//!
//! An instance is admitted once headscale itself has accepted its configuration,
//! in a Job of its own.
use crate::controllers::applier;
use crate::controllers::headscale_instance::builders;
use crate::controllers::headscale_instance::policy;
use crate::controllers::headscale_instance::reconcile::CONFLICT_MESSAGE;
use crate::controllers::ingress::reconcile;
use crate::controllers::manifest;
use crate::json;
use crate::json::{Fields, Json, List};
use crate::labels;
use crate::policy_document;
use crate::text;
use crate::types::headscale_instance::{HeadscaleInstancePolicy, HeadscaleInstanceSpec};
use crate::types::ingress_annotations::IngressAccessGrant;
use vstd::prelude::*;

verus! {

/// The name of the test of an instance's configuration: what fits of the
/// instance's name, and the id of the request.
pub open spec fn test_name(instance: Seq<char>, uid: Seq<char>) -> Seq<char> {
    "configtest-"@ + text::shortened(instance, 15) + "-"@ + uid
}

/// Names the test of an instance's configuration.
pub fn configtest_name(instance_name: &str, uid: &str) -> (r: String)
    ensures
        r@ == test_name(instance_name@, uid@),
{
    text::cat4("configtest-", text::shorten(instance_name, 15), "-", uid)
}

/// The labels of the test's resources.
pub fn configtest_labels(instance_name: &str) -> (r: serde_json::Value)
    ensures
        json::json(r) == Json::Object(applier::selector("headscale"@, instance_name@)),
{
    let a: serde_json::Value = json::with_field(
        json::empty_object(),
        labels::APP_NAME.to_owned(),
        json::str_value("headscale"),
    );
    let b: serde_json::Value = json::with_field(
        a,
        labels::APP_INSTANCE.to_owned(),
        json::str_value(instance_name),
    );
    json::with_field(
        b,
        labels::APP_MANAGED_BY.to_owned(),
        json::str_value(labels::MANAGED_BY_VALUE),
    )
}

/// The metadata of the test's resources.
pub open spec fn test_metadata(namespace: Seq<char>, name: Seq<char>, instance: Seq<char>) -> Json {
    json::object(
        Seq::empty().push(("name"@, Json::Text(name))).push(
            ("namespace"@, Json::Text(namespace)),
        ).push(("labels"@, Json::Object(applier::selector("headscale"@, instance)))),
    )
}

fn build_metadata(namespace: &str, name: &str, instance_name: &str) -> (r: serde_json::Value)
    ensures
        json::json(r) == test_metadata(namespace@, name@, instance_name@),
{
    Fields::new().with_text("name", name).with_text("namespace", namespace).with(
        "labels",
        configtest_labels(instance_name),
    ).done()
}

/// The ConfigMap with the configuration under test.
pub fn configtest_configmap(
    namespace: &str,
    name: &str,
    instance_name: &str,
    config_yaml: &str,
) -> (r: serde_json::Value)
    ensures
        json::json(r) == json::object(
            Seq::empty().push(("apiVersion"@, Json::Text("v1"@))).push(
                ("kind"@, Json::Text("ConfigMap"@)),
            ).push(("metadata"@, test_metadata(namespace@, name@, instance_name@))).push(
                (
                    "data"@,
                    json::object(Seq::empty().push(("config.yaml"@, Json::Text(config_yaml@)))),
                ),
            ),
        ),
{
    Fields::new().with_text("apiVersion", "v1").with_text("kind", "ConfigMap").with(
        "metadata",
        build_metadata(namespace, name, instance_name),
    ).with("data", Fields::new().with_text("config.yaml", config_yaml).done()).done()
}

/// The container that tests a configuration.
pub open spec fn test_container(image: Seq<char>) -> Json {
    json::object(
        Seq::empty().push(("name"@, Json::Text("configtest"@))).push(
            ("image"@, Json::Text(image)),
        ).push(
            (
                "args"@,
                Json::Array(
                    Seq::empty().push(Json::Text("--config"@)).push(
                        Json::Text("/etc/headscale/config.yaml"@),
                    ).push(Json::Text("configtest"@)),
                ),
            ),
        ).push(("securityContext"@, manifest::hardened(true))).push(
            (
                "volumeMounts"@,
                Json::Array(
                    seq![json::object(
                        manifest::mount("config"@, "/etc/headscale"@).push(
                            ("readOnly"@, Json::Bool(true)),
                        ),
                    )],
                ),
            ),
        ),
    )
}

fn build_container(image: &str) -> (r: serde_json::Value)
    ensures
        json::json(r) == test_container(image@),
{
    let args: serde_json::Value = List::new().with_text("--config").with_text(
        "/etc/headscale/config.yaml",
    ).with_text("configtest").done();
    let mount: serde_json::Value = manifest::new_mount("config", "/etc/headscale").with(
        "readOnly",
        json::of_bool(true),
    ).done();
    Fields::new().with_text("name", "configtest").with_text("image", image).with(
        "args",
        args,
    ).with("securityContext", manifest::new_hardened(true)).with(
        "volumeMounts",
        List::new().with(mount).done(),
    ).done()
}

/// The Job that tests a configuration: one try, and gone a minute after.
pub open spec fn test_job(
    namespace: Seq<char>,
    image: Seq<char>,
    name: Seq<char>,
    instance: Seq<char>,
) -> Json {
    let security = json::object(
        manifest::unprivileged().push(("seccompProfile"@, manifest::default_seccomp())),
    );
    let pod = json::object(
        Seq::empty().push(("securityContext"@, security)).push(
            ("containers"@, Json::Array(seq![test_container(image)])),
        ).push(("restartPolicy"@, Json::Text("Never"@))).push(
            ("volumes"@, Json::Array(seq![manifest::config_volume("config"@, name)])),
        ),
    );
    json::object(
        Seq::empty().push(("apiVersion"@, Json::Text("batch/v1"@))).push(
            ("kind"@, Json::Text("Job"@)),
        ).push(("metadata"@, test_metadata(namespace, name, instance))).push(
            (
                "spec"@,
                json::object(
                    Seq::empty().push(("backoffLimit"@, json::whole(0))).push(
                        ("ttlSecondsAfterFinished"@, json::whole(60)),
                    ).push(("template"@, json::object(Seq::empty().push(("spec"@, pod))))),
                ),
            ),
        ),
    )
}

/// Builds the Job that tests a configuration.
pub fn configtest_job(namespace: &str, image: &str, name: &str, instance_name: &str) -> (r:
    serde_json::Value)
    ensures
        json::json(r) == test_job(namespace@, image@, name@, instance_name@),
{
    let security: serde_json::Value = manifest::new_unprivileged().with(
        "seccompProfile",
        manifest::new_default_seccomp(),
    ).done();
    let pod: serde_json::Value = Fields::new().with("securityContext", security).with(
        "containers",
        List::new().with(build_container(image)).done(),
    ).with_text("restartPolicy", "Never").with(
        "volumes",
        List::new().with(manifest::new_config_volume("config", name)).done(),
    ).done();
    let spec: serde_json::Value = Fields::new().with("backoffLimit", json::of_number(0)).with(
        "ttlSecondsAfterFinished",
        json::of_number(60),
    ).with("template", Fields::new().with("spec", pod).done()).done();
    Fields::new().with_text("apiVersion", "batch/v1").with_text("kind", "Job").with(
        "metadata",
        build_metadata(namespace, name, instance_name),
    ).with("spec", spec).done()
}

/// What to do with an admission request.
pub enum Admission {
    /// Admit it.
    Allow,
    /// Refuse it, for this reason.
    Deny(String),
    /// Refuse it: its configuration cannot be written.
    NoConfig(serde_yaml::Error),
    /// Have headscale test this configuration.
    Test(String),
}

/// The instance's policy has groups that its SCIM service owns.
pub open spec fn conflicts(spec: HeadscaleInstanceSpec) -> bool {
    spec.scim is Some && (spec.policy matches Some(HeadscaleInstancePolicy::Inline { inline })
        && text::trimmed(inline@).len() > 0 && (policy_document::hujson(inline@) matches Some(v)
        && exists|group: Seq<char>| policy::has_members(v, group)))
}

/// The answer to a request for an instance: a conflict and reserved keys are refused,
/// in this order, and anything else is for headscale to test.
pub open spec fn answers(spec: HeadscaleInstanceSpec, conflict: bool, r: Admission) -> bool {
    let extra = json::held(spec.extra_config@);
    let top = builders::top_violations(extra);
    let dns = builders::dns_violations(extra);
    let file = json::yaml_text(
        Json::Object(builders::config(spec.server_url@, spec.dns_base_domain@, extra)),
    );
    if conflict {
        r matches Admission::Deny(why) && why@ == CONFLICT_MESSAGE@
    } else if top.len() > 0 || dns.len() > 0 {
        r matches Admission::Deny(why) && why@ == builders::violation_message(top, dns)
    } else {
        match file {
            Some(text) => r matches Admission::Test(config) && config@ == text,
            None => r is NoConfig,
        }
    }
}

/// Decides on a request for an instance whose policy is known to conflict with its
/// SCIM service or not.
pub fn judge(spec: &HeadscaleInstanceSpec, conflict: bool) -> (r: Admission)
    ensures
        answers(*spec, conflict, r),
{
    if conflict {
        return Admission::Deny(CONFLICT_MESSAGE.to_owned());
    }
    match builders::check_reserved_keys(&spec.extra_config) {
        Ok(()) => {},
        Err(why) => {
            return Admission::Deny(why);
        },
    }
    match builders::build_config(
        spec.server_url.as_str(),
        spec.dns_base_domain.as_str(),
        &spec.extra_config,
    ) {
        Ok(config) => Admission::Test(config),
        Err(e) => Admission::NoConfig(e),
    }
}

/// Decides on an admission request. One without an instance is admitted.
pub fn validate(spec: Option<&HeadscaleInstanceSpec>) -> (r: Admission)
    ensures
        match spec {
            None => r is Allow,
            Some(spec) => answers(*spec, conflicts(*spec), r),
        },
{
    match spec {
        None => Admission::Allow,
        Some(spec) => {
            let conflict: bool = spec.scim.is_some() && policy::policy_has_groups_with_members(
                spec.policy.as_ref(),
            );
            judge(spec, conflict)
        },
    }
}

/// Decides on an Ingress by its access grants: each must name somebody.
pub fn validate_ingress(access: &Vec<IngressAccessGrant>) -> (r: Admission)
    ensures
        if reconcile::some_grant_is_empty(access.deep_view()) {
            r matches Admission::Deny(why) && why@ == "access grant 'from' must not be empty"@
        } else {
            r is Allow
        },
{
    if reconcile::has_empty_grant(access) {
        Admission::Deny("access grant 'from' must not be empty".to_owned())
    } else {
        Admission::Allow
    }
}

/// Why a request is refused whose configuration cannot be written.
pub fn config_refusal(error: &str) -> (r: String)
    ensures
        r@ == "failed to generate config: "@ + error@,
{
    text::cat2("failed to generate config: ", error)
}

/// What came of a test.
pub enum Verdict<E> {
    /// Headscale accepts the configuration.
    Valid,
    NoConfigMap(E),
    NoJob(E),
    TimedOut,
    WatchFailed(E),
    JobGone,
    /// Headscale refuses the configuration, and this is what it printed.
    Invalid(E),
    /// Headscale refuses the configuration.
    Refused,
}

/// How many seconds a Job has to succeed or fail.
pub const JOB_WAIT_SECS: u64 = 25;

/// How many seconds the pod of a Job has to end, so that its output is complete.
pub const POD_WAIT_SECS: u64 = 5;

/// Something to do for a test.
#[derive(Clone, Copy, Debug, PartialEq, Eq, Structural)]
pub enum Action {
    CreateConfigMap,
    CreateJob,
    /// Wait until the Job has succeeded or failed, or so many seconds are up.
    WaitForJob { secs: u64 },
    /// Wait until the Job's pod has ended, or so many seconds are up, and read what it
    /// printed.
    FetchLogs { secs: u64 },
    /// Delete the ConfigMap; that may fail.
    DeleteConfigMap,
    /// Delete the Job; that may fail.
    DeleteJob,
}

/// Where a test stands: what it is waiting for.
pub enum Stage<E> {
    Begin,
    ConfigMap,
    Job,
    Waiting,
    Logs,
    /// There was no Job; then the verdict is this.
    NoJob(Verdict<E>),
    ConfigMapGone(Verdict<E>),
    JobGone(Verdict<E>),
}

/// What came of the last action.
pub enum Event<E> {
    /// Nothing yet: the test begins.
    Start,
    /// It was done.
    Done,
    /// It failed.
    Failed(E),
    TimedOut,
    /// The Job is not there any more.
    Gone,
    /// The Job is over; whether it succeeded.
    Finished(bool),
    /// What the Job's pod printed.
    Printed(E),
}

/// What comes next.
pub enum Step<E> {
    /// Do this, and go on with what comes of it.
    Do(Action, Stage<E>),
    /// The test is over.
    End(Verdict<E>),
    /// The event does not belong to the stage.
    Unexpected,
}

/// Cleans up after a test with this verdict.
pub open spec fn clean_up<E>(verdict: Verdict<E>) -> Step<E> {
    Step::Do(Action::DeleteConfigMap, Stage::ConfigMapGone(verdict))
}

/// The course of a test.
pub open spec fn next<E>(stage: Stage<E>, event: Event<E>) -> Step<E> {
    match (stage, event) {
        (Stage::Begin, Event::Start) => Step::Do(Action::CreateConfigMap, Stage::ConfigMap),
        (Stage::ConfigMap, Event::Done) => Step::Do(Action::CreateJob, Stage::Job),
        (Stage::ConfigMap, Event::Failed(e)) => Step::End(Verdict::NoConfigMap(e)),
        (Stage::Job, Event::Done) => Step::Do(
            Action::WaitForJob { secs: JOB_WAIT_SECS },
            Stage::Waiting,
        ),
        (Stage::Job, Event::Failed(e)) => Step::Do(
            Action::DeleteConfigMap,
            Stage::NoJob(Verdict::NoJob(e)),
        ),
        (Stage::Waiting, Event::TimedOut) => clean_up(Verdict::TimedOut),
        (Stage::Waiting, Event::Failed(e)) => clean_up(Verdict::WatchFailed(e)),
        (Stage::Waiting, Event::Gone) => clean_up(Verdict::JobGone),
        (Stage::Waiting, Event::Finished(succeeded)) => if succeeded {
            clean_up(Verdict::Valid)
        } else {
            Step::Do(Action::FetchLogs { secs: POD_WAIT_SECS }, Stage::Logs)
        },
        (Stage::Logs, Event::Printed(text)) => clean_up(Verdict::Invalid(text)),
        (Stage::Logs, Event::Failed(_)) => clean_up(Verdict::Refused),
        (Stage::NoJob(verdict), Event::Done) => Step::End(verdict),
        (Stage::NoJob(verdict), Event::Failed(_)) => Step::End(verdict),
        (Stage::ConfigMapGone(verdict), Event::Done) => Step::Do(
            Action::DeleteJob,
            Stage::JobGone(verdict),
        ),
        (Stage::ConfigMapGone(verdict), Event::Failed(_)) => Step::Do(
            Action::DeleteJob,
            Stage::JobGone(verdict),
        ),
        (Stage::JobGone(verdict), Event::Done) => Step::End(verdict),
        (Stage::JobGone(verdict), Event::Failed(_)) => Step::End(verdict),
        _ => Step::Unexpected,
    }
}

/// Says what to do next for a test.
pub fn run_configtest<E>(stage: Stage<E>, event: Event<E>) -> (r: Step<E>)
    ensures
        r == next(stage, event),
{
    match stage {
        Stage::Begin => match event {
            Event::Start => Step::Do(Action::CreateConfigMap, Stage::ConfigMap),
            _ => Step::Unexpected,
        },
        Stage::ConfigMap => match event {
            Event::Done => Step::Do(Action::CreateJob, Stage::Job),
            Event::Failed(e) => Step::End(Verdict::NoConfigMap(e)),
            _ => Step::Unexpected,
        },
        Stage::Job => match event {
            Event::Done => Step::Do(
            Action::WaitForJob { secs: JOB_WAIT_SECS },
            Stage::Waiting,
        ),
            Event::Failed(e) => Step::Do(
                Action::DeleteConfigMap,
                Stage::NoJob(Verdict::NoJob(e)),
            ),
            _ => Step::Unexpected,
        },
        Stage::Waiting => {
            let verdict: Verdict<E> = match event {
                Event::TimedOut => Verdict::TimedOut,
                Event::Failed(e) => Verdict::WatchFailed(e),
                Event::Gone => Verdict::JobGone,
                Event::Finished(true) => Verdict::Valid,
                Event::Finished(false) => {
                    return Step::Do(Action::FetchLogs { secs: POD_WAIT_SECS }, Stage::Logs);
                },
                _ => {
                    return Step::Unexpected;
                },
            };
            Step::Do(Action::DeleteConfigMap, Stage::ConfigMapGone(verdict))
        },
        Stage::Logs => match event {
            Event::Printed(text) => Step::Do(
                Action::DeleteConfigMap,
                Stage::ConfigMapGone(Verdict::Invalid(text)),
            ),
            Event::Failed(_) => Step::Do(
                Action::DeleteConfigMap,
                Stage::ConfigMapGone(Verdict::Refused),
            ),
            _ => Step::Unexpected,
        },
        Stage::NoJob(verdict) => match event {
            Event::Done => Step::End(verdict),
            Event::Failed(_) => Step::End(verdict),
            _ => Step::Unexpected,
        },
        Stage::ConfigMapGone(verdict) => match event {
            Event::Done => Step::Do(Action::DeleteJob, Stage::JobGone(verdict)),
            Event::Failed(_) => Step::Do(Action::DeleteJob, Stage::JobGone(verdict)),
            _ => Step::Unexpected,
        },
        Stage::JobGone(verdict) => match event {
            Event::Done => Step::End(verdict),
            Event::Failed(_) => Step::End(verdict),
            _ => Step::Unexpected,
        },
    }
}

/// Why a request is refused after a test; nothing where it is not.
pub open spec fn refusal(verdict: Verdict<String>) -> Option<Seq<char>> {
    match verdict {
        Verdict::Valid => None,
        Verdict::NoConfigMap(e) => Some("failed to create validation ConfigMap: "@ + e@),
        Verdict::NoJob(e) => Some("failed to create validation Job: "@ + e@),
        Verdict::TimedOut => Some("config validation timed out"@),
        Verdict::WatchFailed(e) => Some("configtest watch error: "@ + e@),
        Verdict::JobGone => Some("configtest job disappeared"@),
        Verdict::Invalid(logs) => Some(logs@),
        Verdict::Refused => Some("headscale configtest failed"@),
    }
}

/// Says why a request is refused after a test.
pub fn refusal_of(verdict: Verdict<String>) -> (r: Option<String>)
    ensures
        r.deep_view() == refusal(verdict),
{
    match verdict {
        Verdict::Valid => None,
        Verdict::NoConfigMap(e) => Some(
            text::cat2("failed to create validation ConfigMap: ", e.as_str()),
        ),
        Verdict::NoJob(e) => Some(text::cat2("failed to create validation Job: ", e.as_str())),
        Verdict::TimedOut => Some("config validation timed out".to_owned()),
        Verdict::WatchFailed(e) => Some(text::cat2("configtest watch error: ", e.as_str())),
        Verdict::JobGone => Some("configtest job disappeared".to_owned()),
        Verdict::Invalid(logs) => Some(logs),
        Verdict::Refused => Some("headscale configtest failed".to_owned()),
    }
}

/// Whether a Job with these counts is over.
pub fn job_is_done(succeeded: Option<i32>, failed: Option<i32>) -> (r: bool)
    ensures
        r == ((succeeded matches Some(n) && n > 0) || (failed matches Some(n) && n > 0)),
{
    job_succeeded(succeeded) || job_succeeded(failed)
}

/// Whether a count is there and positive.
pub fn job_succeeded(count: Option<i32>) -> (r: bool)
    ensures
        r == (count matches Some(n) && n > 0),
{
    match count {
        Some(n) => n > 0,
        None => false,
    }
}

/// Whether a pod has ended, by which of its containers have: the first one counts.
pub fn pod_has_ended(terminated: &Vec<bool>) -> (r: bool)
    ensures
        r == (terminated@.len() > 0 && terminated@[0]),
{
    terminated.len() > 0 && terminated[0]
}

/// Why there is nothing to read of what a Job printed.
#[derive(Clone, Copy, Debug, PartialEq, Eq, Structural)]
pub enum NoLogs {
    NoPod,
    UnnamedPod,
    Empty,
}

impl NoLogs {
    /// The reason in words.
    pub fn message(self) -> (r: &'static str)
        ensures
            r@ == (match self {
                NoLogs::NoPod => "no pod found for job"@,
                NoLogs::UnnamedPod => "pod has no name"@,
                NoLogs::Empty => "logs unavailable"@,
            }),
    {
        match self {
            NoLogs::NoPod => "no pod found for job",
            NoLogs::UnnamedPod => "pod has no name",
            NoLogs::Empty => "logs unavailable",
        }
    }
}

/// Selects the pods of a Job.
pub fn job_selector(job_name: &str) -> (r: String)
    ensures
        r@ == "job-name="@ + job_name@,
{
    text::cat2("job-name=", job_name)
}

/// The pod of a Job whose output is read: the first one, which must have a name.
pub fn fetch_pod_logs(pods: Vec<Option<String>>) -> (r: Result<String, NoLogs>)
    ensures
        if pods@.len() == 0 {
            r == Err::<String, NoLogs>(NoLogs::NoPod)
        } else {
            match pods@[0] {
                Some(name) => r == Ok::<String, NoLogs>(name),
                None => r == Err::<String, NoLogs>(NoLogs::UnnamedPod),
            }
        },
{
    if pods.len() == 0 {
        return Err(NoLogs::NoPod);
    }
    match &pods[0] {
        Some(name) => Ok(name.clone()),
        None => Err(NoLogs::UnnamedPod),
    }
}

/// What is made of a pod's output.
pub fn usable_logs(logs: &str) -> (r: Result<String, NoLogs>)
    ensures
        if text::trimmed(logs@).len() == 0 {
            r == Err::<String, NoLogs>(NoLogs::Empty)
        } else {
            r matches Ok(s) && s@ == text::trimmed(logs@)
        },
{
    let trimmed: &str = text::trim(logs);
    if trimmed.unicode_len() == 0 {
        Err(NoLogs::Empty)
    } else {
        Ok(trimmed.to_owned())
    }
}

// Laws.

/// The name of a test is a DNS label, as far as its length goes, whatever the name
/// of the instance: request ids take 36 bytes.
pub proof fn test_name_fits_a_label(instance: Seq<char>, uid: Seq<char>)
    requires
        text::byte_len(uid) == 36,
    ensures
        text::byte_len(test_name(instance, uid)) <= 63,
{
    reveal_strlit("configtest-");
    reveal_strlit("-");
    text::shortened_fits(instance, 15);
    let short = text::shortened(instance, 15);
    text::byte_len_adds("configtest-"@, short);
    text::byte_len_adds("configtest-"@ + short, "-"@);
    text::byte_len_adds("configtest-"@ + short + "-"@, uid);
    vstd::utf8::is_ascii_chars_encode_utf8("configtest-"@);
    vstd::utf8::is_ascii_chars_encode_utf8("-"@);
}

/// A short instance name stands in the name of its test unchanged.
pub proof fn short_name_is_unchanged(instance: Seq<char>, uid: Seq<char>)
    requires
        text::byte_len(instance) <= 15,
    ensures
        test_name(instance, uid) == "configtest-"@ + instance + "-"@ + uid,
{
    text::shortened_fits(instance, 15);
}

/// The stage that a course of events leads to, as long as the test goes on.
pub open spec fn stage_after<E>(events: Seq<Event<E>>) -> Option<Stage<E>>
    decreases events.len(),
{
    if events.len() == 0 {
        Some(Stage::Begin)
    } else {
        match stage_after(events.drop_last()) {
            Some(stage) => match next(stage, events.last()) {
                Step::Do(_, after) => Some(after),
                _ => None,
            },
            None => None,
        }
    }
}

/// Waiting for the Job, as long as a Job is waited for.
pub open spec fn awaiting_the_job() -> Action {
    Action::WaitForJob { secs: JOB_WAIT_SECS }
}

/// The actions that a course of events asked for.
pub open spec fn asked<E>(events: Seq<Event<E>>) -> Set<Action>
    decreases events.len(),
{
    if events.len() == 0 {
        Set::empty()
    } else {
        let before = asked(events.drop_last());
        match stage_after(events.drop_last()) {
            Some(stage) => match next(stage, events.last()) {
                Step::Do(action, _) => before.insert(action),
                _ => before,
            },
            None => before,
        }
    }
}

proof fn what_was_asked<E>(events: Seq<Event<E>>)
    requires
        stage_after(events) is Some,
    ensures
        match stage_after(events)->0 {
            Stage::Begin => !asked(events).contains(Action::CreateConfigMap) && !asked(
                events,
            ).contains(Action::DeleteJob),
            Stage::NoJob(_) => asked(events).contains(Action::DeleteConfigMap) && !asked(
                events,
            ).contains(Action::DeleteJob),
            Stage::ConfigMapGone(_) => asked(events).contains(Action::DeleteConfigMap) && !asked(
                events,
            ).contains(Action::DeleteJob),
            Stage::JobGone(_) => asked(events).contains(Action::DeleteConfigMap) && asked(
                events,
            ).contains(Action::DeleteJob),
            _ => !asked(events).contains(Action::DeleteJob),
        },
        asked(events).contains(awaiting_the_job()) <==> {
            let stage = stage_after(events)->0;
            stage is Waiting || stage is Logs || stage is ConfigMapGone || stage is JobGone
        },
    decreases events.len(),
{
    if events.len() > 0 {
        what_was_asked(events.drop_last());
    }
}

/// A test whose ConfigMap was created ends only after the deletion of the
/// ConfigMap was asked for.
pub proof fn configmap_is_always_deleted<E>(events: Seq<Event<E>>, event: Event<E>)
    requires
        stage_after(events) is Some,
        next(stage_after(events)->0, event) is End,
    ensures
        (next(stage_after(events)->0, event) matches Step::End(Verdict::NoConfigMap(_)))
            || asked(events).contains(Action::DeleteConfigMap),
{
    what_was_asked(events);
}

/// At the end of a test, the deletion of its Job was asked for if and only if the Job
/// was created, which is when it was waited for.
pub proof fn job_is_deleted_where_it_was_created<E>(events: Seq<Event<E>>, event: Event<E>)
    requires
        stage_after(events) is Some,
        next(stage_after(events)->0, event) is End,
    ensures
        asked(events).contains(Action::DeleteJob) <==> asked(events).contains(awaiting_the_job()),
{
    what_was_asked(events);
}

/// A configuration is found valid only when the Job succeeded.
pub proof fn valid_means_the_job_succeeded<E>(stage: Stage<E>, event: Event<E>)
    requires
        next(stage, event) matches Step::Do(_, Stage::ConfigMapGone(Verdict::Valid)),
    ensures
        stage is Waiting,
        event == Event::<E>::Finished(true),
{
}

/// The resources of a test are labelled as the instance's.
pub proof fn tests_are_labelled(namespace: Seq<char>, name: Seq<char>, instance: Seq<char>)
    ensures
        ({
            let d = test_metadata(namespace, name, instance);
            &&& d is Object
            &&& d->Object_0.dom() == set!["name"@, "namespace"@, "labels"@]
            &&& d->Object_0["name"@] == Json::Text(name)
            &&& d->Object_0["namespace"@] == Json::Text(namespace)
            &&& d->Object_0["labels"@] is Object
            &&& d->Object_0["labels"@]->Object_0.dom()
                == set!["app.kubernetes.io/name"@, "app.kubernetes.io/instance"@,
                "app.kubernetes.io/managed-by"@]
            &&& d->Object_0["labels"@]->Object_0["app.kubernetes.io/name"@]
                == Json::Text("headscale"@)
            &&& d->Object_0["labels"@]->Object_0["app.kubernetes.io/instance"@]
                == Json::Text(instance)
            &&& d->Object_0["labels"@]->Object_0["app.kubernetes.io/managed-by"@]
                == Json::Text("headmaster"@)
        }),
{
    manifest::names_differ();
    broadcast use json::object_grows;

    let d = test_metadata(namespace, name, instance);
    assert(d->Object_0.dom() =~= set!["name"@, "namespace"@, "labels"@]);
    assert(d->Object_0["labels"@]->Object_0.dom()
        =~= set!["app.kubernetes.io/name"@, "app.kubernetes.io/instance"@,
        "app.kubernetes.io/managed-by"@]);
}

/// The container of a test has headscale itself test the configuration that it sees.
pub proof fn tests_run_configtest(image: Seq<char>)
    ensures
        ({
            let d = test_container(image);
            &&& d is Object
            &&& d->Object_0.dom()
                == set!["name"@, "image"@, "args"@, "securityContext"@, "volumeMounts"@]
            &&& d->Object_0["name"@] == Json::Text("configtest"@)
            &&& d->Object_0["image"@] == Json::Text(image)
            &&& d->Object_0["args"@] is Array
            &&& d->Object_0["args"@]->Array_0.len() == 3
            &&& d->Object_0["args"@]->Array_0[0] == Json::Text("--config"@)
            &&& d->Object_0["args"@]->Array_0[1] == Json::Text("/etc/headscale/config.yaml"@)
            &&& d->Object_0["args"@]->Array_0[2] == Json::Text("configtest"@)
            &&& d->Object_0["securityContext"@] == manifest::hardened(true)
            &&& d->Object_0["volumeMounts"@] is Array
            &&& d->Object_0["volumeMounts"@]->Array_0.len() == 1
            &&& d->Object_0["volumeMounts"@]->Array_0[0] is Object
            &&& d->Object_0["volumeMounts"@]->Array_0[0]->Object_0.dom()
                == set!["name"@, "mountPath"@, "readOnly"@]
            &&& d->Object_0["volumeMounts"@]->Array_0[0]->Object_0["name"@] == Json::Text("config"@)
            &&& d->Object_0["volumeMounts"@]->Array_0[0]->Object_0["mountPath"@]
                == Json::Text("/etc/headscale"@)
            &&& d->Object_0["volumeMounts"@]->Array_0[0]->Object_0["readOnly"@] == Json::Bool(true)
        }),
{
    manifest::names_differ();
    broadcast use json::object_grows;

    let d = test_container(image);
    assert(d->Object_0.dom()
        =~= set!["name"@, "image"@, "args"@, "securityContext"@, "volumeMounts"@]);
    assert(d->Object_0["volumeMounts"@]->Array_0[0]->Object_0.dom()
        =~= set!["name"@, "mountPath"@, "readOnly"@]);
}

/// The Job of a test tries once, in an unprivileged pod, and goes a minute after.
pub proof fn tests_are_tried_once(
    namespace: Seq<char>,
    image: Seq<char>,
    name: Seq<char>,
    instance: Seq<char>,
)
    ensures
        ({
            let d = test_job(namespace, image, name, instance);
            &&& d is Object
            &&& d->Object_0.dom() == set!["apiVersion"@, "kind"@, "metadata"@, "spec"@]
            &&& d->Object_0["apiVersion"@] == Json::Text("batch/v1"@)
            &&& d->Object_0["kind"@] == Json::Text("Job"@)
            &&& d->Object_0["metadata"@] == test_metadata(namespace, name, instance)
            &&& d->Object_0["spec"@] is Object
            &&& d->Object_0["spec"@]->Object_0.dom()
                == set!["backoffLimit"@, "ttlSecondsAfterFinished"@, "template"@]
            &&& d->Object_0["spec"@]->Object_0["backoffLimit"@] == json::whole(0)
            &&& d->Object_0["spec"@]->Object_0["ttlSecondsAfterFinished"@] == json::whole(60)
            &&& d->Object_0["spec"@]->Object_0["template"@] is Object
            &&& d->Object_0["spec"@]->Object_0["template"@]->Object_0.dom() == set!["spec"@]
            &&& d->Object_0["spec"@]->Object_0["template"@]->Object_0["spec"@] is Object
            &&& d->Object_0["spec"@]->Object_0["template"@]->Object_0["spec"@]->Object_0.dom()
                == set!["securityContext"@, "containers"@, "restartPolicy"@, "volumes"@]
            &&& d->Object_0["spec"@]->Object_0["template"@]->Object_0["spec"@]
                ->Object_0["securityContext"@] is Object
            &&& d->Object_0["spec"@]->Object_0["template"@]->Object_0["spec"@]
                ->Object_0["securityContext"@]->Object_0.dom()
                == set!["runAsNonRoot"@, "runAsUser"@, "runAsGroup"@, "seccompProfile"@]
            &&& d->Object_0["spec"@]->Object_0["template"@]->Object_0["spec"@]
                ->Object_0["securityContext"@]->Object_0["runAsNonRoot"@] == Json::Bool(true)
            &&& d->Object_0["spec"@]->Object_0["template"@]->Object_0["spec"@]
                ->Object_0["securityContext"@]->Object_0["runAsUser"@] == json::whole(65532)
            &&& d->Object_0["spec"@]->Object_0["template"@]->Object_0["spec"@]
                ->Object_0["securityContext"@]->Object_0["runAsGroup"@] == json::whole(65532)
            &&& d->Object_0["spec"@]->Object_0["template"@]->Object_0["spec"@]
                ->Object_0["securityContext"@]->Object_0["seccompProfile"@]
                == manifest::default_seccomp()
            &&& d->Object_0["spec"@]->Object_0["template"@]->Object_0["spec"@]
                ->Object_0["containers"@] is Array
            &&& d->Object_0["spec"@]->Object_0["template"@]->Object_0["spec"@]
                ->Object_0["containers"@]->Array_0.len() == 1
            &&& d->Object_0["spec"@]->Object_0["template"@]->Object_0["spec"@]
                ->Object_0["containers"@]->Array_0[0] == test_container(image)
            &&& d->Object_0["spec"@]->Object_0["template"@]->Object_0["spec"@]
                ->Object_0["restartPolicy"@] == Json::Text("Never"@)
            &&& d->Object_0["spec"@]->Object_0["template"@]->Object_0["spec"@]
                ->Object_0["volumes"@] is Array
            &&& d->Object_0["spec"@]->Object_0["template"@]->Object_0["spec"@]->Object_0["volumes"@]
                ->Array_0.len() == 1
            &&& d->Object_0["spec"@]->Object_0["template"@]->Object_0["spec"@]->Object_0["volumes"@]
                ->Array_0[0] == manifest::config_volume("config"@, name)
        }),
{
    manifest::names_differ();
    broadcast use json::object_grows;

    let d = test_job(namespace, image, name, instance);
    assert(d->Object_0.dom() =~= set!["apiVersion"@, "kind"@, "metadata"@, "spec"@]);
    assert(d->Object_0["spec"@]->Object_0.dom()
        =~= set!["backoffLimit"@, "ttlSecondsAfterFinished"@, "template"@]);
    assert(d->Object_0["spec"@]->Object_0["template"@]->Object_0.dom() =~= set!["spec"@]);
    assert(d->Object_0["spec"@]->Object_0["template"@]->Object_0["spec"@]->Object_0.dom()
        =~= set!["securityContext"@, "containers"@, "restartPolicy"@, "volumes"@]);
    assert(d->Object_0["spec"@]->Object_0["template"@]->Object_0["spec"@]
        ->Object_0["securityContext"@]->Object_0.dom()
        =~= set!["runAsNonRoot"@, "runAsUser"@, "runAsGroup"@, "seccompProfile"@]);
}

/// A configuration that headscale accepts passes: its test is set up, waited for at most 25
/// seconds,
/// cleaned up, and the verdict is that it is valid. That cleaning up fails does not matter.
pub proof fn good_configuration_passes_its_test<E>(settled: Event<E>)
    requires
        settled is Done || settled is Failed,
    ensures
        next(Stage::Begin, Event::<E>::Start) matches Step::Do(Action::CreateConfigMap, a0)
            && (next(a0, Event::<E>::Done) matches Step::Do(Action::CreateJob, a1)
            && (next(a1, Event::<E>::Done) matches Step::Do(Action::WaitForJob { secs }, a2)
            && secs == 25
            && (next(a2, Event::<E>::Finished(true)) matches Step::Do(Action::DeleteConfigMap, a3)
            && (next(a3, settled) matches Step::Do(Action::DeleteJob, a4)
            && next(a4, settled) == Step::<E>::End(Verdict::Valid))))),
{
}

/// A configuration whose Job fails is refused with what the Job printed, which is read at most five
/// seconds later; where that cannot be read it is refused all the same. A Job that takes too long,
/// cannot be watched or is gone is no pass either.
pub proof fn bad_configuration_fails_its_test<E>(printed: E, e: E, settled: Event<E>)
    requires
        settled is Done || settled is Failed,
    ensures
        next(Stage::Waiting, Event::<E>::Finished(false))
            matches Step::Do(Action::FetchLogs { secs }, a0) && secs == 5
            && (next(a0, Event::Printed(printed)) matches Step::Do(Action::DeleteConfigMap, a1)
            && (next(a1, settled) matches Step::Do(Action::DeleteJob, a2)
            && next(a2, settled) == Step::<E>::End(Verdict::Invalid(printed)))),
        next(Stage::Waiting, Event::<E>::Finished(false))
            matches Step::Do(Action::FetchLogs { secs }, a0)
            && (next(a0, Event::Failed(e)) matches Step::Do(Action::DeleteConfigMap, a1)
            && (next(a1, settled) matches Step::Do(Action::DeleteJob, a2)
            && next(a2, settled) == Step::<E>::End(Verdict::Refused))),
        next(Stage::Waiting, Event::<E>::TimedOut) matches Step::Do(Action::DeleteConfigMap, a0)
            && (next(a0, settled) matches Step::Do(Action::DeleteJob, a1)
            && next(a1, settled) == Step::<E>::End(Verdict::TimedOut)),
        next(Stage::Waiting, Event::Failed(e)) matches Step::Do(Action::DeleteConfigMap, a0)
            && (next(a0, settled) matches Step::Do(Action::DeleteJob, a1)
            && next(a1, settled) == Step::<E>::End(Verdict::WatchFailed(e))),
        next(Stage::Waiting, Event::<E>::Gone) matches Step::Do(Action::DeleteConfigMap, a0)
            && (next(a0, settled) matches Step::Do(Action::DeleteJob, a1)
            && next(a1, settled) == Step::<E>::End(Verdict::JobGone)),
        next(Stage::ConfigMap, Event::Failed(e)) == Step::<E>::End(Verdict::NoConfigMap(e)),
        next(Stage::Job, Event::Failed(e)) matches Step::Do(Action::DeleteConfigMap, a0)
            && next(a0, settled) == Step::<E>::End(Verdict::NoJob(e)),
{
}

/// Only a valid configuration is admitted; every other verdict is a refusal that says why.
pub proof fn only_valid_configurations_are_admitted(verdict: Verdict<String>)
    ensures
        refusal(verdict) is None <==> verdict is Valid,
        verdict matches Verdict::NoConfigMap(e) ==> refusal(verdict)->0
            == "failed to create validation ConfigMap: "@ + e@,
        verdict matches Verdict::NoJob(e) ==> refusal(verdict)->0
            == "failed to create validation Job: "@ + e@,
        verdict matches Verdict::WatchFailed(e) ==> refusal(verdict)->0
            == "configtest watch error: "@ + e@,
        verdict matches Verdict::Invalid(logs) ==> refusal(verdict)->0 == logs@,
        verdict is TimedOut ==> refusal(verdict)->0 == "config validation timed out"@,
        verdict is JobGone ==> refusal(verdict)->0 == "configtest job disappeared"@,
        verdict is Refused ==> refusal(verdict)->0 == "headscale configtest failed"@,
{
}

/// An instance is refused where its own policy has a group with members while SCIM owns the
/// groups, or where its extra configuration sets a key that is the operator's; any other one
/// goes to headscale to be tested, with the configuration that its server would have.
pub proof fn instances_are_admitted_by_rule(
    spec: HeadscaleInstanceSpec,
    conflict: bool,
    r: Admission,
    key: Seq<char>,
)
    requires
        answers(spec, conflict, r),
    ensures
        !(r is Allow),
        conflict ==> (r matches Admission::Deny(why) && why@ == CONFLICT_MESSAGE@),
        !conflict ==> (r matches Admission::Deny(why) ==> why@ == builders::violation_message(
            builders::top_violations(json::held(spec.extra_config@)),
            builders::dns_violations(json::held(spec.extra_config@)),
        )),
        r is NoConfig ==> json::yaml_text(
            Json::Object(
                builders::config(
                    spec.server_url@,
                    spec.dns_base_domain@,
                    json::held(spec.extra_config@),
                ),
            ),
        ) is None,
        builders::top_violations(json::held(spec.extra_config@)).contains(key) ==> r is Deny,
        builders::dns_violations(json::held(spec.extra_config@)).contains(key) ==> r is Deny,
        r is Deny && !conflict ==> builders::top_violations(
            json::held(spec.extra_config@),
        ).len() + builders::dns_violations(json::held(spec.extra_config@)).len() > 0,
        r matches Admission::Test(config) ==> json::yaml_text(
            Json::Object(
                builders::config(
                    spec.server_url@,
                    spec.dns_base_domain@,
                    json::held(spec.extra_config@),
                ),
            ),
        ) == Some(config@),
{
}

/// A spec conflicts exactly where it asks for SCIM and its own policy, which is not blank,
/// has a group whose list of members is not empty.
pub proof fn conflicts_are_groups_with_members(spec: HeadscaleInstanceSpec, inline: String)
    requires
        spec.policy == Some(HeadscaleInstancePolicy::Inline { inline }),
    ensures
        spec.scim is None ==> !conflicts(spec),
        spec.scim is Some ==> (conflicts(spec) <==> {
            &&& exists|i: int| 0 <= i < inline@.len() && !text::is_space(#[trigger] inline@[i])
            &&& policy_document::hujson(inline@) matches Some(Json::Object(m))
            &&& m.dom().contains("groups"@)
            &&& m["groups"@] is Object
            &&& exists|group: Seq<char>| #[trigger]
                m["groups"@]->Object_0.dom().contains(group) && m["groups"@]->Object_0[group]
                    is Array && m["groups"@]->Object_0[group]->Array_0.len() > 0
        }),
{
    text::blank_texts_are_trimmed_to_nothing(inline@);
    if policy_document::hujson(inline@) is Some {
        let v = policy_document::hujson(inline@)->0;
        if exists|group: Seq<char>| policy::has_members(v, group) {
            let group = choose|group: Seq<char>| policy::has_members(v, group);
            assert(v->Object_0["groups"@]->Object_0.dom().contains(group));
        }
        if v is Object && v->Object_0.dom().contains("groups"@)
            && v->Object_0["groups"@] is Object {
            let groups = v->Object_0["groups"@]->Object_0;
            if exists|group: Seq<char>| #[trigger]
                groups.dom().contains(group) && groups[group] is Array
                    && groups[group]->Array_0.len() > 0 {
                let group = choose|group: Seq<char>| #[trigger]
                    groups.dom().contains(group) && groups[group] is Array
                        && groups[group]->Array_0.len() > 0;
                assert(policy::has_members(v, group));
            }
        }
    }
}

} // verus!
