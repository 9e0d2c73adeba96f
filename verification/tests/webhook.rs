use headmaster::labels;
use headmaster::server::health::{healthz, readyz};
use headmaster::server::webhook::{
    config_refusal, configtest_configmap, configtest_job, configtest_labels, configtest_name,
    fetch_pod_logs, job_is_done, job_selector, job_succeeded, judge, pod_has_ended, refusal_of,
    run_configtest, usable_logs, validate, validate_ingress, Action, Admission, Event, NoLogs, Stage,
    Step, Verdict,
};
use headmaster::table::Table;
use headmaster::types::headscale_instance::{
    HeadscaleInstancePolicy, HeadscaleInstanceSpec, ScimSpec, StorageSpec,
};
use headmaster::types::ingress_annotations::IngressAccessGrant;
use k8s_openapi::api::batch::v1::Job;

const NS: &str = "headmaster-system";
const IMAGE: &str = "ghcr.io/juanfont/headscale:v0.29.0";
const INSTANCE: &str = "my-instance";
const UID: &str = "550e8400-e29b-41d4-a716-446655440000";

fn job(name: &str) -> Job {
    serde_json::from_value(configtest_job(NS, IMAGE, name, INSTANCE)).unwrap()
}

#[test]
fn configtest_name_never_exceeds_63_chars() {
    for len in [1, 15, 16, 32, 63] {
        let long_name = "a".repeat(len);
        let name = configtest_name(&long_name, UID);
        assert!(
            name.len() <= 63,
            "configtest name is {} chars for instance name of length {len}: {name:?}",
            name.len()
        );
    }
}

#[test]
fn configtest_name_short_instance_is_unchanged() {
    let name = configtest_name(INSTANCE, UID);
    assert!(
        name.starts_with("configtest-my-instance-"),
        "prefix must be intact: {name}"
    );
}

#[test]
fn configtest_name_cuts_between_characters() {
    // Eight characters of two bytes: seven of them fit into fifteen bytes.
    let name = configtest_name("éééééééé", UID);
    assert_eq!(name, format!("configtest-ééééééé-{UID}"));
    let long = configtest_name("abcdefghijklmnopq", UID);
    assert_eq!(long, format!("configtest-abcdefghijklmno-{UID}"));
}

#[test]
fn configtest_job_name_includes_instance_and_uid() {
    let name = configtest_name(INSTANCE, UID);
    assert_eq!(job(&name).metadata.name.as_deref(), Some(name.as_str()));
}

#[test]
fn configtest_job_namespace_matches() {
    let name = format!("configtest-{INSTANCE}-{UID}");
    assert_eq!(job(&name).metadata.namespace.as_deref(), Some(NS));
}

#[test]
fn configtest_job_labels() {
    let name = format!("configtest-{INSTANCE}-{UID}");
    let job = job(&name);
    let got = job.metadata.labels.as_ref().expect("labels present");
    assert_eq!(
        got.get(labels::APP_NAME).map(String::as_str),
        Some("headscale")
    );
    assert_eq!(
        got.get(labels::APP_INSTANCE).map(String::as_str),
        Some(INSTANCE)
    );
    assert_eq!(
        got.get(labels::APP_MANAGED_BY).map(String::as_str),
        Some(labels::MANAGED_BY_VALUE)
    );
    assert_eq!(
        serde_json::to_value(got).unwrap(),
        configtest_labels(INSTANCE)
    );
}

#[test]
fn configtest_job_security_hardening() {
    let name = format!("configtest-{INSTANCE}-{UID}");
    let job = job(&name);
    let spec = job.spec.as_ref().unwrap();
    assert_eq!(spec.backoff_limit, Some(0));
    assert_eq!(spec.ttl_seconds_after_finished, Some(60));

    let pod_spec = spec.template.spec.as_ref().unwrap();
    assert_eq!(pod_spec.restart_policy.as_deref(), Some("Never"));
    let sec = pod_spec.security_context.as_ref().unwrap();
    assert_eq!(sec.run_as_non_root, Some(true));

    let container = &pod_spec.containers[0];
    assert_eq!(container.image.as_deref(), Some(IMAGE));
    let csec = container.security_context.as_ref().unwrap();
    assert_eq!(csec.allow_privilege_escalation, Some(false));
    assert_eq!(csec.read_only_root_filesystem, Some(true));
}

#[test]
fn configtest_job_mounts_config_volume() {
    let name = format!("configtest-{INSTANCE}-{UID}");
    let pod_spec = job(&name).spec.unwrap().template.spec.unwrap();
    let vol = pod_spec
        .volumes
        .as_ref()
        .unwrap()
        .iter()
        .find(|v| v.name == "config")
        .expect("config volume");
    assert_eq!(vol.config_map.as_ref().unwrap().name.as_str(), name);
    let mount = pod_spec.containers[0]
        .volume_mounts
        .as_ref()
        .unwrap()
        .iter()
        .find(|m| m.name == "config")
        .expect("config mount");
    assert_eq!(mount.mount_path, "/etc/headscale");
    assert_eq!(mount.read_only, Some(true));
    assert_eq!(
        pod_spec.containers[0].args.as_ref().unwrap(),
        &vec!["--config", "/etc/headscale/config.yaml", "configtest"]
    );
}

#[test]
fn configtest_configmap_holds_the_file() {
    let built = configtest_configmap(NS, "test", INSTANCE, "log_level: info\n");
    assert_eq!(built["kind"], "ConfigMap");
    assert_eq!(built["metadata"]["name"], "test");
    assert_eq!(built["metadata"]["namespace"], NS);
    assert_eq!(built["data"]["config.yaml"], "log_level: info\n");
}

/// Runs a test in which each action has the given outcome.
fn drive(outcome: fn(Action) -> Event<String>) -> (Verdict<String>, Vec<Action>) {
    let mut stage = Stage::Begin;
    let mut event = Event::Start;
    let mut asked = vec![];
    loop {
        match run_configtest(stage, event) {
            Step::Do(action, next) => {
                asked.push(action);
                event = outcome(action);
                stage = next;
            }
            Step::End(verdict) => return (verdict, asked),
            Step::Unexpected => panic!("unexpected event"),
        }
    }
}

#[test]
fn run_configtest_deletes_cm_when_job_creation_fails() {
    let (verdict, asked) = drive(|action| match action {
        Action::CreateConfigMap => Event::Done,
        Action::CreateJob => Event::Failed("500".to_string()),
        _ => Event::Failed("404".to_string()),
    });
    assert_eq!(
        refusal_of(verdict).as_deref(),
        Some("failed to create validation Job: 500")
    );
    assert_eq!(
        asked,
        vec![
            Action::CreateConfigMap,
            Action::CreateJob,
            Action::DeleteConfigMap
        ]
    );
}

#[test]
fn run_configtest_cleans_up_after_success() {
    let (verdict, asked) = drive(|action| match action {
        Action::WaitForJob { .. } => Event::Finished(true),
        _ => Event::Done,
    });
    assert_eq!(refusal_of(verdict), None);
    assert_eq!(
        asked,
        vec![
            Action::CreateConfigMap,
            Action::CreateJob,
            Action::WaitForJob { secs: 25 },
            Action::DeleteConfigMap,
            Action::DeleteJob
        ]
    );
}

fn waiting_ends_with(event: fn() -> Event<String>) -> Option<String> {
    let mut stage = Stage::Waiting;
    let mut next_event = event();
    loop {
        match run_configtest(stage, next_event) {
            Step::Do(Action::FetchLogs { secs }, next) => {
                assert_eq!(secs, 5);
                stage = next;
                next_event = Event::Failed("gone".to_string());
            }
            Step::Do(_, next) => {
                stage = next;
                next_event = Event::Failed("404".to_string());
            }
            Step::End(verdict) => return refusal_of(verdict),
            Step::Unexpected => panic!("unexpected event"),
        }
    }
}

#[test]
fn configtest_failures_in_words() {
    assert_eq!(
        waiting_ends_with(|| Event::TimedOut).as_deref(),
        Some("config validation timed out")
    );
    assert_eq!(
        waiting_ends_with(|| Event::Failed("boom".to_string())).as_deref(),
        Some("configtest watch error: boom")
    );
    assert_eq!(
        waiting_ends_with(|| Event::Gone).as_deref(),
        Some("configtest job disappeared")
    );
    assert_eq!(
        waiting_ends_with(|| Event::Finished(false)).as_deref(),
        Some("headscale configtest failed")
    );
    let (verdict, asked) = drive(|_| Event::Failed("500".to_string()));
    assert_eq!(
        refusal_of(verdict).as_deref(),
        Some("failed to create validation ConfigMap: 500")
    );
    assert_eq!(asked, vec![Action::CreateConfigMap]);
    let (verdict, _) = drive(|action| match action {
        Action::WaitForJob { .. } => Event::Finished(false),
        Action::FetchLogs { .. } => Event::Printed("bad prefix".to_string()),
        _ => Event::Done,
    });
    assert_eq!(refusal_of(verdict).as_deref(), Some("bad prefix"));
    assert_eq!(config_refusal("no"), "failed to generate config: no");
}

#[test]
fn job_counts_and_logs() {
    assert!(!pod_has_ended(&vec![]));
    assert!(pod_has_ended(&vec![true, false]));
    assert!(!pod_has_ended(&vec![false, true]));
    assert!(!job_is_done(None, None));
    assert!(!job_is_done(Some(0), Some(0)));
    assert!(job_is_done(Some(1), None));
    assert!(job_is_done(None, Some(1)));
    assert!(!job_succeeded(None));
    assert!(job_succeeded(Some(2)));
    assert_eq!(job_selector("x"), "job-name=x");
    assert_eq!(fetch_pod_logs(vec![]), Err(NoLogs::NoPod));
    assert_eq!(fetch_pod_logs(vec![None]), Err(NoLogs::UnnamedPod));
    assert_eq!(
        fetch_pod_logs(vec![Some("p".to_string()), None]),
        Ok("p".to_string())
    );
    assert_eq!(usable_logs(" \n"), Err(NoLogs::Empty));
    assert_eq!(usable_logs(" wrong \n"), Ok("wrong".to_string()));
    assert_eq!(NoLogs::NoPod.message(), "no pod found for job");
    assert_eq!(NoLogs::UnnamedPod.message(), "pod has no name");
    assert_eq!(NoLogs::Empty.message(), "logs unavailable");
}

fn spec(inline: Option<&str>, scim: bool) -> HeadscaleInstanceSpec {
    HeadscaleInstanceSpec {
        server_url: "https://headscale.example.com".to_string(),
        dns_base_domain: "ts.example.com".to_string(),
        storage: StorageSpec {
            size: "1Gi".to_string(),
            storage_class: None,
        },
        policy: inline.map(|text| HeadscaleInstancePolicy::Inline {
            inline: text.to_string(),
        }),
        labels: Table::new(),
        extra_config: Table::new(),
        resources: None,
        scim: if scim {
            Some(ScimSpec {
                storage: StorageSpec {
                    size: "1Gi".to_string(),
                    storage_class: None,
                },
                policy_user_key: None,
                oidc_issuer: None,
                expire_nodes_on_change: false,
            })
        } else {
            None
        },
        watched_namespaces: vec![],
    }
}

#[test]
fn validate_refuses_groups_beside_scim() {
    let grouped = r#"{"groups":{"group:eng":["alice@example.com"]}}"#;
    match validate(Some(&spec(Some(grouped), true))) {
        Admission::Deny(why) => assert!(why.contains("SCIM owns the groups section")),
        _ => panic!("groups beside SCIM are refused"),
    }
    assert!(matches!(
        validate(Some(&spec(Some(grouped), false))),
        Admission::Test(_)
    ));
    assert!(matches!(validate(None), Admission::Allow));
}

#[test]
fn validate_refuses_reserved_keys() {
    let mut reserved = spec(None, false);
    reserved.extra_config.insert(
        "policy".to_string(),
        serde_json::Value::String("x".to_string()),
    );
    match validate(Some(&reserved)) {
        Admission::Deny(why) => assert!(why.contains("policy")),
        _ => panic!("reserved keys are refused"),
    }
    match judge(&spec(None, false), false) {
        Admission::Test(config) => assert!(config.contains("ts.example.com")),
        _ => panic!("an ordinary configuration is tested"),
    }
    assert!(matches!(judge(&spec(None, false), true), Admission::Deny(_)));
}

#[test]
fn healthz_always_returns_200() {
    assert_eq!(healthz(), 200);
}

#[test]
fn readyz_reflects_readiness_flag() {
    assert_eq!(readyz(false), 503);
    assert_eq!(readyz(true), 200);
}

#[test]
fn access_grants_must_name_somebody() {
    let grant = |from: &[&str]| IngressAccessGrant {
        from: from.iter().map(|s| s.to_string()).collect(),
        capabilities: None,
    };
    assert!(matches!(validate_ingress(&vec![]), Admission::Allow));
    assert!(matches!(
        validate_ingress(&vec![grant(&["group:eng"]), grant(&["*"])]),
        Admission::Allow
    ));
    match validate_ingress(&vec![grant(&["group:eng"]), grant(&[])]) {
        Admission::Deny(why) => assert_eq!(why, "access grant 'from' must not be empty"),
        _ => panic!("a grant names nobody"),
    }
}
