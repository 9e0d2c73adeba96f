use headmaster::controllers::applier::{apply_status, ChildApplier};
use headmaster::controllers::headscale_instance::bootstrap;
use headmaster::controllers::headscale_instance::bootstrap::{
    create_key_command, ensure_api_key, server_pod,
};
use headmaster::controllers::headscale_instance::cleanup;
use headmaster::controllers::headscale_instance::cleanup::{cleanup_claims, orphan_note};
use headmaster::controllers::headscale_instance::policy::scim_reconcile_url;
use headmaster::controllers::headscale_instance::reconcile::{
    advance, ensure_headscale, is_ready, list_contributing_ingresses, message, reason,
    server_is_ready, Action, Event, Facts, Report, Stage, Step,
    CONFLICT_MESSAGE,
};
use headmaster::controllers::headscale_instance::scim::{
    delete_scim_if_exists, ensure_scim, ensure_scim_token, read_scim_token, scim_name,
    scim_token_name, token_secret, Leftover, LeftoverKind,
};
use headmaster::controllers::ingress::reconcile::IngressObject;
use headmaster::controllers::outcome::{delete_ignoring_404, in_turn, Deletion, Schedule, Turn};
use headmaster::table::Table;
use headmaster::types::headscale_instance::{HeadscaleInstanceSpec, ScimSpec, StorageSpec};
use serde_json::Value;

fn v(text: &str) -> Value {
    serde_json::from_str(text).unwrap()
}

// Deleting the SCIM service.

/// Deletes the leftovers in turn against a cluster that answers like this; gives
/// what was tried.
fn delete_all(
    leftovers: Vec<Leftover>,
    answer: fn(LeftoverKind) -> u16,
) -> (Vec<LeftoverKind>, Result<(), u16>) {
    let mut tried = vec![];
    let mut last = Ok(());
    loop {
        match in_turn(leftovers.len(), tried.len(), last) {
            Turn::Do(i) => {
                let kind = leftovers[i].kind;
                tried.push(kind);
                last = delete_ignoring_404(match answer(kind) {
                    200 => Deletion::Done,
                    404 => Deletion::NotFound,
                    code => Deletion::Failed(code),
                });
            }
            Turn::End => return (tried, Ok(())),
            Turn::Fail(e) => return (tried, Err(e)),
        }
    }
}

#[test]
fn delete_scim_if_exists_ignores_404_on_all_resources() {
    let (tried, result) = delete_all(delete_scim_if_exists("my-instance"), |_| 404);
    assert!(
        result.is_ok(),
        "404 on every DELETE must be silently ignored"
    );
    assert_eq!(tried.len(), 4);
}

#[test]
fn delete_scim_if_exists_propagates_mid_sequence_error() {
    let (tried, result) = delete_all(delete_scim_if_exists("my-instance"), |kind| match kind {
        LeftoverKind::Service => 500,
        _ => 404,
    });
    assert!(result.is_err(), "mid-sequence 500 must propagate");
    assert!(
        !tried.contains(&LeftoverKind::Secret),
        "Secret DELETE must not be issued after Service DELETE fails: {tried:?}"
    );
    assert!(
        !tried.contains(&LeftoverKind::Claim),
        "PVC DELETE must not be issued after Service DELETE fails: {tried:?}"
    );
}

#[test]
fn leftovers_of_the_scim_service() {
    let names: Vec<String> = delete_scim_if_exists("main")
        .into_iter()
        .map(|l| l.name)
        .collect();
    assert_eq!(
        names,
        vec![
            "headscale-scim-main",
            "headscale-scim-main",
            "headscale-scim-token-main",
            "data-headscale-scim-main-0",
        ]
    );
}

// The SCIM service.

fn scim_spec() -> ScimSpec {
    ScimSpec {
        storage: StorageSpec {
            size: "1Gi".to_string(),
            storage_class: Some("fast".to_string()),
        },
        policy_user_key: Some("external_id".to_string()),
        oidc_issuer: Some("https://idp.example.com".to_string()),
        expire_nodes_on_change: true,
    }
}

#[test]
fn scim_resources() {
    let built = ensure_scim(&scim_spec(), "headmaster:1", "main", "ops");
    assert_eq!(
        built.statefulset,
        v(r#"{
            "apiVersion": "apps/v1",
            "kind": "StatefulSet",
            "metadata": { "name": "headscale-scim-main" },
            "spec": {
                "replicas": 1,
                "serviceName": "headscale-scim-main",
                "template": {
                    "spec": {
                        "securityContext": {
                            "runAsNonRoot": true,
                            "runAsUser": 65532,
                            "runAsGroup": 65532,
                            "fsGroup": 65532,
                            "seccompProfile": { "type": "RuntimeDefault" }
                        },
                        "containers": [{
                            "name": "scim",
                            "image": "headmaster:1",
                            "command": ["/usr/local/bin/headmaster-scim"],
                            "securityContext": {
                                "allowPrivilegeEscalation": false,
                                "readOnlyRootFilesystem": true,
                                "capabilities": { "drop": ["ALL"] }
                            },
                            "env": [
                                {
                                    "name": "HEADSCALE_URL",
                                    "value": "http://headscale-server-main.ops.svc:50443"
                                },
                                { "name": "POLICY_USER_KEY", "value": "external_id" },
                                { "name": "OIDC_ISSUER", "value": "https://idp.example.com" },
                                { "name": "EXPIRE_NODES_ON_CHANGE", "value": "true" }
                            ],
                            "envFrom": [
                                { "secretRef": {
                                    "name": "headscale-api-key-main", "optional": false
                                } },
                                { "secretRef": {
                                    "name": "headscale-scim-token-main", "optional": false
                                } }
                            ],
                            "ports": [
                                { "containerPort": 8081, "name": "scim", "protocol": "TCP" }
                            ],
                            "volumeMounts": [{ "name": "data", "mountPath": "/data" }],
                            "readinessProbe": {
                                "httpGet": { "path": "/readyz", "port": "scim", "scheme": "HTTP" },
                                "initialDelaySeconds": 5,
                                "periodSeconds": 5,
                                "failureThreshold": 3
                            },
                            "livenessProbe": {
                                "httpGet": { "path": "/livez", "port": "scim", "scheme": "HTTP" },
                                "initialDelaySeconds": 30,
                                "periodSeconds": 10,
                                "failureThreshold": 3
                            }
                        }]
                    }
                },
                "volumeClaimTemplates": [{
                    "apiVersion": "v1",
                    "kind": "PersistentVolumeClaim",
                    "metadata": { "name": "data" },
                    "spec": {
                        "accessModes": ["ReadWriteOnce"],
                        "storageClassName": "fast",
                        "resources": { "requests": { "storage": "1Gi" } }
                    }
                }]
            }
        }"#)
    );
    assert_eq!(
        built.service,
        v(r#"{
            "apiVersion": "v1",
            "kind": "Service",
            "metadata": { "name": "headscale-scim-main" },
            "spec": {
                "ports": [
                    { "name": "scim", "port": 8081, "protocol": "TCP", "targetPort": "scim" }
                ]
            }
        }"#)
    );
}

#[test]
fn scim_settings_are_optional() {
    let spec = ScimSpec {
        policy_user_key: None,
        oidc_issuer: None,
        expire_nodes_on_change: false,
        ..scim_spec()
    };
    let built = ensure_scim(&spec, "image", "main", "ops");
    let env = &built.statefulset["spec"]["template"]["spec"]["containers"][0]["env"];
    assert_eq!(env.as_array().unwrap().len(), 1);
}

#[test]
fn scim_token_is_made_once() {
    assert!(ensure_scim_token(true, "main").is_none());
    let first = ensure_scim_token(false, "main").unwrap();
    let second = ensure_scim_token(false, "main").unwrap();
    assert_eq!(first["metadata"]["name"], "headscale-scim-token-main");
    let token = first["stringData"]["SCIM_BEARER_TOKEN"].as_str().unwrap();
    assert_eq!(token.len(), 64);
    assert!(token.bytes().all(|b| b.is_ascii_hexdigit()));
    assert!(first != second, "tokens are random");
    assert_eq!(
        token_secret("main", &vec![0, 15, 255]),
        v(r#"{
            "apiVersion": "v1",
            "kind": "Secret",
            "metadata": { "name": "headscale-scim-token-main" },
            "stringData": { "SCIM_BEARER_TOKEN": "000fff" }
        }"#)
    );
}

#[test]
fn scim_token_is_read_back() {
    assert_eq!(
        read_scim_token(Some(b"token".to_vec())),
        Ok("token".to_string())
    );
    assert_eq!(
        read_scim_token(Some(vec![0xc3])),
        Ok("\u{fffd}".to_string())
    );
    assert_eq!(
        read_scim_token(None),
        Err("SCIM_BEARER_TOKEN key not found in secret")
    );
}

#[test]
fn scim_names() {
    assert_eq!(scim_name("main"), "headscale-scim-main");
    assert_eq!(scim_token_name("main"), "headscale-scim-token-main");
    assert_eq!(
        scim_reconcile_url("ops", "main"),
        "http://headscale-scim-main.ops.svc:8081/internal/reconcile"
    );
}

// The API key.

fn saved(output: &str) -> Option<Value> {
    let printed = bootstrap::Event::<u16>::Printed(output.to_string());
    match ensure_api_key("main", bootstrap::Stage::Key, printed) {
        bootstrap::Step::Do(bootstrap::Action::SaveKey(secret), bootstrap::Stage::Saved) => {
            Some(secret)
        }
        bootstrap::Step::BadOutput(_) => None,
        _ => panic!("a key or none"),
    }
}

#[test]
fn api_key_is_what_the_server_printed() {
    assert_eq!(
        saved(" \"SECRET-REDACTED\"\n").unwrap(),
        v(r#"{
            "apiVersion": "v1",
            "kind": "Secret",
            "metadata": { "name": "headscale-api-key-main" },
            "stringData": { "HEADSCALE_API_KEY": "SECRET-REDACTED" }
        }"#)
    );
    assert!(saved("no key").is_none());
    assert!(saved("{}").is_none());
    assert!(saved("").is_none());
    assert_eq!(server_pod("main"), "headscale-server-main-0");
    assert_eq!(
        create_key_command(),
        vec![
            "headscale",
            "apikeys",
            "create",
            "--expiration",
            "876000h",
            "--output",
            "json"
        ]
    );
}

// Stamping resources.

fn labels(pairs: &[(&str, &str)]) -> Table<String> {
    let mut table = Table::new();
    for (key, value) in pairs {
        table.insert(key.to_string(), value.to_string());
    }
    table
}

#[test]
fn children_are_stamped() {
    let child = ChildApplier::from_parent(
        "ops",
        "main",
        "uid-1",
        &labels(&[
            ("env", "prod"),
            ("team", "net"),
            ("app.kubernetes.io/name", "stolen"),
        ]),
    );
    let stamped = child.apply(
        "headscale",
        v(r#"{ "metadata": { "name": "x", "labels": { "env": "dev", "own": "yes" } } }"#),
    );
    assert_eq!(
        stamped,
        v(r#"{
            "metadata": {
                "name": "x",
                "namespace": "ops",
                "ownerReferences": [{
                    "apiVersion": "headmaster.potatonode.github.io/v1alpha1",
                    "kind": "HeadscaleInstance",
                    "name": "main",
                    "uid": "uid-1",
                    "controller": true
                }],
                "labels": {
                    "env": "prod",
                    "team": "net",
                    "own": "yes",
                    "app.kubernetes.io/name": "headscale",
                    "app.kubernetes.io/instance": "main",
                    "app.kubernetes.io/managed-by": "headmaster"
                }
            }
        }"#)
    );
}

#[test]
fn proxies_lead_back_to_their_ingress() {
    let child = ChildApplier::for_proxy(
        "ops",
        "ns-app",
        "main",
        "uid-1",
        &labels(&[("env", "prod")]),
        "app",
        "ns",
    );
    let stamped = child.apply("tailscale-proxy", v("{}"));
    let labels = &stamped["metadata"]["labels"];
    assert_eq!(
        labels["headmaster.potatonode.github.io/ingress-name"],
        "app"
    );
    assert_eq!(
        labels["headmaster.potatonode.github.io/ingress-namespace"],
        "ns"
    );
    assert_eq!(labels["app.kubernetes.io/instance"], "ns-app");
    assert_eq!(stamped["metadata"]["ownerReferences"][0]["name"], "main");
}

#[test]
fn selectors_hold_only_our_labels() {
    let child = ChildApplier::from_parent("ops", "main", "uid-1", &labels(&[("env", "prod")]));
    let own = v(r#"{
        "app.kubernetes.io/name": "scim",
        "app.kubernetes.io/instance": "main",
        "app.kubernetes.io/managed-by": "headmaster"
    }"#);
    assert_eq!(child.selector_labels("scim"), own);
    let sts = child.apply_statefulset(
        "scim",
        v(r#"{ "spec": { "template": { "metadata": { "annotations": { "a": "b" } } } } }"#),
    );
    assert_eq!(sts["spec"]["selector"]["matchLabels"], own);
    assert_eq!(sts["spec"]["template"]["metadata"]["labels"], own);
    assert_eq!(
        sts["spec"]["template"]["metadata"]["annotations"]["a"],
        "b"
    );
    assert_eq!(sts["metadata"]["labels"]["env"], "prod");
    let service = child.apply_service("scim", v(r#"{ "spec": { "ports": [1] } }"#));
    assert_eq!(service["spec"]["selector"], own);
    assert_eq!(service["spec"]["ports"][0], 1);
}

#[test]
fn status_needs_a_namespace() {
    assert_eq!(
        apply_status("v1", "Thing", "x", Some("ns"), v(r#"{"ok": true}"#)),
        Some(v(r#"{
            "apiVersion": "v1",
            "kind": "Thing",
            "metadata": { "name": "x", "namespace": "ns" },
            "status": { "ok": true }
        }"#))
    );
    assert!(apply_status("v1", "Thing", "x", None, v("{}")).is_none());
}

// The course of the work.

#[derive(Debug, PartialEq)]
enum Outcome {
    End(Schedule),
    Fail(u16),
    Conflict,
}

fn work(facts: Facts, mut events: Vec<Event<u16>>) -> (Vec<Action>, Outcome) {
    let mut stage = Stage::Begin;
    let mut actions = vec![];
    events.insert(0, Event::Start);
    for event in events {
        match advance(facts, stage, event) {
            Step::Do(action, next) => {
                actions.push(action);
                stage = next;
            }
            Step::End(schedule) => return (actions, Outcome::End(schedule)),
            Step::Fail(e) => return (actions, Outcome::Fail(e)),
            Step::Conflict => return (actions, Outcome::Conflict),
            Step::Unexpected => panic!("unexpected event after {actions:?}"),
        }
    }
    panic!("the work is not over after {actions:?}")
}

const PLAIN: Facts = Facts {
    has_scim: false,
    has_groups: true,
};

#[test]
fn instance_becomes_ready() {
    let events = vec![
        Event::Done,
        Event::Ready(true),
        Event::Done,
        Event::Done,
        Event::Done,
        Event::Done,
        Event::Done,
        Event::Failed(1),
    ];
    let (actions, outcome) = work(PLAIN, events);
    assert_eq!(
        actions,
        vec![
            Action::EnsureHeadscale,
            Action::GetStatefulSet,
            Action::EnsureApiKey,
            Action::ListIngresses,
            Action::SyncPolicy,
            Action::DeleteScim,
            Action::Report(Report::Ready),
            Action::PublishTransitions,
        ]
    );
    assert_eq!(outcome, Outcome::End(Schedule::Requeue(60)));
}

#[test]
fn instance_waits_for_its_server() {
    let (actions, outcome) = work(
        PLAIN,
        vec![Event::Done, Event::Ready(false), Event::Done, Event::Done],
    );
    assert_eq!(actions[2], Action::Report(Report::NotReady));
    assert_eq!(outcome, Outcome::End(Schedule::Requeue(10)));
    assert!(server_is_ready(Some(1)));
    assert!(!server_is_ready(Some(0)));
    assert!(!server_is_ready(None));
}

#[test]
fn failures_are_reported() {
    let (actions, outcome) = work(PLAIN, vec![Event::Failed(7), Event::Failed(8)]);
    assert_eq!(actions[1], Action::Report(Report::ChildFailed));
    assert_eq!(outcome, Outcome::Fail(7));
    let (actions, outcome) = work(
        PLAIN,
        vec![
            Event::Done,
            Event::Ready(true),
            Event::Done,
            Event::Done,
            Event::Failed(9),
            Event::Done,
        ],
    );
    assert_eq!(actions.last(), Some(&Action::Report(Report::Failed)));
    assert_eq!(outcome, Outcome::Fail(9));
}

#[test]
fn scim_conflicts_with_own_groups() {
    let facts = Facts {
        has_scim: true,
        has_groups: true,
    };
    let (actions, outcome) = work(
        facts,
        vec![Event::Done, Event::Ready(true), Event::Done, Event::Done],
    );
    assert_eq!(actions[3], Action::Report(Report::Conflict));
    assert_eq!(outcome, Outcome::Conflict);
    assert!(!actions.contains(&Action::SyncPolicy));
    let facts = Facts {
        has_scim: true,
        has_groups: false,
    };
    let (actions, _) = work(
        facts,
        vec![
            Event::Done,
            Event::Ready(true),
            Event::Done,
            Event::Done,
            Event::Done,
            Event::Failed(1),
            Event::Done,
        ],
    );
    assert_eq!(actions[5], Action::EnsureScim);
}

#[test]
fn reports_say_what_is_so() {
    let say = |report: Report| (reason(report), message(report, "boom"), is_ready(report));
    assert_eq!(
        say(Report::ChildFailed),
        (
            "ChildApplyFailed",
            "failed to apply child resource: boom".to_string(),
            false
        )
    );
    assert_eq!(
        say(Report::NotReady),
        (
            "StatefulSetNotReady",
            "headscale StatefulSet is not yet ready".to_string(),
            false
        )
    );
    assert_eq!(
        say(Report::Failed),
        ("ReconcileFailed", "boom".to_string(), false)
    );
    assert_eq!(
        say(Report::Ready),
        (
            "StatefulSetReady",
            "headscale StatefulSet is ready".to_string(),
            true
        )
    );
    assert_eq!(reason(Report::Conflict), "ScimPolicyConflict");
    assert_eq!(message(Report::Conflict, CONFLICT_MESSAGE), CONFLICT_MESSAGE);
}

#[test]
fn ingresses_of_an_instance() {
    let ingress = |namespace: &str, config: Option<&str>| IngressObject {
        namespace: Some(namespace.to_string()),
        name: "app".to_string(),
        class_name: None,
        class_annotation: None,
        config: config.map(str::to_string),
        finalizers: vec![],
    };
    let all = vec![
        ingress("a", Some(r#"{"headscale-ref": "main"}"#)),
        ingress("b", Some(r#"{"headscale-ref": "main"}"#)),
        ingress("a", Some(r#"{"headscale-ref": "other"}"#)),
        ingress("a", Some("not json")),
        ingress("a", None),
        ingress("a", Some(r#"{"headscale-ref": "main", "user": 5}"#)),
    ];
    assert_eq!(
        list_contributing_ingresses(&all, "main", &vec![]),
        vec![0, 1, 5]
    );
    assert_eq!(
        list_contributing_ingresses(&all, "main", &vec!["a".to_string()]),
        vec![0, 5]
    );
}

#[test]
fn api_key_is_made_where_there_is_none() {
    use_key(false, &["get", "create", "save"]);
    use_key(true, &["get"]);
}

fn use_key(found: bool, expected: &[&str]) {
    let mut done: Vec<&str> = vec![];
    let mut stage = bootstrap::Stage::Begin;
    let mut event = bootstrap::Event::<u16>::Start;
    loop {
        match ensure_api_key("main", stage, event) {
            bootstrap::Step::Do(action, next) => {
                stage = next;
                event = match action {
                    bootstrap::Action::GetSecret => {
                        done.push("get");
                        bootstrap::Event::Found(found)
                    }
                    bootstrap::Action::CreateKey => {
                        done.push("create");
                        bootstrap::Event::Printed("\"k\"".to_string())
                    }
                    bootstrap::Action::SaveKey(_) => {
                        done.push("save");
                        bootstrap::Event::Done
                    }
                };
            }
            bootstrap::Step::End => break,
            _ => panic!("nothing fails"),
        }
    }
    assert_eq!(done, expected);
}

#[test]
fn api_key_failures_end_the_work() {
    for stage in [
        bootstrap::Stage::Secret,
        bootstrap::Stage::Key,
        bootstrap::Stage::Saved,
    ] {
        assert!(matches!(
            ensure_api_key("main", stage, bootstrap::Event::Failed(7)),
            bootstrap::Step::Fail(7)
        ));
    }
    assert!(matches!(
        ensure_api_key("main", bootstrap::Stage::Begin, bootstrap::Event::Failed(7)),
        bootstrap::Step::Unexpected
    ));
}

/// Cleans an instance up; `answer` says what comes of each action.
fn clean(
    answer: &dyn Fn(cleanup::Action) -> cleanup::Event<u16>,
) -> (Vec<cleanup::Action>, Result<(), u16>) {
    let mut done = vec![];
    let mut stage = cleanup::Stage::Begin;
    let mut event = cleanup::Event::Start;
    loop {
        match cleanup::cleanup(stage, event) {
            cleanup::Step::Do(action, next) => {
                done.push(action);
                event = answer(action);
                stage = next;
            }
            cleanup::Step::End => return (done, Ok(())),
            cleanup::Step::Fail(e) => return (done, Err(e)),
            cleanup::Step::Unexpected => panic!("unexpected event"),
        }
    }
}

#[test]
fn cleanup_orphans_every_ingress_and_deletes_both_claims() {
    let (done, end) = clean(&|action| match action {
        cleanup::Action::ListIngresses => cleanup::Event::Listed(2),
        cleanup::Action::DeleteClaim(_) => cleanup::Event::Done,
        // What may fail does.
        _ => cleanup::Event::Failed(500),
    });
    assert_eq!(end, Ok(()));
    assert_eq!(
        done,
        vec![
            cleanup::Action::ListIngresses,
            cleanup::Action::Warn(0),
            cleanup::Action::ClearStatus(0),
            cleanup::Action::Warn(1),
            cleanup::Action::ClearStatus(1),
            cleanup::Action::DeleteClaim(0),
            cleanup::Action::DeleteClaim(1),
            cleanup::Action::PublishDeleted,
        ]
    );
}

#[test]
fn cleanup_ends_with_what_must_not_fail() {
    let (done, end) = clean(&|_| cleanup::Event::Failed(403));
    assert_eq!(end, Err(403));
    assert_eq!(done, vec![cleanup::Action::ListIngresses]);
    let (done, end) = clean(&|action| match action {
        cleanup::Action::ListIngresses => cleanup::Event::Listed(0),
        _ => cleanup::Event::Failed(409),
    });
    assert_eq!(end, Err(409));
    assert_eq!(
        done,
        vec![
            cleanup::Action::ListIngresses,
            cleanup::Action::DeleteClaim(0)
        ]
    );
}

#[test]
fn deleted_instance() {
    assert_eq!(
        orphan_note("main"),
        "HeadscaleInstance 'main' was deleted; this Ingress is now orphaned and will stop \
         functioning"
    );
    assert_eq!(
        cleanup_claims("main"),
        vec!["data-headscale-server-main-0", "data-headscale-scim-main-0"]
    );
}

#[test]
fn resources_of_a_server() {
    let spec = HeadscaleInstanceSpec {
        server_url: "https://headscale.example.com".to_string(),
        dns_base_domain: "ts.example.com".to_string(),
        storage: StorageSpec {
            size: "5Gi".to_string(),
            storage_class: None,
        },
        policy: None,
        labels: Table::new(),
        extra_config: Table::new(),
        resources: None,
        scim: None,
        watched_namespaces: vec!["prod".to_string()],
    };
    assert!(spec.namespace_allowed("prod"));
    assert!(!spec.namespace_allowed("dev"));
    let built = ensure_headscale("main", "headscale:1", &spec).ok().unwrap();
    assert_eq!(
        built.config_map["metadata"]["name"],
        "headscale-server-main"
    );
    let yaml = built.config_map["data"]["config.yaml"].as_str().unwrap();
    let config: Value = serde_yaml::from_str(yaml).unwrap();
    assert_eq!(config["server_url"], "https://headscale.example.com");
    assert_eq!(config["dns"]["base_domain"], "ts.example.com");
    assert_eq!(built.service["metadata"]["name"], "headscale-server-main");
    let container = &built.statefulset["spec"]["template"]["spec"]["containers"][0];
    assert_eq!(container["image"], "headscale:1");
}
