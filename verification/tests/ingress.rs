use headmaster::controllers::ingress::apply::{
    advance, capability_names, desired_tags, internal_url, note, proxy_tag, reason, registration,
    retarget, tailnet_fqdn, Action, Event, InstanceState, Registration, Retarget, Stage, Step,
    Warning,
};
use headmaster::controllers::ingress::auth_key;
use headmaster::controllers::ingress::auth_key::{
    ensure_auth_key, existing_auth_key, expiration, extract_auth_key, key_tags, no_user_note,
    AuthKeyStatus,
};
use headmaster::controllers::ingress::class::{
    claim_annotation_manifest, claim_manager, class_manifest, ensure_ingress_class, holds_claim,
    ClaimOutcome,
};
use headmaster::controllers::ingress::cleanup;
use headmaster::controllers::ingress::cleanup::{
    cleared_status, deregister_and_cleanup, orphaned_note, owner_record, registered_node,
    release_ingress, remaining_finalizers,
};
use headmaster::controllers::ingress::connect::{
    api_key_secret_name, headscale_connect, namespace_is_deleting, read_secret_string, Connection,
};
use headmaster::controllers::ingress::reconcile::{
    adoption_facts, apply_facts, reconcile, reconcile_with_instance, targets_deployment, Adoption,
    AdoptionFacts, ApplyFacts, IngressObject, INGRESS_CLASS_NAME,
};
use headmaster::controllers::outcome::{
    delete_ignoring_404, error_policy, in_turn, Deletion, Lookup, Schedule, Turn,
};
use headmaster::time::Timestamp;
use headmaster::types::ingress_annotations::{
    AnnotationError, ConfigAnnotation, IngressAccessGrant, IngressAnnotations, IngressConfig,
};
use serde_json::Value;

fn v(text: &str) -> Value {
    serde_json::from_str(text).unwrap()
}

fn ingress(namespace: &str, class: Option<&str>, config: Option<&str>) -> IngressObject {
    IngressObject {
        namespace: Some(namespace.to_string()),
        name: "test-ingress".to_string(),
        class_name: class.map(str::to_string),
        class_annotation: None,
        config: config.map(str::to_string),
        finalizers: vec![],
    }
}

fn access(from: &[&str], capabilities: Option<&str>) -> IngressAccessGrant {
    IngressAccessGrant {
        from: from.iter().map(|s| s.to_string()).collect(),
        capabilities: capabilities.map(v),
    }
}

fn annotations(config: Option<&str>) -> Result<IngressAnnotations, AnnotationError> {
    let found = match config {
        Some(text) => {
            let word = |key: &str| v(text)[key].as_str().map(str::to_string);
            ConfigAnnotation::Present(IngressConfig {
                headscale_ref: word("headscale-ref").unwrap(),
                headscale_namespace: word("headscale-namespace"),
                user: word("user"),
                managed_key_tags: vec![],
                hostname: String::new(),
                auth_key_expiry_secs: 600,
                auth_key_reusable: false,
                access: vec![],
            })
        }
        None => ConfigAnnotation::Absent,
    };
    IngressAnnotations::parse(found, "test-ingress")
}

fn adopt(ingress: &IngressObject, claim_default: bool) -> Adoption {
    let parsed = annotations(ingress.config.as_deref());
    reconcile(adoption_facts(ingress, &parsed, "default", claim_default))
}

// The class.

/// Claims the class, against a cluster that answers the claim like this; also says
/// how many patches were sent.
fn claim(setting: Option<bool>, contested: bool) -> (Result<bool, u16>, usize) {
    match ensure_ingress_class(setting) {
        None => (Ok(false), 1),
        Some(force) => {
            let outcome = if contested && !force {
                ClaimOutcome::Conflict(409)
            } else {
                ClaimOutcome::Done
            };
            (holds_claim(force, outcome), 2)
        }
    }
}

#[test]
fn ensure_ingress_class_none_claims_when_unclaimed() {
    assert!(
        claim(None, false).0.unwrap(),
        "None must return true when the claim patch succeeds"
    );
}

#[test]
fn ensure_ingress_class_none_backs_off_when_contested() {
    assert!(
        !claim(None, true).0.unwrap(),
        "None must return false (not Err) when the claim patch returns 409"
    );
}

#[test]
fn ensure_ingress_class_force_overwrites_existing_claim() {
    let (result, patch_count) = claim(Some(true), true);
    assert!(result.unwrap(), "Some(true) must return true");
    assert_eq!(
        patch_count, 2,
        "two PATCHes must be issued: spec then claim"
    );
}

#[test]
fn ensure_ingress_class_off_does_not_claim() {
    let (result, patch_count) = claim(Some(false), false);
    assert!(!result.unwrap(), "Some(false) must return false");
    assert_eq!(
        patch_count, 1,
        "only the spec PATCH must be issued; claim must not be touched"
    );
}

#[test]
fn claim_failures_are_errors() {
    assert_eq!(holds_claim(true, ClaimOutcome::Conflict(409)), Err(409));
    assert_eq!(holds_claim(false, ClaimOutcome::Failed(500)), Err(500));
}

#[test]
fn class_documents() {
    assert_eq!(
        class_manifest(),
        v(r#"{
            "apiVersion": "networking.k8s.io/v1",
            "kind": "IngressClass",
            "metadata": { "name": "headmaster" },
            "spec": { "controller": "headmaster.potatonode.github.io/ingress-controller" }
        }"#)
    );
    assert_eq!(
        claim_annotation_manifest("ops"),
        v(r#"{
            "apiVersion": "networking.k8s.io/v1",
            "kind": "IngressClass",
            "metadata": {
                "name": "headmaster",
                "annotations": { "headmaster.potatonode.github.io/default-namespace": "ops" }
            }
        }"#)
    );
    assert_eq!(claim_manager("ops"), "headmaster-ops-claim-default");
}

// Reads.

#[test]
fn namespace_is_deleting_returns_true_on_404() {
    assert!(
        namespace_is_deleting::<u16>(Lookup::NotFound).unwrap(),
        "404 on namespace GET must be treated as namespace gone (deleting)"
    );
}

#[test]
fn namespace_is_deleting_propagates_non_404_error() {
    let result = namespace_is_deleting(Lookup::Failed(500));
    assert_eq!(result, Err(500), "non-404 GET error must propagate");
}

#[test]
fn namespace_that_is_there() {
    assert_eq!(namespace_is_deleting::<u16>(Lookup::Found(false)), Ok(false));
    assert_eq!(namespace_is_deleting::<u16>(Lookup::Found(true)), Ok(true));
}

#[test]
fn secret_entries_are_text() {
    assert_eq!(
        read_secret_string(Some(b"caf\xc3\xa9".to_vec())).as_deref(),
        Some("café")
    );
    assert_eq!(read_secret_string(Some(vec![0xff])), None);
    assert_eq!(read_secret_string(None), None);
}

#[test]
fn connection_needs_the_api_key() {
    assert_eq!(api_key_secret_name("main"), "headscale-api-key-main");
    match headscale_connect::<u16>(Lookup::Found(Some(b"key".to_vec())), "ops", "main") {
        Connection::Connect { endpoint, api_key } => {
            assert_eq!(endpoint, "http://headscale-server-main.ops.svc:50443");
            assert_eq!(api_key, "key");
        }
        _ => panic!("there is a key"),
    }
    match headscale_connect::<u16>(Lookup::Found(Some(b"k\xffy".to_vec())), "ops", "main") {
        Connection::Connect { api_key, .. } => assert_eq!(api_key, "k\u{fffd}y"),
        _ => panic!("there is a key"),
    }
    match headscale_connect::<u16>(Lookup::Found(None), "ops", "main") {
        Connection::NoKey { message } => {
            assert_eq!(message, "api-key secret has no 'HEADSCALE_API_KEY' field")
        }
        _ => panic!("there is no key"),
    }
    match headscale_connect::<u16>(Lookup::NotFound, "ops", "main") {
        Connection::NoSecret { message } => assert_eq!(
            message,
            "Secret headscale-api-key-main not found; is HeadscaleInstance ready?"
        ),
        _ => panic!("there is no Secret"),
    }
    assert!(matches!(
        headscale_connect(Lookup::Failed(500), "ops", "main"),
        Connection::Failed(500)
    ));
}

#[test]
fn deletions_in_turn() {
    assert_eq!(delete_ignoring_404::<u16>(Deletion::Done), Ok(()));
    assert_eq!(delete_ignoring_404::<u16>(Deletion::NotFound), Ok(()));
    assert_eq!(delete_ignoring_404(Deletion::Failed(500)), Err(500));
    assert!(matches!(in_turn::<u16>(2, 0, Ok(())), Turn::Do(0)));
    assert!(matches!(in_turn::<u16>(2, 1, Ok(())), Turn::Do(1)));
    assert!(matches!(in_turn::<u16>(2, 2, Ok(())), Turn::End));
    assert!(matches!(in_turn(2, 1, Err(500)), Turn::Fail(500)));
}

// Taking a proxy down.

/// Takes a proxy down; the events are what comes of each action. Gives the actions
/// and the outcome.
fn take_down(
    mut events: Vec<cleanup::Event<u16>>,
) -> (Vec<cleanup::Action>, Result<(), u16>) {
    let mut stage = cleanup::Stage::Begin;
    let mut actions = vec![];
    events.insert(0, cleanup::Event::Start);
    for event in events {
        match deregister_and_cleanup(stage, event) {
            cleanup::Step::Do(action, next) => {
                actions.push(action);
                stage = next;
            }
            cleanup::Step::End => return (actions, Ok(())),
            cleanup::Step::Fail(e) => return (actions, Err(e)),
            cleanup::Step::Unexpected => panic!("unexpected event"),
        }
    }
    panic!("the work is not over")
}

#[test]
fn deregister_and_cleanup_propagates_state_secret_error() {
    let (actions, result) = take_down(vec![cleanup::Event::Failed(500)]);
    assert!(result.is_err(), "state-secret GET error must propagate");
    assert_eq!(
        actions,
        vec![cleanup::Action::GetStateSecret],
        "no DELETE calls must be issued when state-secret read fails"
    );
}

#[test]
fn deregister_and_cleanup_continues_when_state_secret_absent() {
    let (actions, result) = take_down(vec![cleanup::Event::Absent, cleanup::Event::Done]);
    assert!(
        result.is_ok(),
        "missing state secret must not abort cleanup"
    );
    assert_eq!(actions[1], cleanup::Action::DeleteProxy);
}

#[test]
fn node_goes_before_the_proxy() {
    let (actions, result) = take_down(vec![
        cleanup::Event::Node(Some(7)),
        cleanup::Event::Done,
        cleanup::Event::Absent,
        cleanup::Event::Failed(1),
        cleanup::Event::Failed(2),
    ]);
    assert!(result.is_ok());
    assert_eq!(
        actions,
        vec![
            cleanup::Action::GetStateSecret,
            cleanup::Action::Connect(7),
            cleanup::Action::DeleteNode(7),
            cleanup::Action::PublishDeleted,
            cleanup::Action::DeleteProxy,
        ]
    );
    let (actions, result) = take_down(vec![
        cleanup::Event::Node(Some(7)),
        cleanup::Event::Done,
        cleanup::Event::Failed(13),
        cleanup::Event::Done,
    ]);
    assert!(
        result.is_ok(),
        "a node that cannot be deleted must not abort cleanup"
    );
    assert_eq!(
        actions,
        vec![
            cleanup::Action::GetStateSecret,
            cleanup::Action::Connect(7),
            cleanup::Action::DeleteNode(7),
            cleanup::Action::DeleteProxy,
        ]
    );
    let (actions, result) = take_down(vec![
        cleanup::Event::Node(Some(7)),
        cleanup::Event::Failed(14),
        cleanup::Event::Done,
        cleanup::Event::Done,
    ]);
    assert!(result.is_ok());
    assert_eq!(actions[2], cleanup::Action::WarnOrphaned(7));
    let (actions, _) = take_down(vec![cleanup::Event::Node(None), cleanup::Event::Done]);
    assert_eq!(actions[1], cleanup::Action::DeleteProxy);
}

#[test]
fn node_of_a_state_secret() {
    let some = |s: &str| Some(s.to_string());
    assert_eq!(
        registered_node(some("12").as_ref(), some("old").as_ref(), "main"),
        (Some(12), "old".to_string())
    );
    assert_eq!(
        registered_node(some("x12").as_ref(), None, "main"),
        (None, "main".to_string())
    );
    assert_eq!(registered_node(None, None, ""), (None, String::new()));
    assert_eq!(
        registered_node(some("18446744073709551615").as_ref(), None, "").0,
        Some(u64::MAX)
    );
    assert_eq!(
        registered_node(some("18446744073709551616").as_ref(), None, "").0,
        None
    );
    assert_eq!(registered_node(some("+5").as_ref(), None, "").0, Some(5));
    assert_eq!(
        orphaned_note(7, "refused"),
        "could not connect to headscale to delete node 7: refused; \
         the node may remain registered in headscale"
    );
}

#[test]
fn giving_an_ingress_up() {
    let finalizers: Vec<String> = ["a", "headmaster.potatonode.github.io/cleanup-ops", "b"]
        .iter()
        .map(|s| s.to_string())
        .collect();
    assert_eq!(remaining_finalizers(&finalizers, "ops"), vec!["a", "b"]);
    assert_eq!(remaining_finalizers(&finalizers, "dev").len(), 3);
    assert_eq!(
        release_ingress("42", &finalizers, "ops"),
        v(r#"{
            "metadata": {
                "resourceVersion": "42",
                "finalizers": ["a", "b"],
                "annotations": { "headmaster.potatonode.github.io/claimed-by": null }
            }
        }"#)
    );
    assert_eq!(
        cleared_status("ns", "app"),
        v(r#"{
            "apiVersion": "networking.k8s.io/v1",
            "kind": "Ingress",
            "metadata": { "name": "app", "namespace": "ns" },
            "status": {}
        }"#)
    );
    assert_eq!(
        owner_record("ns", "app", "ops"),
        v(r#"{
            "apiVersion": "networking.k8s.io/v1",
            "kind": "Ingress",
            "metadata": {
                "name": "app",
                "namespace": "ns",
                "annotations": { "headmaster.potatonode.github.io/claimed-by": "ops" }
            }
        }"#)
    );
}

// Adoption.

#[test]
fn reconcile_skips_ingress_targeted_at_other_deployment() {
    let mut ingress = ingress(
        "app-ns",
        Some(INGRESS_CLASS_NAME),
        Some(r#"{"headscale-ref":"main","user":"alice","headscale-namespace":"other-ns"}"#),
    );
    ingress.class_annotation = Some("headmaster".to_string());
    assert_eq!(
        adopt(&ingress, true),
        Adoption::Skip,
        "Ingress targeting another deployment must be silently skipped"
    );
}

#[test]
fn reconcile_skips_when_claim_default_false_and_no_explicit_target() {
    assert_eq!(
        adopt(&ingress("any-namespace", Some("headmaster"), None), false),
        Adoption::Skip,
        "non-default deployment must skip Ingresses with no explicit target"
    );
}

#[test]
fn reconcile_processes_ingress_when_claim_default_true() {
    let ingress = ingress(
        "any-namespace",
        Some(INGRESS_CLASS_NAME),
        Some(r#"{"headscale-ref":"main","user":"alice"}"#),
    );
    assert_eq!(adopt(&ingress, true), Adoption::AskInstance);
    let result = reconcile_with_instance(Lookup::Failed(500), "any-namespace");
    assert!(
        result.is_err(),
        "default deployment must process Ingresses with a valid config annotation (K8s call expected)"
    );
}

#[test]
fn reconcile_skips_ingress_with_no_config_annotation() {
    assert_eq!(
        adopt(&ingress("any-namespace", Some("headmaster"), None), true),
        Adoption::Skip,
        "Ingress without config annotation must be silently skipped (no finalizer stamped)"
    );
}

#[test]
fn instance_may_exclude_a_namespace() {
    let watched = |list: &[&str]| {
        Lookup::<Vec<String>, u16>::Found(list.iter().map(|s| s.to_string()).collect())
    };
    assert_eq!(
        reconcile_with_instance(watched(&["prod"]), "staging"),
        Ok(Adoption::Skip)
    );
    assert_eq!(
        reconcile_with_instance(watched(&["prod"]), "prod"),
        Ok(Adoption::Proceed)
    );
    assert_eq!(
        reconcile_with_instance(watched(&[]), "staging"),
        Ok(Adoption::Proceed)
    );
    assert_eq!(
        reconcile_with_instance::<u16>(Lookup::NotFound, "staging"),
        Ok(Adoption::Proceed)
    );
}

#[test]
fn owned_ingress_is_gone_on_with() {
    let facts = AdoptionFacts {
        is_class: false,
        has_finalizer: true,
        has_namespace: true,
        is_ours: false,
        is_valid: false,
    };
    assert_eq!(reconcile(facts), Adoption::Proceed);
    let nowhere = AdoptionFacts {
        has_namespace: false,
        ..facts
    };
    assert_eq!(reconcile(nowhere), Adoption::MissingNamespace);
    let foreign = AdoptionFacts {
        has_finalizer: false,
        ..nowhere
    };
    assert_eq!(reconcile(foreign), Adoption::Skip);
}

#[test]
fn class_field_comes_before_the_annotation() {
    let mut ing = ingress("ns", None, None);
    assert!(!ing.is_headmaster());
    ing.class_annotation = Some("headmaster".to_string());
    assert!(ing.is_headmaster());
    ing.class_name = Some("nginx".to_string());
    assert!(!ing.is_headmaster());
}

#[test]
fn deployment_of_an_ingress() {
    let named = "ops".to_string();
    assert!(targets_deployment(Some(&named), "ops", false));
    assert!(!targets_deployment(Some(&named), "dev", true));
    assert!(targets_deployment(None, "dev", true));
    assert!(!targets_deployment(None, "dev", false));
}

// Bringing a proxy up.

const OURS: ApplyFacts = ApplyFacts {
    is_class: true,
    is_ours: true,
    has_ref: true,
    is_valid: true,
    has_empty_grant: false,
};

const WILLING: InstanceState = InstanceState {
    allowed: true,
    ready: true,
};

#[derive(Debug, PartialEq)]
enum Outcome {
    End(Schedule),
    Invalid,
    Fail(u16),
}

fn bring_up(facts: ApplyFacts, mut events: Vec<Event<u16>>) -> (Vec<Action>, Outcome) {
    let mut stage = Stage::Begin;
    let mut actions = vec![];
    events.insert(0, Event::Start);
    for event in events {
        match advance(facts, stage, event) {
            Step::Do(action, next) => {
                actions.push(action);
                stage = next;
            }
            Step::End(schedule) => return (actions, Outcome::End(schedule)),
            Step::Invalid => return (actions, Outcome::Invalid),
            Step::Fail(e) => return (actions, Outcome::Fail(e)),
            Step::Unexpected => panic!("unexpected event after {actions:?}"),
        }
    }
    panic!("the work is not over after {actions:?}")
}

fn found_alive() -> Vec<Event<u16>> {
    vec![Event::Namespace { deleting: false }]
}

#[test]
fn apply_releases_ingress_when_ingressclass_changes() {
    let mut ing = ingress("app-ns", Some("nginx"), None);
    ing.finalizers = vec![headmaster::finalizer("default")];
    let facts = apply_facts(&ing, &annotations(None), "default", true);
    assert!(!facts.is_class);
    let (actions, outcome) = bring_up(facts, vec![Event::Done, Event::Done]);
    assert_eq!(
        outcome,
        Outcome::End(Schedule::AwaitChange),
        "apply must succeed when ingressClassName changes away from headmaster"
    );
    assert_eq!(
        actions,
        vec![Action::DeleteProxy, Action::Release],
        "a PATCH to release the finalizer must be issued when class changes"
    );
    assert_eq!(
        release_ingress("42", &ing.finalizers, "default")["metadata"]["finalizers"],
        v("[]")
    );
}

#[test]
fn failed_deletion_of_a_lost_proxy_does_not_keep_the_ingress() {
    let lost = ApplyFacts {
        is_ours: false,
        has_ref: false,
        ..OURS
    };
    let (actions, outcome) = bring_up(lost, vec![Event::Failed(500), Event::Done]);
    assert_eq!(outcome, Outcome::End(Schedule::AwaitChange));
    assert_eq!(actions, vec![Action::DeleteProxy, Action::Release]);
    // With a node to deregister, a failure is an error.
    let referring = ApplyFacts {
        has_ref: true,
        ..lost
    };
    let (actions, outcome) = bring_up(referring, vec![Event::Failed(500)]);
    assert_eq!(outcome, Outcome::Fail(500));
    assert_eq!(actions, vec![Action::Deregister]);
}

#[test]
fn apply_removes_finalizer_when_namespace_excluded_from_watched_namespaces() {
    let config = r#"{"headscale-ref":"main","user":"alice"}"#;
    let mut ing = ingress("staging", Some(INGRESS_CLASS_NAME), Some(config));
    ing.finalizers = vec![headmaster::finalizer("default")];
    let facts = apply_facts(&ing, &annotations(Some(config)), "default", true);
    assert_eq!(facts, OURS);
    let mut events = found_alive();
    events.push(Event::Instance(InstanceState {
        allowed: false,
        ready: true,
    }));
    events.push(Event::Done);
    events.push(Event::Done);
    events.push(Event::Done);
    let (actions, outcome) = bring_up(facts, events);
    assert_eq!(
        outcome,
        Outcome::End(Schedule::AwaitChange),
        "apply must succeed when namespace is excluded from watchedNamespaces"
    );
    assert_eq!(
        actions[2..],
        [
            Action::Warn(Warning::NamespaceExcluded),
            Action::Deregister,
            Action::Release,
        ],
        "a PATCH to remove the finalizer must be issued"
    );
}

#[test]
fn gates_before_a_proxy() {
    let invalid = ApplyFacts {
        is_valid: false,
        ..OURS
    };
    assert_eq!(bring_up(invalid, vec![]).1, Outcome::Invalid);
    let going = vec![Event::Namespace { deleting: true }];
    assert_eq!(bring_up(OURS, going).1, Outcome::End(Schedule::AwaitChange));

    let mut events = found_alive();
    events.extend([Event::Absent, Event::Failed(1)]);
    let (actions, outcome) = bring_up(OURS, events);
    assert_eq!(actions[2], Action::Warn(Warning::InstanceMissing));
    assert_eq!(outcome, Outcome::End(Schedule::Requeue(30)));

    let mut events = found_alive();
    events.extend([
        Event::Instance(InstanceState {
            allowed: true,
            ready: false,
        }),
        Event::Done,
    ]);
    let (actions, outcome) = bring_up(OURS, events);
    assert_eq!(actions[2], Action::Warn(Warning::InstanceNotReady));
    assert_eq!(outcome, Outcome::End(Schedule::Requeue(5)));

    let empty = ApplyFacts {
        has_empty_grant: true,
        ..OURS
    };
    let mut events = found_alive();
    events.extend([Event::Instance(WILLING), Event::Done]);
    let (actions, outcome) = bring_up(empty, events);
    assert_eq!(actions[2], Action::Warn(Warning::EmptyGrant));
    assert_eq!(outcome, Outcome::End(Schedule::AwaitChange));

    let mut events = found_alive();
    events.extend([
        Event::Instance(WILLING),
        Event::NoRules,
        Event::Done,
        Event::Done,
    ]);
    let (actions, outcome) = bring_up(OURS, events);
    assert_eq!(
        actions[3..],
        [Action::Warn(Warning::NoPathRules), Action::Deregister]
    );
    assert_eq!(outcome, Outcome::End(Schedule::AwaitChange));

    let mut events = found_alive();
    events.extend([Event::Instance(WILLING), Event::Routes(0), Event::Done]);
    let (actions, outcome) = bring_up(OURS, events);
    assert_eq!(actions[3], Action::Warn(Warning::BackendPending));
    assert_eq!(outcome, Outcome::End(Schedule::Requeue(30)));

    let mut events = found_alive();
    events.push(Event::Failed(500));
    assert_eq!(bring_up(OURS, events).1, Outcome::Fail(500));
}

fn up_to_the_state_secret() -> Vec<Event<u16>> {
    let mut events = found_alive();
    events.extend([
        Event::Instance(WILLING),
        Event::Routes(1),
        Event::Done,
        Event::Done,
    ]);
    events
}

fn online() -> Registration {
    Registration {
        registered: true,
        node_id: Some(3),
        has_ip: true,
    }
}

#[test]
fn proxy_is_brought_up_in_order() {
    let mut events = up_to_the_state_secret();
    events.extend([
        Event::Absent,
        Event::Done,
        Event::State(online()),
        Event::Done,
        Event::Done,
        Event::Done,
        Event::Done,
        Event::Done,
        Event::Failed(1),
        Event::Done,
    ]);
    let (actions, outcome) = bring_up(OURS, events);
    assert_eq!(
        actions,
        vec![
            Action::GetNamespace,
            Action::GetInstance,
            Action::CollectRoutes,
            Action::Connect,
            Action::ApplyWireguard,
            Action::GetStateSecret,
            Action::EnsureAuthKey,
            Action::EnsureStateSecret,
            Action::ApplyServeConfig,
            Action::ApplyRbac,
            Action::ApplyProxy,
            Action::SetTags(3),
            Action::PatchStatus,
            Action::PublishReady,
            Action::RecordOwner,
        ]
    );
    assert_eq!(outcome, Outcome::End(Schedule::AwaitChange));
}

#[test]
fn failed_tags_are_tried_again() {
    let mut events = up_to_the_state_secret();
    events.extend([
        Event::Retarget(Retarget::Keep),
        Event::Done,
        Event::State(Registration {
            has_ip: false,
            ..online()
        }),
        Event::Done,
        Event::Done,
        Event::Done,
        Event::Failed(1),
        Event::Done,
    ]);
    let (actions, outcome) = bring_up(OURS, events);
    assert_eq!(actions.last(), Some(&Action::RecordOwner));
    assert!(!actions.contains(&Action::PatchStatus));
    assert_eq!(outcome, Outcome::End(Schedule::Requeue(30)));
}

#[test]
fn unregistered_proxy_is_warned_of() {
    let mut events = up_to_the_state_secret();
    events.extend([
        Event::Absent,
        Event::Done,
        Event::State(registration(None, &vec![])),
        Event::Done,
        Event::Done,
        Event::Done,
        Event::Done,
        Event::Done,
    ]);
    let (actions, outcome) = bring_up(OURS, events);
    assert_eq!(actions[11], Action::Warn(Warning::NotRegistered));
    assert_eq!(outcome, Outcome::End(Schedule::AwaitChange));
}

#[test]
fn waiting_for_the_user_is_no_error() {
    let mut events = up_to_the_state_secret();
    events.extend([Event::Absent, Event::Waiting]);
    assert_eq!(
        bring_up(OURS, events).1,
        Outcome::End(Schedule::Requeue(30))
    );
}

#[test]
fn old_registration_goes_first() {
    let mut events = up_to_the_state_secret();
    events.extend([
        Event::Retarget(Retarget::FromNode(9)),
        Event::Done,
        Event::Absent,
        Event::Absent,
        Event::Done,
        Event::Failed(7),
    ]);
    let (actions, outcome) = bring_up(OURS, events);
    assert_eq!(
        actions[6..],
        [
            Action::ConnectOld,
            Action::DeleteOldNode(9),
            Action::DeleteConfigSecret,
            Action::DeleteStateSecret,
            Action::EnsureAuthKey,
        ]
    );
    assert_eq!(outcome, Outcome::Fail(7));
    let mut events = up_to_the_state_secret();
    events.extend([
        Event::Retarget(Retarget::FromNode(9)),
        Event::Done,
        Event::Failed(8),
    ]);
    let (actions, outcome) = bring_up(OURS, events);
    assert_eq!(outcome, Outcome::Fail(8));
    assert!(!actions.contains(&Action::DeleteConfigSecret));
    let mut events = up_to_the_state_secret();
    events.extend([
        Event::Retarget(Retarget::FromNode(9)),
        Event::Absent,
        Event::Failed(8),
    ]);
    let (actions, _) = bring_up(OURS, events);
    assert_eq!(actions.last(), Some(&Action::DeleteConfigSecret));
}

#[test]
fn state_secret_tells_the_registration() {
    let some = |s: &str| Some(s.to_string());
    assert_eq!(
        retarget(some("old").as_ref(), some("4").as_ref(), "main"),
        Retarget::FromNode(4)
    );
    assert_eq!(
        retarget(some("old").as_ref(), some("four").as_ref(), "main"),
        Retarget::FromNothing
    );
    assert_eq!(retarget(some("old").as_ref(), None, "main"), Retarget::FromNothing);
    assert_eq!(
        retarget(some("main").as_ref(), some("4").as_ref(), "main"),
        Retarget::Keep
    );
    assert_eq!(retarget(None, some("4").as_ref(), "main"), Retarget::Keep);
    assert_eq!(
        registration(some("4").as_ref(), &vec!["100.64.0.1".to_string()]),
        Registration {
            registered: true,
            node_id: Some(4),
            has_ip: true
        }
    );
    assert_eq!(
        registration(some("?").as_ref(), &vec![]),
        Registration {
            registered: true,
            node_id: None,
            has_ip: false
        }
    );
}

#[test]
fn grants_that_name_nobody_are_seen() {
    let config = r#"{"headscale-ref":"main","user":"alice"}"#;
    let ing = ingress("ns", Some("headmaster"), Some(config));
    let mut parsed = annotations(Some(config)).ok().unwrap();
    parsed.access = vec![access(&["group:eng"], None), access(&[], None)];
    assert!(apply_facts(&ing, &Ok(parsed), "default", true).has_empty_grant);
}

#[test]
fn names_of_a_proxy() {
    let none: Vec<IngressAccessGrant> = vec![];
    assert_eq!(proxy_tag("ns", "app", &none), None);
    let grants = vec![
        access(&["a"], Some(r#"{"z/cap": [], "a/cap": []}"#)),
        access(&["b"], None),
        access(&["c"], Some(r#"{"a/cap": [], "m/cap": [1]}"#)),
    ];
    assert_eq!(
        proxy_tag("ns", "app", &grants).as_deref(),
        Some("tag:hm-ns-app")
    );
    assert_eq!(capability_names(&grants), vec!["a/cap", "m/cap", "z/cap"]);
    let managed: Vec<String> = ["tag:z", "tag:a", "tag:z"].iter().map(|s| s.to_string()).collect();
    let own = "tag:hm-ns-app".to_string();
    assert_eq!(
        desired_tags(&managed, Some(&own)),
        vec!["tag:a", "tag:hm-ns-app", "tag:z"]
    );
    assert_eq!(desired_tags(&managed, None), vec!["tag:a", "tag:z"]);
    assert_eq!(
        internal_url("main", "ops"),
        "http://headscale-server-main.ops.svc.cluster.local:8080"
    );
    assert_eq!(tailnet_fqdn("app", "ts.example.com"), "app.ts.example.com");
}

#[test]
fn warnings_say_what_is_wrong() {
    let say = |w: Warning| (reason(w), note(w, "main", "ns", "app", "proxy-authkey-ns-app"));
    assert_eq!(
        say(Warning::InstanceMissing),
        ("Pending", "HeadscaleInstance 'main' does not exist".to_string())
    );
    assert_eq!(
        say(Warning::NamespaceExcluded),
        (
            "NamespaceExcluded",
            "namespace 'ns' is not in HeadscaleInstance 'main' watchedNamespaces; \
             this Ingress is now orphaned"
                .to_string()
        )
    );
    assert_eq!(
        say(Warning::InstanceNotReady),
        ("Pending", "HeadscaleInstance 'main' is not yet ready".to_string())
    );
    assert_eq!(
        say(Warning::EmptyGrant),
        ("InvalidConfig", "access grant 'from' must not be empty".to_string())
    );
    assert_eq!(
        say(Warning::NoPathRules),
        (
            "NoPathRules",
            "Ingress has no HTTP path rules; add spec.rules with at least one backend".to_string()
        )
    );
    assert_eq!(
        say(Warning::BackendPending),
        (
            "Pending",
            "backend Service not yet available; waiting for named port to resolve".to_string()
        )
    );
    assert_eq!(
        say(Warning::NotRegistered),
        (
            "ProxyNotRegistered",
            "proxy for Ingress 'app' has not registered with headscale; if this persists beyond \
             the auth-key expiry window, delete the Secret 'proxy-authkey-ns-app' to force key \
             rotation"
                .to_string()
        )
    );
}

// The pre-auth key.

/// A headscale server and a cluster, as far as keys go.
struct KeyWorld {
    secret: Option<Vec<u8>>,
    users: Vec<(u64, &'static str)>,
    /// The tags of each key that the server knows, by its id.
    keys: Vec<(u64, Vec<String>)>,
    save_fails: bool,
    gives_no_key: bool,
    warned: bool,
}

fn key_world() -> KeyWorld {
    KeyWorld {
        secret: None,
        users: vec![],
        keys: vec![],
        save_fails: false,
        gives_no_key: false,
        warned: false,
    }
}

impl KeyWorld {
    fn ensure(
        &mut self,
        user: Option<&str>,
        managed: &[&str],
        auto_tag: Option<&str>,
    ) -> Result<AuthKeyStatus, &'static str> {
        let managed: Vec<String> = managed.iter().map(|s| s.to_string()).collect();
        let auto_tag = auto_tag.map(str::to_string);
        let mut stage = auth_key::Stage::Begin;
        let mut event = auth_key::Event::Start;
        loop {
            let (action, next) = match ensure_auth_key(user.is_some(), stage, event) {
                auth_key::Step::Do(action, next) => (action, next),
                auth_key::Step::End(status) => return Ok(status),
                auth_key::Step::Fail(e) => return Err(e),
                auth_key::Step::NoKey => return Err("no key"),
                auth_key::Step::Unexpected => panic!("unexpected event"),
            };
            stage = next;
            event = match action {
                auth_key::Action::GetSecret => {
                    let found = match &self.secret {
                        Some(bytes) => Lookup::Found(Some(bytes.clone())),
                        None => Lookup::NotFound,
                    };
                    match existing_auth_key(found) {
                        Ok(key) => auth_key::Event::Secret(key.is_some()),
                        Err(e) => auth_key::Event::Failed(e),
                    }
                }
                auth_key::Action::ListUsers => auth_key::Event::User(
                    self.users
                        .iter()
                        .find(|u| Some(u.1) == user)
                        .map(|u| u.0),
                ),
                auth_key::Action::WarnNoUser => {
                    self.warned = true;
                    auth_key::Event::Failed("cannot publish")
                }
                auth_key::Action::CreateKey(_) if self.gives_no_key => auth_key::Event::Key(None),
                auth_key::Action::CreateKey(_) => {
                    self.keys.push((5, key_tags(&managed, auto_tag.as_ref())));
                    auth_key::Event::Key(Some(5))
                }
                auth_key::Action::SaveKey(_) if self.save_fails => {
                    auth_key::Event::Failed("cannot save")
                }
                auth_key::Action::SaveKey(_) => {
                    self.secret = Some(b"new-key".to_vec());
                    auth_key::Event::Done
                }
                auth_key::Action::DeleteKey(id) => {
                    self.keys.retain(|k| k.0 != id);
                    auth_key::Event::Done
                }
            };
        }
    }
}

#[test]
fn pre_auth_key_deleted_when_k8s_secret_save_fails() {
    let mut w = KeyWorld {
        save_fails: true,
        ..key_world()
    };
    let result = w.ensure(None, &["tag:server"], None);
    assert_eq!(result, Err("cannot save"), "must propagate the K8s save error");
    assert!(
        w.keys.is_empty(),
        "pre-auth key must be deleted from headscale when K8s secret save fails"
    );
}

#[test]
fn pre_auth_key_retained_when_k8s_secret_save_succeeds() {
    let mut w = key_world();
    let result = w.ensure(None, &["tag:server"], None);
    assert_eq!(result.unwrap(), AuthKeyStatus::Ready);
    assert_eq!(
        w.keys.len(),
        1,
        "pre-auth key must be kept in headscale when K8s secret save succeeds"
    );
}

#[test]
fn ensure_auth_key_skips_headscale_when_secret_already_exists() {
    let mut w = KeyWorld {
        secret: Some(b"existing-auth-key".to_vec()),
        ..key_world()
    };
    let result = w.ensure(None, &["tag:server"], None);
    assert_eq!(result.unwrap(), AuthKeyStatus::Ready);
    assert!(
        w.keys.is_empty(),
        "headscale must not be called when the auth-key secret already exists"
    );
}

#[test]
fn existing_auth_key_propagates_non_404_error() {
    assert_eq!(
        existing_auth_key(Lookup::Failed(500)),
        Err(500),
        "non-404 GET error must propagate"
    );
}

#[test]
fn existing_auth_key_returns_key_when_secret_exists() {
    let key = existing_auth_key::<u16>(Lookup::Found(Some(b"existing-auth-key".to_vec()))).unwrap();
    assert_eq!(key.as_deref(), Some("existing-auth-key"));
    assert_eq!(existing_auth_key::<u16>(Lookup::NotFound), Ok(None));
    assert_eq!(extract_auth_key(Some(vec![])), None);
    assert_eq!(extract_auth_key(Some(vec![0x80])), None);
    assert_eq!(extract_auth_key(None), None);
}

#[test]
fn auto_tag_appended_to_acl_tags() {
    let mut w = KeyWorld {
        users: vec![(1, "alice")],
        ..key_world()
    };
    let result = w.ensure(
        Some("alice"),
        &["tag:server"],
        Some("tag:hm-default-test-ingress"),
    );
    assert_eq!(result.unwrap(), AuthKeyStatus::Ready);
    assert_eq!(w.keys.len(), 1);
    assert_eq!(
        w.keys[0].1,
        vec!["tag:server", "tag:hm-default-test-ingress"],
        "auto-tag must be appended after managed-key-tags"
    );
}

#[test]
fn no_auto_tag_when_none() {
    let mut w = key_world();
    let result = w.ensure(None, &["tag:server"], None);
    assert_eq!(result.unwrap(), AuthKeyStatus::Ready);
    assert_eq!(w.keys[0].1, vec!["tag:server"]);
}

#[test]
fn key_waits_for_its_user() {
    let mut w = key_world();
    assert_eq!(
        w.ensure(Some("alice"), &[], None),
        Ok(AuthKeyStatus::WaitingForUser)
    );
    assert!(w.warned);
    assert!(w.keys.is_empty());
    assert_eq!(
        no_user_note("alice"),
        "headscale user 'alice' does not exist; create it in headscale before this Ingress can \
         be provisioned"
    );
}

#[test]
fn server_that_gives_no_key() {
    let mut w = KeyWorld {
        gives_no_key: true,
        ..key_world()
    };
    assert_eq!(w.ensure(None, &[], None), Err("no key"));
}

#[test]
fn keys_expire_after_their_time() {
    let at = |second, nanosecond| Timestamp { second, nanosecond };
    assert_eq!(expiration(at(1_700_000_000, 0), 600), 1_700_000_600);
    assert_eq!(expiration(at(1_700_000_000, 999_999_999), 600), 1_700_000_600);
    assert_eq!(expiration(at(1_700_000_000, 5), 0), 1_700_000_000);
    assert_eq!(expiration(at(-10, -1), 20), 9);
    assert_eq!(expiration(at(-10, 0), 5), i64::MAX);
    assert_eq!(expiration(at(0, 0), u64::MAX), i64::MAX);
    let most = i64::MAX - 1_700_000_000;
    assert_eq!(expiration(at(1_700_000_000, 0), most as u64), i64::MAX);
    assert_eq!(expiration(at(1_700_000_000, 0), most as u64 - 1), i64::MAX - 1);
}

#[test]
fn failed_work_is_tried_again() {
    assert_eq!(error_policy(), Schedule::Requeue(30));
}
