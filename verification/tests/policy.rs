use headmaster::controllers::headscale_instance::policy::{
    collect_grants, merge_ingress_grants, plan_policy, policy_has_groups_with_members, sync_policy,
    PlannedPolicy, PolicyIngress, PolicyPlan,
};
use headmaster::controllers::ingress::names::ingress_auto_tag;
use headmaster::policy_document::PolicyParseError;
use headmaster::types::headscale_instance::HeadscaleInstancePolicy;
use headmaster::types::ingress_annotations::IngressAccessGrant;
use serde_json::Value;

fn v(text: &str) -> Value {
    serde_json::from_str(text).unwrap()
}

fn inline_policy(json: &str) -> Option<HeadscaleInstancePolicy> {
    Some(HeadscaleInstancePolicy::Inline {
        inline: json.to_string(),
    })
}

#[test]
fn policy_has_groups_with_members_detects_groups() {
    let policy = inline_policy(r#"{"groups":{"group:eng":["alice@example.com"]},"acls":[]}"#);
    assert!(policy_has_groups_with_members(policy.as_ref()));
}

#[test]
fn policy_has_groups_with_members_false_when_no_groups() {
    let policy = inline_policy(r#"{"acls":[],"tagOwners":{}}"#);
    assert!(!policy_has_groups_with_members(policy.as_ref()));
}

#[test]
fn policy_has_groups_with_members_false_when_none() {
    assert!(!policy_has_groups_with_members(None));
}

#[test]
fn policy_has_groups_with_members_false_when_empty_object() {
    assert!(!policy_has_groups_with_members(
        inline_policy("{}").as_ref()
    ));
}

#[test]
fn policy_has_groups_with_members_false_on_invalid_json() {
    assert!(!policy_has_groups_with_members(
        inline_policy("not-valid-json").as_ref()
    ));
}

#[test]
fn policy_has_groups_with_members_false_when_groups_empty_object() {
    assert!(!policy_has_groups_with_members(
        inline_policy(r#"{"groups":{}}"#).as_ref()
    ));
}

#[test]
fn policy_has_groups_with_members_true_for_hujson() {
    let policy = inline_policy(
        r#"{
                // engineering team
                "groups": { "group:eng": ["alice@example.com"] },
                "acls": []
            }"#,
    );
    assert!(policy_has_groups_with_members(policy.as_ref()));
}

#[test]
fn policy_has_groups_with_members_false_when_all_groups_are_empty_arrays() {
    assert!(!policy_has_groups_with_members(
        inline_policy(r#"{"groups":{"group:eng":[],"group:ops":[]}}"#).as_ref()
    ));
}

#[test]
fn policy_has_groups_with_members_true_when_one_group_has_members() {
    assert!(policy_has_groups_with_members(
        inline_policy(r#"{"groups":{"group:ops":[],"group:eng":["alice@example.com"]}}"#).as_ref()
    ));
}

/// The live policy text once the plan was carried out.
fn carried_out(live: &str, planned: PlannedPolicy) -> String {
    match planned.plan {
        PolicyPlan::Invalid(_) => panic!("sync_policy must succeed"),
        PolicyPlan::Keep => live.to_string(),
        PolicyPlan::Clear => String::new(),
        PolicyPlan::Change(change) => change.policy.to_string(),
    }
}

#[test]
fn sync_policy_skips_set_policy_when_hujson_semantically_equal() {
    let initial_policy =
        r#"{"groups":{"group:eng":["alice@example.com"]},"tagOwners":{"tag:headmaster":[]}}"#;
    let hujson_policy = inline_policy(
        r#"{
                // engineering team
                "groups": { "group:eng": ["alice@example.com"] }
            }"#,
    );
    let planned = sync_policy(hujson_policy.as_ref(), false, initial_policy, &vec![]);
    assert_eq!(
        carried_out(initial_policy, planned),
        initial_policy,
        "SetPolicy must not be called when the HuJSON policy is semantically equal to the live policy"
    );
}

#[test]
fn sync_policy_calls_set_policy_when_policy_differs() {
    let live = r#"{"groups":{"group:eng":["alice@example.com"]}}"#;
    let new_policy = inline_policy(r#"{"groups":{"group:ops":["bob@example.com"]}}"#);
    let planned = sync_policy(new_policy.as_ref(), false, live, &vec![]);
    let stored = v(&carried_out(live, planned));
    assert_eq!(
        stored["groups"]["group:ops"][0], "bob@example.com",
        "SetPolicy must be called when the policy genuinely differs"
    );
    assert_eq!(
        stored["tagOwners"]["tag:headmaster"]
            .as_array()
            .map(|a| a.len()),
        Some(0),
        "tag:headmaster must always be declared with an empty owners list"
    );
}

#[test]
fn sync_policy_preserves_scim_groups_when_scim_enabled() {
    let before = r#"{"acls":[{"action":"accept"}],"groups":{"group:eng":["alice@example.com"]}}"#;
    let new_policy = inline_policy(r#"{"acls":[{"action":"accept","src":["group:eng"]}]}"#);
    let planned = sync_policy(new_policy.as_ref(), true, before, &vec![]);
    let live = v(&carried_out(before, planned));
    assert_eq!(
        live["acls"][0]["src"][0], "group:eng",
        "inline ACL change must be applied"
    );
    assert_eq!(
        live["groups"]["group:eng"][0], "alice@example.com",
        "SCIM-managed groups must be preserved when SCIM is enabled"
    );
}

#[test]
fn sync_policy_no_op_when_inline_matches_live_minus_groups() {
    let initial = r#"{"acls":[{"action":"accept"}],"groups":{"group:eng":["alice@example.com"]},"tagOwners":{"tag:headmaster":[]}}"#;
    let policy = inline_policy(r#"{"acls":[{"action":"accept"}]}"#);
    let planned = sync_policy(policy.as_ref(), true, initial, &vec![]);
    assert_eq!(
        carried_out(initial, planned),
        initial,
        "SetPolicy must not be called when only the SCIM-managed groups differ"
    );
}

#[test]
fn sync_policy_clears_groups_when_scim_disabled() {
    let before = r#"{"acls":[{"action":"accept"}],"groups":{"group:eng":["alice@example.com"]}}"#;
    let new_policy = inline_policy(r#"{"acls":[{"action":"accept","src":["*"]}]}"#);
    let planned = sync_policy(new_policy.as_ref(), false, before, &vec![]);
    let live = v(&carried_out(before, planned));
    assert_eq!(live["acls"][0]["src"][0], "*");
    assert!(
        live["groups"].is_null(),
        "groups must not be preserved when SCIM is disabled"
    );
}

#[test]
fn sync_policy_none_clears_headscale_policy_when_non_empty() {
    let live = r#"{"acls":[{"action":"accept"}]}"#;
    let planned = sync_policy(None, false, live, &vec![]);
    assert_eq!(
        carried_out(live, planned),
        "",
        "SetPolicy(\"\") must be called to restore allow-all when current policy is non-empty"
    );
}

#[test]
fn sync_policy_none_is_idempotent_when_policy_already_empty() {
    let planned = sync_policy(None, false, "", &vec![]);
    assert!(
        matches!(planned.plan, PolicyPlan::Keep),
        "sync_policy must not call SetPolicy when current policy is already empty"
    );
}

fn headmaster_ingress_with_access(ns: &str, name: &str, access: Value) -> PolicyIngress {
    PolicyIngress {
        namespace: ns.to_string(),
        name: name.to_string(),
        access: access
            .as_array()
            .unwrap()
            .iter()
            .map(|entry| IngressAccessGrant {
                from: entry["from"]
                    .as_array()
                    .unwrap()
                    .iter()
                    .map(|s| s.as_str().unwrap().to_string())
                    .collect(),
                capabilities: entry.get("capabilities").cloned(),
            })
            .collect(),
    }
}

#[test]
fn sync_policy_writes_grants_from_contributing_ingress() {
    let live = r#"{"groups":{"group:eng":["alice@example.com"]},"acls":[]}"#;
    let ingress = headmaster_ingress_with_access(
        "default",
        "my-app",
        v(r#"[{
                "from": ["group:eng"],
                "capabilities": {"myapp/cap/admin": [{"role": "admin"}]}
            }]"#),
    );
    let planned = sync_policy(
        inline_policy(r#"{"acls":[],"groups":{"group:eng":["alice@example.com"]}}"#).as_ref(),
        false,
        live,
        &vec![ingress],
    );
    let expected_tag = ingress_auto_tag("default", "my-app");
    let stored = v(&carried_out(live, planned));
    assert_eq!(
        stored["tagOwners"][&expected_tag][0], "tag:headmaster",
        "auto-tag must be owned by tag:headmaster"
    );
    let grants = stored["grants"].as_array().expect("grants must be present");
    assert_eq!(grants.len(), 1, "exactly one grant must be generated");
    assert_eq!(grants[0]["src"][0], "group:eng");
    assert_eq!(grants[0]["dst"][0], expected_tag);
    assert_eq!(
        grants[0]["app"]["myapp/cap/admin"][0]["role"], "admin",
        "capability args must be preserved in the grant"
    );
}

#[test]
fn sync_policy_skips_grant_when_group_not_in_policy() {
    let live = r#"{"acls":[]}"#;
    let ingress =
        headmaster_ingress_with_access("default", "my-app", v(r#"[{"from": ["group:missing"]}]"#));
    let planned = sync_policy(
        inline_policy(r#"{"acls":[]}"#).as_ref(),
        false,
        live,
        &vec![ingress],
    );
    let stored = v(&carried_out(live, planned));
    assert!(
        stored["grants"].is_null(),
        "no grant must be written when the referenced group is not in the desired policy"
    );
}

#[test]
fn sync_policy_writes_grant_when_group_added_simultaneously() {
    let live = r#"{"acls":[]}"#;
    let ingress =
        headmaster_ingress_with_access("default", "my-app", v(r#"[{"from": ["group:eng"]}]"#));
    let planned = sync_policy(
        inline_policy(r#"{"acls":[],"groups":{"group:eng":["alice@example.com"]}}"#).as_ref(),
        false,
        live,
        &vec![ingress],
    );
    let stored = v(&carried_out(live, planned));
    let grants = stored["grants"]
        .as_array()
        .expect("grant must be written in the same reconcile as the group");
    assert_eq!(grants[0]["src"][0], "group:eng");
}

#[test]
fn sync_policy_removes_stale_grants_when_no_ingresses_contribute() {
    let live = r#"{
            "grants": [{"src": ["group:eng"], "dst": ["tag:hm-default-old-app"], "ip": ["*:*"]}]
        }"#;
    let planned = sync_policy(
        inline_policy(r#"{"acls":[]}"#).as_ref(),
        false,
        live,
        &vec![],
    );
    let stored = v(&carried_out(live, planned));
    assert!(
        stored["grants"].is_null(),
        "stale hm- grant must be removed when no ingresses contribute"
    );
}

#[test]
fn sync_policy_refuses_what_is_no_policy() {
    let planned = sync_policy(inline_policy("{").as_ref(), true, "{}", &vec![]);
    assert!(matches!(
        planned.plan,
        PolicyPlan::Invalid(PolicyParseError::Invalid(_))
    ));
    let planned = sync_policy(inline_policy("[]").as_ref(), true, "{}", &vec![]);
    assert!(matches!(
        planned.plan,
        PolicyPlan::Invalid(PolicyParseError::NotAnObject)
    ));
}

#[test]
fn change_says_what_to_edit() {
    let live = r#"{"groups": {"group:eng": []}}"#;
    let own = inline_policy(r#"{"acls": []}"#);
    let ingress = || headmaster_ingress_with_access("ns", "app", v(r#"[{"from": ["group:eng"]}]"#));
    let planned = sync_policy(own.as_ref(), true, live, &vec![ingress()]);
    let change = match planned.plan {
        PolicyPlan::Change(change) => change,
        _ => panic!("the live policy has no acls"),
    };
    assert!(change.copy_groups);
    assert!(change.notify_scim);
    assert_eq!(change.grants.len(), 1);
    assert_eq!(change.grants[0].tag, ingress_auto_tag("ns", "app"));
    assert_eq!(change.grants[0].grant["ip"], v(r#"["*:*"]"#));
    let written = change.policy.to_string();
    let again = sync_policy(own.as_ref(), true, &written, &vec![ingress()]);
    assert!(matches!(again.plan, PolicyPlan::Keep));
}

#[test]
fn policy_that_cannot_be_read_is_replaced() {
    let own = inline_policy(r#"{"acls": []}"#);
    let planned = sync_policy(own.as_ref(), true, "not a policy", &vec![]);
    match planned.plan {
        PolicyPlan::Change(change) => {
            assert!(!change.copy_groups);
            assert_eq!(
                change.policy,
                v(r#"{"acls": [], "tagOwners": {"tag:headmaster": []}}"#)
            );
        }
        _ => panic!("the live policy is no policy"),
    }
}

#[test]
fn ingresses_are_taken_in_order() {
    let access = || v(r#"[{"from": ["alice@"]}]"#);
    let ingresses = vec![
        headmaster_ingress_with_access("b", "one", access()),
        headmaster_ingress_with_access("a", "two", access()),
        headmaster_ingress_with_access("a", "one", access()),
    ];
    let merged = merge_ingress_grants(v("{}"), &ingresses);
    let tags: Vec<String> = merged.grants.into_iter().map(|g| g.tag).collect();
    assert_eq!(
        tags,
        vec![
            ingress_auto_tag("a", "one"),
            ingress_auto_tag("a", "two"),
            ingress_auto_tag("b", "one"),
        ]
    );
    assert_eq!(
        merged.policy["tagOwners"].as_object().unwrap().len(),
        3,
        "each tag has its owner"
    );
    assert!(merged.waiting.is_empty());
}

#[test]
fn grants_that_wait_are_told_of() {
    let ingresses = vec![headmaster_ingress_with_access(
        "ns",
        "app",
        v(r#"[{"from": ["group:a", "bob@", "group:b", "group:c"]}, {"from": ["group:b"]}]"#),
    )];
    let collected = collect_grants(&ingresses, &vec!["group:b".to_string()]);
    assert_eq!(collected.grants.len(), 1);
    assert_eq!(collected.waiting.len(), 1);
    assert_eq!(collected.waiting[0].namespace, "ns");
    assert_eq!(collected.waiting[0].name, "app");
    assert_eq!(
        collected.waiting[0].note,
        "access grant references groups not yet synced: group:a, group:c; \
         the grant will be applied once these groups are available"
    );
}

#[test]
fn plan_for_policies_that_were_read() {
    let ingresses = vec![headmaster_ingress_with_access(
        "apps",
        "wiki",
        v(r#"[{"from": ["group:eng"]}, {"from": ["group:ops", "alice@"]}]"#),
    )];
    let planned = plan_policy(
        v(r#"{"groups": {"group:eng": []}, "acls": []}"#),
        true,
        Some(v(r#"{"groups": {"group:ops": ["bob@"]}}"#)),
        Some(v(r#"{"groups": {"group:ops": ["bob@"]}}"#)),
        &ingresses,
    );
    assert_eq!(planned.waiting.len(), 1);
    assert_eq!(planned.waiting[0].namespace, "apps");
    assert_eq!(planned.waiting[0].name, "wiki");
    let change = match planned.plan {
        PolicyPlan::Change(change) => change,
        _ => panic!("the policy changes"),
    };
    assert!(change.copy_groups);
    assert!(change.notify_scim);
    let wanted = v(r#"{
        "groups": {"group:ops": ["bob@"]},
        "acls": [],
        "tagOwners": {
            "tag:headmaster": [],
            "tag:hm-apps-wiki": ["tag:headmaster"]
        },
        "grants": [
            {"src": ["group:ops", "alice@"], "dst": ["tag:hm-apps-wiki"], "ip": ["*:*"]}
        ]
    }"#);
    assert_eq!(change.policy, wanted);
    // What was written is kept the next time.
    let again = plan_policy(
        v(r#"{"groups": {"group:eng": []}, "acls": []}"#),
        true,
        Some(wanted.clone()),
        Some(wanted),
        &ingresses,
    );
    assert!(matches!(again.plan, PolicyPlan::Keep));
    // Without SCIM and with a live policy that is none, the instance's own stands.
    let own = plan_policy(v("{}"), false, None, None, &vec![]);
    let change = match own.plan {
        PolicyPlan::Change(change) => change,
        _ => panic!("the policy changes"),
    };
    assert!(!change.copy_groups);
    assert!(!change.notify_scim);
    assert_eq!(change.policy, v(r#"{"tagOwners": {"tag:headmaster": []}}"#));
}

#[test]
fn tags_of_ingresses_differ() {
    assert_eq!(ingress_auto_tag("default", "my-app"), "tag:hm-default-my-app");
    assert!(ingress_auto_tag("a", "b-c") != ingress_auto_tag("x", "b-c"));
}
