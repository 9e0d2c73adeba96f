use headmaster::policy_document::{
    as_policy, list_groups, live_policy, parse_policy, update_groups, PolicyGroup, PolicyMember,
    PolicyParseError, PolicyReply,
};
use headmaster::scim::policy::PolicyRepository;
use serde_json::Value;

fn email(token: &str) -> PolicyMember {
    PolicyMember {
        token: token.to_string(),
        comment: None,
    }
}

fn group(name: &str, tokens: &[&str]) -> PolicyGroup {
    PolicyGroup {
        name: name.to_string(),
        members: tokens.iter().map(|t| email(t)).collect(),
    }
}

/// The policy text after the groups were put in; nothing where it is kept.
fn written(policy: &str, groups: Vec<PolicyGroup>) -> Option<Value> {
    PolicyRepository::new(policy.to_string())
        .set_group_membership(&groups)
        .ok()
        .unwrap()
        .map(|update| update.policy)
}

#[test]
fn set_group_membership_skips_set_policy_when_semantically_unchanged() {
    let policy = r#"{"groups":{"group:eng":["alice@example.com"]}}"#;
    assert!(
        written(policy, vec![group("eng", &["alice@example.com"])]).is_none(),
        "SetPolicy must be skipped when the resulting policy is semantically identical"
    );
    let spaced = "{ // team\n \"groups\": { \"group:eng\": [\"alice@example.com\",] } }";
    assert!(written(spaced, vec![group("eng", &["alice@example.com"])]).is_none());
}

#[test]
fn set_group_membership_calls_set_policy_when_members_change() {
    let policy = r#"{"groups":{"group:eng":["alice@example.com"]}}"#;
    let after = written(
        policy,
        vec![group("eng", &["alice@example.com", "bob@example.com"])],
    )
    .unwrap();
    assert_eq!(
        after["groups"]["group:eng"].as_array().unwrap().len(),
        2,
        "SetPolicy must be called when members genuinely differ"
    );
}

#[test]
fn set_group_membership_does_not_remove_preexisting_empty_grant() {
    let policy = r#"{
        "groups": {"group:eng": ["alice@example.com"]},
        "grants": [
            {"src": [], "dst": ["tag:app"], "ip": ["*:*"]}
        ]
    }"#;
    let groups = vec![group("eng", &["alice@example.com"])];
    let parsed = parse_policy(policy).ok().unwrap();
    let update = update_groups(&parsed, &groups);
    let grants = update.policy["grants"].as_array().unwrap();
    assert_eq!(
        grants.len(),
        1,
        "grant with pre-existing empty src must not be removed"
    );
    assert!(!update.changed);
    assert!(!update.grants[0].remove);
}

#[test]
fn set_group_membership_does_not_remove_grant_with_preexisting_empty_src_when_dst_is_pruned() {
    let policy = r#"{
        "groups": {"group:eng": ["alice@example.com"]},
        "grants": [
            {"src": [], "dst": ["group:stale", "tag:app"], "ip": ["*:*"]}
        ]
    }"#;
    let after = written(policy, vec![group("eng", &["alice@example.com"])]).unwrap();
    let grants = after["grants"].as_array().expect("grants must be present");
    assert_eq!(
        grants.len(),
        1,
        "grant must survive: we pruned dst but src was already empty, not emptied by us"
    );
    assert_eq!(
        grants[0]["dst"][0], "tag:app",
        "stale group must be removed from dst but live tag must remain"
    );
}

#[test]
fn set_group_membership_prunes_grants_for_removed_groups() {
    let policy = r#"{
        "groups": {"group:eng": ["alice@example.com"], "group:ops": ["bob@example.com"]},
        "grants": [
            {"src": ["group:eng"], "dst": ["tag:app"], "ip": ["*:*"]},
            {"src": ["group:ops"], "dst": ["tag:db"], "ip": ["*:*"]}
        ]
    }"#;
    let after = written(policy, vec![group("ops", &["bob@example.com"])]).unwrap();
    let grants = after["grants"].as_array().expect("grants must be present");
    assert_eq!(grants.len(), 1, "only the ops grant should remain");
    assert_eq!(grants[0]["dst"][0], "tag:db");
}

#[test]
fn edits_name_what_goes() {
    let policy = parse_policy(
        r#"{"grants": [
            {"src": ["group:a", "group:b", "*", "x@y"], "dst": ["tag:t", "group:c"]},
            {"src": ["group:b"], "dst": ["tag:t"]}
        ]}"#,
    )
    .ok()
    .unwrap();
    let update = update_groups(&policy, &vec![group("a", &[])]);
    assert_eq!(update.grants[0].src, vec!["group:b"]);
    assert_eq!(update.grants[0].dst, vec!["group:c"]);
    assert!(!update.grants[0].remove);
    assert!(update.grants[1].remove);
    assert_eq!(
        update.policy["grants"][0]["src"],
        serde_json::from_str::<Value>(r#"["group:a", "*", "x@y"]"#).unwrap()
    );
}

#[test]
fn other_sections_stay_as_they_are() {
    let policy = parse_policy(r#"{"acls": [1], "hosts": {"a": "b"}, "groups": {"group:x": []}}"#)
        .ok()
        .unwrap();
    let once = update_groups(&policy, &vec![group("eng", &["a@b"])]);
    assert_eq!(once.policy["acls"][0], 1);
    assert_eq!(once.policy["hosts"]["a"], "b");
    assert!(once.policy["groups"].get("group:x").is_none());
    let twice = update_groups(&once.policy, &vec![group("eng", &["a@b"])]);
    assert!(!twice.changed);
    assert_eq!(list_groups(&twice.policy), vec!["group:eng"]);
}

#[test]
fn texts_that_are_no_policy() {
    assert!(matches!(
        parse_policy("{"),
        Err(PolicyParseError::Invalid(_))
    ));
    assert!(matches!(
        parse_policy("[1]"),
        Err(PolicyParseError::NotAnObject)
    ));
    assert!(parse_policy(" \n ").ok().unwrap().as_object().unwrap().is_empty());
    assert!(matches!(
        as_policy(Ok(Value::Null)),
        Err(PolicyParseError::NotAnObject)
    ));
    assert!(PolicyRepository::new("nonsense {".to_string())
        .set_group_membership(&vec![])
        .is_err());
}

#[test]
fn live_policy_of_a_server() {
    let text = PolicyReply::<u8>::Text("{}".to_string());
    assert_eq!(live_policy(text), Ok("{}".to_string()));
    let none = PolicyReply::Refused {
        message: "acl policy not found".to_string(),
        error: 1,
    };
    assert_eq!(live_policy(none), Ok(String::new()));
    let other = PolicyReply::Refused {
        message: "unavailable".to_string(),
        error: 2,
    };
    assert_eq!(live_policy(other), Err(2));
}
