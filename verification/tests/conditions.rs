use headmaster::controllers::recorder::{
    created, deleted, lifecycle_event, publish_transitions, ready, warning,
};
use headmaster::time::Timestamp;
use headmaster::types::condition::{Condition, ResourceStatus};
use headmaster::types::headscale_instance::HeadscaleInstanceStatus;

fn status(conditions: Vec<Condition>) -> HeadscaleInstanceStatus {
    HeadscaleInstanceStatus {
        observed_generation: 0,
        conditions,
    }
}

fn t(secs: i64) -> Timestamp {
    Timestamp {
        second: secs,
        nanosecond: 0,
    }
}

#[test]
fn replaces_by_type() {
    let mut s = status(vec![]);
    s.update_ready_at(true, "AllGood", "msg", 1, t(1000));
    s.update_ready_at(false, "NotReady", "msg", 1, t(2000));
    assert_eq!(s.conditions.len(), 1);
    assert_eq!(s.conditions[0].status, "False");
    assert_eq!(s.conditions[0].reason, "NotReady");
}

#[test]
fn preserves_last_transition_time_when_status_unchanged() {
    let mut s = status(vec![]);
    s.update_ready_at(true, "AllGood", "msg", 1, t(1000));
    s.update_ready_at(true, "StillGood", "msg", 1, t(2000));
    assert_eq!(s.conditions[0].last_transition_time, t(1000));
    assert_eq!(s.conditions[0].reason, "StillGood");
}

#[test]
fn updates_last_transition_time_when_status_changes() {
    let mut s = status(vec![]);
    s.update_ready_at(true, "AllGood", "msg", 1, t(1000));
    s.update_ready_at(false, "NotReady", "msg", 1, t(2000));
    assert_eq!(s.conditions[0].last_transition_time, t(2000));
}

#[test]
fn is_new_true_with_no_conditions() {
    assert!(status(vec![]).is_new());
}

#[test]
fn is_new_false_after_any_condition_written() {
    let mut s = status(vec![]);
    s.update_ready_at(true, "AllGood", "msg", 1, t(1000));
    assert!(!s.is_new());
}

#[test]
fn is_ready_true_when_ready_condition_is_true() {
    let mut s = status(vec![]);
    s.update_ready_at(true, "AllGood", "msg", 1, t(1000));
    assert!(s.is_ready());
}

#[test]
fn is_ready_false_when_ready_condition_is_false() {
    let mut s = status(vec![]);
    s.update_ready_at(false, "NotReady", "msg", 1, t(1000));
    assert!(!s.is_ready());
}

#[test]
fn is_ready_false_with_no_conditions() {
    assert!(!status(vec![]).is_ready());
}

fn other(status: &str) -> Condition {
    Condition {
        type_: "Synced".to_string(),
        status: status.to_string(),
        reason: "Because".to_string(),
        message: "m".to_string(),
        observed_generation: Some(3),
        last_transition_time: t(5),
    }
}

#[test]
fn condition_of_another_type_stays() {
    let mut s = status(vec![other("True")]);
    s.update_ready_at(false, "NotReady", "msg", 4, t(9));
    assert_eq!(s.conditions.len(), 2);
    assert_eq!(s.conditions[0].type_, "Synced");
    assert_eq!(s.conditions[0].reason, "Because");
    assert_eq!(s.conditions[0].last_transition_time, t(5));
    assert_eq!(s.conditions[1].type_, "Ready");
    assert_eq!(s.conditions[1].observed_generation, Some(4));
    assert!(!s.is_ready());
}

#[test]
fn update_ready_uses_the_present_time() {
    let before = jiff::Timestamp::now().as_second();
    let mut s = status(vec![]);
    s.update_ready(true, "AllGood", "msg", 1);
    let after = jiff::Timestamp::now().as_second();
    let at = s.conditions[0].last_transition_time.second;
    assert!(before <= at && at <= after);
}

#[test]
fn instance_status_reports_its_generation() {
    let status = HeadscaleInstanceStatus {
        observed_generation: 1,
        conditions: vec![],
    };
    let next = status.reporting(true, "Ready", "all is well", 7, t(3));
    assert_eq!(next.observed_generation, 7);
    assert_eq!(next.conditions.len(), 1);
    assert_eq!(next.conditions[0].message, "all is well");
    assert_eq!(next.conditions[0].last_transition_time, t(3));
    assert_eq!(status.conditions.len(), 0);
}

#[test]
fn updates_record_the_generation() {
    let mut s = status(vec![]);
    s.update_ready_at(false, "NotReady", "msg", 4, t(1));
    assert_eq!(s.observed_generation, 4);
    s.update_ready(true, "AllGood", "msg", 5);
    assert_eq!(s.observed_generation, 5);
}

#[test]
fn transitions_tell_new_and_ready() {
    let fresh = status(vec![]);
    let mut up = status(vec![]);
    up.update_ready_at(true, "AllGood", "msg", 1, t(1));
    let first = publish_transitions(&fresh, &up);
    assert!(first.created && first.ready);
    let second = publish_transitions(&up, &up);
    assert!(!second.created && !second.ready);
}

#[test]
fn events_name_the_object() {
    let event = created(Some("HeadscaleInstance"), Some("main"));
    assert!(!event.warning);
    assert_eq!(event.reason, "Created");
    assert_eq!(event.note, "HeadscaleInstance main created");
    assert_eq!(ready(Some("HeadscaleInstance"), Some("main")).note, "HeadscaleInstance main is ready");
    assert_eq!(deleted(None, None).note, "resource unknown deleted");
    let custom = lifecycle_event(None, Some("x"), "Moved", "moved");
    assert_eq!(custom.action, "Moved");
    assert_eq!(custom.note, "resource x moved");
    let warned = warning("Trouble", "look here");
    assert!(warned.warning);
    assert_eq!(warned.reason, "Trouble");
    assert_eq!(warned.action, "Trouble");
    assert_eq!(warned.note, "look here");
}
