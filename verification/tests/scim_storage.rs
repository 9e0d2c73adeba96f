use headmaster::scim::storage::{GroupRecord, Mapping, UserRecord};
use headmaster::scim::types::{ExternalId, GroupScimId, ScimId};
use headmaster::time::Timestamp;

fn alice_scim_id() -> ScimId {
    ScimId("550e8400-e29b-41d4-a716-446655440001".to_string())
}

fn bob_scim_id() -> ScimId {
    ScimId("550e8400-e29b-41d4-a716-446655440002".to_string())
}

fn eng_group_id() -> GroupScimId {
    GroupScimId("uuid-1".to_string())
}

fn alice_record() -> UserRecord {
    UserRecord {
        active: true,
        name: "alice".to_string(),
        display_name: Some("Alice Smith".to_string()),
        email: Some("alice@example.com".to_string()),
        external_id: Some(ExternalId("ext-alice".to_string())),
        updated_at: Default::default(),
    }
}

fn eng_record() -> GroupRecord {
    GroupRecord {
        name: "eng".to_string(),
        members: vec![alice_scim_id()],
        external_id: Some(ExternalId("ext-eng".to_string())),
        updated_at: Default::default(),
    }
}

/// The mapping as it comes back after it was written out.
fn reloaded(m: &Mapping) -> Mapping {
    let users: Vec<(ScimId, UserRecord)> = m
        .users()
        .into_iter()
        .map(|(id, record)| (id, record.clone()))
        .collect();
    let groups: Vec<(GroupScimId, GroupRecord)> = m
        .groups()
        .into_iter()
        .map(|(id, record)| (id, record.clone()))
        .collect();
    Mapping::load(&users, &groups)
}

#[test]
fn user_record_round_trips() {
    let mut m = Mapping::new();
    m.set_user(&alice_scim_id(), alice_record());

    let m2 = reloaded(&m);
    let r = m2
        .get_user(&alice_scim_id())
        .expect("alice must be present");
    assert!(r.active);
    assert_eq!(r.name, "alice");
    assert_eq!(r.display_name.as_deref(), Some("Alice Smith"));
    assert_eq!(r.email.as_deref(), Some("alice@example.com"));
    assert_eq!(
        r.external_id.as_ref().map(ExternalId::as_str),
        Some("ext-alice")
    );
}

#[test]
fn reloaded_mapping_is_the_same() {
    let mut m = Mapping::new();
    let at = Timestamp {
        second: 7,
        nanosecond: 5,
    };
    m.set_user_at(&bob_scim_id(), alice_record(), at);
    m.set_user_at(&alice_scim_id(), alice_record(), at);
    m.set_group(
        eng_group_id(),
        GroupRecord {
            members: vec![bob_scim_id(), alice_scim_id(), bob_scim_id()],
            ..eng_record()
        },
    );
    let m2 = reloaded(&m);
    assert_eq!(m2.users(), m.users());
    assert_eq!(m2.groups(), m.groups());
    assert_eq!(m2.users()[0].0, alice_scim_id());
    assert_eq!(m2.users()[0].1.updated_at, at);
    let nobody = reloaded(&Mapping::new());
    assert!(nobody.users().is_empty() && nobody.groups().is_empty());
}

#[test]
fn remove_user_clears_record() {
    let mut m = Mapping::new();
    m.set_user(&alice_scim_id(), alice_record());
    assert!(m.remove_user(&alice_scim_id()).is_some());
    assert!(m.get_user(&alice_scim_id()).is_none());
    assert!(m.remove_user(&alice_scim_id()).is_none());
}

#[test]
fn user_active_flag_round_trips() {
    let mut m = Mapping::new();
    m.set_user(
        &bob_scim_id(),
        UserRecord {
            active: false,
            name: "bob".to_string(),
            display_name: None,
            email: Some("bob@example.com".to_string()),
            external_id: None,
            updated_at: Default::default(),
        },
    );
    assert!(!reloaded(&m).get_user(&bob_scim_id()).unwrap().active);
}

#[test]
fn set_user_notes_the_time() {
    let mut m = Mapping::new();
    let at = Timestamp {
        second: 42,
        nanosecond: 7,
    };
    let stored = m.set_user_at(&alice_scim_id(), alice_record(), at);
    assert_eq!(stored.updated_at, at);
    assert_eq!(m.get_user(&alice_scim_id()).unwrap().updated_at, at);
    let before = jiff::Timestamp::now().as_second();
    let stored = m.set_user(&alice_scim_id(), alice_record());
    assert!(stored.updated_at.second >= before);
}

#[test]
fn group_record_round_trips() {
    let mut m = Mapping::new();
    m.set_group(eng_group_id(), eng_record());

    let m2 = reloaded(&m);
    let r = m2.get_group(&eng_group_id()).expect("eng must be present");
    assert_eq!(r.name, "eng");
    assert_eq!(r.members, vec![alice_scim_id()]);
    assert_eq!(
        r.external_id.as_ref().map(ExternalId::as_str),
        Some("ext-eng")
    );
}

#[test]
fn get_group_by_name() {
    let mut m = Mapping::new();
    m.set_group(eng_group_id(), eng_record());
    let (id, r) = m.get_group_by_name("eng").expect("must find eng by name");
    assert_eq!(id, eng_group_id());
    assert_eq!(r.name, "eng");
}

#[test]
fn get_group_by_name_unknown() {
    let m = Mapping::new();
    assert!(m.get_group_by_name("nonexistent").is_none());
}

#[test]
fn first_of_one_name_is_found() {
    let mut m = Mapping::new();
    m.set_user(&bob_scim_id(), alice_record());
    m.set_user(&alice_scim_id(), alice_record());
    let (id, _) = m.get_user_by_name("alice").unwrap();
    assert_eq!(id, alice_scim_id());
    assert!(m.get_user_by_name("Alice").is_none());
}

#[test]
fn remove_group_clears_record() {
    let mut m = Mapping::new();
    m.set_group(eng_group_id(), eng_record());
    assert!(m.remove_group(&eng_group_id()).is_some());
    assert!(m.get_group(&eng_group_id()).is_none());
    assert!(m.remove_group(&eng_group_id()).is_none());
}

#[test]
fn set_group_preserves_caller_updated_at() {
    let mut m = Mapping::new();
    let now = Timestamp {
        second: 1_700_000_000,
        nanosecond: 5,
    };
    let record = GroupRecord {
        updated_at: now,
        ..eng_record()
    };
    let stored = m.set_group(eng_group_id(), record);
    assert_eq!(stored.updated_at, now);
}

#[test]
fn set_group_epoch_when_caller_passes_default() {
    let mut m = Mapping::new();
    let stored = m.set_group(eng_group_id(), eng_record());
    assert_eq!(stored.updated_at, Timestamp::default());
    assert_eq!(stored.updated_at.second, 0);
}

#[test]
fn remove_user_rolls_back_on_flush_failure() {
    let mut m = Mapping::new();
    m.set_user(&alice_scim_id(), alice_record());
    let before = m.get_user(&alice_scim_id()).unwrap().clone();
    let removed = m.remove_user(&alice_scim_id()).unwrap();
    m.restore_user(&alice_scim_id(), removed);
    assert_eq!(
        m.get_user(&alice_scim_id()),
        Some(&before),
        "user must be rolled back in memory when flush fails"
    );
}

#[test]
fn remove_group_rolls_back_on_flush_failure() {
    let mut m = Mapping::new();
    m.set_group(eng_group_id(), eng_record());
    let removed = m.remove_group(&eng_group_id()).unwrap();
    m.set_group(eng_group_id(), removed);
    assert_eq!(
        m.get_group(&eng_group_id()),
        Some(&eng_record()),
        "group must be rolled back in memory when flush fails"
    );
}

#[test]
fn remove_user_and_from_groups_clears_both() {
    let mut m = Mapping::new();
    m.set_user(&alice_scim_id(), alice_record());
    m.set_group(eng_group_id(), eng_record());

    m.remove_user_and_from_groups(&alice_scim_id());

    assert!(
        m.get_user(&alice_scim_id()).is_none(),
        "user record must be removed"
    );
    assert!(
        m.get_group(&eng_group_id()).unwrap().members.is_empty(),
        "user must be removed from group members"
    );
}

#[test]
fn remove_user_and_from_groups_rolls_back_on_flush_failure() {
    let mut m = Mapping::new();
    m.set_user(&alice_scim_id(), alice_record());
    m.set_group(eng_group_id(), eng_record());

    let removal = m.remove_user_and_from_groups(&alice_scim_id());
    m.restore(removal);

    assert!(
        m.get_user(&alice_scim_id()).is_some(),
        "user must be rolled back in memory when flush fails"
    );
    assert_eq!(
        m.get_group(&eng_group_id()).unwrap().members,
        vec![alice_scim_id()],
        "group members must be rolled back in memory when flush fails"
    );
}

#[test]
fn removal_keeps_other_members_in_order() {
    let carol = ScimId("carol".to_string());
    let mut m = Mapping::new();
    m.set_user(&alice_scim_id(), alice_record());
    let members = vec![
        bob_scim_id(),
        alice_scim_id(),
        carol.clone(),
        alice_scim_id(),
    ];
    m.set_group(
        eng_group_id(),
        GroupRecord {
            members: members.clone(),
            ..eng_record()
        },
    );
    m.set_group(
        GroupScimId("uuid-2".to_string()),
        GroupRecord {
            name: "ops".to_string(),
            members: vec![bob_scim_id()],
            ..eng_record()
        },
    );
    let removal = m.remove_user_and_from_groups(&alice_scim_id());
    assert_eq!(
        m.get_group(&eng_group_id()).unwrap().members,
        vec![bob_scim_id(), carol]
    );
    let ops = m.get_group_by_name("ops").unwrap().1;
    assert_eq!(ops.members, vec![bob_scim_id()]);
    m.restore(removal);
    assert_eq!(m.get_group(&eng_group_id()).unwrap().members, members);
}

#[test]
fn group_rename_via_set_group() {
    let mut m = Mapping::new();
    m.set_group(eng_group_id(), eng_record());

    let renamed = GroupRecord {
        name: "engineering".to_string(),
        ..eng_record()
    };
    m.set_group(eng_group_id(), renamed);

    assert_eq!(m.get_group(&eng_group_id()).unwrap().name, "engineering");
    assert!(m.get_group_by_name("eng").is_none());
    assert!(m.get_group_by_name("engineering").is_some());
}
