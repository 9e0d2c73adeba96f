use headmaster::policy_document::{live_policy, PolicyReply};
use headmaster::scim::flow::{advance, Action, Event, Operation, Stage, Step};
use headmaster::scim::policy::PolicyRepository;
use headmaster::scim::services::{
    collect_member_ids, delete_headscale_user, expire_headscale_user_nodes, require_display_name,
    settle, user_record_to_scim, group_record_to_scim, Account, GroupBody, Node, NodeExpiry, PolicyUserKey, Reply, ResolvedKey, ScimConfig,
    ScimService, StoredGroup, StoredUser, UserBody,
};
use headmaster::scim::storage::{GroupRecord, Mapping, UserRecord};
use headmaster::scim::types::{
    GroupScimId, ScimEmail, ScimError, ScimGroup, ScimId, ScimMember, ScimUser,
};
use headmaster::time::Timestamp;
use serde_json::Value;

/// A headscale server.
struct Server {
    /// Id, owner, and whether it has expired.
    nodes: Vec<(u64, Owner, bool)>,
    accounts: Vec<Owner>,
    policy: String,
    policy_writes: usize,
    no_policy: bool,
    expire_node_fails: bool,
    delete_user_fails: bool,
    set_policy_fails: bool,
}

#[derive(Clone)]
struct Owner {
    id: u64,
    name: String,
    email: String,
    provider_id: String,
}

fn owner(name: &str, email: &str, provider_id: &str) -> Owner {
    Owner {
        id: 1,
        name: name.to_string(),
        email: email.to_string(),
        provider_id: provider_id.to_string(),
    }
}

fn account(owner: &Owner) -> Account {
    Account {
        id: owner.id,
        name: owner.name.clone(),
        email: owner.email.clone(),
        provider_id: owner.provider_id.clone(),
    }
}

impl Server {
    fn new() -> Self {
        Server {
            nodes: vec![],
            accounts: vec![],
            policy: String::new(),
            policy_writes: 0,
            no_policy: false,
            expire_node_fails: false,
            delete_user_fails: false,
            set_policy_fails: false,
        }
    }

    fn with_node(owner: Owner) -> Self {
        let mut server = Server::new();
        server.nodes.push((1, owner, false));
        server
    }

    fn with_account(owner: Owner) -> Self {
        let mut server = Server::new();
        server.accounts.push(owner);
        server
    }

    fn expire(&mut self, key: &ResolvedKey) -> Result<(), ScimError> {
        let nodes: Vec<Node> = self
            .nodes
            .iter()
            .map(|(id, owner, _)| Node {
                id: *id,
                user: Some(account(owner)),
            })
            .collect();
        for NodeExpiry { node_id, expiry } in expire_headscale_user_nodes(key, &nodes) {
            assert_eq!((expiry.second, expiry.nanosecond), (1, 0));
            if self.expire_node_fails {
                settle(Reply::Failed("expire_node failed".to_string()))?;
            }
            let node = self.nodes.iter_mut().find(|n| n.0 == node_id).unwrap();
            node.2 = true;
            settle(Reply::Done)?;
        }
        Ok(())
    }

    fn delete(&mut self, key: &ResolvedKey) -> Result<(), ScimError> {
        let accounts: Vec<Account> = self.accounts.iter().map(account).collect();
        if let Some(id) = delete_headscale_user(key, &accounts) {
            if self.delete_user_fails {
                return settle(Reply::Failed("delete_user failed".to_string()));
            }
            self.accounts.retain(|a| a.id != id);
        }
        settle(Reply::NotFound)
    }
}

/// The service with its mapping, and the server it works on.
struct World {
    service: ScimService,
    mapping: Mapping,
    server: Server,
    flush_fails: bool,
}

fn world(server: Server) -> World {
    world_with(server, ScimConfig::default())
}

fn world_with(server: Server, config: ScimConfig) -> World {
    World {
        service: ScimService::new(config),
        mapping: Mapping::new(),
        server,
        flush_fails: false,
    }
}

fn external_ids() -> ScimConfig {
    ScimConfig {
        policy_user_key: PolicyUserKey::ExternalId {
            oidc_issuer: "https://idp.example.com".to_string(),
        },
        expire_nodes_on_change: false,
    }
}

fn usernames(expire_nodes_on_change: bool) -> ScimConfig {
    ScimConfig {
        policy_user_key: PolicyUserKey::Username,
        expire_nodes_on_change,
    }
}

impl World {
    fn flush(&self) -> Result<(), ScimError> {
        if self.flush_fails {
            Err(ScimError::internal("disk full".to_string()))
        } else {
            Ok(())
        }
    }

    fn publish(&mut self) -> Result<(), ScimError> {
        let groups = self.service.reconcile_groups_policy(&self.mapping);
        let reply = if self.server.no_policy {
            PolicyReply::Refused {
                message: "acl policy not found".to_string(),
                error: ScimError::internal("acl policy not found".to_string()),
            }
        } else {
            PolicyReply::Text(self.server.policy.clone())
        };
        let live = live_policy(reply)?;
        let update = PolicyRepository::new(live)
            .set_group_membership(&groups)
            .ok()
            .unwrap();
        if let Some(update) = update {
            if self.server.set_policy_fails {
                return Err(ScimError::internal("set_policy failed".to_string()));
            }
            self.server.policy_writes += 1;
            self.server.policy = update.policy.to_string();
        }
        Ok(())
    }

    /// Runs a request, with one function for the account and one for the mapping.
    fn run(
        &mut self,
        operation: Operation,
        begin: Event<ScimError>,
        account: &mut dyn FnMut(&mut World) -> Result<(), ScimError>,
        write: &mut dyn FnMut(&mut World) -> Event<ScimError>,
        restore: &mut dyn FnMut(&mut World),
    ) -> Result<(), ScimError> {
        let mut stage = Stage::Begin;
        let mut event = begin;
        loop {
            match advance(operation, stage, event) {
                Step::Do(action, next) => {
                    event = match action {
                        Action::ExpireNodes | Action::DeleteAccount => match account(self) {
                            Ok(()) => Event::Done,
                            Err(e) => Event::Failed(e),
                        },
                        Action::Write => write(self),
                        Action::Restore => {
                            restore(self);
                            Event::Done
                        }
                        Action::Publish => match self.publish() {
                            Ok(()) => Event::Done,
                            Err(e) => Event::Failed(e),
                        },
                    };
                    stage = next;
                }
                Step::Done => return Ok(()),
                Step::Fail(e) => return Err(e),
                Step::Unexpected => panic!("unexpected event"),
            }
        }
    }

    fn create_user(&mut self, body: UserBody) -> Result<(bool, ScimUser), ScimError> {
        let mut body = Some(body);
        let mut stored: Option<StoredUser> = None;
        self.run(
            Operation::CreateUser,
            Event::Ready { account: false },
            &mut |_| Ok(()),
            &mut |world| {
                match world
                    .service
                    .create_user(&mut world.mapping, body.take().unwrap())
                {
                    Ok(user) => stored = Some(user),
                    Err(e) => return Event::Refused(e),
                }
                match world.flush() {
                    Ok(()) => Event::Written { publish: true },
                    Err(e) => Event::Failed(e),
                }
            },
            &mut |_| {},
        )?;
        let stored = stored.unwrap();
        Ok((
            stored.created,
            user_record_to_scim(&stored.id, &stored.record),
        ))
    }

    fn put_user(&mut self, id: &str, body: UserBody) -> Result<ScimUser, ScimError> {
        let mut pending = match self.service.put_user(&self.mapping, id, body) {
            Ok(pending) => pending,
            Err(e) => {
                return self
                    .run(
                        Operation::PutUser,
                        Event::Refused(e),
                        &mut |_| Ok(()),
                        &mut |_| panic!("nothing to write"),
                        &mut |_| {},
                    )
                    .map(|()| panic!("a refused request is not done"))
            }
        };
        let key = pending.expire.take();
        let mut pending = Some(pending);
        let mut stored: Option<StoredUser> = None;
        self.run(
            Operation::PutUser,
            Event::Ready {
                account: key.is_some(),
            },
            &mut |world| world.server.expire(key.as_ref().unwrap()),
            &mut |world| {
                let user = world
                    .service
                    .store_user(&mut world.mapping, pending.take().unwrap());
                let flushed = world.flush();
                let publish =
                    world
                        .service
                        .publishes_user(&world.mapping, &user.id, user.record.active);
                stored = Some(user);
                match flushed {
                    Ok(()) => Event::Written { publish },
                    Err(e) => Event::Failed(e),
                }
            },
            &mut |_| {},
        )?;
        let stored = stored.unwrap();
        Ok(user_record_to_scim(&stored.id, &stored.record))
    }

    fn delete_user(&mut self, id: &str) -> Result<(), ScimError> {
        let leaving = self.service.delete_user(&self.mapping, id)?;
        let key = leaving.account;
        let mut removal = None;
        // Shared by the two functions below.
        let removal = std::cell::RefCell::new(&mut removal);
        self.run(
            Operation::DeleteUser,
            Event::Ready {
                account: key.is_some(),
            },
            &mut |world| world.server.delete(key.as_ref().unwrap()),
            &mut |world| {
                **removal.borrow_mut() =
                    Some(world.mapping.remove_user_and_from_groups(&leaving.id));
                match world.flush() {
                    Ok(()) => Event::Written { publish: true },
                    Err(e) => Event::Failed(e),
                }
            },
            &mut |world| world.mapping.restore(removal.borrow_mut().take().unwrap()),
        )
    }

    fn stored(&self, group: StoredGroup) -> (bool, ScimGroup) {
        (
            group.created,
            group_record_to_scim(group.id.as_str(), &group.record, &self.mapping),
        )
    }

    fn create_group(&mut self, body: GroupBody) -> Result<(bool, ScimGroup), ScimError> {
        let mut body = Some(body);
        let mut stored: Option<StoredGroup> = None;
        self.run(
            Operation::CreateGroup,
            Event::Ready { account: false },
            &mut |_| Ok(()),
            &mut |world| {
                match world
                    .service
                    .create_group(&mut world.mapping, body.take().unwrap())
                {
                    Ok(group) => stored = Some(group),
                    Err(e) => return Event::Refused(e),
                }
                match world.flush() {
                    Ok(()) => Event::Written { publish: true },
                    Err(e) => Event::Failed(e),
                }
            },
            &mut |_| {},
        )?;
        Ok(self.stored(stored.unwrap()))
    }

    fn put_group(&mut self, id: &str, body: GroupBody) -> Result<ScimGroup, ScimError> {
        let mut body = Some(body);
        let mut stored: Option<StoredGroup> = None;
        self.run(
            Operation::PutGroup,
            Event::Ready { account: false },
            &mut |_| Ok(()),
            &mut |world| {
                match world
                    .service
                    .put_group(&mut world.mapping, id, body.take().unwrap())
                {
                    Ok(group) => stored = Some(group),
                    Err(e) => return Event::Refused(e),
                }
                match world.flush() {
                    Ok(()) => Event::Written { publish: true },
                    Err(e) => Event::Failed(e),
                }
            },
            &mut |_| {},
        )?;
        Ok(self.stored(stored.unwrap()).1)
    }

    fn delete_group(&mut self, id: &str) -> Result<(), ScimError> {
        let mut removed = None;
        let removed = std::cell::RefCell::new(&mut removed);
        self.run(
            Operation::DeleteGroup,
            Event::Ready { account: false },
            &mut |_| Ok(()),
            &mut |world| {
                match world.service.delete_group(&mut world.mapping, id) {
                    Ok(group) => **removed.borrow_mut() = Some(group),
                    Err(e) => return Event::Refused(e),
                }
                match world.flush() {
                    Ok(()) => Event::Written { publish: true },
                    Err(e) => Event::Failed(e),
                }
            },
            &mut |world| {
                world.mapping.set_group(
                    GroupScimId(id.to_string()),
                    removed.borrow_mut().take().unwrap(),
                );
            },
        )
    }

    fn reconcile(&mut self) -> Result<(), ScimError> {
        self.run(
            Operation::Reconcile,
            Event::Ready { account: false },
            &mut |_| Ok(()),
            &mut |_| panic!("nothing to write"),
            &mut |_| {},
        )
    }

    fn policy(&self) -> Value {
        serde_json::from_str(&self.server.policy).unwrap()
    }

    fn members(&self, group: &str) -> Vec<String> {
        self.policy()["groups"][format!("group:{group}")]
            .as_array()
            .unwrap()
            .iter()
            .map(|m| m.as_str().unwrap().to_string())
            .collect()
    }

    fn get_user(&self, id: &str) -> Result<ScimUser, ScimError> {
        self.service.get_user(&self.mapping, id)
    }

    fn alice(&mut self) -> ScimUser {
        self.create_user(user("alice", Some("alice@example.com"), Some("ext-alice"), None))
            .expect("create alice")
            .1
    }
}

fn user(
    name: &str,
    email: Option<&str>,
    external_id: Option<&str>,
    active: Option<bool>,
) -> UserBody {
    UserBody {
        user_name: Some(name.to_string()),
        display_name: None,
        external_id: external_id.map(str::to_string),
        emails: email.map(|value| {
            vec![ScimEmail {
                value: value.to_string(),
                primary: true,
            }]
        }),
        active,
    }
}

fn put(name: &str, email: &str, active: bool) -> UserBody {
    user(name, Some(email), None, Some(active))
}

fn group(name: &str, members: &[&str]) -> GroupBody {
    GroupBody {
        display_name: Some(name.to_string()),
        external_id: None,
        members: Some(
            members
                .iter()
                .map(|value| ScimMember {
                    value: value.to_string(),
                    display: None,
                })
                .collect(),
        ),
    }
}

fn bare_group(name: &str) -> GroupBody {
    GroupBody {
        display_name: Some(name.to_string()),
        external_id: None,
        members: None,
    }
}

fn eng_record(members: &[&str]) -> GroupRecord {
    GroupRecord {
        name: "eng".to_string(),
        members: members.iter().map(|m| ScimId(m.to_string())).collect(),
        external_id: None,
        updated_at: Default::default(),
    }
}

#[test]
fn create_returns_uuid_and_active_true() {
    let mut w = world(Server::new());
    let user = w.alice();
    assert!(uuid::Uuid::parse_str(&user.id).is_ok());
    assert!(user.active);
    assert_eq!(user.user_name, "alice");
}

fn is_random_id(id: &str) -> bool {
    let chars: Vec<char> = id.chars().collect();
    chars.len() == 36
        && chars.iter().enumerate().all(|(i, c)| match i {
            8 | 13 | 18 | 23 => *c == '-',
            14 => *c == '4',
            19 => "89ab".contains(*c),
            _ => "0123456789abcdef".contains(*c),
        })
}

#[test]
fn ids_are_random_uuids() {
    let mut w = world(Server::new());
    let user = w.alice();
    assert!(is_random_id(&user.id), "{}", user.id);
    let (_, group) = w.create_group(bare_group("eng")).unwrap();
    assert!(is_random_id(&group.id), "{}", group.id);
    assert_ne!(user.id, group.id);
}

#[test]
fn create_does_not_call_headscale() {
    let mut w = world(Server::new());
    w.alice();
    assert!(
        w.server.accounts.is_empty(),
        "create_user must not create a headscale account"
    );
}

#[test]
fn get_user_by_scim_id() {
    let mut w = world(Server::new());
    let created = w.alice();
    let fetched = w.get_user(&created.id).unwrap();
    assert_eq!(fetched.id, created.id);
    assert_eq!(fetched.user_name, "alice");
}

#[test]
fn create_user_duplicate_username_upserts() {
    let mut w = world(Server::new());
    let (first_created, first) = w
        .create_user(user("alice", Some("alice@example.com"), Some("ext-alice"), None))
        .expect("first create_user must succeed");
    assert!(first_created, "first POST must report created=true");
    let (second_created, second) = w
        .create_user(user("alice", Some("alice@new.com"), None, None))
        .expect("duplicate create_user must succeed as upsert");
    assert!(!second_created, "upsert POST must report created=false");
    assert_eq!(
        first.id, second.id,
        "upsert must preserve the existing SCIM ID"
    );
    assert_eq!(
        second.emails[0].value, "alice@new.com",
        "email must be updated"
    );
    let list = w.service.list_users(&w.mapping);
    assert_eq!(
        list.resources.len(),
        1,
        "must not create a duplicate record"
    );
}

#[test]
fn put_active_false_marks_inactive_and_expires_nodes() {
    let mut w = world(Server::with_node(owner("alice", "alice@example.com", "")));
    let created = w.alice();
    let result = w
        .put_user(&created.id, put("alice", "alice@example.com", false))
        .expect("deactivation must succeed");
    assert!(!result.active);
    assert!(w.server.nodes[0].2, "node must expire after deactivation");
}

#[test]
fn put_active_false_retry_still_expires_nodes() {
    let mut w = world(Server::new());
    let created = w.alice();
    w.put_user(&created.id, put("alice", "alice@example.com", false))
        .expect("first deactivation must succeed");
    w.server
        .nodes
        .push((99, owner("alice", "alice@example.com", ""), false));
    w.put_user(&created.id, put("alice", "alice@example.com", false))
        .expect("retry deactivation must succeed");
    assert!(
        w.server.nodes[0].2,
        "re-injected node must be expired on retry deactivation"
    );
}

#[test]
fn put_active_false_with_email_change_expires_by_old_email() {
    let mut w = world(Server::with_node(owner("alice", "alice@example.com", "")));
    let created = w.alice();
    let result = w
        .put_user(&created.id, put("alice", "alice@new.com", false))
        .expect("deactivation with email change must succeed");
    assert!(!result.active);
    assert_eq!(
        result.emails[0].value, "alice@new.com",
        "email must be updated"
    );
    assert!(
        w.server.nodes[0].2,
        "node must be expired using old email when email changes on deactivation"
    );
}

#[test]
fn put_active_false_email_change_retry_uses_old_email() {
    let mut w = world(Server::with_node(owner("alice", "alice@example.com", "")));
    let created = w.alice();
    w.server.expire_node_fails = true;
    let result = w.put_user(&created.id, put("alice", "alice@new.com", false));
    assert!(
        result.is_err(),
        "first PUT must fail when headscale expire_node fails"
    );
    assert!(!w.server.nodes[0].2, "node must not be expired yet");
    let user = w.get_user(&created.id).unwrap();
    assert_eq!(
        user.emails.first().map(|e| e.value.as_str()),
        Some("alice@example.com"),
        "mapping must not be updated when expire_node fails"
    );
    assert!(
        user.active,
        "user must still be active when expire_node fails"
    );
    w.server.expire_node_fails = false;
    let result = w
        .put_user(&created.id, put("alice", "alice@new.com", false))
        .expect("retry PUT must succeed");
    assert!(!result.active);
    assert_eq!(result.emails[0].value, "alice@new.com");
    assert!(
        w.server.nodes[0].2,
        "node must be expired on retry using the old email from the mapping"
    );
}

#[test]
fn put_user_email_change_retry_still_reconciles_when_set_user_already_ran() {
    let mut w = world(Server::new());
    let alice = w.alice();
    w.create_group(group("eng", &[&alice.id])).unwrap();
    assert!(
        w.members("eng").contains(&"alice@example.com".to_string()),
        "alice's old email must be in the policy before the test"
    );
    w.server.set_policy_fails = true;
    let result = w.put_user(&alice.id, put("alice", "alice@new.com", true));
    assert!(result.is_err(), "first PUT must fail when SetPolicy fails");
    assert_eq!(
        w.get_user(&alice.id).unwrap().emails[0].value,
        "alice@new.com",
        "mapping must have new email"
    );
    w.server.set_policy_fails = false;
    w.put_user(&alice.id, put("alice", "alice@new.com", true))
        .expect("retry PUT must succeed");
    assert_eq!(
        w.members("eng"),
        vec!["alice@new.com"],
        "policy must have new email, and not the old one, after retry reconcile"
    );
}

#[test]
fn put_active_false_no_nodes_is_ok() {
    let mut w = world(Server::new());
    let created = w.alice();
    let result = w
        .put_user(&created.id, put("alice", "alice@example.com", false))
        .expect("deactivation with no nodes must succeed");
    assert!(!result.active);
}

#[test]
fn delete_user_removes_mapping_and_headscale_user() {
    let mut w = world(Server::with_account(owner("alice", "alice@example.com", "")));
    let created = w.alice();
    w.delete_user(&created.id).expect("delete must succeed");
    assert!(
        w.get_user(&created.id).is_err(),
        "mapping entry must be gone"
    );
    assert!(
        w.server.accounts.is_empty(),
        "headscale user must be deleted"
    );
}

#[test]
fn delete_user_deletes_headscale_user_even_when_reconcile_fails() {
    let mut w = world(Server::with_account(owner("alice", "alice@example.com", "")));
    let created = w.alice();
    w.create_group(group("eng", &[&created.id]))
        .expect("create group with alice as member");
    w.server.set_policy_fails = true;
    let result = w.delete_user(&created.id);
    assert!(result.is_err(), "delete must propagate the reconcile error");
    assert!(
        w.server.accounts.is_empty(),
        "headscale user must be deleted before reconcile is attempted"
    );
}

#[test]
fn delete_user_mapping_unchanged_when_headscale_delete_fails() {
    let mut w = world(Server::with_account(owner("alice", "alice@example.com", "")));
    let created = w.alice();
    w.server.delete_user_fails = true;
    let result = w.delete_user(&created.id);
    assert!(result.is_err(), "delete must propagate the headscale error");
    assert_eq!(
        w.server.accounts.len(),
        1,
        "headscale user must still exist when delete fails"
    );
    assert!(
        w.get_user(&created.id).is_ok(),
        "user must still be in the mapping when headscale delete fails (enables retry)"
    );
    w.server.delete_user_fails = false;
    w.delete_user(&created.id)
        .expect("retry delete must succeed");
    assert!(
        w.server.accounts.is_empty(),
        "headscale user must be deleted on retry"
    );
    assert!(
        w.get_user(&created.id).is_err(),
        "user must be gone from mapping after successful retry"
    );
}

#[test]
fn list_groups_reads_from_mapping() {
    let mut w = world(Server::new());
    w.mapping
        .set_group(GroupScimId("gid-1".to_string()), eng_record(&[]));
    let list = w.service.list_groups(&w.mapping);
    assert_eq!(list.resources.len(), 1);
    assert_eq!(list.resources[0].display_name, "eng");
}

#[test]
fn inactive_user_excluded_from_group_policy() {
    let mut w = world(Server::new());
    let alice = w.alice();
    w.create_group(group("eng", &[&alice.id])).unwrap();
    assert_eq!(w.members("eng"), vec!["alice@example.com"]);
    w.put_user(&alice.id, put("alice", "alice@example.com", false))
        .unwrap();
    assert!(
        w.members("eng").is_empty(),
        "inactive user must be excluded from policy"
    );
}

#[test]
fn put_group_renames_group_in_policy_and_mapping() {
    let mut w = world(Server::new());
    w.mapping
        .set_group(GroupScimId("gid-1".to_string()), eng_record(&[]));
    let result = w
        .put_group("gid-1", bare_group("engineering"))
        .expect("rename must succeed");
    assert_eq!(result.display_name, "engineering");
    let live = w.policy();
    assert!(live["groups"]["group:engineering"].is_array());
    assert!(live["groups"]["group:eng"].is_null());
}

#[test]
fn put_user_email_change_rebuilds_group_policy() {
    let mut w = world(Server::new());
    let alice = w.alice();
    w.mapping
        .set_group(GroupScimId("gid-1".to_string()), eng_record(&[&alice.id]));
    w.put_user(&alice.id, put("alice", "alice@new.com", true))
        .unwrap();
    assert_eq!(w.members("eng"), vec!["alice@new.com"]);
}

#[test]
fn list_users_returns_all_users() {
    let mut w = world(Server::new());
    w.alice();
    w.create_user(user("bob", None, None, None)).unwrap();
    assert_eq!(w.service.list_users(&w.mapping).resources.len(), 2);
}

#[test]
fn get_user_not_found_returns_404() {
    let w = world(Server::new());
    let err = w.get_user("nonexistent-id").unwrap_err();
    assert_eq!(err.status, 404);
    assert_eq!(err.detail, "user nonexistent-id not found");
}

#[test]
fn create_user_missing_username_returns_400() {
    let mut w = world(Server::new());
    let err = w.create_user(UserBody::default()).unwrap_err();
    assert_eq!(err.status, 400);
    assert_eq!(err.detail, "userName is required");
    let err = w.create_user(user("", None, None, None)).unwrap_err();
    assert_eq!(err.status, 400);
}

#[test]
fn put_user_missing_active_returns_400() {
    let mut w = world(Server::new());
    let created = w.alice();
    let err = w
        .put_user(&created.id, user("alice", None, None, None))
        .unwrap_err();
    assert_eq!(err.status, 400);
    assert_eq!(err.detail, "active must be set explicitly in a PUT");
}

#[test]
fn put_user_missing_username_returns_400() {
    let mut w = world(Server::new());
    let created = w.alice();
    let body = UserBody {
        active: Some(true),
        ..Default::default()
    };
    let err = w.put_user(&created.id, body).unwrap_err();
    assert_eq!(err.status, 400);
    assert_eq!(err.detail, "userName is required");
}

#[test]
fn reactivation_restores_user_in_group_policy() {
    let mut w = world(Server::new());
    let alice = w.alice();
    w.create_group(group("eng", &[&alice.id])).unwrap();
    w.put_user(&alice.id, put("alice", "alice@example.com", false))
        .unwrap();
    assert!(
        w.members("eng").is_empty(),
        "alice must be absent after deactivation"
    );
    w.put_user(&alice.id, put("alice", "alice@example.com", true))
        .unwrap();
    assert_eq!(
        w.members("eng"),
        vec!["alice@example.com"],
        "alice must be restored in policy after reactivation"
    );
}

#[test]
fn delete_user_with_no_email_succeeds() {
    let mut w = world(Server::new());
    let (_, created) = w.create_user(user("no-email", None, None, None)).unwrap();
    w.delete_user(&created.id)
        .expect("delete with no email must not error");
    assert!(w.get_user(&created.id).is_err());
}

#[test]
fn create_group_duplicate_name_upserts() {
    let mut w = world(Server::new());
    let alice = w.alice();
    let (created1, first) = w.create_group(bare_group("eng")).unwrap();
    assert!(created1, "first POST must report created=true");
    let (created2, second) = w.create_group(group("eng", &[&alice.id])).unwrap();
    assert!(!created2, "second POST must report created=false (upsert)");
    assert_eq!(
        first.id, second.id,
        "upsert must preserve the existing group's SCIM ID"
    );
    assert_eq!(
        w.members("eng"),
        vec!["alice@example.com"],
        "upsert must update group members and rebuild policy"
    );
}

#[test]
fn delete_group_removes_from_policy() {
    let mut w = world(Server::new());
    let (_, created) = w.create_group(bare_group("eng")).unwrap();
    assert!(
        w.policy()["groups"]["group:eng"].is_array(),
        "group must exist after create"
    );
    w.delete_group(&created.id).unwrap();
    assert!(
        w.policy()["groups"]["group:eng"].is_null(),
        "group must be absent from policy after delete"
    );
}

#[test]
fn create_group_with_inactive_member_excluded_from_policy() {
    let mut w = world(Server::new());
    let alice = w.alice();
    w.put_user(&alice.id, put("alice", "alice@example.com", false))
        .unwrap();
    w.create_group(group("eng", &[&alice.id]))
        .expect("create_group with inactive member must succeed");
    assert!(
        w.members("eng").is_empty(),
        "inactive user must be excluded from policy"
    );
}

#[test]
fn delete_user_removes_them_from_group_members() {
    let mut w = world(Server::new());
    let alice = w.alice();
    let (_, created) = w.create_group(group("eng", &[&alice.id])).unwrap();
    assert_eq!(created.members[0].value, alice.id);
    assert_eq!(
        created.members[0].display.as_deref(),
        Some("alice@example.com")
    );
    w.delete_user(&alice.id).unwrap();
    let fetched = w.service.get_group(&w.mapping, &created.id).unwrap();
    assert!(
        fetched.members.is_empty(),
        "group members must be empty after the member user is deleted"
    );
}

#[test]
fn create_group_succeeds_when_headscale_has_no_policy_yet() {
    let mut w = world(Server::new());
    w.server.no_policy = true;
    w.create_group(bare_group("eng"))
        .expect("create_group must succeed even when headscale has no policy set");
}

#[test]
fn create_group_with_no_email_member_excluded_from_policy() {
    let mut w = world(Server::new());
    let (_, no_email) = w.create_user(user("no-email", None, None, None)).unwrap();
    w.create_group(group("eng", &[&no_email.id]))
        .expect("create_group with no-email member must succeed");
    assert_eq!(
        w.members("eng").len(),
        0,
        "member with no email must be excluded from policy in Email mode"
    );
}

#[test]
fn create_group_with_unknown_member_id_resolved_after_user_created() {
    let mut w = world(Server::new());
    let phantom_id = "00000000-0000-0000-0000-000000000042";
    w.create_group(group("eng", &[phantom_id]))
        .expect("create_group with unknown member must succeed");
    assert_eq!(
        w.members("eng").len(),
        0,
        "unknown member cannot contribute to policy before user is synced"
    );
    w.mapping.set_user(
        &ScimId(phantom_id.to_string()),
        UserRecord {
            active: true,
            name: "phantom".to_string(),
            display_name: None,
            email: Some("phantom@example.com".to_string()),
            external_id: None,
            updated_at: Default::default(),
        },
    );
    w.reconcile().expect("reconcile must succeed");
    assert_eq!(
        w.members("eng"),
        vec!["phantom@example.com"],
        "phantom user must appear in policy after deferred resolution"
    );
}

#[test]
fn username_mode_deactivation_expires_nodes_by_name() {
    let mut w = world_with(Server::with_node(owner("alice", "", "")), usernames(false));
    let created = w.alice();
    w.put_user(&created.id, put("alice", "alice@example.com", false))
        .expect("deactivation must succeed in Username mode");
    assert!(
        w.server.nodes[0].2,
        "node must be expired by username match in Username mode"
    );
}

#[test]
fn username_mode_deletion_deletes_headscale_user_by_name() {
    let mut w = world_with(Server::with_account(owner("alice", "", "")), usernames(false));
    let created = w.alice();
    w.delete_user(&created.id)
        .expect("delete must succeed in Username mode");
    assert!(
        w.server.accounts.is_empty(),
        "headscale user must be deleted by name in Username mode"
    );
}

#[test]
fn username_mode_policy_uses_at_suffix_token() {
    let mut w = world_with(Server::new(), usernames(false));
    let alice = w.alice();
    w.create_group(group("eng", &[&alice.id])).unwrap();
    assert_eq!(
        w.members("eng"),
        vec!["alice@"],
        "Username mode must write 'username@' token to policy"
    );
}

#[test]
fn username_mode_policy_rebuilds_on_rename() {
    let mut w = world_with(Server::new(), usernames(false));
    let alice = w.alice();
    w.mapping
        .set_group(GroupScimId("gid-1".to_string()), eng_record(&[&alice.id]));
    w.put_user(&alice.id, put("alice-renamed", "alice@example.com", true))
        .unwrap();
    assert_eq!(
        w.members("eng"),
        vec!["alice-renamed@"],
        "policy must reflect new username, and not the old one, after rename"
    );
}

#[test]
fn external_id_mode_deactivation_expires_nodes_by_provider_id() {
    let node = owner("alice", "", "https://idp.example.com/ext-alice");
    let mut w = world_with(Server::with_node(node), external_ids());
    let created = w.alice();
    w.put_user(
        &created.id,
        user("alice", None, Some("ext-alice"), Some(false)),
    )
    .expect("deactivation must succeed in ExternalId mode");
    assert!(
        w.server.nodes[0].2,
        "node must be expired by provider_id match in ExternalId mode"
    );
}

#[test]
fn external_id_mode_deletion_deletes_headscale_user_by_provider_id() {
    let account = owner("alice", "", "https://idp.example.com/ext-alice");
    let mut w = world_with(Server::with_account(account), external_ids());
    let created = w.alice();
    w.delete_user(&created.id)
        .expect("delete must succeed in ExternalId mode");
    assert!(
        w.server.accounts.is_empty(),
        "headscale user must be deleted by provider_id in ExternalId mode"
    );
}

#[test]
fn external_id_mode_policy_uses_provider_id_token_with_comment() {
    let mut w = world_with(Server::new(), external_ids());
    let alice = w.alice();
    w.create_group(group("eng", &[&alice.id])).unwrap();
    let groups = w.service.reconcile_groups_policy(&w.mapping);
    assert_eq!(
        groups[0].members[0].token,
        "https://idp.example.com/ext-alice@"
    );
    assert_eq!(
        groups[0].members[0].comment.as_deref(),
        Some("alice@example.com, alice")
    );
    assert_eq!(
        w.policy()["groups"]["group:eng"][0],
        "https://idp.example.com/ext-alice@"
    );
}

#[test]
fn external_id_mode_no_email_deactivation_succeeds() {
    let node = owner("no-email-user", "", "https://idp.example.com/ext-no-email");
    let mut w = world_with(Server::with_node(node), external_ids());
    let (_, created) = w
        .create_user(user("no-email-user", None, Some("ext-no-email"), None))
        .unwrap();
    let result = w
        .put_user(
            &created.id,
            user("no-email-user", None, Some("ext-no-email"), Some(false)),
        )
        .expect("deactivation without email must succeed in ExternalId mode");
    assert!(!result.active);
    assert!(
        w.server.nodes[0].2,
        "node must be expired even without email in ExternalId mode"
    );
}

#[test]
fn external_id_mode_create_user_without_external_id_is_rejected() {
    let mut w = world_with(Server::new(), external_ids());
    let err = w
        .create_user(user("alice", Some("alice@example.com"), None, None))
        .unwrap_err();
    assert_eq!(err.status, 400, "must return HTTP 400");
    assert_eq!(
        err.detail,
        "externalId is required when policyUserKey=external_id"
    );
}

#[test]
fn external_id_mode_put_user_without_external_id_is_rejected() {
    let mut w = world_with(Server::new(), external_ids());
    let (_, created) = w
        .create_user(user("alice", None, Some("ext-alice"), None))
        .unwrap();
    let err = w
        .put_user(&created.id, user("alice", None, None, Some(false)))
        .unwrap_err();
    assert_eq!(err.status, 400, "must return HTTP 400");
}

#[test]
fn email_mode_no_email_deactivation_logs_warning_and_skips() {
    let mut w = world(Server::with_node(owner("no-email-user", "", "")));
    let (_, created) = w
        .create_user(user("no-email-user", None, None, None))
        .unwrap();
    let result = w
        .put_user(&created.id, user("no-email-user", None, None, Some(false)))
        .expect("deactivation must succeed even when node expiry is skipped");
    assert!(!result.active, "user must be marked inactive");
    assert!(
        !w.server.nodes[0].2,
        "node must NOT be expired in Email mode when user has no email"
    );
}

#[test]
fn expire_nodes_on_change_email_mode_triggers_on_email_change() {
    let config = ScimConfig {
        policy_user_key: PolicyUserKey::Email,
        expire_nodes_on_change: true,
    };
    let node = owner("alice", "alice@example.com", "");
    let mut w = world_with(Server::with_node(node), config);
    let created = w.alice();
    w.put_user(&created.id, put("alice", "alice@new.com", true))
        .expect("email change must succeed");
    assert!(
        w.server.nodes[0].2,
        "node must be expired on email change when expire_nodes_on_change=true"
    );
}

#[test]
fn expire_nodes_on_change_does_not_trigger_without_flag() {
    let mut w = world(Server::with_node(owner("alice", "alice@example.com", "")));
    let created = w.alice();
    w.put_user(&created.id, put("alice", "alice@new.com", true))
        .expect("email change must succeed");
    assert!(
        !w.server.nodes[0].2,
        "node must NOT be expired on email change when expire_nodes_on_change=false"
    );
}

#[test]
fn expire_nodes_on_change_username_mode_triggers_on_rename() {
    let mut w = world_with(Server::with_node(owner("alice", "", "")), usernames(true));
    let created = w.alice();
    w.put_user(&created.id, put("alice-renamed", "alice@example.com", true))
        .expect("rename must succeed");
    assert!(
        w.server.nodes[0].2,
        "node must be expired on username change in Username mode"
    );
}

#[test]
fn nodes_of_others_stay() {
    let mut server = Server::with_node(owner("alice", "alice@example.com", ""));
    server
        .nodes
        .push((2, owner("bob", "bob@example.com", ""), false));
    let mut w = world(server);
    let created = w.alice();
    w.put_user(&created.id, put("alice", "alice@example.com", false))
        .unwrap();
    assert!(w.server.nodes[0].2);
    assert!(!w.server.nodes[1].2);
    let key = ResolvedKey::Email("alice@example.com".to_string());
    let unowned = vec![Node { id: 7, user: None }];
    assert!(expire_headscale_user_nodes(&key, &unowned).is_empty());
    let node = |id, name: &str, email: &str| Node {
        id,
        user: Some(account(&owner(name, email, ""))),
    };
    let owned = vec![
        node(3, "alice", "alice@example.com"),
        node(4, "bob", "bob@example.com"),
        node(5, "alice", "alice@example.com"),
    ];
    let past = Timestamp {
        second: 1,
        nanosecond: 0,
    };
    assert_eq!(
        expire_headscale_user_nodes(&key, &owned),
        vec![
            NodeExpiry { node_id: 3, expiry: past },
            NodeExpiry { node_id: 5, expiry: past }
        ]
    );
}

#[test]
fn put_group_conflict_and_missing_group() {
    let mut w = world(Server::new());
    w.create_group(bare_group("eng")).unwrap();
    let (_, ops) = w.create_group(bare_group("ops")).unwrap();
    let err = w.put_group(&ops.id, bare_group("eng")).unwrap_err();
    assert_eq!(err.status, 409);
    assert_eq!(err.detail, "group 'eng' already exists");
    let kept = w.service.get_group(&w.mapping, &ops.id).unwrap();
    assert_eq!(kept.display_name, "ops");
    w.put_group(&ops.id, bare_group("ops"))
        .expect("a group may keep its name");
    let err = w.put_group("none", bare_group("x")).unwrap_err();
    assert_eq!(err.status, 404);
    assert_eq!(err.detail, "group 'none' not found");
    let err = w.put_group(&ops.id, bare_group("")).unwrap_err();
    assert_eq!(err.status, 400);
    assert_eq!(err.detail, "displayName is required");
    assert_eq!(w.delete_group("none").unwrap_err().status, 404);
    assert_eq!(w.delete_user("none").unwrap_err().status, 404);
    assert_eq!(
        w.put_user("none", put("alice", "a@b", true))
            .unwrap_err()
            .status,
        404
    );
    assert_eq!(
        w.service.get_group(&w.mapping, "none").unwrap_err().status,
        404
    );
}

#[test]
fn group_times_tell_reports_from_changes() {
    let mut w = world(Server::new());
    let (_, created) = w.create_group(bare_group("eng")).unwrap();
    assert_eq!(created.meta.last_modified.unwrap().second, 0);
    assert_eq!(created.meta.resource_type, "Group");
    assert_eq!(
        created.meta.location,
        format!("/scim/v2/Groups/{}", created.id)
    );
    let before = jiff::Timestamp::now().as_second();
    let changed = w.put_group(&created.id, bare_group("eng")).unwrap();
    assert!(changed.meta.last_modified.unwrap().second >= before);
}

#[test]
fn user_resource_shows_the_record() {
    let mut w = world(Server::new());
    let alice = w.alice();
    assert_eq!(
        alice.schemas,
        vec!["urn:ietf:params:scim:schemas:core:2.0:User"]
    );
    assert_eq!(alice.external_id.as_deref(), Some("ext-alice"));
    assert!(alice.emails[0].primary);
    assert_eq!(alice.meta.resource_type, "User");
    assert_eq!(alice.meta.location, format!("/scim/v2/Users/{}", alice.id));
    let (_, bob) = w.create_user(user("bob", None, None, Some(false))).unwrap();
    assert!(bob.emails.is_empty());
    assert!(!bob.active);
}

#[test]
fn failed_writes_of_removals_are_taken_back() {
    let mut w = world(Server::with_account(owner("alice", "alice@example.com", "")));
    let alice = w.alice();
    let (_, eng) = w.create_group(group("eng", &[&alice.id])).unwrap();
    w.flush_fails = true;
    assert_eq!(w.delete_user(&alice.id).unwrap_err().detail, "disk full");
    assert!(w.get_user(&alice.id).is_ok());
    let kept = w.service.get_group(&w.mapping, &eng.id).unwrap();
    assert_eq!(kept.members[0].value, alice.id);
    assert_eq!(w.delete_group(&eng.id).unwrap_err().detail, "disk full");
    assert!(w.service.get_group(&w.mapping, &eng.id).is_ok());
    assert_eq!(w.members("eng"), vec!["alice@example.com"]);
}

#[test]
fn unchanged_groups_are_not_written_again() {
    let mut w = world(Server::new());
    let alice = w.alice();
    w.create_group(group("eng", &[&alice.id])).unwrap();
    let writes = w.server.policy_writes;
    w.reconcile().unwrap();
    w.put_user(&alice.id, put("alice", "alice@example.com", true))
        .unwrap();
    assert_eq!(w.server.policy_writes, writes);
}

#[test]
fn comments_end_where_they_should() {
    let mut w = world_with(Server::new(), external_ids());
    let (_, eve) = w
        .create_user(user("e*/ve **/", None, Some("x"), None))
        .unwrap();
    w.create_group(group("eng", &[&eve.id])).unwrap();
    let groups = w.service.reconcile_groups_policy(&w.mapping);
    assert_eq!(
        groups[0].members[0].comment.as_deref(),
        Some("-, e* /ve ** /")
    );
}

#[test]
fn settled_replies() {
    assert!(settle(Reply::Done).is_ok());
    assert!(settle(Reply::NotFound).is_ok());
    let err = settle(Reply::Failed("boom".to_string())).unwrap_err();
    assert_eq!(err.status, 500);
    assert_eq!(err.detail, "boom");
}

#[test]
fn first_matching_account_is_chosen() {
    let mut second = owner("alice", "alice@example.com", "");
    second.id = 2;
    let accounts = vec![
        account(&owner("bob", "bob@example.com", "")),
        account(&second),
        account(&owner("alice", "alice@example.com", "")),
    ];
    let by_name = ResolvedKey::Name("alice".to_string());
    assert_eq!(delete_headscale_user(&by_name, &accounts), Some(2));
    let nobody = ResolvedKey::ProviderId("x".to_string());
    assert_eq!(delete_headscale_user(&nobody, &accounts), None);
}

#[test]
fn names_and_members_of_group_bodies() {
    assert_eq!(require_display_name(&bare_group("eng")).unwrap(), "eng");
    assert_eq!(require_display_name(&bare_group("")).unwrap_err().status, 400);
    assert!(collect_member_ids(&None).is_empty());
    let ids = collect_member_ids(&group("eng", &["b", "a", "b"]).members);
    let ids: Vec<&str> = ids.iter().map(ScimId::as_str).collect();
    assert_eq!(ids, vec!["b", "a", "b"]);
}
