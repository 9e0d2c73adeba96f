//! The operations of the SCIM service on its mapping, and what they make of the
//! policy and the accounts of a headscale server.
use crate::policy_document;
use crate::policy_document::{PolicyGroup, PolicyMember};
use crate::scim::storage;
use crate::scim::storage::{GroupRecord, GroupRecordV, Mapping, MappingV, UserRecord, UserRecordV};
use crate::scim::types;
use crate::scim::types::{
    EmailV, ErrorV, ExternalId, GroupScimId, MetaV, ScimEmail, ScimError, ScimGroup, ScimGroupV,
    ScimId, ScimListResponse, ScimMember, ScimMemberV, ScimMeta, ScimUser, ScimUserV, SCHEMA_GROUP,
    SCHEMA_USER,
};
use crate::table;
use crate::text;
use crate::time;
use crate::time::Timestamp;
use vstd::prelude::*;

verus! {

/// What stands for a user in the groups of the policy, and what the user's
/// headscale account is found by.
#[derive(Debug)]
pub enum PolicyUserKey {
    /// The address: `alice@example.com`.
    Email,
    /// The user name with an `@` behind it: `alice@`.
    Username,
    /// The identifier at the OIDC provider with an `@` behind it.
    ExternalId { oidc_issuer: String },
}

/// A [`PolicyUserKey`] as plain values.
pub enum KeyV {
    Email,
    Username,
    ExternalId { oidc_issuer: Seq<char> },
}

impl DeepView for PolicyUserKey {
    type V = KeyV;

    open spec fn deep_view(&self) -> KeyV {
        match self {
            PolicyUserKey::Email => KeyV::Email,
            PolicyUserKey::Username => KeyV::Username,
            PolicyUserKey::ExternalId { oidc_issuer } => KeyV::ExternalId {
                oidc_issuer: oidc_issuer@,
            },
        }
    }
}

impl Default for PolicyUserKey {
    fn default() -> (r: Self)
        ensures
            r.deep_view() == KeyV::Email,
    {
        PolicyUserKey::Email
    }
}

/// How the service works.
#[derive(Debug)]
pub struct ScimConfig {
    pub policy_user_key: PolicyUserKey,
    /// Whether a user's nodes expire when what stands for the user changes.
    pub expire_nodes_on_change: bool,
}

/// A [`ScimConfig`] as plain values.
pub struct ConfigV {
    pub policy_user_key: KeyV,
    pub expire_nodes_on_change: bool,
}

impl DeepView for ScimConfig {
    type V = ConfigV;

    open spec fn deep_view(&self) -> ConfigV {
        ConfigV {
            policy_user_key: self.policy_user_key.deep_view(),
            expire_nodes_on_change: self.expire_nodes_on_change,
        }
    }
}

impl Default for ScimConfig {
    fn default() -> (r: Self)
        ensures
            r.deep_view() == (ConfigV {
                policy_user_key: KeyV::Email,
                expire_nodes_on_change: false,
            }),
    {
        ScimConfig { policy_user_key: PolicyUserKey::default(), expire_nodes_on_change: false }
    }
}

/// What the headscale account of one user is found by.
#[derive(Debug)]
pub enum ResolvedKey {
    Email(String),
    Name(String),
    /// The issuer and the external id, with a slash between.
    ProviderId(String),
}

/// A [`ResolvedKey`] as plain text.
pub enum ResolvedV {
    Email(Seq<char>),
    Name(Seq<char>),
    ProviderId(Seq<char>),
}

impl DeepView for ResolvedKey {
    type V = ResolvedV;

    open spec fn deep_view(&self) -> ResolvedV {
        match self {
            ResolvedKey::Email(s) => ResolvedV::Email(s@),
            ResolvedKey::Name(s) => ResolvedV::Name(s@),
            ResolvedKey::ProviderId(s) => ResolvedV::ProviderId(s@),
        }
    }
}

/// What the account of a user is found by; nothing where the record lacks it.
pub open spec fn resolved(key: KeyV, user: UserRecordV) -> Option<ResolvedV> {
    match key {
        KeyV::Email => match user.email {
            Some(email) => Some(ResolvedV::Email(email)),
            None => None,
        },
        KeyV::Username => Some(ResolvedV::Name(user.name)),
        KeyV::ExternalId { oidc_issuer } => match user.external_id {
            Some(id) => Some(ResolvedV::ProviderId(oidc_issuer + "/"@ + id)),
            None => None,
        },
    }
}

/// A text in which no comment ends: a space parts every asterisk from the slash
/// behind it.
pub open spec fn defused(s: Seq<char>) -> Seq<char> {
    text::replaced(s, "*/"@, "* /"@)
}

/// A user as a member of a group of the policy.
pub open spec fn policy_member(key: ResolvedV, user: UserRecordV) -> policy_document::MemberV {
    match key {
        ResolvedV::Email(email) => policy_document::MemberV { token: email, comment: None },
        ResolvedV::Name(name) => policy_document::MemberV { token: name + "@"@, comment: None },
        ResolvedV::ProviderId(id) => policy_document::MemberV {
            token: id + "@"@,
            comment: Some(
                defused(
                    (match user.email {
                        Some(email) => email,
                        None => "-"@,
                    }) + ", "@ + user.name,
                ),
            ),
        },
    }
}

/// A user as a member of a group of the policy: only an active one with what
/// stands for users is one.
pub open spec fn member_of(key: KeyV, user: UserRecordV) -> Option<policy_document::MemberV> {
    if !user.active {
        None
    } else {
        match resolved(key, user) {
            Some(k) => Some(policy_member(k, user)),
            None => None,
        }
    }
}

/// The members of a group of the policy. Users who are not known are left out.
pub open spec fn policy_members(m: MappingV, key: KeyV, ids: Seq<Seq<char>>) -> Seq<
    policy_document::MemberV,
>
    decreases ids.len(),
{
    if ids.len() == 0 {
        Seq::empty()
    } else {
        let rest = policy_members(m, key, ids.drop_last());
        if m.users.dom().contains(ids.last()) {
            match member_of(key, m.users[ids.last()]) {
                Some(member) => rest.push(member),
                None => rest,
            }
        } else {
            rest
        }
    }
}

/// The groups of the policy, in the order of their ids.
pub open spec fn policy_groups(m: MappingV, key: KeyV) -> Seq<policy_document::GroupV> {
    let ids = table::sorted(m.groups.dom());
    Seq::new(
        ids.len(),
        |i: int|
            policy_document::GroupV {
                name: m.groups[ids[i]].name,
                members: policy_members(m, key, m.groups[ids[i]].members),
            },
    )
}

/// What a client says of a user.
pub struct UserBody {
    pub user_name: Option<String>,
    pub display_name: Option<String>,
    pub external_id: Option<String>,
    pub emails: Option<Vec<ScimEmail>>,
    pub active: Option<bool>,
}

impl Default for UserBody {
    fn default() -> (r: Self)
        ensures
            r.deep_view() == (UserBodyV {
                user_name: None,
                display_name: None,
                external_id: None,
                emails: None,
                active: None,
            }),
    {
        UserBody {
            user_name: None,
            display_name: None,
            external_id: None,
            emails: None,
            active: None,
        }
    }
}

/// A [`UserBody`] as plain values.
pub struct UserBodyV {
    pub user_name: Option<Seq<char>>,
    pub display_name: Option<Seq<char>>,
    pub external_id: Option<Seq<char>>,
    pub emails: Option<Seq<EmailV>>,
    pub active: Option<bool>,
}

impl DeepView for UserBody {
    type V = UserBodyV;

    open spec fn deep_view(&self) -> UserBodyV {
        UserBodyV {
            user_name: self.user_name.deep_view(),
            display_name: self.display_name.deep_view(),
            external_id: self.external_id.deep_view(),
            emails: self.emails.deep_view(),
            active: self.active,
        }
    }
}

/// What a client says of a group.
pub struct GroupBody {
    pub display_name: Option<String>,
    pub external_id: Option<String>,
    pub members: Option<Vec<ScimMember>>,
}

/// A [`GroupBody`] as plain values.
pub struct GroupBodyV {
    pub display_name: Option<Seq<char>>,
    pub external_id: Option<Seq<char>>,
    pub members: Option<Seq<ScimMemberV>>,
}

impl DeepView for GroupBody {
    type V = GroupBodyV;

    open spec fn deep_view(&self) -> GroupBodyV {
        GroupBodyV {
            display_name: self.display_name.deep_view(),
            external_id: self.external_id.deep_view(),
            members: self.members.deep_view(),
        }
    }
}

/// The address that counts: the first one.
pub open spec fn first_email(emails: Option<Seq<EmailV>>) -> Option<Seq<char>> {
    match emails {
        Some(emails) => if emails.len() > 0 {
            Some(emails[0].value)
        } else {
            None
        },
        None => None,
    }
}

fn email_of(emails: &Option<Vec<ScimEmail>>) -> (r: Option<String>)
    ensures
        r.deep_view() == first_email(emails.deep_view()),
{
    match emails {
        Some(emails) => if emails.len() > 0 {
            assert(emails.deep_view()[0] == emails@[0].deep_view());
            Some(emails[0].value.clone())
        } else {
            None
        },
        None => None,
    }
}

fn external(id: Option<String>) -> (r: Option<ExternalId>)
    ensures
        r.deep_view() == id.deep_view(),
{
    match id {
        Some(id) => Some(ExternalId(id)),
        None => None,
    }
}

fn external_text(id: &Option<ExternalId>) -> (r: Option<String>)
    ensures
        r.deep_view() == id.deep_view(),
{
    match id {
        Some(id) => Some(id.0.clone()),
        None => None,
    }
}

/// The record that a client's words make.
pub open spec fn record_of(
    body: UserBodyV,
    name: Seq<char>,
    active: bool,
    updated_at: Timestamp,
) -> UserRecordV {
    UserRecordV {
        active,
        name,
        display_name: body.display_name,
        email: first_email(body.emails),
        external_id: body.external_id,
        updated_at,
    }
}

/// Users are told apart by external id, and there is none.
pub open spec fn lacks_external_id(config: ConfigV, body: UserBodyV) -> bool {
    config.policy_user_key is ExternalId && body.external_id is None
}

/// Why a new user is refused, if so.
pub open spec fn create_user_refusal(config: ConfigV, body: UserBodyV) -> Option<ErrorV> {
    if !(body.user_name matches Some(name) && name.len() > 0) {
        Some(types::bad_request("userName is required"@))
    } else if lacks_external_id(config, body) {
        Some(types::bad_request("externalId is required when policyUserKey=external_id"@))
    } else {
        None
    }
}

/// Why a change of a user is refused whatever the mapping holds, if so.
pub open spec fn put_user_refusal(config: ConfigV, body: UserBodyV) -> Option<ErrorV> {
    if body.user_name is None {
        Some(types::bad_request("userName is required"@))
    } else if body.active is None {
        Some(types::bad_request("active must be set explicitly in a PUT"@))
    } else if lacks_external_id(config, body) {
        Some(types::bad_request("externalId is required when policyUserKey=external_id"@))
    } else {
        None
    }
}

/// No user has this id.
pub open spec fn no_user(id: Seq<char>) -> ErrorV {
    types::not_found("user "@ + id + " not found"@)
}

/// No group has this id.
pub open spec fn no_group(id: Seq<char>) -> ErrorV {
    types::not_found("group '"@ + id + "' not found"@)
}

fn user_missing(id: &str) -> (r: ScimError)
    ensures
        r.deep_view() == no_user(id@),
{
    ScimError::not_found(text::cat3("user ", id, " not found"))
}

fn group_missing(id: &str) -> (r: ScimError)
    ensures
        r.deep_view() == no_group(id@),
{
    ScimError::not_found(text::cat3("group '", id, "' not found"))
}

/// A user as clients see it.
pub open spec fn user_resource(id: Seq<char>, user: UserRecordV) -> ScimUserV {
    ScimUserV {
        schemas: Seq::empty().push(SCHEMA_USER@),
        id,
        external_id: user.external_id,
        user_name: user.name,
        display_name: user.display_name,
        emails: match user.email {
            Some(email) => Seq::empty().push(EmailV { value: email, primary: true }),
            None => Seq::empty(),
        },
        active: user.active,
        meta: MetaV {
            resource_type: "User"@,
            location: "/scim/v2/Users/"@ + id,
            last_modified: Some(user.updated_at),
        },
    }
}

/// Shows a user as clients see it.
pub fn user_record_to_scim(scim_id: &ScimId, record: &UserRecord) -> (r: ScimUser)
    ensures
        r.deep_view() == user_resource(scim_id.deep_view(), record.deep_view()),
{
    let mut emails: Vec<ScimEmail> = Vec::new();
    if let Some(email) = &record.email {
        emails.push(ScimEmail { value: email.clone(), primary: true });
    }
    let user: ScimUser = ScimUser {
        schemas: types::one_schema(SCHEMA_USER),
        id: scim_id.0.clone(),
        external_id: external_text(&record.external_id),
        user_name: record.name.clone(),
        display_name: text::copy_optional(&record.display_name),
        emails,
        active: record.active,
        meta: ScimMeta {
            resource_type: "User".to_owned(),
            location: text::cat2("/scim/v2/Users/", scim_id.as_str()),
            last_modified: Some(record.updated_at),
        },
    };
    proof {
        assert(user.emails.deep_view() =~= user_resource(
            scim_id.deep_view(),
            record.deep_view(),
        ).emails);
    }
    user
}

/// The members of a group that are known, with their addresses.
pub open spec fn known_members(m: MappingV, ids: Seq<Seq<char>>) -> Seq<ScimMemberV>
    decreases ids.len(),
{
    if ids.len() == 0 {
        Seq::empty()
    } else if m.users.dom().contains(ids.last()) {
        known_members(m, ids.drop_last()).push(
            ScimMemberV { value: ids.last(), display: m.users[ids.last()].email },
        )
    } else {
        known_members(m, ids.drop_last())
    }
}

/// A group as clients see it.
pub open spec fn group_resource(m: MappingV, id: Seq<char>, group: GroupRecordV) -> ScimGroupV {
    ScimGroupV {
        schemas: Seq::empty().push(SCHEMA_GROUP@),
        id,
        external_id: group.external_id,
        display_name: group.name,
        members: known_members(m, group.members),
        meta: MetaV {
            resource_type: "Group"@,
            location: "/scim/v2/Groups/"@ + id,
            last_modified: Some(group.updated_at),
        },
    }
}

/// Shows a group as clients see it.
pub fn group_record_to_scim(id: &str, record: &GroupRecord, mapping: &Mapping) -> (r: ScimGroup)
    ensures
        r.deep_view() == group_resource(mapping@, id@, record.deep_view()),
{
    let ghost all = record.members.deep_view();
    let mut members: Vec<ScimMember> = Vec::new();
    let mut i: usize = 0;
    proof {
        assert(members.deep_view() =~= Seq::<ScimMemberV>::empty());
        assert(all.take(0) =~= Seq::<Seq<char>>::empty());
    }
    while i < record.members.len()
        invariant
            i <= record.members@.len(),
            all == record.members.deep_view(),
            members.deep_view() == known_members(mapping@, all.take(i as int)),
        decreases record.members@.len() - i,
    {
        let member: &ScimId = &record.members[i];
        proof {
            assert(all.take(i + 1).drop_last() =~= all.take(i as int));
            assert(all.take(i + 1).last() == member.deep_view());
        }
        if let Some(user) = mapping.get_user(member) {
            let ghost so_far = members.deep_view();
            let shown: ScimMember = ScimMember {
                value: member.0.clone(),
                display: text::copy_optional(&user.email),
            };
            let ghost added = shown.deep_view();
            members.push(shown);
            proof {
                assert(members.deep_view() =~= so_far.push(added));
            }
        }
        i += 1;
    }
    proof {
        assert(all.take(i as int) =~= all);
    }
    ScimGroup {
        schemas: types::one_schema(SCHEMA_GROUP),
        id: id.to_owned(),
        external_id: external_text(&record.external_id),
        display_name: record.name.clone(),
        members,
        meta: ScimMeta {
            resource_type: "Group".to_owned(),
            location: text::cat2("/scim/v2/Groups/", id),
            last_modified: Some(record.updated_at),
        },
    }
}

/// A group must have a name.
pub fn require_display_name(body: &GroupBody) -> (r: Result<String, ScimError>)
    ensures
        if body.deep_view().display_name matches Some(name) && name.len() > 0 {
            r matches Ok(name) && Some(name@) == body.deep_view().display_name
        } else {
            r matches Err(e) && e.deep_view() == types::bad_request("displayName is required"@)
        },
{
    if let Some(name) = &body.display_name {
        if name.as_str().unicode_len() > 0 {
            return Ok(name.clone());
        }
    }
    Err(ScimError::bad_request("displayName is required".to_owned()))
}

/// The ids of the members that a client names.
pub open spec fn member_ids(members: Option<Seq<ScimMemberV>>) -> Seq<Seq<char>> {
    match members {
        Some(members) => Seq::new(members.len(), |i: int| members[i].value),
        None => Seq::empty(),
    }
}

/// Collects the ids of the members that a client names, known or not.
pub fn collect_member_ids(members: &Option<Vec<ScimMember>>) -> (r: Vec<ScimId>)
    ensures
        r.deep_view() == member_ids(members.deep_view()),
{
    let mut out: Vec<ScimId> = Vec::new();
    if let Some(members) = members {
        let mut i: usize = 0;
        while i < members.len()
            invariant
                i <= members@.len(),
                out@.len() == i,
                forall|j: int|
                    0 <= j < i ==> (#[trigger] out@[j]).deep_view() == members@[j].value@,
            decreases members@.len() - i,
        {
            out.push(ScimId(members[i].value.clone()));
            i += 1;
        }
    }
    proof {
        assert(out.deep_view() =~= member_ids(members.deep_view()));
    }
    out
}

/// A hexadecimal digit, in lower case.
pub open spec fn is_hex(c: char) -> bool {
    '0' <= c <= '9' || 'a' <= c <= 'f'
}

/// The form of a random id: lower-case hexadecimal digits in five groups with hyphens
/// between them, marked as version 4 and with the variant that goes with it.
pub open spec fn is_random_id(s: Seq<char>) -> bool {
    &&& s.len() == 36
    &&& forall|i: int|
        0 <= i < 36 ==> if i == 8 || i == 13 || i == 18 || i == 23 {
            #[trigger] s[i] == '-'
        } else {
            is_hex(s[i])
        }
    &&& s[14] == '4'
    &&& s[19] == '8' || s[19] == '9' || s[19] == 'a' || s[19] == 'b'
}

/// `uuid::Uuid::new_v4` as text: an id of the form that random ids have. Nothing is
/// known of its other digits.
#[verifier::external_body]
fn fresh_id() -> (r: String)
    ensures
        is_random_id(r@),
{
    uuid::Uuid::new_v4().to_string()
}

/// A user whose record was put in place.
#[derive(Debug)]
pub struct StoredUser {
    pub id: ScimId,
    pub record: UserRecord,
    /// Whether the user is new.
    pub created: bool,
}

/// A change of a user that waits for the user's nodes to expire.
#[derive(Debug)]
pub struct PendingUser {
    pub id: ScimId,
    pub record: UserRecord,
    /// What the nodes are found by that expire first; none do where it is missing.
    pub expire: Option<ResolvedKey>,
}

/// A user who leaves once the headscale account is gone.
#[derive(Debug)]
pub struct LeavingUser {
    pub id: ScimId,
    /// What the account is found by that goes first; none does where it is
    /// missing.
    pub account: Option<ResolvedKey>,
}

/// A group whose record was put in place.
#[derive(Debug)]
pub struct StoredGroup {
    pub id: GroupScimId,
    pub record: GroupRecord,
    /// Whether the group is new.
    pub created: bool,
}

/// What stands for a user is not what it was.
pub open spec fn key_changes(key: KeyV, before: UserRecordV, after: UserRecordV) -> bool {
    match key {
        KeyV::Email => after.email != before.email,
        KeyV::Username => after.name != before.name,
        KeyV::ExternalId { .. } => false,
    }
}

/// Whether the nodes of a user expire before a change: always when the user is
/// deactivated, else where the service is set to it and what stands for the user
/// changes.
pub open spec fn expires(config: ConfigV, before: UserRecordV, after: UserRecordV) -> bool {
    !after.active || (config.expire_nodes_on_change && key_changes(
        config.policy_user_key,
        before,
        after,
    ))
}

/// A user is a member of a group.
pub open spec fn in_a_group(m: MappingV, id: Seq<char>) -> bool {
    exists|group: Seq<char>|
        m.groups.dom().contains(group) && #[trigger] m.groups[group].members.contains(id)
}

/// Why a change of a group is refused, if so.
pub open spec fn put_group_refusal(m: MappingV, id: Seq<char>, body: GroupBodyV) -> Option<
    ErrorV,
> {
    if !(body.display_name matches Some(name) && name.len() > 0) {
        Some(types::bad_request("displayName is required"@))
    } else if !m.groups.dom().contains(id) {
        Some(no_group(id))
    } else if body.display_name->0 != m.groups[id].name && (storage::group_named(
        m,
        body.display_name->0,
    ) matches Some(other) && other != id) {
        Some(types::conflict("group '"@ + body.display_name->0 + "' already exists"@))
    } else {
        None
    }
}

/// The record that a client's words make of a group.
pub open spec fn group_record_of(body: GroupBodyV, updated_at: Timestamp) -> GroupRecordV {
    GroupRecordV {
        name: body.display_name->0,
        members: member_ids(body.members),
        external_id: body.external_id,
        updated_at,
    }
}

/// The service.
pub struct ScimService {
    pub config: ScimConfig,
}

impl ScimService {
    /// The service that works in this way.
    pub fn new(config: ScimConfig) -> (r: Self)
        ensures
            r.config == config,
    {
        ScimService { config }
    }

    /// What the account of a user is found by.
    pub fn resolve_key(&self, record: &UserRecord) -> (r: Option<ResolvedKey>)
        ensures
            r.deep_view() == resolved(
                self.config.policy_user_key.deep_view(),
                record.deep_view(),
            ),
    {
        match &self.config.policy_user_key {
            PolicyUserKey::Email => match &record.email {
                Some(email) => Some(ResolvedKey::Email(email.clone())),
                None => None,
            },
            PolicyUserKey::Username => Some(ResolvedKey::Name(record.name.clone())),
            PolicyUserKey::ExternalId { oidc_issuer } => match &record.external_id {
                Some(id) => Some(
                    ResolvedKey::ProviderId(
                        text::cat3(oidc_issuer.as_str(), "/", id.as_str()),
                    ),
                ),
                None => None,
            },
        }
    }

    /// All users as clients see them.
    pub fn list_users(&self, mapping: &Mapping) -> (r: ScimListResponse<ScimUser>)
        ensures
            r.resources.deep_view() == all_users(mapping@),
            r.schemas.deep_view() == Seq::empty().push(types::SCHEMA_LIST_RESPONSE@),
            r.total_results == r.resources@.len(),
            r.start_index == 1,
            r.items_per_page == r.resources@.len(),
    {
        let users: Vec<(ScimId, &UserRecord)> = mapping.users();
        let mut out: Vec<ScimUser> = Vec::new();
        let mut i: usize = 0;
        while i < users.len()
            invariant
                i <= users@.len(),
                out@.len() == i,
                forall|j: int|
                    0 <= j < i ==> (#[trigger] out@[j]).deep_view() == user_resource(
                        users@[j].0.deep_view(),
                        users@[j].1.deep_view(),
                    ),
            decreases users@.len() - i,
        {
            out.push(user_record_to_scim(&users[i].0, users[i].1));
            i += 1;
        }
        proof {
            assert(out.deep_view() =~= all_users(mapping@)) by {
                assert forall|j: int| 0 <= j < out@.len() implies (
                    #[trigger] out@[j]).deep_view() == all_users(mapping@)[j] by {
                    assert(users@[j].0.deep_view() == table::sorted(mapping@.users.dom())[j]);
                }
            }
        }
        ScimListResponse::new(out)
    }

    /// A user as clients see it.
    pub fn get_user(&self, mapping: &Mapping, id: &str) -> (r: Result<ScimUser, ScimError>)
        ensures
            if mapping@.users.dom().contains(id@) {
                r matches Ok(user) && user.deep_view() == user_resource(
                    id@,
                    mapping@.users[id@],
                )
            } else {
                r matches Err(e) && e.deep_view() == no_user(id@)
            },
    {
        let scim_id: ScimId = ScimId(id.to_owned());
        match mapping.get_user(&scim_id) {
            Some(record) => Ok(user_record_to_scim(&scim_id, record)),
            None => Err(user_missing(id)),
        }
    }

    fn has_external_id(&self, body: &UserBody) -> (r: bool)
        ensures
            r == !lacks_external_id(self.config.deep_view(), body.deep_view()),
    {
        match &self.config.policy_user_key {
            PolicyUserKey::ExternalId { .. } => body.external_id.is_some(),
            _ => true,
        }
    }

    /// Puts the record of a user in place that the identity provider reports as
    /// new, at `now`. A user of that name keeps the id it has; any other one gets
    /// `fresh`.
    pub fn create_user_at(
        &self,
        mapping: &mut Mapping,
        body: UserBody,
        fresh: ScimId,
        now: Timestamp,
    ) -> (r: Result<StoredUser, ScimError>)
        ensures
            match create_user_refusal(self.config.deep_view(), body.deep_view()) {
                Some(refusal) => {
                    &&& r matches Err(e) && e.deep_view() == refusal
                    &&& final(mapping)@ == old(mapping)@
                },
                None => {
                    let name = body.deep_view().user_name->0;
                    let known = storage::user_named(old(mapping)@, name);
                    &&& r matches Ok(stored) && {
                        &&& stored.id.deep_view() == (match known {
                            Some(id) => id,
                            None => fresh.deep_view(),
                        })
                        &&& stored.created == (known is None)
                        &&& stored.record.deep_view() == record_of(
                            body.deep_view(),
                            name,
                            (match body.active {
                                Some(active) => active,
                                None => true,
                            }),
                            now,
                        )
                        &&& final(mapping)@ == storage::with_user(
                            old(mapping)@,
                            stored.id.deep_view(),
                            stored.record.deep_view(),
                        )
                    }
                },
            },
    {
        let enough: bool = self.has_external_id(&body);
        let user_name: String = match body.user_name {
            Some(name) => name,
            None => {
                return Err(ScimError::bad_request("userName is required".to_owned()));
            },
        };
        if user_name.as_str().unicode_len() == 0 {
            return Err(ScimError::bad_request("userName is required".to_owned()));
        }
        if !enough {
            return Err(
                ScimError::bad_request(
                    "externalId is required when policyUserKey=external_id".to_owned(),
                ),
            );
        }
        let known: Option<ScimId> = match mapping.get_user_by_name(user_name.as_str()) {
            Some((id, _)) => Some(id),
            None => None,
        };
        let record: UserRecord = UserRecord {
            active: (match body.active {
                Some(active) => active,
                None => true,
            }),
            name: user_name,
            display_name: body.display_name,
            email: email_of(&body.emails),
            external_id: external(body.external_id),
            updated_at: now,
        };
        let (id, created): (ScimId, bool) = match known {
            Some(id) => (id, false),
            None => (fresh, true),
        };
        let stored: UserRecord = mapping.set_user_at(&id, record, now);
        Ok(StoredUser { id, record: stored, created })
    }

    /// Puts the record of a user in place that the identity provider reports as
    /// new. A user of that name keeps its id and is changed: the same report may
    /// come again.
    pub fn create_user(&self, mapping: &mut Mapping, body: UserBody) -> (r: Result<
        StoredUser,
        ScimError,
    >)
        ensures
            match create_user_refusal(self.config.deep_view(), body.deep_view()) {
                Some(refusal) => {
                    &&& r matches Err(e) && e.deep_view() == refusal
                    &&& final(mapping)@ == old(mapping)@
                },
                None => {
                    let name = body.deep_view().user_name->0;
                    let known = storage::user_named(old(mapping)@, name);
                    &&& r matches Ok(stored) && {
                        &&& (match known {
                            Some(id) => stored.id.deep_view() == id,
                            None => is_random_id(stored.id.deep_view()),
                        })
                        &&& stored.created == (known is None)
                        &&& stored.record.deep_view() == record_of(
                            body.deep_view(),
                            name,
                            (match body.active {
                                Some(active) => active,
                                None => true,
                            }),
                            stored.record.updated_at,
                        )
                        &&& time::on_the_clock(stored.record.updated_at)
                        &&& final(mapping)@ == storage::with_user(
                            old(mapping)@,
                            stored.id.deep_view(),
                            stored.record.deep_view(),
                        )
                    }
                },
            },
    {
        self.create_user_at(mapping, body, ScimId(fresh_id()), time::now())
    }

    /// Prepares a change of a user: the record to be put in place, and whose nodes
    /// expire before, found by what stands for the user so far.
    pub fn put_user(&self, mapping: &Mapping, id: &str, body: UserBody) -> (r: Result<
        PendingUser,
        ScimError,
    >)
        ensures
            match put_user_refusal(self.config.deep_view(), body.deep_view()) {
                Some(refusal) => r matches Err(e) && e.deep_view() == refusal,
                None => if !mapping@.users.dom().contains(id@) {
                    r matches Err(e) && e.deep_view() == no_user(id@)
                } else {
                    let before = mapping@.users[id@];
                    let after = record_of(
                        body.deep_view(),
                        body.deep_view().user_name->0,
                        body.active->0,
                        time::epoch(),
                    );
                    &&& r matches Ok(pending) && {
                        &&& pending.id.deep_view() == id@
                        &&& pending.record.deep_view() == after
                        &&& pending.expire.deep_view() == (if expires(
                            self.config.deep_view(),
                            before,
                            after,
                        ) {
                            resolved(self.config.policy_user_key.deep_view(), before)
                        } else {
                            None
                        })
                    }
                },
            },
    {
        let enough: bool = self.has_external_id(&body);
        let user_name: String = match body.user_name {
            Some(name) => name,
            None => {
                return Err(ScimError::bad_request("userName is required".to_owned()));
            },
        };
        let active: bool = match body.active {
            Some(active) => active,
            None => {
                return Err(
                    ScimError::bad_request("active must be set explicitly in a PUT".to_owned()),
                );
            },
        };
        if !enough {
            return Err(
                ScimError::bad_request(
                    "externalId is required when policyUserKey=external_id".to_owned(),
                ),
            );
        }
        let scim_id: ScimId = ScimId(id.to_owned());
        let before: &UserRecord = match mapping.get_user(&scim_id) {
            Some(record) => record,
            None => {
                return Err(user_missing(id));
            },
        };
        let email: Option<String> = email_of(&body.emails);
        let changes: bool = match &self.config.policy_user_key {
            PolicyUserKey::Email => !text::same_optional(&email, &before.email),
            PolicyUserKey::Username => !text::same(user_name.as_str(), before.name.as_str()),
            PolicyUserKey::ExternalId { .. } => false,
        };
        let expire: Option<ResolvedKey> = if !active || (self.config.expire_nodes_on_change
            && changes) {
            self.resolve_key(before)
        } else {
            None
        };
        let record: UserRecord = UserRecord {
            active,
            name: user_name,
            display_name: body.display_name,
            email,
            external_id: external(body.external_id),
            updated_at: Timestamp::default(),
        };
        Ok(PendingUser { id: scim_id, record, expire })
    }

    /// Makes a prepared change of a user.
    pub fn store_user(&self, mapping: &mut Mapping, pending: PendingUser) -> (r: StoredUser)
        ensures
            r.id.deep_view() == pending.id.deep_view(),
            !r.created,
            r.record.deep_view() == (UserRecordV {
                updated_at: r.record.updated_at,
                ..pending.record.deep_view()
            }),
            time::on_the_clock(r.record.updated_at),
            final(mapping)@ == storage::with_user(
                old(mapping)@,
                pending.id.deep_view(),
                r.record.deep_view(),
            ),
    {
        let stored: UserRecord = mapping.set_user(&pending.id, pending.record);
        StoredUser { id: pending.id, record: stored, created: false }
    }

    /// Whether the policy is written anew after a change of a user: the user is
    /// not active, or a member of a group. That does not rest on what the record
    /// was before, so a change that is tried again is published too.
    pub fn publishes_user(&self, mapping: &Mapping, id: &ScimId, active: bool) -> (r: bool)
        ensures
            r == (!active || in_a_group(mapping@, id.deep_view())),
    {
        if !active {
            return true;
        }
        let groups: Vec<(GroupScimId, &GroupRecord)> = mapping.groups();
        let ghost ids = table::sorted(mapping@.groups.dom());
        let mut i: usize = 0;
        while i < groups.len()
            invariant
                i <= groups@.len(),
                ids == table::sorted(mapping@.groups.dom()),
                groups@.len() == ids.len(),
                forall|j: int|
                    #![trigger groups@[j]]
                    0 <= j < groups@.len() ==> groups@[j].0.deep_view() == ids[j]
                        && mapping@.groups.dom().contains(groups@[j].0.deep_view())
                        && groups@[j].1.deep_view() == mapping@.groups[groups@[j].0.deep_view()],
                forall|j: int|
                    #![trigger ids[j]]
                    0 <= j < i ==> !mapping@.groups[ids[j]].members.contains(id.deep_view()),
            decreases groups@.len() - i,
        {
            if storage::is_member(&groups[i].1.members, id.as_str()) {
                proof {
                    assert(mapping@.groups[groups@[i as int].0.deep_view()].members.contains(
                        id.deep_view(),
                    ));
                }
                return true;
            }
            assert(ids[i as int] == groups@[i as int].0.deep_view());
            i += 1;
        }
        proof {
            assert forall|group: Seq<char>| mapping@.groups.dom().contains(group) implies !(
            #[trigger] mapping@.groups[group].members.contains(id.deep_view())) by {
                assert(ids.to_set().contains(group));
                let j = choose|j: int| 0 <= j < ids.len() && ids[j] == group;
                assert(ids[j] == group);
            }
        }
        false
    }

    /// Prepares the removal of a user: whose account goes before.
    pub fn delete_user(&self, mapping: &Mapping, id: &str) -> (r: Result<LeavingUser, ScimError>)
        ensures
            if mapping@.users.dom().contains(id@) {
                r matches Ok(leaving) && leaving.id.deep_view() == id@
                    && leaving.account.deep_view() == resolved(
                    self.config.policy_user_key.deep_view(),
                    mapping@.users[id@],
                )
            } else {
                r matches Err(e) && e.deep_view() == no_user(id@)
            },
    {
        let scim_id: ScimId = ScimId(id.to_owned());
        match mapping.get_user(&scim_id) {
            Some(record) => {
                let account: Option<ResolvedKey> = self.resolve_key(record);
                Ok(LeavingUser { id: scim_id, account })
            },
            None => Err(user_missing(id)),
        }
    }

    /// All groups as clients see them.
    pub fn list_groups(&self, mapping: &Mapping) -> (r: ScimListResponse<ScimGroup>)
        ensures
            r.resources.deep_view() == all_groups(mapping@),
            r.schemas.deep_view() == Seq::empty().push(types::SCHEMA_LIST_RESPONSE@),
            r.total_results == r.resources@.len(),
            r.start_index == 1,
            r.items_per_page == r.resources@.len(),
    {
        let groups: Vec<(GroupScimId, &GroupRecord)> = mapping.groups();
        let mut out: Vec<ScimGroup> = Vec::new();
        let mut i: usize = 0;
        while i < groups.len()
            invariant
                i <= groups@.len(),
                out@.len() == i,
                forall|j: int|
                    0 <= j < i ==> (#[trigger] out@[j]).deep_view() == group_resource(
                        mapping@,
                        groups@[j].0.deep_view(),
                        groups@[j].1.deep_view(),
                    ),
            decreases groups@.len() - i,
        {
            out.push(group_record_to_scim(groups[i].0.as_str(), groups[i].1, mapping));
            i += 1;
        }
        proof {
            assert(out.deep_view() =~= all_groups(mapping@)) by {
                assert forall|j: int| 0 <= j < out@.len() implies (
                    #[trigger] out@[j]).deep_view() == all_groups(mapping@)[j] by {
                    assert(groups@[j].0.deep_view() == table::sorted(mapping@.groups.dom())[j]);
                }
            }
        }
        ScimListResponse::new(out)
    }

    /// A group as clients see it.
    pub fn get_group(&self, mapping: &Mapping, id: &str) -> (r: Result<ScimGroup, ScimError>)
        ensures
            if mapping@.groups.dom().contains(id@) {
                r matches Ok(group) && group.deep_view() == group_resource(
                    mapping@,
                    id@,
                    mapping@.groups[id@],
                )
            } else {
                r matches Err(e) && e.deep_view() == no_group(id@)
            },
    {
        match mapping.get_group(&GroupScimId(id.to_owned())) {
            Some(record) => Ok(group_record_to_scim(id, record, mapping)),
            None => Err(group_missing(id)),
        }
    }

    /// Puts the record of a group in place that the identity provider reports as
    /// new. A group of that name keeps the id it has; any other one gets `fresh`.
    /// The record says that it was never written, so that the provider's next run
    /// sends the members again.
    pub fn create_group_as(
        &self,
        mapping: &mut Mapping,
        body: GroupBody,
        fresh: GroupScimId,
    ) -> (r: Result<StoredGroup, ScimError>)
        ensures
            if body.deep_view().display_name matches Some(name) && name.len() > 0 {
                let known = storage::group_named(
                    old(mapping)@,
                    body.deep_view().display_name->0,
                );
                &&& r matches Ok(stored) && {
                    &&& stored.id.deep_view() == (match known {
                        Some(id) => id,
                        None => fresh.deep_view(),
                    })
                    &&& stored.created == (known is None)
                    &&& stored.record.deep_view() == group_record_of(
                        body.deep_view(),
                        time::epoch(),
                    )
                    &&& final(mapping)@ == storage::with_group(
                        old(mapping)@,
                        stored.id.deep_view(),
                        stored.record.deep_view(),
                    )
                }
            } else {
                &&& r matches Err(e) && e.deep_view() == types::bad_request(
                    "displayName is required"@,
                )
                &&& final(mapping)@ == old(mapping)@
            },
    {
        let name: String = match require_display_name(&body) {
            Ok(name) => name,
            Err(e) => {
                return Err(e);
            },
        };
        let known: Option<GroupScimId> = match mapping.get_group_by_name(name.as_str()) {
            Some((id, _)) => Some(id),
            None => None,
        };
        let (id, created): (GroupScimId, bool) = match known {
            Some(id) => (id, false),
            None => (fresh, true),
        };
        let record: GroupRecord = GroupRecord {
            name,
            members: collect_member_ids(&body.members),
            external_id: external(body.external_id),
            updated_at: Timestamp::default(),
        };
        let stored: GroupRecord = mapping.set_group(id.clone(), record);
        Ok(StoredGroup { id, record: stored, created })
    }

    /// Puts the record of a group in place that the identity provider reports as
    /// new. A group of that name keeps its id and is changed.
    pub fn create_group(&self, mapping: &mut Mapping, body: GroupBody) -> (r: Result<
        StoredGroup,
        ScimError,
    >)
        ensures
            if body.deep_view().display_name matches Some(name) && name.len() > 0 {
                let known = storage::group_named(
                    old(mapping)@,
                    body.deep_view().display_name->0,
                );
                &&& r matches Ok(stored) && {
                    &&& (match known {
                        Some(id) => stored.id.deep_view() == id,
                        None => is_random_id(stored.id.deep_view()),
                    })
                    &&& stored.created == (known is None)
                    &&& stored.record.deep_view() == group_record_of(
                        body.deep_view(),
                        time::epoch(),
                    )
                    &&& final(mapping)@ == storage::with_group(
                        old(mapping)@,
                        stored.id.deep_view(),
                        stored.record.deep_view(),
                    )
                }
            } else {
                &&& r matches Err(e) && e.deep_view() == types::bad_request(
                    "displayName is required"@,
                )
                &&& final(mapping)@ == old(mapping)@
            },
    {
        self.create_group_as(mapping, body, GroupScimId(fresh_id()))
    }

    /// Changes a group, as of `now`.
    pub fn put_group_at(
        &self,
        mapping: &mut Mapping,
        id: &str,
        body: GroupBody,
        now: Timestamp,
    ) -> (r: Result<StoredGroup, ScimError>)
        ensures
            match put_group_refusal(old(mapping)@, id@, body.deep_view()) {
                Some(refusal) => {
                    &&& r matches Err(e) && e.deep_view() == refusal
                    &&& final(mapping)@ == old(mapping)@
                },
                None => r matches Ok(stored) && {
                    &&& stored.id.deep_view() == id@
                    &&& !stored.created
                    &&& stored.record.deep_view() == group_record_of(body.deep_view(), now)
                    &&& final(mapping)@ == storage::with_group(
                        old(mapping)@,
                        id@,
                        stored.record.deep_view(),
                    )
                },
            },
    {
        let name: String = match require_display_name(&body) {
            Ok(name) => name,
            Err(e) => {
                return Err(e);
            },
        };
        let group_id: GroupScimId = GroupScimId(id.to_owned());
        let renamed: bool = match mapping.get_group(&group_id) {
            Some(group) => !text::same(name.as_str(), group.name.as_str()),
            None => {
                return Err(group_missing(id));
            },
        };
        let taken: bool = match mapping.get_group_by_name(name.as_str()) {
            Some((other, _)) => !text::same(other.as_str(), id),
            None => false,
        };
        if renamed && taken {
            return Err(
                ScimError::conflict(text::cat3("group '", name.as_str(), "' already exists")),
            );
        }
        let record: GroupRecord = GroupRecord {
            name,
            members: collect_member_ids(&body.members),
            external_id: external(body.external_id),
            updated_at: now,
        };
        let stored: GroupRecord = mapping.set_group(group_id.clone(), record);
        Ok(StoredGroup { id: group_id, record: stored, created: false })
    }

    /// Changes a group.
    pub fn put_group(&self, mapping: &mut Mapping, id: &str, body: GroupBody) -> (r: Result<
        StoredGroup,
        ScimError,
    >)
        ensures
            match put_group_refusal(old(mapping)@, id@, body.deep_view()) {
                Some(refusal) => {
                    &&& r matches Err(e) && e.deep_view() == refusal
                    &&& final(mapping)@ == old(mapping)@
                },
                None => r matches Ok(stored) && {
                    &&& stored.id.deep_view() == id@
                    &&& !stored.created
                    &&& stored.record.deep_view() == group_record_of(
                        body.deep_view(),
                        stored.record.updated_at,
                    )
                    &&& time::on_the_clock(stored.record.updated_at)
                    &&& final(mapping)@ == storage::with_group(
                        old(mapping)@,
                        id@,
                        stored.record.deep_view(),
                    )
                },
            },
    {
        self.put_group_at(mapping, id, body, time::now())
    }

    /// Removes a group and hands its record out.
    pub fn delete_group(&self, mapping: &mut Mapping, id: &str) -> (r: Result<
        GroupRecord,
        ScimError,
    >)
        ensures
            if old(mapping)@.groups.dom().contains(id@) {
                &&& r matches Ok(group) && group.deep_view() == old(mapping)@.groups[id@]
                &&& final(mapping)@ == storage::without_group(old(mapping)@, id@)
            } else {
                &&& r matches Err(e) && e.deep_view() == no_group(id@)
                &&& final(mapping)@ == old(mapping)@
            },
    {
        match mapping.remove_group(&GroupScimId(id.to_owned())) {
            Some(record) => Ok(record),
            None => {
                proof {
                    assert(mapping@.groups =~= old(mapping)@.groups);
                }
                Err(group_missing(id))
            },
        }
    }

    fn members_of(&self, mapping: &Mapping, ids: &Vec<ScimId>) -> (r: Vec<PolicyMember>)
        ensures
            r.deep_view() == policy_members(
                mapping@,
                self.config.policy_user_key.deep_view(),
                ids.deep_view(),
            ),
    {
        let ghost all = ids.deep_view();
        let ghost key = self.config.policy_user_key.deep_view();
        let mut out: Vec<PolicyMember> = Vec::new();
        let mut i: usize = 0;
        proof {
            assert(out.deep_view() =~= Seq::<policy_document::MemberV>::empty());
            assert(all.take(0) =~= Seq::<Seq<char>>::empty());
        }
        while i < ids.len()
            invariant
                i <= ids@.len(),
                all == ids.deep_view(),
                key == self.config.policy_user_key.deep_view(),
                out.deep_view() == policy_members(mapping@, key, all.take(i as int)),
            decreases ids@.len() - i,
        {
            proof {
                assert(all.take(i + 1).drop_last() =~= all.take(i as int));
                assert(all.take(i + 1).last() == ids@[i as int].deep_view());
            }
            if let Some(user) = mapping.get_user(&ids[i]) {
                if user.active {
                    if let Some(resolved_key) = self.resolve_key(user) {
                        let ghost so_far = out.deep_view();
                        let member: PolicyMember = new_policy_member(resolved_key, user);
                        let ghost added = member.deep_view();
                        out.push(member);
                        proof {
                            assert(out.deep_view() =~= so_far.push(added));
                        }
                    }
                }
            }
            i += 1;
        }
        proof {
            assert(all.take(i as int) =~= all);
        }
        out
    }

    /// The groups that the policy is to have.
    pub fn reconcile_groups_policy(&self, mapping: &Mapping) -> (r: Vec<PolicyGroup>)
        ensures
            r.deep_view() == policy_groups(mapping@, self.config.policy_user_key.deep_view()),
    {
        let ghost key = self.config.policy_user_key.deep_view();
        let groups: Vec<(GroupScimId, &GroupRecord)> = mapping.groups();
        let mut out: Vec<PolicyGroup> = Vec::new();
        let mut i: usize = 0;
        while i < groups.len()
            invariant
                i <= groups@.len(),
                key == self.config.policy_user_key.deep_view(),
                out@.len() == i,
                forall|j: int|
                    0 <= j < i ==> (#[trigger] out@[j]).deep_view() == (policy_document::GroupV {
                        name: groups@[j].1.name@,
                        members: policy_members(
                            mapping@,
                            key,
                            groups@[j].1.members.deep_view(),
                        ),
                    }),
            decreases groups@.len() - i,
        {
            let members: Vec<PolicyMember> = self.members_of(mapping, &groups[i].1.members);
            out.push(PolicyGroup { name: groups[i].1.name.clone(), members });
            i += 1;
        }
        proof {
            assert(out.deep_view() =~= policy_groups(mapping@, key)) by {
                assert forall|j: int| 0 <= j < out@.len() implies (
                    #[trigger] out@[j]).deep_view() == policy_groups(mapping@, key)[j] by {
                    assert(groups@[j].0.deep_view() == table::sorted(mapping@.groups.dom())[j]);
                }
            }
        }
        out
    }
}

fn new_policy_member(key: ResolvedKey, user: &UserRecord) -> (r: PolicyMember)
    ensures
        r.deep_view() == policy_member(key.deep_view(), user.deep_view()),
{
    match key {
        ResolvedKey::Email(email) => PolicyMember { token: email, comment: None },
        ResolvedKey::Name(name) => PolicyMember {
            token: text::cat2(name.as_str(), "@"),
            comment: None,
        },
        ResolvedKey::ProviderId(id) => {
            let email: &str = match &user.email {
                Some(email) => email.as_str(),
                None => "-",
            };
            proof {
                reveal_strlit("*/");
            }
            let remark: String = text::cat3(email, ", ", user.name.as_str());
            PolicyMember {
                token: text::cat2(id.as_str(), "@"),
                comment: Some(text::replace(remark.as_str(), "*/", "* /")),
            }
        },
    }
}

/// All users as clients see them, in the order of their ids.
pub open spec fn all_users(m: MappingV) -> Seq<ScimUserV> {
    let ids = table::sorted(m.users.dom());
    Seq::new(ids.len(), |i: int| user_resource(ids[i], m.users[ids[i]]))
}

/// All groups as clients see them, in the order of their ids.
pub open spec fn all_groups(m: MappingV) -> Seq<ScimGroupV> {
    let ids = table::sorted(m.groups.dom());
    Seq::new(ids.len(), |i: int| group_resource(m, ids[i], m.groups[ids[i]]))
}

/// An account of a headscale server.
#[derive(Debug)]
pub struct Account {
    pub id: u64,
    pub name: String,
    pub email: String,
    pub provider_id: String,
}

/// An [`Account`] as plain values.
pub struct AccountV {
    pub id: u64,
    pub name: Seq<char>,
    pub email: Seq<char>,
    pub provider_id: Seq<char>,
}

impl DeepView for Account {
    type V = AccountV;

    open spec fn deep_view(&self) -> AccountV {
        AccountV {
            id: self.id,
            name: self.name@,
            email: self.email@,
            provider_id: self.provider_id@,
        }
    }
}

/// A node of a headscale server, with the account that owns it.
#[derive(Debug)]
pub struct Node {
    pub id: u64,
    pub user: Option<Account>,
}

/// A [`Node`] as plain values.
pub struct NodeV {
    pub id: u64,
    pub user: Option<AccountV>,
}

impl DeepView for Node {
    type V = NodeV;

    open spec fn deep_view(&self) -> NodeV {
        NodeV { id: self.id, user: self.user.deep_view() }
    }
}

/// The account is the one that is looked for.
pub open spec fn matching(key: ResolvedV, account: AccountV) -> bool {
    match key {
        ResolvedV::Email(email) => account.email == email,
        ResolvedV::Name(name) => account.name == name,
        ResolvedV::ProviderId(id) => account.provider_id == id,
    }
}

fn is_matching(key: &ResolvedKey, account: &Account) -> (r: bool)
    ensures
        r == matching(key.deep_view(), account.deep_view()),
{
    match key {
        ResolvedKey::Email(email) => text::same(account.email.as_str(), email.as_str()),
        ResolvedKey::Name(name) => text::same(account.name.as_str(), name.as_str()),
        ResolvedKey::ProviderId(id) => text::same(account.provider_id.as_str(), id.as_str()),
    }
}

/// The nodes of the account that is looked for.
pub open spec fn nodes_of(key: ResolvedV, nodes: Seq<NodeV>) -> Seq<u64>
    decreases nodes.len(),
{
    if nodes.len() == 0 {
        Seq::empty()
    } else if nodes.last().user matches Some(account) && matching(key, account) {
        nodes_of(key, nodes.drop_last()).push(nodes.last().id)
    } else {
        nodes_of(key, nodes.drop_last())
    }
}

/// The expiry that a node is given.
#[derive(Clone, Copy, Debug, PartialEq, Eq, Structural)]
pub struct NodeExpiry {
    pub node_id: u64,
    pub expiry: Timestamp,
}

/// The expiry that ends the session of a node at once: a second after the epoch,
/// which is long past and still a time.
pub open spec fn at_once(node_id: u64) -> NodeExpiry {
    NodeExpiry { node_id, expiry: Timestamp { second: 1, nanosecond: 0 } }
}

/// The expiries that end the sessions of these nodes at once, one for each.
pub open spec fn all_at_once(ids: Seq<u64>) -> Seq<NodeExpiry> {
    Seq::new(ids.len(), |i: int| at_once(ids[i]))
}

/// The nodes that expire with a user, at once: those of the account that is looked
/// for. Other nodes stay as they are.
pub fn expire_headscale_user_nodes(key: &ResolvedKey, nodes: &Vec<Node>) -> (r: Vec<NodeExpiry>)
    ensures
        r@ == all_at_once(nodes_of(key.deep_view(), nodes.deep_view())),
{
    let ghost all = nodes.deep_view();
    let mut out: Vec<NodeExpiry> = Vec::new();
    let mut i: usize = 0;
    proof {
        assert(all.take(0) =~= Seq::<NodeV>::empty());
    }
    while i < nodes.len()
        invariant
            i <= nodes@.len(),
            all == nodes.deep_view(),
            out@ == all_at_once(nodes_of(key.deep_view(), all.take(i as int))),
        decreases nodes@.len() - i,
    {
        proof {
            assert(all.take(i + 1).drop_last() =~= all.take(i as int));
            assert(all.take(i + 1).last() == nodes@[i as int].deep_view());
        }
        if let Some(account) = &nodes[i].user {
            if is_matching(key, account) {
                let expiry: Timestamp = Timestamp { second: 1, nanosecond: 0 };
                out.push(NodeExpiry { node_id: nodes[i].id, expiry });
                proof {
                    let before = nodes_of(key.deep_view(), all.take(i as int));
                    let id = nodes@[i as int].id;
                    assert(all_at_once(before.push(id)) =~= all_at_once(before).push(at_once(id)));
                }
            }
        }
        i += 1;
    }
    proof {
        assert(all.take(i as int) =~= all);
    }
    out
}

/// The first account that is looked for.
pub open spec fn account_of(key: ResolvedV, accounts: Seq<AccountV>) -> Option<u64>
    decreases accounts.len(),
{
    if accounts.len() == 0 {
        None
    } else if matching(key, accounts[0]) {
        Some(accounts[0].id)
    } else {
        account_of(key, accounts.skip(1))
    }
}

/// The account that is deleted with a user: the first one that is looked for.
pub fn delete_headscale_user(key: &ResolvedKey, accounts: &Vec<Account>) -> (r: Option<u64>)
    ensures
        r == account_of(key.deep_view(), accounts.deep_view()),
{
    let ghost all = accounts.deep_view();
    let mut i: usize = 0;
    proof {
        assert(all.skip(0) =~= all);
    }
    while i < accounts.len()
        invariant
            i <= accounts@.len(),
            all == accounts.deep_view(),
            account_of(key.deep_view(), all) == account_of(
                key.deep_view(),
                all.skip(i as int),
            ),
        decreases accounts@.len() - i,
    {
        proof {
            assert(all.skip(i as int)[0] == accounts@[i as int].deep_view());
            assert(all.skip(i as int).skip(1) =~= all.skip(i + 1));
        }
        if is_matching(key, &accounts[i]) {
            return Some(accounts[i].id);
        }
        i += 1;
    }
    None
}

/// What a headscale server answers to the expiry of a node or the deletion of an
/// account.
pub enum Reply {
    Done,
    /// There is no such node or account.
    NotFound,
    /// It failed, with this message.
    Failed(String),
}

/// What is gone already counts as done.
pub fn settle(reply: Reply) -> (r: Result<(), ScimError>)
    ensures
        match reply {
            Reply::Failed(message) => r matches Err(e) && e.deep_view() == types::internal(
                message@,
            ),
            _ => r is Ok,
        },
{
    match reply {
        Reply::Done => Ok(()),
        Reply::NotFound => Ok(()),
        Reply::Failed(message) => Err(ScimError::internal(message)),
    }
}

// Laws.

/// The members of a group of the policy are exactly the active users among the
/// members of the group who have what stands for users: nobody who is inactive,
/// unknown or without it is one.
pub proof fn policy_has_exactly_the_active_members(
    m: MappingV,
    key: KeyV,
    ids: Seq<Seq<char>>,
    member: policy_document::MemberV,
)
    ensures
        policy_members(m, key, ids).contains(member) <==> exists|id: Seq<char>| #[trigger]
            ids.contains(id) && m.users.dom().contains(id) && m.users[id].active && member_of(
                key,
                m.users[id],
            ) == Some(member),
    decreases ids.len(),
{
    if ids.len() > 0 {
        let rest = ids.drop_last();
        policy_has_exactly_the_active_members(m, key, rest, member);
        let before = policy_members(m, key, rest);
        let all = policy_members(m, key, ids);
        let fits = |id: Seq<char>|
            m.users.dom().contains(id) && m.users[id].active && member_of(key, m.users[id])
                == Some(member);
        assert(ids[ids.len() - 1] == ids.last());
        assert forall|id: Seq<char>| #[trigger] ids.contains(id) implies rest.contains(id) || id
            == ids.last() by {
            let i = choose|i: int| 0 <= i < ids.len() && ids[i] == id;
            if i < rest.len() {
                assert(rest[i] == id);
            }
        }
        assert forall|id: Seq<char>| #[trigger] rest.contains(id) implies ids.contains(id) by {
            let i = choose|i: int| 0 <= i < rest.len() && rest[i] == id;
            assert(ids[i] == id);
        }
        if all.contains(member) {
            let i = choose|i: int| 0 <= i < all.len() && all[i] == member;
            if i < before.len() {
                assert(before[i] == member);
                let id = choose|id: Seq<char>| #[trigger] rest.contains(id) && fits(id);
                assert(rest.contains(id));
                assert(ids.contains(id));
            } else {
                assert(ids.contains(ids.last()));
            }
        }
        if exists|id: Seq<char>| #[trigger] ids.contains(id) && fits(id) {
            let id = choose|id: Seq<char>| #[trigger] ids.contains(id) && fits(id);
            if rest.contains(id) {
                assert(before.contains(member));
                let i = choose|i: int| 0 <= i < before.len() && before[i] == member;
                assert(all[i] == member);
            } else {
                assert(id == ids.last());
                assert(all == before.push(member));
                assert(all[before.len() as int] == member);
            }
        }
    }
}

/// Someone who is inactive or unknown counts for nothing in the policy: a group has
/// the members there that it would have without that one.
pub proof fn inactive_member_counts_for_nothing(
    m: MappingV,
    key: KeyV,
    ids: Seq<Seq<char>>,
    id: Seq<char>,
)
    requires
        m.users.dom().contains(id) ==> !m.users[id].active,
    ensures
        policy_members(m, key, ids) == policy_members(m, key, storage::others(ids, id)),
    decreases ids.len(),
{
    if ids.len() > 0 {
        inactive_member_counts_for_nothing(m, key, ids.drop_last(), id);
        if ids.last() != id {
            let left = storage::others(ids.drop_last(), id);
            assert(left.push(ids.last()).drop_last() =~= left);
        }
    }
}

proof fn removal_leaves_other_users(
    m: MappingV,
    key: KeyV,
    ids: Seq<Seq<char>>,
    id: Seq<char>,
)
    ensures
        policy_members(storage::without_user_anywhere(m, id), key, storage::others(ids, id))
            == policy_members(m, key, storage::others(ids, id)),
    decreases ids.len(),
{
    if ids.len() > 0 {
        removal_leaves_other_users(m, key, ids.drop_last(), id);
        if ids.last() != id {
            let left = storage::others(ids.drop_last(), id);
            assert(left.push(ids.last()).drop_last() =~= left);
        }
    }
}

/// A user who is removed leaves every group of the policy, and nobody else does.
pub proof fn removal_takes_one_out_of_the_policy(
    m: MappingV,
    key: KeyV,
    id: Seq<char>,
    group: Seq<char>,
)
    requires
        m.groups.dom().contains(group),
    ensures
        ({
            let left = storage::without_user_anywhere(m, id);
            &&& policy_members(left, key, left.groups[group].members) == policy_members(
                m,
                key,
                storage::others(m.groups[group].members, id),
            )
            &&& left.groups.dom() == m.groups.dom()
            &&& left.groups[group].name == m.groups[group].name
        }),
{
    removal_leaves_other_users(m, key, m.groups[group].members, id);
    assert(storage::without_user_anywhere(m, id).groups.dom() =~= m.groups.dom());
}

/// A user is found under its id after the first report and after every further
/// one: reports that come again make no second user of that name.
pub proof fn reported_user_keeps_its_id(m: MappingV, id: Seq<char>, record: UserRecordV)
    requires
        m.users.dom().finite(),
        match storage::user_named(m, record.name) {
            Some(known) => known == id,
            None => true,
        },
    ensures
        storage::user_named(storage::with_user(m, id, record), record.name) == Some(id),
{
    let after = storage::with_user(m, id, record);
    storage::user_is_found_by_name(m, record.name);
    storage::user_is_found_by_name(after, record.name);
    assert(after.users[id].name == record.name);
    if storage::user_named(m, record.name) is Some {
        assert(after.users.dom() =~= m.users.dom());
        assert(storage::user_names(after) =~= storage::user_names(m));
    }
}

/// A group is found under its id after the first report and after every further
/// one.
pub proof fn reported_group_keeps_its_id(m: MappingV, id: Seq<char>, record: GroupRecordV)
    requires
        m.groups.dom().finite(),
        match storage::group_named(m, record.name) {
            Some(known) => known == id,
            None => true,
        },
    ensures
        storage::group_named(storage::with_group(m, id, record), record.name) == Some(id),
{
    let after = storage::with_group(m, id, record);
    storage::group_is_found_by_name(m, record.name);
    storage::group_is_found_by_name(after, record.name);
    assert(after.groups[id].name == record.name);
    if storage::group_named(m, record.name) is Some {
        assert(after.groups.dom() =~= m.groups.dom());
        assert(storage::group_names(after) =~= storage::group_names(m));
    }
}

/// No two groups have the same name.
pub open spec fn group_names_differ(m: MappingV) -> bool {
    forall|a: Seq<char>, b: Seq<char>|
        #![trigger m.groups[a], m.groups[b]]
        m.groups.dom().contains(a) && m.groups.dom().contains(b) && m.groups[a].name
            == m.groups[b].name ==> a == b
}

/// No two users have the same name.
pub open spec fn user_names_differ(m: MappingV) -> bool {
    forall|a: Seq<char>, b: Seq<char>|
        #![trigger m.users[a], m.users[b]]
        m.users.dom().contains(a) && m.users.dom().contains(b) && m.users[a].name
            == m.users[b].name ==> a == b
}

/// Reports of users make no two users of one name: a report goes to the user of
/// that name where there is one.
pub proof fn reports_keep_user_names_apart(m: MappingV, id: Seq<char>, record: UserRecordV)
    requires
        m.users.dom().finite(),
        user_names_differ(m),
        match storage::user_named(m, record.name) {
            Some(known) => known == id,
            None => true,
        },
    ensures
        user_names_differ(storage::with_user(m, id, record)),
{
    storage::user_is_found_by_name(m, record.name);
}

/// Reports of groups make no two groups of one name.
pub proof fn reports_keep_group_names_apart(m: MappingV, id: Seq<char>, record: GroupRecordV)
    requires
        m.groups.dom().finite(),
        group_names_differ(m),
        match storage::group_named(m, record.name) {
            Some(known) => known == id,
            None => true,
        },
    ensures
        group_names_differ(storage::with_group(m, id, record)),
{
    storage::group_is_found_by_name(m, record.name);
}

/// A change of a group that is not refused makes no two groups of one name.
pub proof fn changes_keep_group_names_apart(
    m: MappingV,
    id: Seq<char>,
    body: GroupBodyV,
    now: Timestamp,
)
    requires
        m.groups.dom().finite(),
        group_names_differ(m),
        put_group_refusal(m, id, body) is None,
    ensures
        group_names_differ(storage::with_group(m, id, group_record_of(body, now))),
{
    let name = body.display_name->0;
    storage::group_is_found_by_name(m, name);
    let after = storage::with_group(m, id, group_record_of(body, now));
    assert forall|a: Seq<char>, b: Seq<char>|
        #![trigger after.groups[a], after.groups[b]]
        after.groups.dom().contains(a) && after.groups.dom().contains(b) && after.groups[a].name
            == after.groups[b].name implies a == b by {
        if a != b && (a == id || b == id) {
            let other = if a == id {
                b
            } else {
                a
            };
            assert(m.groups[other].name == name);
            assert(m.groups[id].name == m.groups[id].name);
        }
    }
}

/// No comment of the policy ends before its end.
pub proof fn comment_stays_closed(s: Seq<char>)
    ensures
        !text::has_part(defused(s), "*/"@),
    decreases s.len(),
{
    reveal_strlit("*/");
    reveal_strlit("* /");
    let d = defused(s);
    if s.len() > 0 {
        let two = "*/"@.is_prefix_of(s);
        let front = if two {
            "* /"@
        } else {
            Seq::empty().push(s[0])
        };
        let rest = if two {
            s.skip(2)
        } else {
            s.skip(1)
        };
        comment_stays_closed(rest);
        assert(d == front + defused(rest));
        assert forall|i: int| !text::stands_at(d, "*/"@, i) by {
            if text::stands_at(d, "*/"@, i) {
                assert(d.subrange(i, i + 2) =~= "*/"@);
                assert(d[i] == d.subrange(i, i + 2)[0]);
                assert(d[i + 1] == d.subrange(i, i + 2)[1]);
                if i >= front.len() {
                    let k = i - front.len();
                    assert(defused(rest).subrange(k, k + 2) =~= "*/"@);
                    assert(text::stands_at(defused(rest), "*/"@, k));
                } else if !two && rest.len() > 0 {
                    assert(defused(rest)[0] == rest[0]) by {
                        if "*/"@.is_prefix_of(rest) {
                            assert("*/"@ =~= rest.subrange(0, 2));
                            assert("*/"@[0] == rest[0]);
                        }
                    }
                    assert(rest[0] == s[1]);
                    assert("*/"@ =~= s.subrange(0, 2));
                }
            }
        }
    }
}

/// The record that is kept of a user has what the client sent, field for field: the name
/// and whether the user is active as they are given, the display name, the external id,
/// and the first of the addresses.
pub proof fn kept_user_has_what_was_sent(
    body: UserBody,
    record: UserRecord,
    name: Seq<char>,
    active: bool,
    at: Timestamp,
)
    requires
        record.deep_view() == record_of(body.deep_view(), name, active, at),
    ensures
        record.name@ == name,
        record.active == active,
        record.updated_at == at,
        record.display_name is Some <==> body.display_name is Some,
        record.display_name is Some ==> record.display_name->0@ == body.display_name->0@,
        record.external_id is Some <==> body.external_id is Some,
        record.external_id is Some ==> (record.external_id->0).0@ == body.external_id->0@,
        record.email is Some <==> body.emails is Some && body.emails->0@.len() > 0,
        record.email is Some ==> record.email->0@ == body.emails->0@[0].value@,
{
    if body.emails is Some && body.emails->0@.len() > 0 {
        assert(body.emails->0.deep_view()[0] == body.emails->0@[0].deep_view());
    }
}

/// What clients read of a user is what is kept of it, field for field.
pub proof fn user_is_shown_as_kept(id: Seq<char>, record: UserRecord, user: ScimUser)
    requires
        user.deep_view() == user_resource(id, record.deep_view()),
    ensures
        user.id@ == id,
        user.user_name@ == record.name@,
        user.active == record.active,
        user.display_name is Some <==> record.display_name is Some,
        user.display_name is Some ==> user.display_name->0@ == record.display_name->0@,
        user.external_id is Some <==> record.external_id is Some,
        user.external_id is Some ==> user.external_id->0@ == (record.external_id->0).0@,
        user.emails@.len() == (if record.email is Some { 1int } else { 0 }),
        record.email is Some ==> user.emails@[0].value@ == record.email->0@
            && user.emails@[0].primary,
        user.meta.resource_type@ == "User"@,
        user.meta.location@ == "/scim/v2/Users/"@ + id,
        user.meta.last_modified == Some(record.updated_at),
        user.schemas@.len() == 1,
        user.schemas@[0]@ == "urn:ietf:params:scim:schemas:core:2.0:User"@,
{
    let v = user.deep_view();
    assert(v.emails.len() == user.emails@.len());
    assert(v.schemas.len() == user.schemas@.len());
    assert(v.schemas[0] == user.schemas@[0]@);
    if record.email is Some {
        assert(v.emails[0] == user.emails@[0].deep_view());
    }
}

/// A user who was reported or changed is read back with what the client sent, under the
/// id that it is kept under; what is read of every other user stays as it was.
pub proof fn user_is_read_back_as_sent(
    m: MappingV,
    id: Seq<char>,
    body: UserBodyV,
    name: Seq<char>,
    active: bool,
    at: Timestamp,
    other: Seq<char>,
)
    ensures
        ({
            let after = storage::with_user(m, id, record_of(body, name, active, at));
            let shown = user_resource(id, after.users[id]);
            &&& after.users.dom().contains(id)
            &&& shown.id == id
            &&& shown.user_name == name
            &&& shown.display_name == body.display_name
            &&& shown.external_id == body.external_id
            &&& shown.active == active
            &&& shown.emails.len() == (if body.emails is Some && body.emails->0.len() > 0 {
                1int
            } else {
                0
            })
            &&& shown.emails.len() > 0 ==> shown.emails[0].value == body.emails->0[0].value
            &&& shown.meta.last_modified == Some(at)
            &&& other != id ==> after.users.dom().contains(other) == m.users.dom().contains(other)
            &&& other != id && m.users.dom().contains(other) ==> after.users[other]
                == m.users[other]
            &&& after.groups == m.groups
        }),
{
}

/// A report of a user is refused exactly where it has no user name or an empty one, or no
/// external id where users are told apart by it; a change of a user where it has no user
/// name, does not say whether the user is active, or has no external id in that case. The
/// client is to blame.
pub proof fn users_are_refused_for_what_they_lack(config: ConfigV, body: UserBodyV)
    ensures
        create_user_refusal(config, body) is Some <==> {
            ||| body.user_name is None
            ||| body.user_name->0.len() == 0
            ||| config.policy_user_key is ExternalId && body.external_id is None
        },
        create_user_refusal(config, body) is Some ==> create_user_refusal(config, body)->0.status
            == 400,
        put_user_refusal(config, body) is Some <==> {
            ||| body.user_name is None
            ||| body.active is None
            ||| config.policy_user_key is ExternalId && body.external_id is None
        },
        put_user_refusal(config, body) is Some ==> put_user_refusal(config, body)->0.status == 400,
{
}

/// What stands for an active user in the policy: the address, the user name with an `@`
/// behind it, or the issuer, a slash, the external id and an `@`. A user without it, or one
/// who is not active, is nobody there.
pub proof fn tokens_stand_for_active_users(key: KeyV, user: UserRecordV)
    ensures
        member_of(key, user) is Some <==> user.active && match key {
            KeyV::Email => user.email is Some,
            KeyV::Username => true,
            KeyV::ExternalId { oidc_issuer } => user.external_id is Some,
        },
        member_of(key, user) is Some ==> member_of(key, user)->0.token == match key {
            KeyV::Email => user.email->0,
            KeyV::Username => user.name + "@"@,
            KeyV::ExternalId { oidc_issuer } => oidc_issuer + "/"@ + user.external_id->0 + "@"@,
        },
        member_of(key, user) is Some ==> (member_of(key, user)->0.comment is Some
            <==> key is ExternalId),
{
}

/// Whatever a user's account is found by, it is that and nothing else: an account is the
/// one that is looked for exactly where its address is the user's, where its name is, or
/// where its provider id is the issuer, a slash and the user's external id.
pub proof fn accounts_are_found_by_what_stands_for_users(
    key: KeyV,
    user: UserRecordV,
    account: AccountV,
)
    ensures
        resolved(key, user) is Some <==> match key {
            KeyV::Email => user.email is Some,
            KeyV::Username => true,
            KeyV::ExternalId { oidc_issuer } => user.external_id is Some,
        },
        resolved(key, user) is Some ==> (matching(resolved(key, user)->0, account) <==> match key {
            KeyV::Email => account.email == user.email->0,
            KeyV::Username => account.name == user.name,
            KeyV::ExternalId { oidc_issuer } => account.provider_id == oidc_issuer + "/"@
                + user.external_id->0,
        }),
{
}

/// The members of the policy come in the order of the group's members, each for itself:
/// those of two lists are those of the one and then those of the other. One member makes
/// one entry where it is a known and active user who has what stands for users, and none
/// otherwise.
pub proof fn policy_members_come_in_order(
    m: MappingV,
    key: KeyV,
    first: Seq<Seq<char>>,
    second: Seq<Seq<char>>,
)
    ensures
        policy_members(m, key, first + second) == policy_members(m, key, first) + policy_members(
            m,
            key,
            second,
        ),
        first.len() == 1 ==> {
            let user = m.users[first[0]];
            let counts = m.users.dom().contains(first[0]) && user.active && match key {
                KeyV::Email => user.email is Some,
                KeyV::Username => true,
                KeyV::ExternalId { oidc_issuer } => user.external_id is Some,
            };
            &&& policy_members(m, key, first).len() == (if counts { 1int } else { 0 })
            &&& counts ==> policy_members(m, key, first)[0].token == match key {
                KeyV::Email => user.email->0,
                KeyV::Username => user.name + "@"@,
                KeyV::ExternalId { oidc_issuer } => oidc_issuer + "/"@ + user.external_id->0
                    + "@"@,
            }
        },
    decreases second.len(),
{
    if second.len() == 0 {
        assert(first + second =~= first);
        assert(policy_members(m, key, first) + policy_members(m, key, second) =~= policy_members(
            m,
            key,
            first,
        ));
    } else {
        policy_members_come_in_order(m, key, first, second.drop_last());
        assert((first + second).drop_last() =~= first + second.drop_last());
        assert((first + second).last() == second.last());
        assert(policy_members(m, key, first + second) =~= policy_members(m, key, first)
            + policy_members(m, key, second));
    }
    if first.len() == 1 {
        reveal_with_fuel(policy_members, 2);
        assert(first.last() == first[0]);
    }
}

/// Every group that is kept is a group of the policy, under its own name and with the
/// members that it has there; there are no others.
pub proof fn every_group_is_in_the_policy(m: MappingV, key: KeyV, id: Seq<char>)
    requires
        m.groups.dom().finite(),
    ensures
        policy_groups(m, key).len() == m.groups.dom().len(),
        m.groups.dom().contains(id) ==> exists|i: int|
            0 <= i < policy_groups(m, key).len() && (#[trigger] policy_groups(m, key)[i]).name
                == m.groups[id].name && policy_groups(m, key)[i].members == policy_members(
                m,
                key,
                m.groups[id].members,
            ),
{
    let ids = table::sorted(m.groups.dom());
    table::finite_is_sorted(m.groups.dom());
    table::sorted_has_no_duplicates(m.groups.dom());
    if m.groups.dom().contains(id) {
        assert(ids.to_set().contains(id));
        let i = choose|i: int| 0 <= i < ids.len() && ids[i] == id;
        assert(policy_groups(m, key)[i].name == m.groups[id].name);
    }
}

/// The nodes of a user expire before a change exactly where the user is deactivated, or
/// where the service is set to it and the user's address, or name, is not what it was.
pub proof fn nodes_expire_when_they_should(config: ConfigV, before: UserRecordV, after: UserRecordV)
    ensures
        !after.active ==> expires(config, before, after),
        after.active && !config.expire_nodes_on_change ==> !expires(config, before, after),
        after.active && config.expire_nodes_on_change ==> (expires(config, before, after)
            <==> match config.policy_user_key {
            KeyV::Email => before.email != after.email,
            KeyV::Username => before.name != after.name,
            KeyV::ExternalId { oidc_issuer } => false,
        }),
{
}

/// The sessions that end with a user are those of the nodes of that user's account, in
/// their order, each a second after the epoch: those of two lists of nodes are those of
/// the one and then those of the other.
pub proof fn sessions_of_the_account_end(key: ResolvedV, first: Seq<NodeV>, second: Seq<NodeV>)
    ensures
        all_at_once(nodes_of(key, first + second)) == all_at_once(nodes_of(key, first))
            + all_at_once(nodes_of(key, second)),
        first.len() == 1 ==> {
            let account = first[0].user->0;
            let owned = first[0].user is Some && match key {
                ResolvedV::Email(email) => account.email == email,
                ResolvedV::Name(name) => account.name == name,
                ResolvedV::ProviderId(id) => account.provider_id == id,
            };
            all_at_once(nodes_of(key, first)) == (if owned {
                seq![
                    NodeExpiry {
                        node_id: first[0].id,
                        expiry: Timestamp { second: 1, nanosecond: 0 },
                    },
                ]
            } else {
                Seq::empty()
            })
        },
{
    nodes_come_in_order(key, first, second);
    assert(all_at_once(nodes_of(key, first + second)) =~= all_at_once(nodes_of(key, first))
        + all_at_once(nodes_of(key, second)));
    if first.len() == 1 {
        reveal_with_fuel(nodes_of, 2);
        assert(first.last() == first[0]);
        assert(first.drop_last() =~= Seq::<NodeV>::empty());
        assert(all_at_once(nodes_of(key, first)) =~= (if nodes_of(key, first).len() == 1 {
            seq![
                NodeExpiry { node_id: first[0].id, expiry: Timestamp { second: 1, nanosecond: 0 } },
            ]
        } else {
            Seq::empty()
        }));
    }
}

proof fn nodes_come_in_order(key: ResolvedV, first: Seq<NodeV>, second: Seq<NodeV>)
    ensures
        nodes_of(key, first + second) == nodes_of(key, first) + nodes_of(key, second),
    decreases second.len(),
{
    if second.len() == 0 {
        assert(first + second =~= first);
        assert(nodes_of(key, first) + nodes_of(key, second) =~= nodes_of(key, first));
    } else {
        nodes_come_in_order(key, first, second.drop_last());
        assert((first + second).drop_last() =~= first + second.drop_last());
        assert((first + second).last() == second.last());
        assert(nodes_of(key, first + second) =~= nodes_of(key, first) + nodes_of(key, second));
    }
}

/// The account that goes with a user is the first one that is the user's; none does where
/// there is none.
pub proof fn first_account_of_the_user_goes(key: ResolvedV, accounts: Seq<AccountV>, i: int)
    requires
        0 <= i < accounts.len(),
    ensures
        ({
            let is_owned = |account: AccountV|
                match key {
                    ResolvedV::Email(email) => account.email == email,
                    ResolvedV::Name(name) => account.name == name,
                    ResolvedV::ProviderId(id) => account.provider_id == id,
                };
            &&& is_owned(accounts[i]) && (forall|j: int|
                0 <= j < i ==> !is_owned(#[trigger] accounts[j])) ==> account_of(key, accounts)
                == Some(accounts[i].id)
            &&& (forall|j: int|
                0 <= j < accounts.len() ==> !is_owned(#[trigger] accounts[j])) ==> account_of(
                key,
                accounts,
            ) is None
        }),
    decreases accounts.len(),
{
    let is_owned = |account: AccountV|
        match key {
            ResolvedV::Email(email) => account.email == email,
            ResolvedV::Name(name) => account.name == name,
            ResolvedV::ProviderId(id) => account.provider_id == id,
        };
    let rest = accounts.skip(1);
    assert(is_owned(accounts[0]) == matching(key, accounts[0]));
    if accounts.len() == 1 {
        assert(rest =~= Seq::<AccountV>::empty());
    } else {
        let k = if i == 0 { 0 } else { i - 1 };
        first_account_of_the_user_goes(key, rest, k);
        assert forall|j: int| 0 <= j < rest.len() implies #[trigger] rest[j] == accounts[j
            + 1] by {}
        if forall|j: int| 0 <= j < accounts.len() ==> !is_owned(#[trigger] accounts[j]) {
            assert forall|j: int| 0 <= j < rest.len() implies !is_owned(#[trigger] rest[j]) by {
                assert(!is_owned(accounts[j + 1]));
            }
        }
        if i > 0 && (forall|j: int| 0 <= j < i ==> !is_owned(#[trigger] accounts[j])) {
            assert(!is_owned(accounts[0]));
            assert forall|j: int| 0 <= j < k implies !is_owned(#[trigger] rest[j]) by {
                assert(!is_owned(accounts[j + 1]));
            }
        }
    }
}

/// The record that is kept of a group has what the client sent, field for field: the name,
/// the external id, and the members that are named, known or not, in their order.
pub proof fn kept_group_has_what_was_sent(body: GroupBody, record: GroupRecord, at: Timestamp)
    requires
        body.display_name is Some,
        record.deep_view() == group_record_of(body.deep_view(), at),
    ensures
        record.name@ == body.display_name->0@,
        record.updated_at == at,
        record.external_id is Some <==> body.external_id is Some,
        record.external_id is Some ==> (record.external_id->0).0@ == body.external_id->0@,
        record.members@.len() == (if body.members is Some {
            body.members->0@.len()
        } else {
            0
        }),
        forall|i: int|
            0 <= i < record.members@.len() ==> (#[trigger] record.members@[i]).0@
                == body.members->0@[i].value@,
{
    let v = record.deep_view();
    assert(v.members.len() == record.members@.len());
    assert forall|i: int| 0 <= i < record.members@.len() implies (
    #[trigger] record.members@[i]).0@ == body.members->0@[i].value@ by {
        assert(v.members[i] == record.members@[i].deep_view());
        assert(body.members->0.deep_view()[i] == body.members->0@[i].deep_view());
    }
}

/// What clients read of a group is what is kept of it, field for field; of its members they
/// read the known ones, each with its id and its address.
pub proof fn group_is_shown_as_kept(
    m: MappingV,
    id: Seq<char>,
    record: GroupRecord,
    group: ScimGroup,
)
    requires
        group.deep_view() == group_resource(m, id, record.deep_view()),
    ensures
        group.id@ == id,
        group.display_name@ == record.name@,
        group.external_id is Some <==> record.external_id is Some,
        group.external_id is Some ==> group.external_id->0@ == (record.external_id->0).0@,
        group.members.deep_view() == known_members(m, record.members.deep_view()),
        group.meta.resource_type@ == "Group"@,
        group.meta.location@ == "/scim/v2/Groups/"@ + id,
        group.meta.last_modified == Some(record.updated_at),
        group.schemas@.len() == 1,
        group.schemas@[0]@ == "urn:ietf:params:scim:schemas:core:2.0:Group"@,
{
    let v = group.deep_view();
    assert(v.schemas.len() == group.schemas@.len());
    assert(v.schemas[0] == group.schemas@[0]@);
}

/// The members of a group that clients read come in the order of the group's members, each
/// for itself: a known one with its id and its address, an unknown one not at all.
pub proof fn known_members_come_in_order(
    m: MappingV,
    first: Seq<Seq<char>>,
    second: Seq<Seq<char>>,
)
    ensures
        known_members(m, first + second) == known_members(m, first) + known_members(m, second),
        first.len() == 1 ==> {
            let known = m.users.dom().contains(first[0]);
            &&& known_members(m, first).len() == (if known { 1int } else { 0 })
            &&& known ==> known_members(m, first)[0].value == first[0]
            &&& known ==> known_members(m, first)[0].display == m.users[first[0]].email
        },
    decreases second.len(),
{
    if second.len() == 0 {
        assert(first + second =~= first);
        assert(known_members(m, first) + known_members(m, second) =~= known_members(m, first));
    } else {
        known_members_come_in_order(m, first, second.drop_last());
        assert((first + second).drop_last() =~= first + second.drop_last());
        assert((first + second).last() == second.last());
        assert(known_members(m, first + second) =~= known_members(m, first) + known_members(
            m,
            second,
        ));
    }
    if first.len() == 1 {
        reveal_with_fuel(known_members, 2);
        assert(first.last() == first[0]);
    }
}

/// The lists that clients read have every user and every group once, by id in dictionary
/// order, each as it is read by itself.
pub proof fn lists_are_complete(m: MappingV, id: Seq<char>)
    requires
        m.users.dom().finite(),
        m.groups.dom().finite(),
    ensures
        all_users(m).len() == m.users.dom().len(),
        all_groups(m).len() == m.groups.dom().len(),
        m.users.dom().contains(id) ==> all_users(m).contains(user_resource(id, m.users[id])),
        m.groups.dom().contains(id) ==> all_groups(m).contains(
            group_resource(m, id, m.groups[id]),
        ),
        forall|i: int, j: int|
            0 <= i < j < all_users(m).len() ==> text::before(
                (#[trigger] all_users(m)[i]).id,
                (#[trigger] all_users(m)[j]).id,
            ),
        forall|i: int, j: int|
            0 <= i < j < all_groups(m).len() ==> text::before(
                (#[trigger] all_groups(m)[i]).id,
                (#[trigger] all_groups(m)[j]).id,
            ),
{
    let users = table::sorted(m.users.dom());
    let groups = table::sorted(m.groups.dom());
    table::finite_is_sorted(m.users.dom());
    table::finite_is_sorted(m.groups.dom());
    table::sorted_has_no_duplicates(m.users.dom());
    table::sorted_has_no_duplicates(m.groups.dom());
    if m.users.dom().contains(id) {
        assert(users.to_set().contains(id));
        let i = choose|i: int| 0 <= i < users.len() && users[i] == id;
        assert(all_users(m)[i] == user_resource(id, m.users[id]));
    }
    if m.groups.dom().contains(id) {
        assert(groups.to_set().contains(id));
        let i = choose|i: int| 0 <= i < groups.len() && groups[i] == id;
        assert(all_groups(m)[i] == group_resource(m, id, m.groups[id]));
    }
    assert forall|i: int, j: int| 0 <= i < j < all_users(m).len() implies text::before(
        (#[trigger] all_users(m)[i]).id,
        (#[trigger] all_users(m)[j]).id,
    ) by {
        assert(text::before(users[i], users[j]));
    }
    assert forall|i: int, j: int| 0 <= i < j < all_groups(m).len() implies text::before(
        (#[trigger] all_groups(m)[i]).id,
        (#[trigger] all_groups(m)[j]).id,
    ) by {
        assert(text::before(groups[i], groups[j]));
    }
}

/// A change of a group is refused exactly where it has no name or an empty one (400), where
/// there is no such group (404), or where it would take over the name of another group
/// (409).
pub proof fn group_changes_are_refused(m: MappingV, id: Seq<char>, body: GroupBodyV)
    requires
        m.groups.dom().finite(),
    ensures
        ({
            let refusal = put_group_refusal(m, id, body);
            let named = body.display_name is Some && body.display_name->0.len() > 0;
            let taken = |other: Seq<char>|
                m.groups.dom().contains(other) && other != id && m.groups[other].name
                    == body.display_name->0;
            &&& !named ==> refusal is Some && refusal->0.status == 400 && refusal->0.detail
                == "displayName is required"@
            &&& named && !m.groups.dom().contains(id) ==> refusal is Some && refusal->0.status
                == 404
            &&& named && m.groups.dom().contains(id) && m.groups[id].name
                == body.display_name->0 ==> refusal is None
            &&& named && m.groups.dom().contains(id) && m.groups[id].name
                != body.display_name->0 ==> {
                if exists|other: Seq<char>| #[trigger] taken(other) {
                    refusal is Some && refusal->0.status == 409 && refusal->0.detail == "group '"@
                        + body.display_name->0 + "' already exists"@
                } else {
                    refusal is None
                }
            }
        }),
{
    let named = body.display_name is Some && body.display_name->0.len() > 0;
    if named && m.groups.dom().contains(id) {
        let name = body.display_name->0;
        let taken = |other: Seq<char>|
            m.groups.dom().contains(other) && other != id && m.groups[other].name == name;
        storage::group_is_found_by_name(m, name);
        if m.groups[id].name != name {
            if storage::group_named(m, name) is Some {
                assert(taken(storage::group_named(m, name)->0));
            } else if exists|other: Seq<char>| #[trigger] taken(other) {
                let other = choose|other: Seq<char>| #[trigger] taken(other);
                assert(m.groups[other].name != name);
            }
        }
    }
}

/// The remark beside a member of the policy is the user's address, or a hyphen, a comma
/// and the user's name, where nothing in these ends a comment.
pub proof fn remark_tells_who_it_is(issuer: Seq<char>, user: UserRecordV)
    requires
        user.active,
        user.external_id is Some,
        !text::has_part(
            (if user.email is Some {
                user.email->0
            } else {
                "-"@
            }) + ", "@ + user.name,
            "*/"@,
        ),
    ensures
        member_of(KeyV::ExternalId { oidc_issuer: issuer }, user)->0.comment == Some(
            (if user.email is Some {
                user.email->0
            } else {
                "-"@
            }) + ", "@ + user.name,
        ),
{
    let remark = (if user.email is Some {
        user.email->0
    } else {
        "-"@
    }) + ", "@ + user.name;
    text::nothing_to_replace(remark, "*/"@, "* /"@);
}

/// What would end a comment is taken apart by a space, and everything round it stays.
pub proof fn comment_ends_are_taken_apart(before: Seq<char>, after: Seq<char>)
    requires
        !text::has_part(before, "*/"@),
        before.len() > 0 ==> before.last() != '*',
    ensures
        defused(before + "*/"@ + after) == before + "* /"@ + defused(after),
{
    reveal_strlit("*/");
    let whole = before + "*/"@ + after;
    assert forall|i: int| 0 <= i < before.len() implies !text::stands_at(whole, "*/"@, i) by {
        if text::stands_at(whole, "*/"@, i) {
            let part = whole.subrange(i, i + 2);
            assert(part[0] == whole[i] && part[1] == whole[i + 1]);
            assert(whole[i] == before[i]);
            if i + 1 < before.len() {
                assert(whole[i + 1] == before[i + 1]);
                assert(before.subrange(i, i + 2) =~= "*/"@);
                assert(text::stands_at(before, "*/"@, i));
            }
        }
    }
    text::first_part_is_replaced(before, "*/"@, after, "* /"@);
}

/// The answer where a user or a group is not there names the one that was asked for.
pub proof fn missing_ones_are_named(id: Seq<char>)
    ensures
        no_user(id).status == 404,
        no_user(id).detail == "user "@ + id + " not found"@,
        no_group(id).status == 404,
        no_group(id).detail == "group '"@ + id + "' not found"@,
{
}

/// What is said of a report or a change that lacks something is what it lacks.
pub proof fn refusals_say_what_is_lacking(config: ConfigV, body: UserBodyV)
    ensures
        ({
            let named = body.user_name is Some;
            let id_is_missing = config.policy_user_key is ExternalId && body.external_id is None;
            &&& !named ==> create_user_refusal(config, body)->0.detail == "userName is required"@
            &&& !named ==> put_user_refusal(config, body)->0.detail == "userName is required"@
            &&& named && body.active is None ==> put_user_refusal(config, body)->0.detail
                == "active must be set explicitly in a PUT"@
            &&& named && body.user_name->0.len() > 0 && id_is_missing ==> create_user_refusal(
                config,
                body,
            )->0.detail == "externalId is required when policyUserKey=external_id"@
            &&& named && body.active is Some && id_is_missing ==> put_user_refusal(
                config,
                body,
            )->0.detail == "externalId is required when policyUserKey=external_id"@
        }),
{
}

/// A user is in a group exactly where one of the groups has the user's id among its members.
pub proof fn membership_is_by_id(m: MappingV, id: Seq<char>, group: Seq<char>, i: int)
    ensures
        m.groups.dom().contains(group) && 0 <= i < m.groups[group].members.len()
            && m.groups[group].members[i] == id ==> in_a_group(m, id),
        in_a_group(m, id) ==> exists|g: Seq<char>, k: int|
            m.groups.dom().contains(g) && 0 <= k < m.groups[g].members.len()
                && #[trigger] m.groups[g].members[k] == id,
{
    if m.groups.dom().contains(group) && 0 <= i < m.groups[group].members.len()
        && m.groups[group].members[i] == id {
        assert(m.groups[group].members.contains(id));
    }
    if in_a_group(m, id) {
        let g = choose|g: Seq<char>|
            m.groups.dom().contains(g) && #[trigger] m.groups[g].members.contains(id);
        let k = choose|k: int|
            0 <= k < m.groups[g].members.len() && m.groups[g].members[k] == id;
        assert(m.groups[g].members[k] == id);
    }
}

/// An id that is made up has 36 characters: a hyphen behind the eighth, and behind each of
/// the three groups of four that follow; all others are digits or the letters from `a` to
/// `f`, with a 4 at the head of the third group.
pub proof fn ids_have_the_form_of_random_ones(id: Seq<char>, i: int)
    requires
        is_random_id(id),
        0 <= i < id.len(),
    ensures
        id.len() == 36,
        id[i] == '-' <==> i == 8 || i == 13 || i == 18 || i == 23,
        id[i] != '-' ==> ('0' <= id[i] && id[i] <= '9') || ('a' <= id[i] && id[i] <= 'f'),
        id[14] == '4',
        id[19] == '8' || id[19] == '9' || id[19] == 'a' || id[19] == 'b',
{
}

/// The settings stand for what tells users apart and for whether nodes expire.
pub proof fn settings_are_seen_as_they_are(config: ScimConfig)
    ensures
        config.deep_view().policy_user_key == config.policy_user_key.deep_view(),
        config.deep_view().expire_nodes_on_change == config.expire_nodes_on_change,
{
}

/// A client's words on a user stand for each of its fields.
pub proof fn user_bodies_are_seen_as_they_are(body: UserBody)
    ensures
        body.deep_view().user_name == body.user_name.deep_view(),
        body.deep_view().display_name == body.display_name.deep_view(),
        body.deep_view().external_id == body.external_id.deep_view(),
        body.deep_view().emails == body.emails.deep_view(),
        body.deep_view().active == body.active,
{
}

/// A client's words on a group stand for each of its fields.
pub proof fn group_bodies_are_seen_as_they_are(body: GroupBody)
    ensures
        body.deep_view().display_name == body.display_name.deep_view(),
        body.deep_view().external_id == body.external_id.deep_view(),
        body.deep_view().members == body.members.deep_view(),
{
}

/// An account stands for its id, its name, its address and its id with the provider.
pub proof fn accounts_are_seen_as_they_are(account: Account)
    ensures
        account.deep_view().id == account.id,
        account.deep_view().name == account.name@,
        account.deep_view().email == account.email@,
        account.deep_view().provider_id == account.provider_id@,
{
}

/// A node stands for its id and its account.
pub proof fn nodes_are_seen_as_they_are(node: Node)
    ensures
        node.deep_view().id == node.id,
        node.deep_view().user == node.user.deep_view(),
{
}

/// What tells users apart is seen as it is, with the issuer where there is one, and so is
/// what an account is looked for by.
pub proof fn keys_are_seen_as_they_are(key: PolicyUserKey, s: String)
    ensures
        key is Email ==> key.deep_view() is Email,
        key is Username ==> key.deep_view() is Username,
        key is ExternalId ==> key.deep_view() is ExternalId,
        key is ExternalId ==> key.deep_view()->oidc_issuer == key->oidc_issuer@,
        ResolvedKey::Email(s).deep_view() == ResolvedV::Email(s@),
        ResolvedKey::Name(s).deep_view() == ResolvedV::Name(s@),
        ResolvedKey::ProviderId(s).deep_view() == ResolvedV::ProviderId(s@),
{
}

} // verus!
