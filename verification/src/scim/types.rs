//! What the SCIM service exchanges with its clients.
use crate::json;
use crate::json::{Fields, Json, List};
use crate::text;
use crate::time::Timestamp;
use vstd::prelude::*;

verus! {

/// The id under which clients know a user.
#[derive(Debug, PartialEq, Eq)]
pub struct ScimId(pub String);

impl DeepView for ScimId {
    type V = Seq<char>;

    open spec fn deep_view(&self) -> Seq<char> {
        self.0@
    }
}

impl Clone for ScimId {
    fn clone(&self) -> (r: Self)
        ensures
            r.deep_view() == self.deep_view(),
    {
        ScimId(self.0.clone())
    }
}

impl ScimId {
    /// The id as text.
    pub fn as_str(&self) -> (r: &str)
        ensures
            r@ == self.deep_view(),
    {
        self.0.as_str()
    }
}

/// The id under which clients know a group.
#[derive(Debug, PartialEq, Eq)]
pub struct GroupScimId(pub String);

impl DeepView for GroupScimId {
    type V = Seq<char>;

    open spec fn deep_view(&self) -> Seq<char> {
        self.0@
    }
}

impl Clone for GroupScimId {
    fn clone(&self) -> (r: Self)
        ensures
            r.deep_view() == self.deep_view(),
    {
        GroupScimId(self.0.clone())
    }
}

impl GroupScimId {
    /// The id as text.
    pub fn as_str(&self) -> (r: &str)
        ensures
            r@ == self.deep_view(),
    {
        self.0.as_str()
    }
}

/// The id that the identity provider has given a user or a group.
#[derive(Debug, PartialEq, Eq)]
pub struct ExternalId(pub String);

impl DeepView for ExternalId {
    type V = Seq<char>;

    open spec fn deep_view(&self) -> Seq<char> {
        self.0@
    }
}

impl Clone for ExternalId {
    fn clone(&self) -> (r: Self)
        ensures
            r.deep_view() == self.deep_view(),
    {
        ExternalId(self.0.clone())
    }
}

impl ExternalId {
    /// The id as text.
    pub fn as_str(&self) -> (r: &str)
        ensures
            r@ == self.deep_view(),
    {
        self.0.as_str()
    }
}

pub const SCHEMA_USER: &'static str = "urn:ietf:params:scim:schemas:core:2.0:User";

pub const SCHEMA_GROUP: &'static str = "urn:ietf:params:scim:schemas:core:2.0:Group";

pub const SCHEMA_LIST_RESPONSE: &'static str =
    "urn:ietf:params:scim:api:messages:2.0:ListResponse";

pub const SCHEMA_ERROR: &'static str = "urn:ietf:params:scim:api:messages:2.0:Error";

pub const SCHEMA_SERVICE_PROVIDER_CONFIG: &'static str =
    "urn:ietf:params:scim:schemas:core:2.0:ServiceProviderConfig";

/// An address of a user.
#[derive(Debug)]
pub struct ScimEmail {
    pub value: String,
    pub primary: bool,
}

/// A [`ScimEmail`] as plain values.
pub struct EmailV {
    pub value: Seq<char>,
    pub primary: bool,
}

impl DeepView for ScimEmail {
    type V = EmailV;

    open spec fn deep_view(&self) -> EmailV {
        EmailV { value: self.value@, primary: self.primary }
    }
}

/// What is said of a resource beside its content.
#[derive(Debug)]
pub struct ScimMeta {
    pub resource_type: String,
    pub location: String,
    pub last_modified: Option<Timestamp>,
}

/// A [`ScimMeta`] as plain values.
pub struct MetaV {
    pub resource_type: Seq<char>,
    pub location: Seq<char>,
    pub last_modified: Option<Timestamp>,
}

impl DeepView for ScimMeta {
    type V = MetaV;

    open spec fn deep_view(&self) -> MetaV {
        MetaV {
            resource_type: self.resource_type@,
            location: self.location@,
            last_modified: self.last_modified,
        }
    }
}

/// A user as clients see it.
#[derive(Debug)]
pub struct ScimUser {
    pub schemas: Vec<String>,
    pub id: String,
    pub external_id: Option<String>,
    pub user_name: String,
    pub display_name: Option<String>,
    pub emails: Vec<ScimEmail>,
    pub active: bool,
    pub meta: ScimMeta,
}

/// A [`ScimUser`] as plain values.
pub struct ScimUserV {
    pub schemas: Seq<Seq<char>>,
    pub id: Seq<char>,
    pub external_id: Option<Seq<char>>,
    pub user_name: Seq<char>,
    pub display_name: Option<Seq<char>>,
    pub emails: Seq<EmailV>,
    pub active: bool,
    pub meta: MetaV,
}

impl DeepView for ScimUser {
    type V = ScimUserV;

    open spec fn deep_view(&self) -> ScimUserV {
        ScimUserV {
            schemas: self.schemas.deep_view(),
            id: self.id@,
            external_id: self.external_id.deep_view(),
            user_name: self.user_name@,
            display_name: self.display_name.deep_view(),
            emails: self.emails.deep_view(),
            active: self.active,
            meta: self.meta.deep_view(),
        }
    }
}

/// A member of a group as clients see it.
#[derive(Debug)]
pub struct ScimMember {
    pub value: String,
    pub display: Option<String>,
}

/// A [`ScimMember`] as plain text.
pub struct ScimMemberV {
    pub value: Seq<char>,
    pub display: Option<Seq<char>>,
}

impl DeepView for ScimMember {
    type V = ScimMemberV;

    open spec fn deep_view(&self) -> ScimMemberV {
        ScimMemberV { value: self.value@, display: self.display.deep_view() }
    }
}

/// A group as clients see it.
#[derive(Debug)]
pub struct ScimGroup {
    pub schemas: Vec<String>,
    pub id: String,
    pub external_id: Option<String>,
    pub display_name: String,
    pub members: Vec<ScimMember>,
    pub meta: ScimMeta,
}

/// A [`ScimGroup`] as plain values.
pub struct ScimGroupV {
    pub schemas: Seq<Seq<char>>,
    pub id: Seq<char>,
    pub external_id: Option<Seq<char>>,
    pub display_name: Seq<char>,
    pub members: Seq<ScimMemberV>,
    pub meta: MetaV,
}

impl DeepView for ScimGroup {
    type V = ScimGroupV;

    open spec fn deep_view(&self) -> ScimGroupV {
        ScimGroupV {
            schemas: self.schemas.deep_view(),
            id: self.id@,
            external_id: self.external_id.deep_view(),
            display_name: self.display_name@,
            members: self.members.deep_view(),
            meta: self.meta.deep_view(),
        }
    }
}

/// A list of resources, all on one page.
#[derive(Debug)]
pub struct ScimListResponse<T> {
    pub schemas: Vec<String>,
    pub total_results: usize,
    pub start_index: usize,
    pub items_per_page: usize,
    pub resources: Vec<T>,
}

/// The one schema of a resource.
pub(crate) fn one_schema(schema: &str) -> (r: Vec<String>)
    ensures
        r.deep_view() == Seq::empty().push(schema@),
{
    let mut out: Vec<String> = Vec::new();
    out.push(schema.to_owned());
    proof {
        assert(out.deep_view() =~= Seq::empty().push(schema@));
    }
    out
}

impl<T> ScimListResponse<T> {
    /// The response that lists these resources.
    pub fn new(resources: Vec<T>) -> (r: Self)
        ensures
            r.schemas.deep_view() == Seq::empty().push(SCHEMA_LIST_RESPONSE@),
            r.total_results == resources@.len(),
            r.start_index == 1,
            r.items_per_page == resources@.len(),
            r.resources == resources,
    {
        let total: usize = resources.len();
        ScimListResponse {
            schemas: one_schema(SCHEMA_LIST_RESPONSE),
            total_results: total,
            start_index: 1,
            items_per_page: total,
            resources,
        }
    }
}

/// Why a request fails: the status of the response and a message.
#[derive(Debug)]
pub struct ScimError {
    pub status: u16,
    pub detail: String,
}

/// A [`ScimError`] as plain values.
pub struct ErrorV {
    pub status: u16,
    pub detail: Seq<char>,
}

impl DeepView for ScimError {
    type V = ErrorV;

    open spec fn deep_view(&self) -> ErrorV {
        ErrorV { status: self.status, detail: self.detail@ }
    }
}

/// A resource is missing.
pub open spec fn not_found(detail: Seq<char>) -> ErrorV {
    ErrorV { status: 404, detail }
}

/// A request contradicts what is there.
pub open spec fn conflict(detail: Seq<char>) -> ErrorV {
    ErrorV { status: 409, detail }
}

/// A request is malformed.
pub open spec fn bad_request(detail: Seq<char>) -> ErrorV {
    ErrorV { status: 400, detail }
}

/// The service failed.
pub open spec fn internal(detail: Seq<char>) -> ErrorV {
    ErrorV { status: 500, detail }
}

/// The service does not do that.
pub open spec fn not_implemented(detail: Seq<char>) -> ErrorV {
    ErrorV { status: 501, detail }
}

/// A request does not carry the bearer token.
pub open spec fn unauthorized() -> ErrorV {
    ErrorV { status: 401, detail: "Invalid or missing bearer token"@ }
}

impl ScimError {
    /// A resource is missing.
    pub fn not_found(detail: String) -> (r: Self)
        ensures
            r.deep_view() == not_found(detail@),
    {
        ScimError { status: 404, detail }
    }

    /// A request contradicts what is there.
    pub fn conflict(detail: String) -> (r: Self)
        ensures
            r.deep_view() == conflict(detail@),
    {
        ScimError { status: 409, detail }
    }

    /// A request is malformed.
    pub fn bad_request(detail: String) -> (r: Self)
        ensures
            r.deep_view() == bad_request(detail@),
    {
        ScimError { status: 400, detail }
    }

    /// The service failed.
    pub fn internal(detail: String) -> (r: Self)
        ensures
            r.deep_view() == internal(detail@),
    {
        ScimError { status: 500, detail }
    }

    /// The service does not do that.
    pub fn not_implemented(detail: String) -> (r: Self)
        ensures
            r.deep_view() == not_implemented(detail@),
    {
        ScimError { status: 501, detail }
    }

    /// A request does not carry the bearer token.
    pub fn unauthorized() -> (r: Self)
        ensures
            r.deep_view() == unauthorized(),
    {
        ScimError { status: 401, detail: "Invalid or missing bearer token".to_owned() }
    }

    /// The body of the response.
    pub fn body(&self) -> (r: serde_json::Value)
        ensures
            json::json(r) == json::object(
                Seq::empty().push(
                    ("schemas"@, Json::Array(Seq::empty().push(Json::Text(SCHEMA_ERROR@)))),
                ).push(("detail"@, Json::Text(self.detail@))).push(
                    ("status"@, Json::Text(text::decimal(self.status as nat))),
                ),
            ),
    {
        let status: String = text::decimal_of(self.status as u64);
        Fields::new().with("schemas", List::new().with_text(SCHEMA_ERROR).done()).with_text(
            "detail",
            self.detail.as_str(),
        ).with_text("status", status.as_str()).done()
    }

    /// The challenge in the header of the response: there is one where the bearer
    /// token is missing.
    pub fn challenge(&self) -> (r: Option<&'static str>)
        ensures
            if self.status == 401 {
                r is Some && r->0@ == "Bearer realm=\"SCIM\""@
            } else {
                r is None
            },
    {
        if self.status == 401 {
            Some("Bearer realm=\"SCIM\"")
        } else {
            None
        }
    }
}

// Laws.

/// The status with which each kind of failure is answered, and that it says what it is told
/// to say.
pub proof fn failures_have_their_status(detail: Seq<char>)
    ensures
        not_found(detail).status == 404,
        conflict(detail).status == 409,
        bad_request(detail).status == 400,
        internal(detail).status == 500,
        not_implemented(detail).status == 501,
        unauthorized().status == 401,
        not_found(detail).detail == detail,
        conflict(detail).detail == detail,
        bad_request(detail).detail == detail,
        internal(detail).detail == detail,
        not_implemented(detail).detail == detail,
        unauthorized().detail == "Invalid or missing bearer token"@,
        SCHEMA_USER@ == "urn:ietf:params:scim:schemas:core:2.0:User"@,
        SCHEMA_GROUP@ == "urn:ietf:params:scim:schemas:core:2.0:Group"@,
        SCHEMA_LIST_RESPONSE@ == "urn:ietf:params:scim:api:messages:2.0:ListResponse"@,
        SCHEMA_ERROR@ == "urn:ietf:params:scim:api:messages:2.0:Error"@,
        SCHEMA_SERVICE_PROVIDER_CONFIG@
            == "urn:ietf:params:scim:schemas:core:2.0:ServiceProviderConfig"@,
{
}

/// An address stands for its text and for whether it is the primary one.
pub proof fn addresses_are_seen_as_they_are(email: ScimEmail)
    ensures
        email.deep_view().value == email.value@,
        email.deep_view().primary == email.primary,
{
}

/// Meta data stand for their kind, their place and their time.
pub proof fn meta_data_are_seen_as_they_are(meta: ScimMeta)
    ensures
        meta.deep_view().resource_type == meta.resource_type@,
        meta.deep_view().location == meta.location@,
        meta.deep_view().last_modified == meta.last_modified,
{
}

/// A user stands for each of its fields.
pub proof fn users_are_seen_as_they_are(user: ScimUser)
    ensures
        user.deep_view().schemas == user.schemas.deep_view(),
        user.deep_view().id == user.id@,
        user.deep_view().external_id == user.external_id.deep_view(),
        user.deep_view().user_name == user.user_name@,
        user.deep_view().display_name == user.display_name.deep_view(),
        user.deep_view().emails == user.emails.deep_view(),
        user.deep_view().active == user.active,
        user.deep_view().meta == user.meta.deep_view(),
{
}

/// A member stands for its id and its name.
pub proof fn members_are_seen_as_they_are(member: ScimMember)
    ensures
        member.deep_view().value == member.value@,
        member.deep_view().display == member.display.deep_view(),
{
}

/// A group stands for each of its fields.
pub proof fn groups_are_seen_as_they_are(group: ScimGroup)
    ensures
        group.deep_view().schemas == group.schemas.deep_view(),
        group.deep_view().id == group.id@,
        group.deep_view().external_id == group.external_id.deep_view(),
        group.deep_view().display_name == group.display_name@,
        group.deep_view().members == group.members.deep_view(),
        group.deep_view().meta == group.meta.deep_view(),
{
}

/// An error stands for its status and for what it says.
pub proof fn errors_are_seen_as_they_are(error: ScimError)
    ensures
        error.deep_view().status == error.status,
        error.deep_view().detail == error.detail@,
{
}

} // verus!
