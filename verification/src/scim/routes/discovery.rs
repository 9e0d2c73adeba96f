//! What the service says of itself.
use crate::json;
use crate::json::{Fields, Json, List};
use crate::scim::types::{
    SCHEMA_GROUP, SCHEMA_LIST_RESPONSE, SCHEMA_SERVICE_PROVIDER_CONFIG, SCHEMA_USER,
};
use crate::text;
use vstd::prelude::*;

verus! {

/// The schemas of a document, of which there is one.
pub open spec fn one_schema(schema: Seq<char>) -> Json {
    Json::Array(Seq::empty().push(Json::Text(schema)))
}

fn new_one_schema(schema: &str) -> (r: serde_json::Value)
    ensures
        json::json(r) == one_schema(schema@),
{
    List::new().with_text(schema).done()
}

/// Where a document is found, and what it is.
pub open spec fn meta(resource_type: Seq<char>, location: Seq<char>) -> Json {
    json::object(
        Seq::empty().push(("resourceType"@, Json::Text(resource_type))).push(
            ("location"@, Json::Text(location)),
        ),
    )
}

fn new_meta(resource_type: &str, location: &str) -> (r: serde_json::Value)
    ensures
        json::json(r) == meta(resource_type@, location@),
{
    Fields::new().with_text("resourceType", resource_type).with_text("location", location).done()
}

/// Something that the service does or does not do.
pub open spec fn support(supported: bool) -> Json {
    json::object(Seq::empty().push(("supported"@, Json::Bool(supported))))
}

fn new_support(supported: bool) -> (r: serde_json::Value)
    ensures
        json::json(r) == support(supported),
{
    Fields::new().with("supported", json::of_bool(supported)).done()
}

/// What the service does: it filters, and takes bearer tokens.
pub open spec fn provider_config() -> Json {
    json::object(
        Seq::empty().push(("schemas"@, one_schema(SCHEMA_SERVICE_PROVIDER_CONFIG@))).push(
            ("documentationUri"@, Json::Text(""@)),
        ).push(("patch"@, support(false))).push(
            (
                "bulk"@,
                json::object(
                    Seq::empty().push(("supported"@, Json::Bool(false))).push(
                        ("maxOperations"@, json::whole(0)),
                    ).push(("maxPayloadSize"@, json::whole(0))),
                ),
            ),
        ).push(("filter"@, support(true))).push(("changePassword"@, support(false))).push(
            ("sort"@, support(false)),
        ).push(("etag"@, support(false))).push(
            (
                "authenticationSchemes"@,
                Json::Array(
                    Seq::empty().push(
                        json::object(
                            Seq::empty().push(("name"@, Json::Text("OAuth Bearer Token"@))).push(
                                (
                                    "description"@,
                                    Json::Text(
                                        "Authentication scheme using the OAuth Bearer Token standard"@,
                                    ),
                                ),
                            ).push(
                                (
                                    "specUri"@,
                                    Json::Text("http://www.rfc-editor.org/info/rfc6750"@),
                                ),
                            ).push(("type"@, Json::Text("oauthbearertoken"@))).push(
                                ("primary"@, Json::Bool(true)),
                            ),
                        ),
                    ),
                ),
            ),
        ).push(
            ("meta"@, meta("ServiceProviderConfig"@, "/scim/v2/ServiceProviderConfig"@)),
        ),
    )
}

/// Says what the service does.
pub fn service_provider_config() -> (r: serde_json::Value)
    ensures
        json::json(r) == provider_config(),
{
    let bulk: serde_json::Value = Fields::new().with("supported", json::of_bool(false)).with(
        "maxOperations",
        json::of_number(0),
    ).with("maxPayloadSize", json::of_number(0)).done();
    let scheme: serde_json::Value = Fields::new().with_text(
        "name",
        "OAuth Bearer Token",
    ).with_text(
        "description",
        "Authentication scheme using the OAuth Bearer Token standard",
    ).with_text("specUri", "http://www.rfc-editor.org/info/rfc6750").with_text(
        "type",
        "oauthbearertoken",
    ).with("primary", json::of_bool(true)).done();
    Fields::new().with(
        "schemas",
        new_one_schema(SCHEMA_SERVICE_PROVIDER_CONFIG),
    ).with_text("documentationUri", "").with("patch", new_support(false)).with("bulk", bulk).with(
        "filter",
        new_support(true),
    ).with("changePassword", new_support(false)).with("sort", new_support(false)).with(
        "etag",
        new_support(false),
    ).with("authenticationSchemes", List::new().with(scheme).done()).with(
        "meta",
        new_meta("ServiceProviderConfig", "/scim/v2/ServiceProviderConfig"),
    ).done()
}

/// An attribute with one value of a type.
pub open spec fn attribute(name: Seq<char>, type_: Seq<char>, required: bool) -> Seq<
    (Seq<char>, Json),
> {
    Seq::empty().push(("name"@, Json::Text(name))).push(("type"@, Json::Text(type_))).push(
        ("required"@, Json::Bool(required)),
    )
}

fn new_attribute(name: &str, type_: &str, required: bool) -> (r: Fields)
    ensures
        r@ == attribute(name@, type_@, required),
{
    Fields::new().with_text("name", name).with_text("type", type_).with(
        "required",
        json::of_bool(required),
    )
}

/// The schema of a resource.
pub open spec fn schema_document(
    id: Seq<char>,
    name: Seq<char>,
    description: Seq<char>,
    attributes: Seq<Json>,
) -> Json {
    json::object(
        Seq::empty().push(("id"@, Json::Text(id))).push(("name"@, Json::Text(name))).push(
            ("description"@, Json::Text(description)),
        ).push(("attributes"@, Json::Array(attributes))).push(
            ("meta"@, meta("Schema"@, "/scim/v2/Schemas/"@ + id)),
        ),
    )
}

fn new_schema(id: &str, name: &str, description: &str, attributes: List) -> (r: serde_json::Value)
    ensures
        json::json(r) == schema_document(id@, name@, description@, attributes@),
{
    let location: String = text::cat2("/scim/v2/Schemas/", id);
    Fields::new().with_text("id", id).with_text("name", name).with_text(
        "description",
        description,
    ).with("attributes", attributes.done()).with("meta", new_meta("Schema", location.as_str())).done()
}

/// The schema of users.
pub open spec fn user_document() -> Json {
    schema_document(
        SCHEMA_USER@,
        "User"@,
        "User account"@,
        Seq::empty().push(
            json::object(
                attribute("userName"@, "string"@, true).push(
                    ("uniqueness"@, Json::Text("server"@)),
                ),
            ),
        ).push(
            json::object(
                attribute("displayName"@, "string"@, false).push(
                    ("uniqueness"@, Json::Text("none"@)),
                ),
            ),
        ).push(
            json::object(
                attribute("emails"@, "complex"@, false).push(("multiValued"@, Json::Bool(true))),
            ),
        ).push(json::object(attribute("active"@, "boolean"@, false))),
    )
}

/// Describes users.
pub fn user_schema() -> (r: serde_json::Value)
    ensures
        json::json(r) == user_document(),
{
    let attributes: List = List::new().with(
        new_attribute("userName", "string", true).with_text("uniqueness", "server").done(),
    ).with(
        new_attribute("displayName", "string", false).with_text("uniqueness", "none").done(),
    ).with(
        new_attribute("emails", "complex", false).with("multiValued", json::of_bool(true)).done(),
    ).with(new_attribute("active", "boolean", false).done());
    new_schema(SCHEMA_USER, "User", "User account", attributes)
}

/// The schema of groups.
pub open spec fn group_document() -> Json {
    schema_document(
        SCHEMA_GROUP@,
        "Group"@,
        "Group"@,
        Seq::empty().push(
            json::object(
                attribute("displayName"@, "string"@, true).push(
                    ("uniqueness"@, Json::Text("server"@)),
                ),
            ),
        ).push(
            json::object(
                attribute("members"@, "complex"@, false).push(("multiValued"@, Json::Bool(true))),
            ),
        ),
    )
}

/// Describes groups.
pub fn group_schema() -> (r: serde_json::Value)
    ensures
        json::json(r) == group_document(),
{
    let attributes: List = List::new().with(
        new_attribute("displayName", "string", true).with_text("uniqueness", "server").done(),
    ).with(
        new_attribute("members", "complex", false).with("multiValued", json::of_bool(true)).done(),
    );
    new_schema(SCHEMA_GROUP, "Group", "Group", attributes)
}

/// A list of two documents.
pub open spec fn pair(first: Json, second: Json) -> Json {
    json::object(
        Seq::empty().push(("schemas"@, one_schema(SCHEMA_LIST_RESPONSE@))).push(
            ("totalResults"@, json::whole(2)),
        ).push(("Resources"@, Json::Array(Seq::empty().push(first).push(second)))),
    )
}

fn new_pair(first: serde_json::Value, second: serde_json::Value) -> (r: serde_json::Value)
    ensures
        json::json(r) == pair(json::json(first), json::json(second)),
{
    Fields::new().with("schemas", new_one_schema(SCHEMA_LIST_RESPONSE)).with(
        "totalResults",
        json::of_number(2),
    ).with("Resources", List::new().with(first).with(second).done()).done()
}

/// Describes users and groups.
pub fn schemas() -> (r: serde_json::Value)
    ensures
        json::json(r) == pair(user_document(), group_document()),
{
    new_pair(user_schema(), group_schema())
}

/// A kind of resource.
pub open spec fn resource_type(name: Seq<char>, endpoint: Seq<char>, schema: Seq<char>) -> Json {
    json::object(
        Seq::empty().push(
            ("schemas"@, one_schema("urn:ietf:params:scim:schemas:core:2.0:ResourceType"@)),
        ).push(("id"@, Json::Text(name))).push(("name"@, Json::Text(name))).push(
            ("endpoint"@, Json::Text(endpoint)),
        ).push(("schema"@, Json::Text(schema))).push(
            ("meta"@, meta("ResourceType"@, "/scim/v2/ResourceTypes/"@ + name)),
        ),
    )
}

fn new_resource_type(name: &str, endpoint: &str, schema: &str) -> (r: serde_json::Value)
    ensures
        json::json(r) == resource_type(name@, endpoint@, schema@),
{
    let location: String = text::cat2("/scim/v2/ResourceTypes/", name);
    Fields::new().with(
        "schemas",
        new_one_schema("urn:ietf:params:scim:schemas:core:2.0:ResourceType"),
    ).with_text("id", name).with_text("name", name).with_text("endpoint", endpoint).with_text(
        "schema",
        schema,
    ).with("meta", new_meta("ResourceType", location.as_str())).done()
}

/// Names the kinds of resources.
pub fn resource_types() -> (r: serde_json::Value)
    ensures
        json::json(r) == pair(
            resource_type("User"@, "/Users"@, SCHEMA_USER@),
            resource_type("Group"@, "/Groups"@, SCHEMA_GROUP@),
        ),
{
    new_pair(
        new_resource_type("User", "/Users", SCHEMA_USER),
        new_resource_type("Group", "/Groups", SCHEMA_GROUP),
    )
}

// Laws.

proof fn discovery_names_differ()
    ensures
        "Resources"@.len() == 9,
        "Resources"@[0] == 'R',
        "attributes"@.len() == 10,
        "attributes"@[0] == 'a',
        "authenticationSchemes"@.len() == 21,
        "bulk"@.len() == 4,
        "bulk"@[0] == 'b',
        "changePassword"@.len() == 14,
        "changePassword"@[0] == 'c',
        "description"@.len() == 11,
        "description"@[0] == 'd',
        "documentationUri"@.len() == 16,
        "endpoint"@.len() == 8,
        "endpoint"@[0] == 'e',
        "etag"@.len() == 4,
        "etag"@[0] == 'e',
        "filter"@.len() == 6,
        "filter"@[0] == 'f',
        "id"@.len() == 2,
        "location"@.len() == 8,
        "location"@[0] == 'l',
        "maxOperations"@.len() == 13,
        "maxPayloadSize"@.len() == 14,
        "maxPayloadSize"@[0] == 'm',
        "meta"@.len() == 4,
        "meta"@[0] == 'm',
        "multiValued"@.len() == 11,
        "multiValued"@[0] == 'm',
        "name"@.len() == 4,
        "name"@[0] == 'n',
        "patch"@.len() == 5,
        "primary"@.len() == 7,
        "primary"@[0] == 'p',
        "required"@.len() == 8,
        "required"@[0] == 'r',
        "resourceType"@.len() == 12,
        "resourceType"@[0] == 'r',
        "schema"@.len() == 6,
        "schema"@[0] == 's',
        "schemas"@.len() == 7,
        "schemas"@[0] == 's',
        "schemas"@[1] == 'c',
        "sort"@.len() == 4,
        "sort"@[0] == 's',
        "specUri"@.len() == 7,
        "specUri"@[0] == 's',
        "specUri"@[1] == 'p',
        "supported"@.len() == 9,
        "supported"@[0] == 's',
        "totalResults"@.len() == 12,
        "totalResults"@[0] == 't',
        "type"@.len() == 4,
        "type"@[0] == 't',
        "uniqueness"@.len() == 10,
        "uniqueness"@[0] == 'u',
{
    reveal_strlit("Resources");
    reveal_strlit("attributes");
    reveal_strlit("authenticationSchemes");
    reveal_strlit("bulk");
    reveal_strlit("changePassword");
    reveal_strlit("description");
    reveal_strlit("documentationUri");
    reveal_strlit("endpoint");
    reveal_strlit("etag");
    reveal_strlit("filter");
    reveal_strlit("id");
    reveal_strlit("location");
    reveal_strlit("maxOperations");
    reveal_strlit("maxPayloadSize");
    reveal_strlit("meta");
    reveal_strlit("multiValued");
    reveal_strlit("name");
    reveal_strlit("patch");
    reveal_strlit("primary");
    reveal_strlit("required");
    reveal_strlit("resourceType");
    reveal_strlit("schema");
    reveal_strlit("schemas");
    reveal_strlit("sort");
    reveal_strlit("specUri");
    reveal_strlit("supported");
    reveal_strlit("totalResults");
    reveal_strlit("type");
    reveal_strlit("uniqueness");
}

/// The service says what it does: it filters, takes bearer tokens, and does nothing else of what it
/// might.
pub proof fn service_says_what_it_does()
    ensures
        ({
            let d = provider_config();
            &&& d is Object
            &&& d->Object_0.dom()
                == set!["schemas"@, "documentationUri"@, "patch"@, "bulk"@, "filter"@,
                "changePassword"@, "sort"@, "etag"@, "authenticationSchemes"@, "meta"@]
            &&& d->Object_0["schemas"@] is Array
            &&& d->Object_0["schemas"@]->Array_0.len() == 1
            &&& d->Object_0["schemas"@]->Array_0[0]
                == Json::Text("urn:ietf:params:scim:schemas:core:2.0:ServiceProviderConfig"@)
            &&& d->Object_0["documentationUri"@] == Json::Text(""@)
            &&& d->Object_0["patch"@] is Object
            &&& d->Object_0["patch"@]->Object_0.dom() == set!["supported"@]
            &&& d->Object_0["patch"@]->Object_0["supported"@] == Json::Bool(false)
            &&& d->Object_0["bulk"@] is Object
            &&& d->Object_0["bulk"@]->Object_0.dom()
                == set!["supported"@, "maxOperations"@, "maxPayloadSize"@]
            &&& d->Object_0["bulk"@]->Object_0["supported"@] == Json::Bool(false)
            &&& d->Object_0["bulk"@]->Object_0["maxOperations"@] == json::whole(0)
            &&& d->Object_0["bulk"@]->Object_0["maxPayloadSize"@] == json::whole(0)
            &&& d->Object_0["filter"@] is Object
            &&& d->Object_0["filter"@]->Object_0.dom() == set!["supported"@]
            &&& d->Object_0["filter"@]->Object_0["supported"@] == Json::Bool(true)
            &&& d->Object_0["changePassword"@] is Object
            &&& d->Object_0["changePassword"@]->Object_0.dom() == set!["supported"@]
            &&& d->Object_0["changePassword"@]->Object_0["supported"@] == Json::Bool(false)
            &&& d->Object_0["sort"@] is Object
            &&& d->Object_0["sort"@]->Object_0.dom() == set!["supported"@]
            &&& d->Object_0["sort"@]->Object_0["supported"@] == Json::Bool(false)
            &&& d->Object_0["etag"@] is Object
            &&& d->Object_0["etag"@]->Object_0.dom() == set!["supported"@]
            &&& d->Object_0["etag"@]->Object_0["supported"@] == Json::Bool(false)
            &&& d->Object_0["authenticationSchemes"@] is Array
            &&& d->Object_0["authenticationSchemes"@]->Array_0.len() == 1
            &&& d->Object_0["authenticationSchemes"@]->Array_0[0] is Object
            &&& d->Object_0["authenticationSchemes"@]->Array_0[0]->Object_0.dom()
                == set!["name"@, "description"@, "specUri"@, "type"@, "primary"@]
            &&& d->Object_0["authenticationSchemes"@]->Array_0[0]->Object_0["name"@]
                == Json::Text("OAuth Bearer Token"@)
            &&& d->Object_0["authenticationSchemes"@]->Array_0[0]->Object_0["description"@]
                == Json::Text("Authentication scheme using the OAuth Bearer Token standard"@)
            &&& d->Object_0["authenticationSchemes"@]->Array_0[0]->Object_0["specUri"@]
                == Json::Text("http://www.rfc-editor.org/info/rfc6750"@)
            &&& d->Object_0["authenticationSchemes"@]->Array_0[0]->Object_0["type"@]
                == Json::Text("oauthbearertoken"@)
            &&& d->Object_0["authenticationSchemes"@]->Array_0[0]->Object_0["primary"@]
                == Json::Bool(true)
            &&& d->Object_0["meta"@] is Object
            &&& d->Object_0["meta"@]->Object_0.dom() == set!["resourceType"@, "location"@]
            &&& d->Object_0["meta"@]->Object_0["resourceType"@]
                == Json::Text("ServiceProviderConfig"@)
            &&& d->Object_0["meta"@]->Object_0["location"@]
                == Json::Text("/scim/v2/ServiceProviderConfig"@)
        }),
{
    discovery_names_differ();
    broadcast use json::object_grows;

    let d = provider_config();
    assert(d->Object_0.dom()
        =~= set!["schemas"@, "documentationUri"@, "patch"@, "bulk"@, "filter"@, "changePassword"@,
        "sort"@, "etag"@, "authenticationSchemes"@, "meta"@]);
    assert(d->Object_0["patch"@]->Object_0.dom() =~= set!["supported"@]);
    assert(d->Object_0["bulk"@]->Object_0.dom()
        =~= set!["supported"@, "maxOperations"@, "maxPayloadSize"@]);
    assert(d->Object_0["filter"@]->Object_0.dom() =~= set!["supported"@]);
    assert(d->Object_0["changePassword"@]->Object_0.dom() =~= set!["supported"@]);
    assert(d->Object_0["sort"@]->Object_0.dom() =~= set!["supported"@]);
    assert(d->Object_0["etag"@]->Object_0.dom() =~= set!["supported"@]);
    assert(d->Object_0["authenticationSchemes"@]->Array_0[0]->Object_0.dom()
        =~= set!["name"@, "description"@, "specUri"@, "type"@, "primary"@]);
    assert(d->Object_0["meta"@]->Object_0.dom() =~= set!["resourceType"@, "location"@]);
}

/// The schema of users: a name that is theirs alone and must be there, a display name,
/// addresses, and
/// whether they are active.
pub proof fn users_are_described()
    ensures
        ({
            let d = user_document();
            &&& d is Object
            &&& d->Object_0.dom() == set!["id"@, "name"@, "description"@, "attributes"@, "meta"@]
            &&& d->Object_0["id"@] == Json::Text("urn:ietf:params:scim:schemas:core:2.0:User"@)
            &&& d->Object_0["name"@] == Json::Text("User"@)
            &&& d->Object_0["description"@] == Json::Text("User account"@)
            &&& d->Object_0["attributes"@] is Array
            &&& d->Object_0["attributes"@]->Array_0.len() == 4
            &&& d->Object_0["attributes"@]->Array_0[0] is Object
            &&& d->Object_0["attributes"@]->Array_0[0]->Object_0.dom()
                == set!["name"@, "type"@, "required"@, "uniqueness"@]
            &&& d->Object_0["attributes"@]->Array_0[0]->Object_0["name"@] == Json::Text("userName"@)
            &&& d->Object_0["attributes"@]->Array_0[0]->Object_0["type"@] == Json::Text("string"@)
            &&& d->Object_0["attributes"@]->Array_0[0]->Object_0["required"@] == Json::Bool(true)
            &&& d->Object_0["attributes"@]->Array_0[0]->Object_0["uniqueness"@]
                == Json::Text("server"@)
            &&& d->Object_0["attributes"@]->Array_0[1] is Object
            &&& d->Object_0["attributes"@]->Array_0[1]->Object_0.dom()
                == set!["name"@, "type"@, "required"@, "uniqueness"@]
            &&& d->Object_0["attributes"@]->Array_0[1]->Object_0["name"@]
                == Json::Text("displayName"@)
            &&& d->Object_0["attributes"@]->Array_0[1]->Object_0["type"@] == Json::Text("string"@)
            &&& d->Object_0["attributes"@]->Array_0[1]->Object_0["required"@] == Json::Bool(false)
            &&& d->Object_0["attributes"@]->Array_0[1]->Object_0["uniqueness"@]
                == Json::Text("none"@)
            &&& d->Object_0["attributes"@]->Array_0[2] is Object
            &&& d->Object_0["attributes"@]->Array_0[2]->Object_0.dom()
                == set!["name"@, "type"@, "required"@, "multiValued"@]
            &&& d->Object_0["attributes"@]->Array_0[2]->Object_0["name"@] == Json::Text("emails"@)
            &&& d->Object_0["attributes"@]->Array_0[2]->Object_0["type"@] == Json::Text("complex"@)
            &&& d->Object_0["attributes"@]->Array_0[2]->Object_0["required"@] == Json::Bool(false)
            &&& d->Object_0["attributes"@]->Array_0[2]->Object_0["multiValued"@] == Json::Bool(true)
            &&& d->Object_0["attributes"@]->Array_0[3] is Object
            &&& d->Object_0["attributes"@]->Array_0[3]->Object_0.dom()
                == set!["name"@, "type"@, "required"@]
            &&& d->Object_0["attributes"@]->Array_0[3]->Object_0["name"@] == Json::Text("active"@)
            &&& d->Object_0["attributes"@]->Array_0[3]->Object_0["type"@] == Json::Text("boolean"@)
            &&& d->Object_0["attributes"@]->Array_0[3]->Object_0["required"@] == Json::Bool(false)
            &&& d->Object_0["meta"@] is Object
            &&& d->Object_0["meta"@]->Object_0.dom() == set!["resourceType"@, "location"@]
            &&& d->Object_0["meta"@]->Object_0["resourceType"@] == Json::Text("Schema"@)
            &&& d->Object_0["meta"@]->Object_0["location"@]
                == Json::Text("/scim/v2/Schemas/"@ + "urn:ietf:params:scim:schemas:core:2.0:User"@)
        }),
{
    discovery_names_differ();
    broadcast use json::object_grows;

    let d = user_document();
    assert(d->Object_0.dom() =~= set!["id"@, "name"@, "description"@, "attributes"@, "meta"@]);
    assert(d->Object_0["attributes"@]->Array_0[0]->Object_0.dom()
        =~= set!["name"@, "type"@, "required"@, "uniqueness"@]);
    assert(d->Object_0["attributes"@]->Array_0[1]->Object_0.dom()
        =~= set!["name"@, "type"@, "required"@, "uniqueness"@]);
    assert(d->Object_0["attributes"@]->Array_0[2]->Object_0.dom()
        =~= set!["name"@, "type"@, "required"@, "multiValued"@]);
    assert(d->Object_0["attributes"@]->Array_0[3]->Object_0.dom()
        =~= set!["name"@, "type"@, "required"@]);
    assert(d->Object_0["meta"@]->Object_0.dom() =~= set!["resourceType"@, "location"@]);
}

/// The schema of groups: a display name that is theirs alone and must be there, and members.
pub proof fn groups_are_described()
    ensures
        ({
            let d = group_document();
            &&& d is Object
            &&& d->Object_0.dom() == set!["id"@, "name"@, "description"@, "attributes"@, "meta"@]
            &&& d->Object_0["id"@] == Json::Text("urn:ietf:params:scim:schemas:core:2.0:Group"@)
            &&& d->Object_0["name"@] == Json::Text("Group"@)
            &&& d->Object_0["description"@] == Json::Text("Group"@)
            &&& d->Object_0["attributes"@] is Array
            &&& d->Object_0["attributes"@]->Array_0.len() == 2
            &&& d->Object_0["attributes"@]->Array_0[0] is Object
            &&& d->Object_0["attributes"@]->Array_0[0]->Object_0.dom()
                == set!["name"@, "type"@, "required"@, "uniqueness"@]
            &&& d->Object_0["attributes"@]->Array_0[0]->Object_0["name"@]
                == Json::Text("displayName"@)
            &&& d->Object_0["attributes"@]->Array_0[0]->Object_0["type"@] == Json::Text("string"@)
            &&& d->Object_0["attributes"@]->Array_0[0]->Object_0["required"@] == Json::Bool(true)
            &&& d->Object_0["attributes"@]->Array_0[0]->Object_0["uniqueness"@]
                == Json::Text("server"@)
            &&& d->Object_0["attributes"@]->Array_0[1] is Object
            &&& d->Object_0["attributes"@]->Array_0[1]->Object_0.dom()
                == set!["name"@, "type"@, "required"@, "multiValued"@]
            &&& d->Object_0["attributes"@]->Array_0[1]->Object_0["name"@] == Json::Text("members"@)
            &&& d->Object_0["attributes"@]->Array_0[1]->Object_0["type"@] == Json::Text("complex"@)
            &&& d->Object_0["attributes"@]->Array_0[1]->Object_0["required"@] == Json::Bool(false)
            &&& d->Object_0["attributes"@]->Array_0[1]->Object_0["multiValued"@] == Json::Bool(true)
            &&& d->Object_0["meta"@] is Object
            &&& d->Object_0["meta"@]->Object_0.dom() == set!["resourceType"@, "location"@]
            &&& d->Object_0["meta"@]->Object_0["resourceType"@] == Json::Text("Schema"@)
            &&& d->Object_0["meta"@]->Object_0["location"@]
                == Json::Text("/scim/v2/Schemas/"@ + "urn:ietf:params:scim:schemas:core:2.0:Group"@)
        }),
{
    discovery_names_differ();
    broadcast use json::object_grows;

    let d = group_document();
    assert(d->Object_0.dom() =~= set!["id"@, "name"@, "description"@, "attributes"@, "meta"@]);
    assert(d->Object_0["attributes"@]->Array_0[0]->Object_0.dom()
        =~= set!["name"@, "type"@, "required"@, "uniqueness"@]);
    assert(d->Object_0["attributes"@]->Array_0[1]->Object_0.dom()
        =~= set!["name"@, "type"@, "required"@, "multiValued"@]);
    assert(d->Object_0["meta"@]->Object_0.dom() =~= set!["resourceType"@, "location"@]);
}

/// A list of two documents holds both in their order and says how many they are.
pub proof fn lists_of_two_count_two(first: Json, second: Json)
    ensures
        ({
            let d = pair(first, second);
            &&& d is Object
            &&& d->Object_0.dom() == set!["schemas"@, "totalResults"@, "Resources"@]
            &&& d->Object_0["schemas"@] is Array
            &&& d->Object_0["schemas"@]->Array_0.len() == 1
            &&& d->Object_0["schemas"@]->Array_0[0]
                == Json::Text("urn:ietf:params:scim:api:messages:2.0:ListResponse"@)
            &&& d->Object_0["totalResults"@] == json::whole(2)
            &&& d->Object_0["Resources"@] is Array
            &&& d->Object_0["Resources"@]->Array_0.len() == 2
            &&& d->Object_0["Resources"@]->Array_0[0] == first
            &&& d->Object_0["Resources"@]->Array_0[1] == second
        }),
{
    discovery_names_differ();
    broadcast use json::object_grows;

    let d = pair(first, second);
    assert(d->Object_0.dom() =~= set!["schemas"@, "totalResults"@, "Resources"@]);
}

/// A kind of resource says where it is found and which schema it has.
pub proof fn resource_types_name_their_endpoint(
    name: Seq<char>,
    endpoint: Seq<char>,
    schema: Seq<char>,
)
    ensures
        ({
            let d = resource_type(name, endpoint, schema);
            &&& d is Object
            &&& d->Object_0.dom()
                == set!["schemas"@, "id"@, "name"@, "endpoint"@, "schema"@, "meta"@]
            &&& d->Object_0["schemas"@] is Array
            &&& d->Object_0["schemas"@]->Array_0.len() == 1
            &&& d->Object_0["schemas"@]->Array_0[0]
                == Json::Text("urn:ietf:params:scim:schemas:core:2.0:ResourceType"@)
            &&& d->Object_0["id"@] == Json::Text(name)
            &&& d->Object_0["name"@] == Json::Text(name)
            &&& d->Object_0["endpoint"@] == Json::Text(endpoint)
            &&& d->Object_0["schema"@] == Json::Text(schema)
            &&& d->Object_0["meta"@] is Object
            &&& d->Object_0["meta"@]->Object_0.dom() == set!["resourceType"@, "location"@]
            &&& d->Object_0["meta"@]->Object_0["resourceType"@] == Json::Text("ResourceType"@)
            &&& d->Object_0["meta"@]->Object_0["location"@]
                == Json::Text("/scim/v2/ResourceTypes/"@ + name)
        }),
{
    discovery_names_differ();
    broadcast use json::object_grows;

    let d = resource_type(name, endpoint, schema);
    assert(d->Object_0.dom() =~= set!["schemas"@, "id"@, "name"@, "endpoint"@, "schema"@, "meta"@]);
    assert(d->Object_0["meta"@]->Object_0.dom() =~= set!["resourceType"@, "location"@]);
}

} // verus!
