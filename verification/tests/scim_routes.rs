use headmaster::scim::auth::require_bearer;
use headmaster::scim::config::{strip_slashes, Config, Environment};
use headmaster::scim::routes::discovery::{
    group_schema, resource_types, schemas, service_provider_config, user_schema,
};
use headmaster::scim::routes::groups::{create_group, delete_group, GroupBodyJson};
use headmaster::scim::routes::internal::reconcile;
use headmaster::scim::routes::users::{
    create_user, delete_user, list_users, parse_username_eq_filter, ListQuery, UserBodyJson,
};
use headmaster::scim::services::{
    GroupBody, PolicyUserKey, ScimConfig, ScimService, UserBody,
};
use headmaster::scim::storage::{Mapping, UserRecord};
use headmaster::scim::types::{
    ExternalId, GroupScimId, ScimEmail, ScimError, ScimId, ScimListResponse, ScimMember,
};
use headmaster::time::Timestamp;
use serde_json::Value;

fn v(text: &str) -> Value {
    serde_json::from_str(text).unwrap()
}

#[test]
fn filter_parses_username_eq() {
    assert_eq!(
        parse_username_eq_filter(r#"userName eq "alice""#),
        Ok("alice".to_string())
    );
}

#[test]
fn filter_parses_case_insensitive_attribute() {
    assert_eq!(
        parse_username_eq_filter(r#"USERNAME EQ "alice""#),
        Ok("alice".to_string())
    );
}

#[test]
fn filter_preserves_value_case() {
    assert_eq!(
        parse_username_eq_filter(r#"userName eq "Alice""#),
        Ok("Alice".to_string())
    );
}

#[test]
fn filter_preserves_value_case_with_uppercase_attribute() {
    assert_eq!(
        parse_username_eq_filter(r#"USERNAME EQ "Alice@Example.Com""#),
        Ok("Alice@Example.Com".to_string())
    );
}

#[test]
fn filter_rejects_unsupported_attribute() {
    assert!(parse_username_eq_filter(r#"displayName eq "alice""#).is_err());
}

#[test]
fn filter_rejects_active_filter() {
    assert!(parse_username_eq_filter("active eq true").is_err());
}

#[test]
fn filter_edges() {
    assert_eq!(parse_username_eq_filter("  userName eq \"\" "), Ok(String::new()));
    assert_eq!(
        parse_username_eq_filter("  userName eq \"a "),
        Err("  userName eq \"a ")
    );
    assert_eq!(
        parse_username_eq_filter("  active eq true "),
        Err("  active eq true ")
    );
    assert_eq!(
        parse_username_eq_filter("\tUsErNaMe Eq \"Alice\"\n"),
        Ok("Alice".to_string())
    );
    assert_eq!(
        parse_username_eq_filter("userName eq \""),
        Err("userName eq \"")
    );
    assert_eq!(
        parse_username_eq_filter("userName eq \"a\"b\""),
        Err("userName eq \"a\"b\"")
    );
    assert_eq!(
        parse_username_eq_filter("userName eq \"a\" or userName eq \"b\""),
        Err("userName eq \"a\" or userName eq \"b\"")
    );
    assert_eq!(parse_username_eq_filter(""), Err(""));
}

#[test]
fn escaped_quotes_in_a_filter() {
    assert_eq!(
        parse_username_eq_filter(r#"userName eq "a\"b""#),
        Ok(r#"a\"b"#.to_string())
    );
    assert_eq!(
        parse_username_eq_filter(r#"userName eq "\"a\" \\\"b""#),
        Ok(r#"\"a\" \\\"b"#.to_string())
    );
    assert_eq!(
        parse_username_eq_filter(r#"userName eq "corp\\alice""#),
        Ok(r#"corp\\alice"#.to_string())
    );
    assert_eq!(
        parse_username_eq_filter(r#"userName eq "a\\"b""#),
        Err(r#"userName eq "a\\"b""#)
    );
    assert_eq!(
        parse_username_eq_filter(r#"userName eq "a\"b" or userName eq "c""#),
        Err(r#"userName eq "a\"b" or userName eq "c""#)
    );
    assert_eq!(
        parse_username_eq_filter(r#"userName eq "a\\" or userName eq "c""#),
        Err(r#"userName eq "a\\" or userName eq "c""#)
    );
}

fn record(name: &str) -> UserRecord {
    UserRecord {
        active: true,
        name: name.to_string(),
        display_name: None,
        email: None,
        external_id: None,
        updated_at: Timestamp::default(),
    }
}

fn two_users() -> Mapping {
    Mapping::load(
        &vec![
            (ScimId("2".to_string()), record("bob")),
            (ScimId("1".to_string()), record("alice")),
        ],
        &vec![],
    )
}

fn listed(filter: Option<&str>) -> Result<Vec<String>, ScimError> {
    let service = ScimService::new(ScimConfig::default());
    let query = ListQuery {
        filter: filter.map(str::to_string),
    };
    list_users(&service, &two_users(), &query)
        .map(|list| list.resources.into_iter().map(|u| u.user_name).collect())
}

#[test]
fn list_users_filters_by_name() {
    assert_eq!(listed(None).unwrap(), vec!["alice", "bob"]);
    assert_eq!(listed(Some("userName eq \"bob\"")).unwrap(), vec!["bob"]);
    assert!(listed(Some("userName eq \"Bob\"")).unwrap().is_empty());
    let err = listed(Some(" active eq true ")).unwrap_err();
    assert_eq!(err.status, 501);
    assert_eq!(err.detail, "unsupported filter:  active eq true ");
}

#[test]
fn bodies_carry_over() {
    let user: UserBody = UserBodyJson {
        user_name: Some("alice".to_string()),
        display_name: Some("Alice".to_string()),
        external_id: None,
        emails: Some(vec![ScimEmail {
            value: "a@b".to_string(),
            primary: false,
        }]),
        active: Some(true),
    }
    .into();
    assert_eq!(user.user_name.as_deref(), Some("alice"));
    assert_eq!(user.display_name.as_deref(), Some("Alice"));
    assert_eq!(user.emails.unwrap()[0].value, "a@b");
    assert_eq!(user.active, Some(true));
    let group: GroupBody = GroupBodyJson {
        display_name: Some("eng".to_string()),
        external_id: Some("x".to_string()),
        members: Some(vec![ScimMember {
            value: "1".to_string(),
            display: None,
        }]),
    }
    .into();
    assert_eq!(group.display_name.as_deref(), Some("eng"));
    assert_eq!(group.external_id.as_deref(), Some("x"));
    assert_eq!(group.members.unwrap().len(), 1);
}

#[test]
fn statuses_of_answers() {
    assert_eq!(create_user(true), 201);
    assert_eq!(create_user(false), 200);
    assert_eq!(create_group(true), 201);
    assert_eq!(create_group(false), 200);
    assert_eq!(delete_user(), 204);
    assert_eq!(delete_group(), 204);
}

#[test]
fn reconcile_returns_no_content() {
    assert_eq!(reconcile(), 204);
}

#[test]
fn bearer_token_is_required() {
    assert!(require_bearer(Some("Bearer test-token"), "test-token").is_ok());
    for header in [
        None,
        Some("test-token"),
        Some("bearer test-token"),
        Some("Bearer other"),
        Some("Bearer test-token "),
    ] {
        let err = require_bearer(header, "test-token").unwrap_err();
        assert_eq!(err.status, 401);
        assert_eq!(err.detail, "Invalid or missing bearer token");
        assert_eq!(err.challenge(), Some("Bearer realm=\"SCIM\""));
    }
}

#[test]
fn errors_have_their_status_and_body() {
    let detail = || "why".to_string();
    for (error, status) in [
        (ScimError::not_found(detail()), 404),
        (ScimError::conflict(detail()), 409),
        (ScimError::bad_request(detail()), 400),
        (ScimError::internal(detail()), 500),
        (ScimError::not_implemented(detail()), 501),
    ] {
        assert_eq!(error.status, status);
        assert_eq!(error.challenge(), None);
        assert_eq!(
            error.body(),
            v(&format!(
                r#"{{"schemas": ["urn:ietf:params:scim:api:messages:2.0:Error"],
                    "detail": "why", "status": "{status}"}}"#
            ))
        );
    }
}

#[test]
fn ids_are_texts() {
    assert_eq!(ScimId("a".to_string()).as_str(), "a");
    assert_eq!(GroupScimId("b".to_string()).as_str(), "b");
    assert_eq!(ExternalId("c".to_string()).clone().as_str(), "c");
}

#[test]
fn list_response_counts_its_resources() {
    let list = ScimListResponse::new(vec![1, 2, 3]);
    assert_eq!(
        list.schemas,
        vec!["urn:ietf:params:scim:api:messages:2.0:ListResponse"]
    );
    assert_eq!(list.total_results, 3);
    assert_eq!(list.start_index, 1);
    assert_eq!(list.items_per_page, 3);
    assert_eq!(list.resources, vec![1, 2, 3]);
}

#[test]
fn provider_config_document() {
    assert_eq!(
        service_provider_config(),
        v(r#"{
            "schemas": ["urn:ietf:params:scim:schemas:core:2.0:ServiceProviderConfig"],
            "documentationUri": "",
            "patch": { "supported": false },
            "bulk": { "supported": false, "maxOperations": 0, "maxPayloadSize": 0 },
            "filter": { "supported": true },
            "changePassword": { "supported": false },
            "sort": { "supported": false },
            "etag": { "supported": false },
            "authenticationSchemes": [{
                "name": "OAuth Bearer Token",
                "description": "Authentication scheme using the OAuth Bearer Token standard",
                "specUri": "http://www.rfc-editor.org/info/rfc6750",
                "type": "oauthbearertoken",
                "primary": true
            }],
            "meta": {
                "resourceType": "ServiceProviderConfig",
                "location": "/scim/v2/ServiceProviderConfig"
            }
        }"#)
    );
}

#[test]
fn schema_documents() {
    let user = v(r#"{
        "id": "urn:ietf:params:scim:schemas:core:2.0:User",
        "name": "User",
        "description": "User account",
        "attributes": [
            { "name": "userName", "type": "string", "required": true, "uniqueness": "server" },
            { "name": "displayName", "type": "string", "required": false, "uniqueness": "none" },
            { "name": "emails", "type": "complex", "multiValued": true, "required": false },
            { "name": "active", "type": "boolean", "required": false }
        ],
        "meta": {
            "resourceType": "Schema",
            "location": "/scim/v2/Schemas/urn:ietf:params:scim:schemas:core:2.0:User"
        }
    }"#);
    let group = v(r#"{
        "id": "urn:ietf:params:scim:schemas:core:2.0:Group",
        "name": "Group",
        "description": "Group",
        "attributes": [
            { "name": "displayName", "type": "string", "required": true, "uniqueness": "server" },
            { "name": "members", "type": "complex", "multiValued": true, "required": false }
        ],
        "meta": {
            "resourceType": "Schema",
            "location": "/scim/v2/Schemas/urn:ietf:params:scim:schemas:core:2.0:Group"
        }
    }"#);
    assert_eq!(user_schema(), user);
    assert_eq!(group_schema(), group);
    let both = schemas();
    assert_eq!(both["totalResults"], 2);
    assert_eq!(both["Resources"][0], user);
    assert_eq!(both["Resources"][1], group);
}

#[test]
fn resource_type_document() {
    assert_eq!(
        resource_types(),
        v(r#"{
            "schemas": ["urn:ietf:params:scim:api:messages:2.0:ListResponse"],
            "totalResults": 2,
            "Resources": [
                {
                    "schemas": ["urn:ietf:params:scim:schemas:core:2.0:ResourceType"],
                    "id": "User",
                    "name": "User",
                    "endpoint": "/Users",
                    "schema": "urn:ietf:params:scim:schemas:core:2.0:User",
                    "meta": {
                        "resourceType": "ResourceType",
                        "location": "/scim/v2/ResourceTypes/User"
                    }
                },
                {
                    "schemas": ["urn:ietf:params:scim:schemas:core:2.0:ResourceType"],
                    "id": "Group",
                    "name": "Group",
                    "endpoint": "/Groups",
                    "schema": "urn:ietf:params:scim:schemas:core:2.0:Group",
                    "meta": {
                        "resourceType": "ResourceType",
                        "location": "/scim/v2/ResourceTypes/Group"
                    }
                }
            ]
        }"#)
    );
}

fn environment() -> Environment {
    Environment {
        policy_user_key: None,
        oidc_issuer: None,
        expire_nodes_on_change: None,
        headscale_url: Some("http://hs:50443".to_string()),
        headscale_api_key: Some("key".to_string()),
        scim_bearer_token: Some("token".to_string()),
        scim_external_id_file: None,
        scim_listen_addr: None,
    }
}

fn fault(env: Environment) -> String {
    match Config::from_env(env) {
        Ok(_) => panic!("the settings are not in order"),
        Err(why) => why,
    }
}

#[test]
fn config_defaults() {
    let config = Config::from_env(environment()).ok().unwrap();
    assert_eq!(config.headscale_url, "http://hs:50443");
    assert_eq!(config.headscale_api_key, "key");
    assert_eq!(config.scim_token, "token");
    assert_eq!(config.external_id_file, "/data/external-id-map.json");
    assert_eq!(config.listen_addr, "0.0.0.0:8081");
    assert!(!config.scim_config.expire_nodes_on_change);
    assert!(matches!(
        config.scim_config.policy_user_key,
        PolicyUserKey::Email
    ));
}

#[test]
fn config_reads_every_variable() {
    let config = Config::from_env(Environment {
        policy_user_key: Some("external_id".to_string()),
        oidc_issuer: Some("https://idp.example.com//".to_string()),
        expire_nodes_on_change: Some("true".to_string()),
        scim_external_id_file: Some("/tmp/map".to_string()),
        scim_listen_addr: Some("127.0.0.1:1".to_string()),
        ..environment()
    })
    .ok()
    .unwrap();
    assert_eq!(config.external_id_file, "/tmp/map");
    assert_eq!(config.listen_addr, "127.0.0.1:1");
    assert!(config.scim_config.expire_nodes_on_change);
    assert!(matches!(
        config.scim_config.policy_user_key,
        PolicyUserKey::ExternalId { ref oidc_issuer } if oidc_issuer == "https://idp.example.com"
    ));
    assert_eq!(strip_slashes("///"), "");
    assert_eq!(strip_slashes("a/b"), "a/b");
}

#[test]
fn config_faults() {
    assert_eq!(
        fault(Environment {
            policy_user_key: Some("name".to_string()),
            headscale_url: None,
            ..environment()
        }),
        "invalid POLICY_USER_KEY 'name'; expected 'email', 'username', or 'external_id'"
    );
    assert_eq!(
        fault(Environment {
            policy_user_key: Some("external_id".to_string()),
            ..environment()
        }),
        "missing required env var OIDC_ISSUER"
    );
    assert_eq!(
        fault(Environment {
            expire_nodes_on_change: Some("yes".to_string()),
            ..environment()
        }),
        "invalid EXPIRE_NODES_ON_CHANGE; expected 'true' or 'false'"
    );
    assert_eq!(
        fault(Environment {
            headscale_url: None,
            ..environment()
        }),
        "missing required env var HEADSCALE_URL"
    );
    assert_eq!(
        fault(Environment {
            headscale_api_key: None,
            ..environment()
        }),
        "missing required env var HEADSCALE_API_KEY"
    );
    assert_eq!(
        fault(Environment {
            scim_bearer_token: None,
            ..environment()
        }),
        "missing required env var SCIM_BEARER_TOKEN"
    );
}
