use headmaster::types::ingress_annotations::{
    default_auth_key_expiry_secs, AnnotationError, ConfigAnnotation, IngressAccessGrant,
    IngressAnnotations, IngressConfig, ANNOTATION_CONFIG, DEFAULT_AUTH_KEY_EXPIRY_SECS,
};
use serde_json::Value;

fn v(text: &str) -> Value {
    serde_json::from_str(text).unwrap()
}

fn texts(value: &Value) -> Option<Vec<String>> {
    value
        .as_array()?
        .iter()
        .map(|item| item.as_str().map(str::to_string))
        .collect()
}

fn grant(value: &Value) -> Result<IngressAccessGrant, String> {
    let fields = value.as_object().ok_or("not an object")?;
    for name in fields.keys() {
        if name != "from" && name != "capabilities" {
            return Err(format!("unknown field `{name}`"));
        }
    }
    Ok(IngressAccessGrant {
        from: fields.get("from").and_then(texts).ok_or("no from")?,
        capabilities: fields.get("capabilities").cloned(),
    })
}

fn read(raw: &str) -> Result<IngressConfig, String> {
    let config: Value = serde_json::from_str(raw).map_err(|e| e.to_string())?;
    let access = match config.get("access") {
        Some(list) => list
            .as_array()
            .ok_or("access is no list")?
            .iter()
            .map(grant)
            .collect::<Result<Vec<_>, _>>()?,
        None => vec![],
    };
    let expiry = match config.get("auth-key-expiry-secs") {
        Some(n) => n.as_u64().ok_or("auth-key-expiry-secs is no number")?,
        None => default_auth_key_expiry_secs(),
    };
    let word = |key: &str| config.get(key).and_then(Value::as_str).map(str::to_string);
    Ok(IngressConfig {
        headscale_ref: word("headscale-ref").ok_or("no headscale-ref")?,
        headscale_namespace: word("headscale-namespace"),
        user: word("user"),
        managed_key_tags: config
            .get("managed-key-tags")
            .and_then(texts)
            .unwrap_or_default(),
        hostname: word("hostname").unwrap_or_default(),
        auth_key_expiry_secs: expiry,
        auth_key_reusable: false,
        access,
    })
}

fn parse(raw: &str) -> Result<IngressAnnotations, AnnotationError> {
    let config = match read(raw) {
        Ok(config) => ConfigAnnotation::Present(config),
        Err(why) => ConfigAnnotation::Malformed(why),
    };
    IngressAnnotations::parse(config, "test")
}

fn ok(raw: &str) -> IngressAnnotations {
    match parse(raw) {
        Ok(parsed) => parsed,
        Err(e) => panic!("{}", e.message()),
    }
}

fn make_test_ingress(user: Option<&str>, tags: Option<&[&str]>) -> String {
    let mut config = v(r#"{ "headscale-ref": "headscale" }"#);
    if let Some(u) = user {
        config["user"] = Value::String(u.to_string());
    }
    if let Some(t) = tags {
        config["managed-key-tags"] = serde_json::to_value(t).unwrap();
    }
    config.to_string()
}

fn ingress_with_config(extra: &str) -> String {
    let mut config = v(r#"{ "headscale-ref": "main", "user": "alice" }"#);
    if let Value::Object(map) = v(extra) {
        for (k, x) in map {
            config[k] = x;
        }
    }
    config.to_string()
}

fn rejects_neither() {
    assert!(
        matches!(
            parse(&make_test_ingress(None, None)),
            Err(AnnotationError::InvalidAnnotations(_))
        ),
        "parse must fail when neither user nor managed-key-tags is set"
    );
}

fn accepts_tags() {
    let parsed = ok(&make_test_ingress(None, Some(&["tag:server"])));
    assert!(parsed.user.is_none());
    assert_eq!(parsed.managed_key_tags, vec!["tag:server"]);
}

fn accepts_user() {
    let parsed = ok(&make_test_ingress(Some("alice"), None));
    assert_eq!(parsed.user.as_deref(), Some("alice"));
    assert!(parsed.managed_key_tags.is_empty());
}

fn accepts_both() {
    let parsed = ok(&make_test_ingress(Some("alice"), Some(&["tag:server"])));
    assert_eq!(parsed.user.as_deref(), Some("alice"));
    assert_eq!(parsed.managed_key_tags, vec!["tag:server"]);
}

fn rejects_expiry() {
    assert!(
        matches!(
            parse(&ingress_with_config(r#"{"auth-key-expiry-secs": "ten-minutes"}"#)),
            Err(AnnotationError::Invalid(_, _))
        ),
        "non-numeric auth-key-expiry-secs must be rejected"
    );
}

fn respects_expiry() {
    let parsed = ok(&ingress_with_config(r#"{"auth-key-expiry-secs": 3600}"#));
    assert_eq!(parsed.auth_key_expiry_secs, 3600);
}

fn defaults_expiry() {
    let parsed = ok(&ingress_with_config("{}"));
    assert_eq!(parsed.auth_key_expiry_secs, DEFAULT_AUTH_KEY_EXPIRY_SECS);
}

fn extracts_ref() {
    let raw = make_test_ingress(Some("alice"), None);
    assert_eq!(
        IngressAnnotations::headscale_ref(Some(&raw)).as_deref(),
        Some("headscale")
    );
}

fn access_empty() {
    let parsed = ok(&make_test_ingress(Some("alice"), None));
    assert!(parsed.access.is_empty(), "access must default to empty");
}

fn access_plain() {
    let parsed = ok(&ingress_with_config(
        r#"{"access": [{"from": ["group:eng"]}]}"#,
    ));
    assert_eq!(parsed.access.len(), 1);
    assert_eq!(parsed.access[0].from, vec!["group:eng"]);
    assert!(
        parsed.access[0].capabilities.is_none(),
        "capabilities must be None when absent"
    );
}

fn access_capability() {
    let parsed = ok(&ingress_with_config(
        r#"{
            "access": [{
                "from": ["group:eng", "alice@example.com"],
                "capabilities": { "myapp/cap/admin": [{"role": "admin"}] }
            }]
        }"#,
    ));
    assert_eq!(parsed.access.len(), 1);
    assert_eq!(parsed.access[0].from.len(), 2);
    let caps = parsed.access[0]
        .capabilities
        .as_ref()
        .expect("capabilities must be Some");
    assert!(caps.as_object().unwrap().contains_key("myapp/cap/admin"));
}

fn access_unknown() {
    assert!(
        matches!(
            parse(&ingress_with_config(
                r#"{"access": [{"from": ["group:eng"], "unknown-field": true}]}"#
            )),
            Err(AnnotationError::Invalid(_, _))
        ),
        "unknown field in access grant must be rejected"
    );
}

#[test]
fn annotations_annotation_parse_rejects_neither_user_nor_tags() {
    rejects_neither();
}

#[test]
fn annotations_annotation_parse_accepts_tags_without_user() {
    accepts_tags();
}

#[test]
fn annotations_annotation_parse_accepts_user_without_tags() {
    accepts_user();
}

#[test]
fn annotations_annotation_parse_accepts_user_and_tags() {
    accepts_both();
}

#[test]
fn annotations_annotation_parse_invalid_expiry_is_rejected() {
    rejects_expiry();
}

#[test]
fn annotations_annotation_parse_valid_expiry_is_respected() {
    respects_expiry();
}

#[test]
fn annotations_annotation_parse_defaults_expiry_when_absent() {
    defaults_expiry();
}

#[test]
fn annotations_annotation_parse_access_empty_by_default() {
    access_empty();
}

#[test]
fn annotations_annotation_parse_access_plain_grant() {
    access_plain();
}

#[test]
fn annotations_annotation_parse_access_capability_grant() {
    access_capability();
}

#[test]
fn annotations_annotation_parse_access_unknown_field_rejected() {
    access_unknown();
}

#[test]
fn annotations_headscale_ref_extracts_from_config() {
    extracts_ref();
}

#[test]
fn ingress_annotations_annotation_parse_rejects_neither_user_nor_tags() {
    rejects_neither();
}

#[test]
fn ingress_annotations_annotation_parse_accepts_tags_without_user() {
    accepts_tags();
}

#[test]
fn ingress_annotations_annotation_parse_accepts_user_without_tags() {
    accepts_user();
}

#[test]
fn ingress_annotations_annotation_parse_accepts_user_and_tags() {
    accepts_both();
}

#[test]
fn ingress_annotations_annotation_parse_invalid_expiry_is_rejected() {
    rejects_expiry();
}

#[test]
fn ingress_annotations_annotation_parse_valid_expiry_is_respected() {
    respects_expiry();
}

#[test]
fn ingress_annotations_annotation_parse_defaults_expiry_when_absent() {
    defaults_expiry();
}

#[test]
fn ingress_annotations_annotation_parse_access_empty_by_default() {
    access_empty();
}

#[test]
fn ingress_annotations_annotation_parse_access_plain_grant() {
    access_plain();
}

#[test]
fn ingress_annotations_annotation_parse_access_capability_grant() {
    access_capability();
}

#[test]
fn ingress_annotations_annotation_parse_access_unknown_field_rejected() {
    access_unknown();
}

#[test]
fn ingress_annotations_headscale_ref_extracts_from_config() {
    extracts_ref();
}

#[test]
fn headscale_namespace_extracts_from_config() {
    let raw = ingress_with_config(r#"{"headscale-namespace": "infra-prod"}"#);
    assert_eq!(
        IngressAnnotations::headscale_namespace(Some(&raw)).as_deref(),
        Some("infra-prod")
    );
}

#[test]
fn headscale_namespace_absent_returns_none() {
    let raw = make_test_ingress(Some("alice"), None);
    assert!(IngressAnnotations::headscale_namespace(Some(&raw)).is_none());
}

#[test]
fn fields_of_no_annotation_are_none() {
    assert!(IngressAnnotations::headscale_ref(None).is_none());
    assert!(IngressAnnotations::headscale_ref(Some("not json")).is_none());
    assert!(IngressAnnotations::headscale_ref(Some(r#"{"headscale-ref": 3}"#)).is_none());
}

#[test]
fn hostname_defaults_to_the_ingress_name() {
    assert_eq!(ok(&ingress_with_config("{}")).hostname, "test");
    assert_eq!(
        ok(&ingress_with_config(r#"{"hostname": "app"}"#)).hostname,
        "app"
    );
}

#[test]
fn annotation_errors_in_words() {
    let missing = match IngressAnnotations::parse(ConfigAnnotation::Absent, "test") {
        Ok(_) => panic!("an absent annotation is no configuration"),
        Err(e) => e,
    };
    assert!(matches!(missing, AnnotationError::Missing(ANNOTATION_CONFIG)));
    assert_eq!(
        missing.message(),
        "required annotation 'headmaster.potatonode.github.io/config' is missing"
    );
    let malformed = ConfigAnnotation::Malformed("bad".to_string());
    match IngressAnnotations::parse(malformed, "test") {
        Ok(_) => panic!("a malformed annotation is no configuration"),
        Err(e) => assert_eq!(
            e.message(),
            "invalid annotation 'headmaster.potatonode.github.io/config': bad"
        ),
    }
    match parse(&make_test_ingress(None, None)) {
        Ok(_) => panic!("nobody to register the node for"),
        Err(e) => assert_eq!(
            e.message(),
            "invalid annotations: at least one of 'user' or 'managed-key-tags' must be set"
        ),
    }
}
