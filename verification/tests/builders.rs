use headmaster::controllers::headscale_instance::builders::{
    build_config, build_configmap, check_reserved_keys, desired_statefulset, hash_of,
    headscale_service, list_reserved_dns_keys, list_reserved_top_level,
};
use headmaster::table::Table;
use headmaster::types::headscale_instance::StorageSpec;
use k8s_openapi::api::apps::v1::StatefulSet;
use k8s_openapi::apimachinery::pkg::util::intstr::IntOrString;
use serde_json::Value;

const TEST_IMAGE: &str = "ghcr.io/juanfont/headscale:v0.29.0-beta.2";
const SERVER_URL: &str = "https://headscale.example.com";
const BASE_DOMAIN: &str = "ts.example.com";

fn v(text: &str) -> Value {
    serde_json::from_str(text).unwrap()
}

fn config(entries: &[(&str, Value)]) -> Table<Value> {
    let mut table = Table::new();
    for (key, value) in entries {
        table.insert(key.to_string(), value.clone());
    }
    table
}

fn text(s: &str) -> Value {
    Value::String(s.to_string())
}

fn storage() -> StorageSpec {
    StorageSpec {
        size: "1Gi".to_string(),
        storage_class: None,
    }
}

fn statefulset(resources: Option<&Value>, hash: &str) -> StatefulSet {
    let built = desired_statefulset("hs-headscale", TEST_IMAGE, &storage(), resources, hash);
    serde_json::from_value(built).unwrap()
}

#[test]
fn check_reserved_keys_accepts_empty() {
    assert!(check_reserved_keys(&Table::new()).is_ok());
}

#[test]
fn check_reserved_keys_accepts_passthrough_keys() {
    let extra = config(&[
        ("log", v(r#"{"level": "debug"}"#)),
        ("derp", v(r#"{"urls": ["https://example.com"]}"#)),
    ]);
    assert!(check_reserved_keys(&extra).is_ok());
}

#[test]
fn check_reserved_keys_rejects_each_top_level_reserved_key() {
    let reserved = list_reserved_top_level();
    assert_eq!(
        reserved,
        vec![
            "server_url",
            "listen_addr",
            "grpc_listen_addr",
            "grpc_allow_insecure",
            "metrics_listen_addr",
            "unix_socket",
            "unix_socket_permission",
            "noise",
            "database",
            "policy",
        ]
    );
    for key in &reserved {
        let extra = config(&[(key, text("x"))]);
        let err = check_reserved_keys(&extra).unwrap_err();
        assert!(
            err.contains(key.as_str()),
            "error message must name the violated key {key:?}: {err}"
        );
    }
}

#[test]
fn check_reserved_keys_lists_all_top_level_violations_in_one_message() {
    let extra = config(&[
        ("server_url", text("https://attacker.example.com")),
        ("listen_addr", text("0.0.0.0:9999")),
    ]);
    let err = check_reserved_keys(&extra).unwrap_err();
    assert!(err.contains("server_url"), "must name server_url: {err}");
    assert!(err.contains("listen_addr"), "must name listen_addr: {err}");
}

#[test]
fn check_reserved_keys_rejects_dns_pinned_subkeys() {
    for key in &list_reserved_dns_keys() {
        let mut dns = serde_json::Map::new();
        dns.insert(key.clone(), Value::Bool(false));
        let extra = config(&[("dns", Value::Object(dns))]);
        let err = check_reserved_keys(&extra).unwrap_err();
        assert!(
            err.contains(key.as_str()),
            "error message must name the violated dns subkey {key:?}: {err}"
        );
        assert!(
            err.contains("dns"),
            "error message must scope to dns: {err}"
        );
    }
}

#[test]
fn check_reserved_keys_accepts_passthrough_dns_subkeys() {
    let extra = config(&[(
        "dns",
        v(r#"{
            "nameservers": {"global": ["1.1.1.1"]},
            "override_local_dns": true,
            "extra_records": []
        }"#),
    )]);
    assert!(check_reserved_keys(&extra).is_ok());
}

#[test]
fn check_reserved_keys_reports_top_level_and_dns_together() {
    let extra = config(&[
        ("server_url", text("https://attacker.example.com")),
        (
            "dns",
            v(r#"{"magic_dns": false, "nameservers": {"global": ["1.1.1.1"]}}"#),
        ),
    ]);
    let err = check_reserved_keys(&extra).unwrap_err();
    assert!(err.contains("server_url"), "must name server_url: {err}");
    assert!(err.contains("magic_dns"), "must name magic_dns: {err}");
}

#[test]
fn build_config_contains_operator_keys() {
    let yaml = build_config(SERVER_URL, BASE_DOMAIN, &Table::new()).unwrap();
    assert!(yaml.contains("server_url"), "must contain server_url");
    assert!(yaml.contains("listen_addr"), "must contain listen_addr");
    assert!(yaml.contains("unix_socket"), "must contain unix_socket");
    assert!(yaml.contains("database"), "must contain database");
}

#[test]
fn build_config_operator_keys_win_over_extra_config() {
    let extra = config(&[
        ("server_url", text("https://attacker.example.com")),
        ("listen_addr", text("0.0.0.0:9999")),
    ]);
    let yaml = build_config(SERVER_URL, BASE_DOMAIN, &extra).unwrap();
    assert!(
        yaml.contains("headscale.example.com"),
        "operator server_url must win"
    );
    assert!(
        !yaml.contains("attacker.example.com"),
        "extra_config server_url must not win"
    );
    assert!(
        yaml.contains("0.0.0.0:8080"),
        "operator listen_addr must win"
    );
    assert!(
        !yaml.contains("9999"),
        "extra_config listen_addr must not win"
    );
}

#[test]
fn build_config_extra_config_passes_through() {
    let extra = config(&[("log", v(r#"{ "level": "debug" }"#))]);
    let yaml = build_config(SERVER_URL, BASE_DOMAIN, &extra).unwrap();
    assert!(
        yaml.contains("debug"),
        "extra_config log.level must pass through"
    );
}

#[test]
fn build_config_user_dns_keys_merge_through() {
    let extra = config(&[(
        "dns",
        v(r#"{
            "nameservers": {"global": ["1.1.1.1", "8.8.8.8"]},
            "override_local_dns": true
        }"#),
    )]);
    let yaml = build_config(SERVER_URL, BASE_DOMAIN, &extra).unwrap();
    assert!(
        yaml.contains("1.1.1.1"),
        "user nameservers must merge through"
    );
    assert!(
        yaml.contains("override_local_dns: true"),
        "user override_local_dns must pass through"
    );
    assert!(
        yaml.contains("magic_dns: true"),
        "operator magic_dns must be pinned even when user omits it"
    );
}

#[test]
fn build_config_magic_dns_cannot_be_overridden() {
    let extra = config(&[("dns", v(r#"{"magic_dns": false}"#))]);
    let yaml = build_config(SERVER_URL, BASE_DOMAIN, &extra).unwrap();
    assert!(
        yaml.contains("magic_dns: true"),
        "operator magic_dns must always win over extra_config"
    );
    assert!(
        !yaml.contains("magic_dns: false"),
        "extra_config magic_dns: false must not win"
    );
}

#[test]
fn build_config_dns_base_domain_cannot_be_overridden() {
    let extra = config(&[("dns", v(r#"{"base_domain": "attacker.example.com"}"#))]);
    let yaml = build_config(SERVER_URL, BASE_DOMAIN, &extra).unwrap();
    assert!(
        yaml.contains("ts.example.com"),
        "spec base_domain must always win"
    );
    assert!(
        !yaml.contains("attacker.example.com"),
        "extra_config base_domain must not win"
    );
}

#[test]
fn build_config_override_local_dns_defaults_false() {
    let yaml = build_config(SERVER_URL, BASE_DOMAIN, &Table::new()).unwrap();
    assert!(
        yaml.contains("override_local_dns: false"),
        "override_local_dns must default to false"
    );
}

#[test]
fn build_configmap_hash_is_deterministic() {
    let extra = Table::new();
    let (_, hash_a) = build_configmap("hs-headscale", SERVER_URL, BASE_DOMAIN, &extra).unwrap();
    let (_, hash_b) = build_configmap("hs-headscale", SERVER_URL, BASE_DOMAIN, &extra).unwrap();
    assert_eq!(
        hash_a, hash_b,
        "hash must be deterministic for identical inputs"
    );
}

#[test]
fn build_configmap_hash_changes_with_server_url() {
    let extra = Table::new();
    let (_, hash_a) = build_configmap("hs-headscale", SERVER_URL, BASE_DOMAIN, &extra).unwrap();
    let (_, hash_b) = build_configmap(
        "hs-headscale",
        "https://other.example.com",
        BASE_DOMAIN,
        &extra,
    )
    .unwrap();
    assert_ne!(hash_a, hash_b, "server_url change must change the hash");
}

#[test]
fn build_configmap_has_config_yaml_only() {
    let (built, _) =
        build_configmap("hs-headscale", SERVER_URL, BASE_DOMAIN, &Table::new()).unwrap();
    let data = built["data"].as_object().expect("ConfigMap must have data");
    assert!(
        data.contains_key("config.yaml"),
        "ConfigMap must have config.yaml"
    );
    assert!(
        !data.contains_key("policy.json"),
        "policy.json must not be in ConfigMap (policy uses database mode)"
    );
}

#[test]
fn configmap_hash_is_the_digest_of_its_file() {
    let (built, hash) =
        build_configmap("hs-headscale", SERVER_URL, BASE_DOMAIN, &Table::new()).unwrap();
    assert_eq!(built["kind"], "ConfigMap");
    assert_eq!(built["metadata"]["name"], "hs-headscale");
    assert_eq!(hash_of(built["data"]["config.yaml"].as_str().unwrap()), hash);
    assert_eq!(
        hash_of("abc"),
        "ba7816bf8f01cfea414140de5dae2223b00361a396177a9cb410ff61f20015ad"
    );
}

#[test]
fn desired_statefulset_has_config_hash_annotation() {
    let pod_annotations = statefulset(None, "abc123")
        .spec
        .unwrap()
        .template
        .metadata
        .unwrap()
        .annotations
        .unwrap();
    assert_eq!(
        pod_annotations
            .get("headmaster/config-hash")
            .map(|s| s.as_str()),
        Some("abc123"),
    );
}

#[test]
fn desired_statefulset_uses_default_resources_when_none() {
    let requests = statefulset(None, "hash")
        .spec
        .unwrap()
        .template
        .spec
        .unwrap()
        .containers
        .into_iter()
        .find(|c| c.name == "headscale")
        .unwrap()
        .resources
        .unwrap()
        .requests
        .unwrap();
    assert_eq!(requests["cpu"].0, "50m");
    assert_eq!(requests["memory"].0, "64Mi");
}

#[test]
fn desired_statefulset_uses_custom_resources_when_provided() {
    let custom = v(r#"{"requests": {"cpu": "200m", "memory": "256Mi"}}"#);
    let requests = statefulset(Some(&custom), "hash")
        .spec
        .unwrap()
        .template
        .spec
        .unwrap()
        .containers
        .into_iter()
        .find(|c| c.name == "headscale")
        .unwrap()
        .resources
        .unwrap()
        .requests
        .unwrap();
    assert_eq!(requests["cpu"].0, "200m");
    assert_eq!(requests["memory"].0, "256Mi");
}

#[test]
fn desired_statefulset_has_readiness_probe() {
    let readiness_probe = statefulset(None, "hash")
        .spec
        .unwrap()
        .template
        .spec
        .unwrap()
        .containers
        .into_iter()
        .find(|c| c.name == "headscale")
        .unwrap()
        .readiness_probe
        .unwrap();
    let http_get = readiness_probe.http_get.as_ref().unwrap();
    assert_eq!(http_get.path.as_deref(), Some("/health"));
    assert!(matches!(&http_get.port, IntOrString::String(s) if s == "http"));
    assert_eq!(readiness_probe.initial_delay_seconds, Some(5));
}

#[test]
fn desired_statefulset_has_liveness_probe() {
    let liveness_probe = statefulset(None, "hash")
        .spec
        .unwrap()
        .template
        .spec
        .unwrap()
        .containers
        .into_iter()
        .find(|c| c.name == "headscale")
        .unwrap()
        .liveness_probe
        .unwrap();
    let http_get = liveness_probe.http_get.as_ref().unwrap();
    assert_eq!(http_get.path.as_deref(), Some("/health"));
    assert!(matches!(&http_get.port, IntOrString::String(s) if s == "http"));
    assert_eq!(liveness_probe.initial_delay_seconds, Some(30));
}

#[test]
fn desired_statefulset_has_only_headscale_container() {
    let containers = statefulset(None, "hash")
        .spec
        .unwrap()
        .template
        .spec
        .unwrap()
        .containers;
    assert_eq!(containers.len(), 1);
    assert_eq!(containers[0].name, "headscale");
}

#[test]
fn desired_statefulset_has_seccomp_profile() {
    let pod_spec = statefulset(None, "hash")
        .spec
        .unwrap()
        .template
        .spec
        .unwrap();
    let seccomp = pod_spec
        .security_context
        .as_ref()
        .and_then(|s| s.seccomp_profile.as_ref())
        .map(|p| p.type_.as_str());
    assert_eq!(
        seccomp,
        Some("RuntimeDefault"),
        "headscale pod must use RuntimeDefault seccomp profile"
    );
}

#[test]
fn desired_statefulset_headscale_container_disallows_privilege_escalation() {
    let container = statefulset(None, "hash")
        .spec
        .unwrap()
        .template
        .spec
        .unwrap()
        .containers
        .into_iter()
        .find(|c| c.name == "headscale")
        .unwrap();
    assert_eq!(
        container
            .security_context
            .as_ref()
            .and_then(|s| s.allow_privilege_escalation),
        Some(false),
        "headscale container must have allowPrivilegeEscalation=false"
    );
}

#[test]
fn claim_template_has_the_size_and_the_class() {
    let storage = StorageSpec {
        size: "5Gi".to_string(),
        storage_class: Some("fast".to_string()),
    };
    let built = desired_statefulset("hs-headscale", TEST_IMAGE, &storage, None, "hash");
    let statefulset: StatefulSet = serde_json::from_value(built).unwrap();
    let claims = statefulset.spec.unwrap().volume_claim_templates.unwrap();
    assert_eq!(claims.len(), 1);
    let spec = claims[0].spec.as_ref().unwrap();
    assert_eq!(spec.storage_class_name.as_deref(), Some("fast"));
    assert_eq!(
        spec.resources.as_ref().unwrap().requests.as_ref().unwrap()["storage"].0,
        "5Gi"
    );
}

#[test]
fn service_offers_the_three_ports() {
    let service = headscale_service("hs");
    assert_eq!(service["kind"], "Service");
    let ports: Vec<(&str, u64)> = service["spec"]["ports"]
        .as_array()
        .unwrap()
        .iter()
        .map(|p| (p["name"].as_str().unwrap(), p["port"].as_u64().unwrap()))
        .collect();
    assert_eq!(
        ports,
        vec![("http", 8080), ("metrics", 9090), ("grpc", 50443)]
    );
}
