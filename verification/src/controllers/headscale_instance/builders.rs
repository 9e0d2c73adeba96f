//! The configuration and the workload of a headscale server.
use crate::controllers::manifest;
use crate::digest;
use crate::json;
use crate::json::{Fields, Json, List};
use crate::table::Table;
use crate::text;
use crate::types::headscale_instance::StorageSpec;
use vstd::prelude::*;

verus! {

/// The HTTP port of a headscale server.
pub const PORT_HTTP: u64 = 8080;

/// The metrics port of a headscale server.
pub const PORT_METRICS: u64 = 9090;

/// The gRPC port of a headscale server.
pub const PORT_GRPC: u64 = 50443;

/// The port of the SCIM service.
pub const PORT_SCIM: u64 = 8081;

/// The configuration keys that the operator sets itself.
pub open spec fn reserved_top_level() -> Seq<Seq<char>> {
    Seq::empty().push("server_url"@).push("listen_addr"@).push("grpc_listen_addr"@).push(
        "grpc_allow_insecure"@,
    ).push("metrics_listen_addr"@).push("unix_socket"@).push("unix_socket_permission"@).push(
        "noise"@,
    ).push("database"@).push("policy"@)
}

/// The keys under `dns` that the operator sets itself.
pub open spec fn reserved_dns_keys() -> Seq<Seq<char>> {
    Seq::empty().push("magic_dns"@).push("base_domain"@)
}

fn add(list: Vec<String>, item: &str) -> (r: Vec<String>)
    ensures
        r.deep_view() == list.deep_view().push(item@),
{
    let mut out: Vec<String> = list;
    out.push(item.to_owned());
    proof {
        assert(out.deep_view() =~= list.deep_view().push(item@));
    }
    out
}

fn nothing() -> (r: Vec<String>)
    ensures
        r.deep_view() == Seq::<Seq<char>>::empty(),
{
    let out: Vec<String> = Vec::new();
    proof {
        assert(out.deep_view() =~= Seq::<Seq<char>>::empty());
    }
    out
}

/// Lists the configuration keys that the operator sets itself.
pub fn list_reserved_top_level() -> (r: Vec<String>)
    ensures
        r.deep_view() == reserved_top_level(),
{
    let a: Vec<String> = self::add(nothing(), "server_url");
    let b: Vec<String> = self::add(a, "listen_addr");
    let c: Vec<String> = self::add(b, "grpc_listen_addr");
    let d: Vec<String> = self::add(c, "grpc_allow_insecure");
    let e: Vec<String> = self::add(d, "metrics_listen_addr");
    let f: Vec<String> = self::add(e, "unix_socket");
    let g: Vec<String> = self::add(f, "unix_socket_permission");
    let h: Vec<String> = self::add(g, "noise");
    let i: Vec<String> = self::add(h, "database");
    self::add(i, "policy")
}

/// Lists the keys under `dns` that the operator sets itself.
pub fn list_reserved_dns_keys() -> (r: Vec<String>)
    ensures
        r.deep_view() == reserved_dns_keys(),
{
    let a: Vec<String> = self::add(nothing(), "magic_dns");
    self::add(a, "base_domain")
}

/// Those of the keys that are in the set.
pub open spec fn present(keys: Seq<Seq<char>>, set: Set<Seq<char>>) -> Seq<Seq<char>>
    decreases keys.len(),
{
    if keys.len() == 0 {
        Seq::empty()
    } else if set.contains(keys.last()) {
        present(keys.drop_last(), set).push(keys.last())
    } else {
        present(keys.drop_last(), set)
    }
}

/// The user's own `dns` fields.
pub open spec fn user_dns(extra: Map<Seq<char>, Json>) -> Map<Seq<char>, Json> {
    match json::field_of(Json::Object(extra), "dns"@) {
        Some(Json::Object(m)) => m,
        _ => Map::empty(),
    }
}

/// The reserved keys that a configuration sets.
pub open spec fn top_violations(extra: Map<Seq<char>, Json>) -> Seq<Seq<char>> {
    present(reserved_top_level(), extra.dom())
}

/// The reserved keys under `dns` that a configuration sets.
pub open spec fn dns_violations(extra: Map<Seq<char>, Json>) -> Seq<Seq<char>> {
    present(reserved_dns_keys(), user_dns(extra).dom())
}

/// What is said of the reserved keys that a configuration sets.
pub open spec fn violation_message(top: Seq<Seq<char>>, dns: Seq<Seq<char>>) -> Seq<char> {
    let on_top = "spec.extraConfig must not set operator-managed keys: "@ + text::joined(
        top,
        ", "@,
    );
    let in_dns = "spec.extraConfig.dns must not set operator-managed keys: "@ + text::joined(
        dns,
        ", "@,
    );
    if dns.len() == 0 {
        on_top
    } else if top.len() == 0 {
        in_dns
    } else {
        on_top + "; "@ + in_dns
    }
}

fn present_in_table(keys: &Vec<String>, extra: &Table<serde_json::Value>) -> (r: Vec<String>)
    ensures
        r.deep_view() == present(keys.deep_view(), extra@.dom()),
{
    let ghost all = keys.deep_view();
    let mut out: Vec<String> = nothing();
    let mut i: usize = 0;
    proof {
        assert(all.take(0) =~= Seq::<Seq<char>>::empty());
    }
    while i < keys.len()
        invariant
            i <= keys@.len(),
            all == keys.deep_view(),
            out.deep_view() == present(all.take(i as int), extra@.dom()),
        decreases keys@.len() - i,
    {
        proof {
            assert(all.take(i + 1).drop_last() =~= all.take(i as int));
            assert(all.take(i + 1).last() == keys@[i as int]@);
        }
        if extra.contains_key(keys[i].as_str()) {
            out = self::add(out, keys[i].as_str());
        }
        i += 1;
    }
    proof {
        assert(all.take(i as int) =~= all);
    }
    out
}

fn present_in_object(keys: &Vec<String>, object: &serde_json::Value) -> (r: Vec<String>)
    requires
        json::json(*object) is Object,
    ensures
        r.deep_view() == present(keys.deep_view(), json::json(*object)->Object_0.dom()),
{
    let ghost all = keys.deep_view();
    let ghost set = json::json(*object)->Object_0.dom();
    let mut out: Vec<String> = nothing();
    let mut i: usize = 0;
    proof {
        assert(all.take(0) =~= Seq::<Seq<char>>::empty());
    }
    while i < keys.len()
        invariant
            i <= keys@.len(),
            all == keys.deep_view(),
            json::json(*object) is Object,
            set == json::json(*object)->Object_0.dom(),
            out.deep_view() == present(all.take(i as int), set),
        decreases keys@.len() - i,
    {
        proof {
            assert(all.take(i + 1).drop_last() =~= all.take(i as int));
            assert(all.take(i + 1).last() == keys@[i as int]@);
        }
        if json::field(object, keys[i].as_str()).is_some() {
            out = self::add(out, keys[i].as_str());
        }
        i += 1;
    }
    proof {
        assert(all.take(i as int) =~= all);
    }
    out
}

fn user_dns_of(extra: &Table<serde_json::Value>) -> (r: serde_json::Value)
    ensures
        json::json(r) == Json::Object(user_dns(json::held(extra@))),
{
    match extra.get("dns") {
        Some(v) => if json::field_names(v).is_some() {
            v.clone()
        } else {
            json::empty_object()
        },
        None => json::empty_object(),
    }
}

/// Checks that extra configuration sets none of the keys that the operator sets
/// itself. The error names every such key.
pub fn check_reserved_keys(extra_config: &Table<serde_json::Value>) -> (r: Result<(), String>)
    ensures
        ({
            let top = top_violations(json::held(extra_config@));
            let dns = dns_violations(json::held(extra_config@));
            &&& r is Ok <==> top.len() == 0 && dns.len() == 0
            &&& r matches Err(message) ==> message@ == violation_message(top, dns)
        }),
{
    proof {
        assert(json::held(extra_config@).dom() =~= extra_config@.dom());
    }
    let top: Vec<String> = present_in_table(&list_reserved_top_level(), extra_config);
    let dns: Vec<String> = present_in_object(
        &list_reserved_dns_keys(),
        &user_dns_of(extra_config),
    );
    if top.len() == 0 && dns.len() == 0 {
        return Ok(());
    }
    let top_names: String = text::join(&top, ", ");
    let dns_names: String = text::join(&dns, ", ");
    let on_top: String = text::cat2(
        "spec.extraConfig must not set operator-managed keys: ",
        top_names.as_str(),
    );
    let in_dns: String = text::cat2(
        "spec.extraConfig.dns must not set operator-managed keys: ",
        dns_names.as_str(),
    );
    if dns.len() == 0 {
        return Err(on_top);
    }
    if top.len() == 0 {
        return Err(in_dns);
    }
    Err(text::cat3(on_top.as_str(), "; ", in_dns.as_str()))
}

/// The `dns` section: the default, the user's fields over it, and the operator's
/// over those.
pub open spec fn dns_section(extra: Map<Seq<char>, Json>, base_domain: Seq<char>) -> Map<
    Seq<char>,
    Json,
> {
    Map::<Seq<char>, Json>::empty().insert(
        "override_local_dns"@,
        Json::Bool(false),
    ).union_prefer_right(user_dns(extra)).insert("magic_dns"@, Json::Bool(true)).insert(
        "base_domain"@,
        Json::Text(base_domain),
    )
}

/// The configuration: the user's, and the operator's keys over it.
pub open spec fn config(
    server_url: Seq<char>,
    base_domain: Seq<char>,
    extra: Map<Seq<char>, Json>,
) -> Map<Seq<char>, Json> {
    extra.insert("server_url"@, Json::Text(server_url)).insert(
        "listen_addr"@,
        Json::Text("0.0.0.0:8080"@),
    ).insert("grpc_listen_addr"@, Json::Text("0.0.0.0:50443"@)).insert(
        "grpc_allow_insecure"@,
        Json::Bool(true),
    ).insert("metrics_listen_addr"@, Json::Text("0.0.0.0:9090"@)).insert(
        "unix_socket"@,
        Json::Text("/var/run/headscale/headscale.sock"@),
    ).insert("unix_socket_permission"@, Json::Text("0770"@)).insert(
        "noise"@,
        json::object(
            Seq::empty().push(
                ("private_key_path"@, Json::Text("/var/lib/headscale/noise_private.key"@)),
            ),
        ),
    ).insert(
        "database"@,
        json::object(
            Seq::empty().push(("type"@, Json::Text("sqlite"@))).push(
                (
                    "sqlite"@,
                    json::object(
                        Seq::empty().push(
                            ("path"@, Json::Text("/var/lib/headscale/db.sqlite"@)),
                        ).push(("write_ahead_log"@, Json::Bool(true))),
                    ),
                ),
            ),
        ),
    ).insert(
        "policy"@,
        json::object(Seq::empty().push(("mode"@, Json::Text("database"@)))),
    ).insert("dns"@, Json::Object(dns_section(extra, base_domain)))
}

fn set(config: serde_json::Value, key: &str, value: serde_json::Value) -> (r: serde_json::Value)
    requires
        json::json(config) is Object,
    ensures
        json::json(r) == Json::Object(json::json(config)->Object_0.insert(key@, json::json(value))),
{
    json::with_field(config, key.to_owned(), value)
}

/// Builds the configuration of a headscale server.
pub fn config_document(
    server_url: &str,
    dns_base_domain: &str,
    extra_config: &Table<serde_json::Value>,
) -> (r: serde_json::Value)
    ensures
        json::json(r) == Json::Object(
            config(server_url@, dns_base_domain@, json::held(extra_config@)),
        ),
{
    let ghost extra = json::held(extra_config@);
    let defaults: serde_json::Value = set(
        json::empty_object(),
        "override_local_dns",
        json::of_bool(false),
    );
    let user: serde_json::Value = user_dns_of(extra_config);
    let merged: serde_json::Value = json::overlay(defaults, &user);
    let magic: serde_json::Value = set(merged, "magic_dns", json::of_bool(true));
    let dns: serde_json::Value = set(magic, "base_domain", json::str_value(dns_base_domain));
    proof {
        assert(json::json(dns) == Json::Object(dns_section(extra, dns_base_domain@)));
    }
    let noise: serde_json::Value = Fields::new().with_text(
        "private_key_path",
        "/var/lib/headscale/noise_private.key",
    ).done();
    let sqlite: serde_json::Value = Fields::new().with_text(
        "path",
        "/var/lib/headscale/db.sqlite",
    ).with("write_ahead_log", json::of_bool(true)).done();
    let database: serde_json::Value = Fields::new().with_text("type", "sqlite").with(
        "sqlite",
        sqlite,
    ).done();
    let policy: serde_json::Value = Fields::new().with_text("mode", "database").done();
    let a: serde_json::Value = set(
        json::of_table(extra_config),
        "server_url",
        json::str_value(server_url),
    );
    let b: serde_json::Value = set(a, "listen_addr", json::str_value("0.0.0.0:8080"));
    let c: serde_json::Value = set(b, "grpc_listen_addr", json::str_value("0.0.0.0:50443"));
    let d: serde_json::Value = set(c, "grpc_allow_insecure", json::of_bool(true));
    let e: serde_json::Value = set(d, "metrics_listen_addr", json::str_value("0.0.0.0:9090"));
    let f: serde_json::Value = set(
        e,
        "unix_socket",
        json::str_value("/var/run/headscale/headscale.sock"),
    );
    let g: serde_json::Value = set(f, "unix_socket_permission", json::str_value("0770"));
    let h: serde_json::Value = set(g, "noise", noise);
    let i: serde_json::Value = set(h, "database", database);
    let j: serde_json::Value = set(i, "policy", policy);
    set(j, "dns", dns)
}

/// Renders the configuration file of a headscale server.
pub fn build_config(
    server_url: &str,
    dns_base_domain: &str,
    extra_config: &Table<serde_json::Value>,
) -> (r: Result<String, serde_yaml::Error>)
    ensures
        ({
            let file = json::yaml_text(
                Json::Object(config(server_url@, dns_base_domain@, json::held(extra_config@))),
            );
            &&& r is Ok <==> file is Some
            &&& r matches Ok(s) ==> file == Some(s@)
        }),
{
    let document: serde_json::Value = config_document(server_url, dns_base_domain, extra_config);
    json::to_yaml(&document)
}

/// A ConfigMap with one entry.
pub open spec fn config_map(name: Seq<char>, entry: Seq<char>, value: Seq<char>) -> Json {
    json::object(
        manifest::document("v1"@, "ConfigMap"@, name).push(
            ("data"@, json::object(Seq::empty().push((entry, Json::Text(value))))),
        ),
    )
}

/// The hexadecimal SHA-256 digest of a text.
pub open spec fn text_hash(s: Seq<char>) -> Seq<char> {
    digest::hex_text(digest::sha256(vstd::utf8::encode_utf8(s)))
}

/// The hexadecimal SHA-256 digest of a text.
pub fn hash_of(s: &str) -> (r: String)
    ensures
        r@ == text_hash(s@),
        r@.len() == 64,
{
    let bytes: Vec<u8> = digest::digest_of(s.as_bytes());
    digest::hex(&bytes)
}

/// A ConfigMap that holds a configuration file as `config.yaml`.
pub fn configmap_of(name: &str, config_yaml: &str) -> (r: serde_json::Value)
    ensures
        json::json(r) == config_map(name@, "config.yaml"@, config_yaml@),
{
    manifest::new_document("v1", "ConfigMap", name).with(
        "data",
        Fields::new().with_text("config.yaml", config_yaml).done(),
    ).done()
}

/// Builds the ConfigMap with the configuration file of a headscale server, and
/// the digest of that file.
pub fn build_configmap(
    name: &str,
    server_url: &str,
    dns_base_domain: &str,
    extra_config: &Table<serde_json::Value>,
) -> (r: Result<(serde_json::Value, String), serde_yaml::Error>)
    ensures
        ({
            let file = json::yaml_text(
                Json::Object(config(server_url@, dns_base_domain@, json::held(extra_config@))),
            );
            &&& r is Ok <==> file is Some
            &&& r matches Ok(built) ==> {
                &&& json::json(built.0) == config_map(name@, "config.yaml"@, file->0)
                &&& built.1@ == text_hash(file->0)
            }
        }),
{
    match build_config(server_url, dns_base_domain, extra_config) {
        Ok(config_yaml) => {
            let hash: String = hash_of(config_yaml.as_str());
            Ok((configmap_of(name, config_yaml.as_str()), hash))
        },
        Err(e) => Err(e),
    }
}

/// Amounts of processor time and memory.
pub open spec fn amounts(cpu: Seq<char>, memory: Seq<char>) -> Json {
    json::object(Seq::empty().push(("cpu"@, Json::Text(cpu))).push(("memory"@, Json::Text(memory))))
}

fn new_amounts(cpu: &str, memory: &str) -> (r: serde_json::Value)
    ensures
        json::json(r) == amounts(cpu@, memory@),
{
    Fields::new().with_text("cpu", cpu).with_text("memory", memory).done()
}

/// One half of a resource block; empty where the block does not have it.
pub open spec fn half(resources: Json, key: Seq<char>) -> Json {
    match json::field_of(resources, key) {
        Some(amounts) => amounts,
        None => json::object(Seq::empty()),
    }
}

/// The resources of the headscale container: the instance's block as a whole, or
/// the defaults.
pub open spec fn container_resources(resources: Option<Json>) -> Json {
    let (requests, limits) = match resources {
        Some(r) => (half(r, "requests"@), half(r, "limits"@)),
        None => (amounts("50m"@, "64Mi"@), amounts("500m"@, "512Mi"@)),
    };
    json::object(Seq::empty().push(("requests"@, requests)).push(("limits"@, limits)))
}

fn half_of(resources: &serde_json::Value, key: &str) -> (r: serde_json::Value)
    ensures
        json::json(r) == half(json::json(*resources), key@),
{
    match json::field(resources, key) {
        Some(amounts) => amounts.clone(),
        None => Fields::new().done(),
    }
}

fn build_resources(resources: Option<&serde_json::Value>) -> (r: serde_json::Value)
    ensures
        json::json(r) == container_resources(
            match resources {
                Some(v) => Some(json::json(*v)),
                None => None,
            },
        ),
{
    let requests: serde_json::Value = match resources {
        Some(v) => half_of(v, "requests"),
        None => new_amounts("50m", "64Mi"),
    };
    let limits: serde_json::Value = match resources {
        Some(v) => half_of(v, "limits"),
        None => new_amounts("500m", "512Mi"),
    };
    Fields::new().with("requests", requests).with("limits", limits).done()
}

/// The headscale container.
pub open spec fn headscale_container(image: Seq<char>, resources: Option<Json>) -> Json {
    let config_mount = json::object(
        manifest::mount("config"@, "/etc/headscale/config.yaml"@).push(
            ("readOnly"@, Json::Bool(true)),
        ).push(("subPath"@, Json::Text("config.yaml"@))),
    );
    json::object(
        Seq::empty().push(("name"@, Json::Text("headscale"@))).push(
            ("image"@, Json::Text(image)),
        ).push(("args"@, Json::Array(seq![Json::Text("serve"@)]))).push(
            ("securityContext"@, manifest::hardened(false)),
        ).push(
            (
                "ports"@,
                Json::Array(
                    Seq::empty().push(manifest::container_port(8080, "http"@)).push(
                        manifest::container_port(9090, "metrics"@),
                    ).push(manifest::container_port(50443, "grpc"@)),
                ),
            ),
        ).push(("readinessProbe"@, manifest::http_probe("/health"@, "http"@, 5, 5))).push(
            ("livenessProbe"@, manifest::http_probe("/health"@, "http"@, 30, 10)),
        ).push(
            (
                "volumeMounts"@,
                Json::Array(
                    Seq::empty().push(config_mount).push(
                        json::object(manifest::mount("data"@, "/var/lib/headscale"@)),
                    ).push(
                        json::object(
                            manifest::mount("var-run-headscale"@, "/var/run/headscale"@),
                        ),
                    ),
                ),
            ),
        ).push(("resources"@, container_resources(resources))),
    )
}

fn build_container(image: &str, resources: Option<&serde_json::Value>) -> (r: serde_json::Value)
    ensures
        json::json(r) == headscale_container(
            image@,
            match resources {
                Some(v) => Some(json::json(*v)),
                None => None,
            },
        ),
{
    let config_mount: serde_json::Value = manifest::new_mount(
        "config",
        "/etc/headscale/config.yaml",
    ).with("readOnly", json::of_bool(true)).with_text("subPath", "config.yaml").done();
    let mounts: serde_json::Value = List::new().with(config_mount).with(
        manifest::new_mount("data", "/var/lib/headscale").done(),
    ).with(manifest::new_mount("var-run-headscale", "/var/run/headscale").done()).done();
    let ports: serde_json::Value = List::new().with(
        manifest::new_container_port(PORT_HTTP, "http"),
    ).with(manifest::new_container_port(PORT_METRICS, "metrics")).with(
        manifest::new_container_port(PORT_GRPC, "grpc"),
    ).done();
    Fields::new().with_text("name", "headscale").with_text("image", image).with(
        "args",
        List::new().with_text("serve").done(),
    ).with("securityContext", manifest::new_hardened(false)).with("ports", ports).with(
        "readinessProbe",
        manifest::new_http_probe("/health", "http", 5, 5),
    ).with("livenessProbe", manifest::new_http_probe("/health", "http", 30, 10)).with(
        "volumeMounts",
        mounts,
    ).with("resources", build_resources(resources)).done()
}

/// The pod of a headscale server.
pub open spec fn headscale_pod(name: Seq<char>, image: Seq<char>, resources: Option<Json>) -> Json {
    json::object(
        Seq::empty().push(
            (
                "securityContext"@,
                json::object(
                    Seq::empty().push(("seccompProfile"@, manifest::default_seccomp())),
                ),
            ),
        ).push(("containers"@, Json::Array(seq![headscale_container(image, resources)]))).push(
            (
                "volumes"@,
                Json::Array(
                    Seq::empty().push(manifest::config_volume("config"@, name)).push(
                        json::object(
                            Seq::empty().push(("name"@, Json::Text("var-run-headscale"@))).push(
                                ("emptyDir"@, json::object(Seq::empty())),
                            ),
                        ),
                    ),
                ),
            ),
        ),
    )
}

fn build_pod(name: &str, image: &str, resources: Option<&serde_json::Value>) -> (r:
    serde_json::Value)
    ensures
        json::json(r) == headscale_pod(
            name@,
            image@,
            match resources {
                Some(v) => Some(json::json(*v)),
                None => None,
            },
        ),
{
    let run_volume: serde_json::Value = Fields::new().with_text("name", "var-run-headscale").with(
        "emptyDir",
        Fields::new().done(),
    ).done();
    let volumes: serde_json::Value = List::new().with(
        manifest::new_config_volume("config", name),
    ).with(run_volume).done();
    Fields::new().with(
        "securityContext",
        Fields::new().with("seccompProfile", manifest::new_default_seccomp()).done(),
    ).with("containers", List::new().with(build_container(image, resources)).done()).with(
        "volumes",
        volumes,
    ).done()
}

/// The StatefulSet of a headscale server.
pub open spec fn statefulset(
    name: Seq<char>,
    image: Seq<char>,
    storage: StorageSpec,
    resources: Option<Json>,
    config_hash: Seq<char>,
) -> Json {
    let annotations = json::object(
        Seq::empty().push(("headmaster/config-hash"@, Json::Text(config_hash))),
    );
    let template = json::object(
        Seq::empty().push(
            ("metadata"@, json::object(Seq::empty().push(("annotations"@, annotations)))),
        ).push(("spec"@, headscale_pod(name, image, resources))),
    );
    json::object(
        manifest::document("apps/v1"@, "StatefulSet"@, name).push(
            (
                "spec"@,
                json::object(
                    Seq::empty().push(("replicas"@, json::whole(1))).push(
                        ("serviceName"@, Json::Text(name)),
                    ).push(("template"@, template)).push(
                        (
                            "volumeClaimTemplates"@,
                            Json::Array(seq![manifest::data_claim(storage)]),
                        ),
                    ),
                ),
            ),
        ),
    )
}

/// Builds the StatefulSet of a headscale server. The digest of the configuration
/// is part of the pods, so that a new configuration makes new pods.
pub fn desired_statefulset(
    name: &str,
    image: &str,
    storage: &StorageSpec,
    resources: Option<&serde_json::Value>,
    config_hash: &str,
) -> (r: serde_json::Value)
    ensures
        json::json(r) == statefulset(
            name@,
            image@,
            *storage,
            match resources {
                Some(v) => Some(json::json(*v)),
                None => None,
            },
            config_hash@,
        ),
{
    let annotations: serde_json::Value = Fields::new().with_text(
        "headmaster/config-hash",
        config_hash,
    ).done();
    let template: serde_json::Value = Fields::new().with(
        "metadata",
        Fields::new().with("annotations", annotations).done(),
    ).with("spec", build_pod(name, image, resources)).done();
    let spec: serde_json::Value = Fields::new().with("replicas", json::of_number(1)).with_text(
        "serviceName",
        name,
    ).with("template", template).with(
        "volumeClaimTemplates",
        List::new().with(manifest::new_data_claim(storage)).done(),
    ).done();
    manifest::new_document("apps/v1", "StatefulSet", name).with("spec", spec).done()
}

/// The Service of a headscale server.
pub open spec fn service(name: Seq<char>) -> Json {
    json::object(
        manifest::document("v1"@, "Service"@, name).push(
            (
                "spec"@,
                json::object(
                    Seq::empty().push(
                        (
                            "ports"@,
                            Json::Array(
                                Seq::empty().push(manifest::service_port("http"@, 8080)).push(
                                    manifest::service_port("metrics"@, 9090),
                                ).push(manifest::service_port("grpc"@, 50443)),
                            ),
                        ),
                    ),
                ),
            ),
        ),
    )
}

/// Builds the Service of a headscale server.
pub fn headscale_service(name: &str) -> (r: serde_json::Value)
    ensures
        json::json(r) == service(name@),
{
    let ports: serde_json::Value = List::new().with(
        manifest::new_service_port("http", PORT_HTTP),
    ).with(manifest::new_service_port("metrics", PORT_METRICS)).with(
        manifest::new_service_port("grpc", PORT_GRPC),
    ).done();
    manifest::new_document("v1", "Service", name).with(
        "spec",
        Fields::new().with("ports", ports).done(),
    ).done()
}

// Laws.

proof fn present_members(keys: Seq<Seq<char>>, set: Set<Seq<char>>, key: Seq<char>)
    ensures
        present(keys, set).contains(key) <==> keys.contains(key) && set.contains(key),
    decreases keys.len(),
{
    if keys.len() > 0 {
        let rest = keys.drop_last();
        present_members(rest, set, key);
        let out = present(keys, set);
        let kept = present(rest, set);
        assert(keys[keys.len() - 1] == keys.last());
        if rest.contains(key) {
            let i = choose|i: int| 0 <= i < rest.len() && rest[i] == key;
            assert(keys[i] == key);
        }
        if keys.contains(key) {
            let i = choose|i: int| 0 <= i < keys.len() && keys[i] == key;
            if i < rest.len() {
                assert(rest[i] == key);
            }
        }
        if set.contains(keys.last()) {
            assert(out == kept.push(keys.last()));
            if kept.contains(key) {
                let i = choose|i: int| 0 <= i < kept.len() && kept[i] == key;
                assert(out[i] == key);
            }
            if key == keys.last() {
                assert(out[out.len() - 1] == key);
            }
            if out.contains(key) {
                let i = choose|i: int| 0 <= i < out.len() && out[i] == key;
                if i < kept.len() {
                    assert(kept[i] == key);
                }
            }
        }
    }
}

/// Every reserved key that a configuration sets is named, and no other.
pub proof fn every_violation_is_named(extra: Map<Seq<char>, Json>, key: Seq<char>)
    ensures
        top_violations(extra).contains(key) <==> reserved_top_level().contains(key)
            && extra.dom().contains(key),
        dns_violations(extra).contains(key) <==> reserved_dns_keys().contains(key) && user_dns(
            extra,
        ).dom().contains(key),
{
    present_members(reserved_top_level(), extra.dom(), key);
    present_members(reserved_dns_keys(), user_dns(extra).dom(), key);
}

proof fn reserved_by_name()
    ensures
        reserved_top_level().contains("server_url"@),
        reserved_top_level().contains("listen_addr"@),
        reserved_top_level().contains("grpc_listen_addr"@),
        reserved_top_level().contains("grpc_allow_insecure"@),
        reserved_top_level().contains("metrics_listen_addr"@),
        reserved_top_level().contains("unix_socket"@),
        reserved_top_level().contains("unix_socket_permission"@),
        reserved_top_level().contains("noise"@),
        reserved_top_level().contains("database"@),
        reserved_top_level().contains("policy"@),
        reserved_dns_keys().contains("magic_dns"@),
        reserved_dns_keys().contains("base_domain"@),
{
    let r = reserved_top_level();
    assert(r[0] == "server_url"@ && r[1] == "listen_addr"@ && r[2] == "grpc_listen_addr"@);
    assert(r[3] == "grpc_allow_insecure"@ && r[4] == "metrics_listen_addr"@);
    assert(r[5] == "unix_socket"@ && r[6] == "unix_socket_permission"@ && r[7] == "noise"@);
    assert(r[8] == "database"@ && r[9] == "policy"@);
    let d = reserved_dns_keys();
    assert(d[0] == "magic_dns"@ && d[1] == "base_domain"@);
}

/// Configuration that the operator does not set itself passes through unchanged.
pub proof fn other_configuration_passes_through(
    server_url: Seq<char>,
    base_domain: Seq<char>,
    extra: Map<Seq<char>, Json>,
    key: Seq<char>,
)
    requires
        !reserved_top_level().contains(key),
        key != "dns"@,
    ensures
        config(server_url, base_domain, extra).dom().contains(key) == extra.dom().contains(key),
        extra.dom().contains(key) ==> config(server_url, base_domain, extra)[key] == extra[key],
{
    reserved_by_name();
}

/// The keys that the operator sets itself are the same whatever the extra
/// configuration says.
pub proof fn operator_keys_win(
    server_url: Seq<char>,
    base_domain: Seq<char>,
    extra: Map<Seq<char>, Json>,
    other: Map<Seq<char>, Json>,
    key: Seq<char>,
)
    requires
        reserved_top_level().contains(key),
    ensures
        config(server_url, base_domain, extra).dom().contains(key),
        config(server_url, base_domain, extra)[key] == config(server_url, base_domain, other)[key],
{
    let r = reserved_top_level();
    let i = choose|i: int| 0 <= i < r.len() && r[i] == key;
    assert(r[0] == "server_url"@ && r[1] == "listen_addr"@ && r[2] == "grpc_listen_addr"@);
    assert(r[3] == "grpc_allow_insecure"@ && r[4] == "metrics_listen_addr"@);
    assert(r[5] == "unix_socket"@ && r[6] == "unix_socket_permission"@ && r[7] == "noise"@);
    assert(r[8] == "database"@ && r[9] == "policy"@);
    reveal_strlit("dns");
    reveal_strlit("server_url");
    reveal_strlit("listen_addr");
    reveal_strlit("grpc_listen_addr");
    reveal_strlit("grpc_allow_insecure");
    reveal_strlit("metrics_listen_addr");
    reveal_strlit("unix_socket");
    reveal_strlit("unix_socket_permission");
    reveal_strlit("noise");
    reveal_strlit("database");
    reveal_strlit("policy");
    assert(key.len() > 3 && "dns"@.len() == 3);
}

/// The user's own `dns` fields pass through, but for those that the operator sets;
/// local DNS is overridden only where the user says so.
pub proof fn dns_fields_pass_through(
    extra: Map<Seq<char>, Json>,
    base_domain: Seq<char>,
    key: Seq<char>,
)
    requires
        !reserved_dns_keys().contains(key),
    ensures
        user_dns(extra).dom().contains(key) ==> dns_section(extra, base_domain).dom().contains(key)
            && dns_section(extra, base_domain)[key] == user_dns(extra)[key],
        !user_dns(extra).dom().contains(key) ==> (dns_section(extra, base_domain).dom().contains(
            key,
        ) <==> key == "override_local_dns"@),
        !user_dns(extra).dom().contains("override_local_dns"@) ==> dns_section(
            extra,
            base_domain,
        )["override_local_dns"@] == Json::Bool(false),
{
    reserved_by_name();
    reveal_strlit("override_local_dns");
    reveal_strlit("magic_dns");
    reveal_strlit("base_domain");
    assert("override_local_dns"@.len() == 18 && "magic_dns"@.len() == 9 && "base_domain"@.len()
        == 11);
}

/// The operator's `dns` fields win over the user's.
pub proof fn operator_dns_fields_win(extra: Map<Seq<char>, Json>, base_domain: Seq<char>)
    ensures
        dns_section(extra, base_domain)["magic_dns"@] == Json::Bool(true),
        dns_section(extra, base_domain)["base_domain"@] == Json::Text(base_domain),
{
    reveal_strlit("magic_dns");
    reveal_strlit("base_domain");
    assert("magic_dns"@.len() == 9 && "base_domain"@.len() == 11);
}

proof fn config_keys()
    ensures
        "base_domain"@.len() == 11,
        "base_domain"@[0] == 'b',
        "database"@.len() == 8,
        "dns"@.len() == 3,
        "grpc_allow_insecure"@.len() == 19,
        "grpc_allow_insecure"@[0] == 'g',
        "grpc_listen_addr"@.len() == 16,
        "grpc_listen_addr"@[0] == 'g',
        "listen_addr"@.len() == 11,
        "listen_addr"@[0] == 'l',
        "magic_dns"@.len() == 9,
        "metrics_listen_addr"@.len() == 19,
        "metrics_listen_addr"@[0] == 'm',
        "mode"@.len() == 4,
        "mode"@[0] == 'm',
        "noise"@.len() == 5,
        "override_local_dns"@.len() == 18,
        "path"@.len() == 4,
        "path"@[0] == 'p',
        "policy"@.len() == 6,
        "policy"@[0] == 'p',
        "private_key_path"@.len() == 16,
        "private_key_path"@[0] == 'p',
        "server_url"@.len() == 10,
        "sqlite"@.len() == 6,
        "sqlite"@[0] == 's',
        "type"@.len() == 4,
        "type"@[0] == 't',
        "unix_socket"@.len() == 11,
        "unix_socket"@[0] == 'u',
        "unix_socket_permission"@.len() == 22,
        "write_ahead_log"@.len() == 15,
{
    reveal_strlit("base_domain");
    reveal_strlit("database");
    reveal_strlit("dns");
    reveal_strlit("grpc_allow_insecure");
    reveal_strlit("grpc_listen_addr");
    reveal_strlit("listen_addr");
    reveal_strlit("magic_dns");
    reveal_strlit("metrics_listen_addr");
    reveal_strlit("mode");
    reveal_strlit("noise");
    reveal_strlit("override_local_dns");
    reveal_strlit("path");
    reveal_strlit("policy");
    reveal_strlit("private_key_path");
    reveal_strlit("server_url");
    reveal_strlit("sqlite");
    reveal_strlit("type");
    reveal_strlit("unix_socket");
    reveal_strlit("unix_socket_permission");
    reveal_strlit("write_ahead_log");
}

/// The configuration of a headscale server, key by key: where it is reached, where it
/// listens, its keys and its database, that policies come from the database, and the names
/// of its nodes.
pub proof fn configuration_has_the_operators_values(
    server_url: Seq<char>,
    base_domain: Seq<char>,
    extra: Map<Seq<char>, Json>,
)
    ensures
        ({
            let c = config(server_url, base_domain, extra);
            &&& c["server_url"@] == Json::Text(server_url)
            &&& c["listen_addr"@] == Json::Text("0.0.0.0:8080"@)
            &&& c["grpc_listen_addr"@] == Json::Text("0.0.0.0:50443"@)
            &&& c["grpc_allow_insecure"@] == Json::Bool(true)
            &&& c["metrics_listen_addr"@] == Json::Text("0.0.0.0:9090"@)
            &&& c["unix_socket"@] == Json::Text("/var/run/headscale/headscale.sock"@)
            &&& c["unix_socket_permission"@] == Json::Text("0770"@)
            &&& c["noise"@] is Object
            &&& c["noise"@]->Object_0["private_key_path"@] == Json::Text(
                "/var/lib/headscale/noise_private.key"@,
            )
            &&& c["database"@] is Object
            &&& c["database"@]->Object_0["type"@] == Json::Text("sqlite"@)
            &&& c["database"@]->Object_0["sqlite"@] is Object
            &&& c["database"@]->Object_0["sqlite"@]->Object_0["path"@] == Json::Text(
                "/var/lib/headscale/db.sqlite"@,
            )
            &&& c["database"@]->Object_0["sqlite"@]->Object_0["write_ahead_log"@] == Json::Bool(
                true,
            )
            &&& c["policy"@] is Object
            &&& c["policy"@]->Object_0["mode"@] == Json::Text("database"@)
            &&& c["policy"@]->Object_0.dom() == set!["mode"@]
            &&& c["dns"@] is Object
            &&& c["dns"@]->Object_0["magic_dns"@] == Json::Bool(true)
            &&& c["dns"@]->Object_0["base_domain"@] == Json::Text(base_domain)
        }),
{
    config_keys();
    broadcast use json::object_grows;

    let c = config(server_url, base_domain, extra);
    assert(c["policy"@]->Object_0.dom() =~= set!["mode"@]);
}

/// Everything else that the user configures passes through: a key that is none of the
/// operator's is in the configuration exactly where the user sets it, with the user's
/// value; a key under `dns` that is neither `magic_dns` nor `base_domain` likewise, but that
/// local DNS is not overridden where the user says nothing of it.
pub proof fn users_configuration_passes_through(
    server_url: Seq<char>,
    base_domain: Seq<char>,
    extra: Map<Seq<char>, Json>,
    key: Seq<char>,
)
    ensures
        ({
            let c = config(server_url, base_domain, extra);
            let dns = c["dns"@]->Object_0;
            let own = extra.dom().contains("dns"@) && extra["dns"@] is Object;
            let is_set = own && extra["dns"@]->Object_0.dom().contains(key);
            &&& !set![
                "server_url"@,
                "listen_addr"@,
                "grpc_listen_addr"@,
                "grpc_allow_insecure"@,
                "metrics_listen_addr"@,
                "unix_socket"@,
                "unix_socket_permission"@,
                "noise"@,
                "database"@,
                "policy"@,
                "dns"@,
            ].contains(key) ==> {
                &&& c.dom().contains(key) == extra.dom().contains(key)
                &&& extra.dom().contains(key) ==> c[key] == extra[key]
            }
            &&& key != "magic_dns"@ && key != "base_domain"@ ==> {
                &&& is_set ==> dns.dom().contains(key) && dns[key] == extra["dns"@]->Object_0[key]
                &&& !is_set && key != "override_local_dns"@ ==> !dns.dom().contains(key)
                &&& !is_set && key == "override_local_dns"@ ==> dns.dom().contains(key) && dns[key]
                    == Json::Bool(false)
            }
        }),
{
    config_keys();
}

/// Extra configuration is refused exactly where it sets one of the keys that are the
/// operator's, on top or under `dns`.
pub proof fn operator_keys_are_refused(extra: Map<Seq<char>, Json>, key: Seq<char>)
    ensures
        top_violations(extra).contains(key) <==> extra.dom().contains(key) && set![
            "server_url"@,
            "listen_addr"@,
            "grpc_listen_addr"@,
            "grpc_allow_insecure"@,
            "metrics_listen_addr"@,
            "unix_socket"@,
            "unix_socket_permission"@,
            "noise"@,
            "database"@,
            "policy"@,
        ].contains(key),
        dns_violations(extra).contains(key) <==> extra.dom().contains("dns"@) && extra["dns"@]
            is Object && extra["dns"@]->Object_0.dom().contains(key) && set![
            "magic_dns"@,
            "base_domain"@,
        ].contains(key),
{
    every_violation_is_named(extra, key);
    reserved_by_name();
    let r = reserved_top_level();
    let d = reserved_dns_keys();
    if r.contains(key) {
        let i = choose|i: int| 0 <= i < r.len() && r[i] == key;
        assert(r[0] == "server_url"@ && r[1] == "listen_addr"@ && r[2] == "grpc_listen_addr"@);
        assert(r[3] == "grpc_allow_insecure"@ && r[4] == "metrics_listen_addr"@);
        assert(r[5] == "unix_socket"@ && r[6] == "unix_socket_permission"@ && r[7] == "noise"@);
        assert(r[8] == "database"@ && r[9] == "policy"@);
    }
    if d.contains(key) {
        let i = choose|i: int| 0 <= i < d.len() && d[i] == key;
        assert(d[0] == "magic_dns"@ && d[1] == "base_domain"@);
    }
}

/// The message about keys that are the operator's names each of them.
pub proof fn message_names_each_key(top: Seq<Seq<char>>, dns: Seq<Seq<char>>, key: Seq<char>)
    requires
        top.contains(key) || dns.contains(key),
    ensures
        exists|a: Seq<char>, b: Seq<char>|
            violation_message(top, dns) == #[trigger] (a + key + b),
{
    let message = violation_message(top, dns);
    let on_top = "spec.extraConfig must not set operator-managed keys: "@;
    let in_dns = "spec.extraConfig.dns must not set operator-managed keys: "@;
    if top.contains(key) {
        let i = choose|i: int| 0 <= i < top.len() && top[i] == key;
        text::joined_holds_each(top, ", "@, i);
        let (a, b) = choose|a: Seq<char>, b: Seq<char>|
            text::joined(top, ", "@) == #[trigger] (a + key + b);
        let rest = if dns.len() == 0 {
            b
        } else {
            b + "; "@ + in_dns + text::joined(dns, ", "@)
        };
        assert(message =~= (on_top + a) + key + rest);
    } else if dns.contains(key) {
        let i = choose|i: int| 0 <= i < dns.len() && dns[i] == key;
        text::joined_holds_each(dns, ", "@, i);
        let (a, b) = choose|a: Seq<char>, b: Seq<char>|
            text::joined(dns, ", "@) == #[trigger] (a + key + b);
        let start = if top.len() == 0 {
            in_dns
        } else {
            on_top + text::joined(top, ", "@) + "; "@ + in_dns
        };
        assert(message =~= (start + a) + key + b);
    }
}

/// A ConfigMap holds one entry.
pub proof fn config_maps_hold_one_entry(name: Seq<char>, entry: Seq<char>, value: Seq<char>)
    ensures
        ({
            let d = config_map(name, entry, value);
            &&& d is Object
            &&& d->Object_0.dom() == set!["apiVersion"@, "kind"@, "metadata"@, "data"@]
            &&& d->Object_0["apiVersion"@] == Json::Text("v1"@)
            &&& d->Object_0["kind"@] == Json::Text("ConfigMap"@)
            &&& d->Object_0["metadata"@] is Object
            &&& d->Object_0["metadata"@]->Object_0.dom() == set!["name"@]
            &&& d->Object_0["metadata"@]->Object_0["name"@] == Json::Text(name)
            &&& d->Object_0["data"@] == Json::Object(Map::empty().insert(entry, Json::Text(value)))
        }),
{
    manifest::names_differ();
    broadcast use json::object_grows;

    let d = config_map(name, entry, value);
    assert(d->Object_0.dom() =~= set!["apiVersion"@, "kind"@, "metadata"@, "data"@]);
    assert(d->Object_0["metadata"@]->Object_0.dom() =~= set!["name"@]);
}

/// Without a resource block the headscale container has the default requests and limits.
pub proof fn default_resources_are_modest()
    ensures
        ({
            let d = container_resources(None);
            &&& d is Object
            &&& d->Object_0.dom() == set!["requests"@, "limits"@]
            &&& d->Object_0["requests"@] is Object
            &&& d->Object_0["requests"@]->Object_0.dom() == set!["cpu"@, "memory"@]
            &&& d->Object_0["requests"@]->Object_0["cpu"@] == Json::Text("50m"@)
            &&& d->Object_0["requests"@]->Object_0["memory"@] == Json::Text("64Mi"@)
            &&& d->Object_0["limits"@] is Object
            &&& d->Object_0["limits"@]->Object_0.dom() == set!["cpu"@, "memory"@]
            &&& d->Object_0["limits"@]->Object_0["cpu"@] == Json::Text("500m"@)
            &&& d->Object_0["limits"@]->Object_0["memory"@] == Json::Text("512Mi"@)
        }),
{
    manifest::names_differ();
    broadcast use json::object_grows;

    let d = container_resources(None);
    assert(d->Object_0.dom() =~= set!["requests"@, "limits"@]);
    assert(d->Object_0["requests"@]->Object_0.dom() =~= set!["cpu"@, "memory"@]);
    assert(d->Object_0["limits"@]->Object_0.dom() =~= set!["cpu"@, "memory"@]);
}

/// A resource block takes the place of the defaults as a whole: what it does not say is
/// left open.
pub proof fn resource_blocks_replace_the_defaults(resources: Json)
    ensures
        ({
            let d = container_resources(Some(resources));
            &&& d is Object
            &&& d->Object_0.dom() == set!["requests"@, "limits"@]
            &&& d->Object_0["requests"@] == (if resources is Object
                && resources->Object_0.dom().contains("requests"@) {
                resources->Object_0["requests"@]
            } else {
                Json::Object(Map::empty())
            })
            &&& d->Object_0["limits"@] == (if resources is Object
                && resources->Object_0.dom().contains("limits"@) {
                resources->Object_0["limits"@]
            } else {
                Json::Object(Map::empty())
            })
        }),
{
    manifest::names_differ();
    broadcast use json::object_grows;

    assert(container_resources(Some(resources))->Object_0.dom() =~= set!["requests"@, "limits"@]);
}

/// The headscale container: what it runs, where it is asked for its health, and what it sees of
/// its configuration, its data and its socket.
pub proof fn headscale_is_served_from_its_container(image: Seq<char>, resources: Option<Json>)
    ensures
        ({
            let d = headscale_container(image, resources);
            &&& d is Object
            &&& d->Object_0.dom()
                == set!["name"@, "image"@, "args"@, "securityContext"@, "ports"@,
                "readinessProbe"@, "livenessProbe"@, "volumeMounts"@, "resources"@]
            &&& d->Object_0["name"@] == Json::Text("headscale"@)
            &&& d->Object_0["image"@] == Json::Text(image)
            &&& d->Object_0["args"@] is Array
            &&& d->Object_0["args"@]->Array_0.len() == 1
            &&& d->Object_0["args"@]->Array_0[0] == Json::Text("serve"@)
            &&& d->Object_0["securityContext"@] == manifest::hardened(false)
            &&& d->Object_0["ports"@] is Array
            &&& d->Object_0["ports"@]->Array_0.len() == 3
            &&& d->Object_0["ports"@]->Array_0[0] == manifest::container_port(8080, "http"@)
            &&& d->Object_0["ports"@]->Array_0[1] == manifest::container_port(9090, "metrics"@)
            &&& d->Object_0["ports"@]->Array_0[2] == manifest::container_port(50443, "grpc"@)
            &&& d->Object_0["readinessProbe"@] == manifest::http_probe("/health"@, "http"@, 5, 5)
            &&& d->Object_0["livenessProbe"@] == manifest::http_probe("/health"@, "http"@, 30, 10)
            &&& d->Object_0["volumeMounts"@] is Array
            &&& d->Object_0["volumeMounts"@]->Array_0.len() == 3
            &&& d->Object_0["volumeMounts"@]->Array_0[0] is Object
            &&& d->Object_0["volumeMounts"@]->Array_0[0]->Object_0.dom()
                == set!["name"@, "mountPath"@, "readOnly"@, "subPath"@]
            &&& d->Object_0["volumeMounts"@]->Array_0[0]->Object_0["name"@] == Json::Text("config"@)
            &&& d->Object_0["volumeMounts"@]->Array_0[0]->Object_0["mountPath"@]
                == Json::Text("/etc/headscale/config.yaml"@)
            &&& d->Object_0["volumeMounts"@]->Array_0[0]->Object_0["readOnly"@] == Json::Bool(true)
            &&& d->Object_0["volumeMounts"@]->Array_0[0]->Object_0["subPath"@]
                == Json::Text("config.yaml"@)
            &&& d->Object_0["volumeMounts"@]->Array_0[1] is Object
            &&& d->Object_0["volumeMounts"@]->Array_0[1]->Object_0.dom()
                == set!["name"@, "mountPath"@]
            &&& d->Object_0["volumeMounts"@]->Array_0[1]->Object_0["name"@] == Json::Text("data"@)
            &&& d->Object_0["volumeMounts"@]->Array_0[1]->Object_0["mountPath"@]
                == Json::Text("/var/lib/headscale"@)
            &&& d->Object_0["volumeMounts"@]->Array_0[2] is Object
            &&& d->Object_0["volumeMounts"@]->Array_0[2]->Object_0.dom()
                == set!["name"@, "mountPath"@]
            &&& d->Object_0["volumeMounts"@]->Array_0[2]->Object_0["name"@]
                == Json::Text("var-run-headscale"@)
            &&& d->Object_0["volumeMounts"@]->Array_0[2]->Object_0["mountPath"@]
                == Json::Text("/var/run/headscale"@)
            &&& d->Object_0["resources"@] == container_resources(resources)
        }),
{
    manifest::names_differ();
    broadcast use json::object_grows;

    let d = headscale_container(image, resources);
    assert(d->Object_0.dom()
        =~= set!["name"@, "image"@, "args"@, "securityContext"@, "ports"@, "readinessProbe"@,
        "livenessProbe"@, "volumeMounts"@, "resources"@]);
    assert(d->Object_0["volumeMounts"@]->Array_0[0]->Object_0.dom()
        =~= set!["name"@, "mountPath"@, "readOnly"@, "subPath"@]);
    assert(d->Object_0["volumeMounts"@]->Array_0[1]->Object_0.dom()
        =~= set!["name"@, "mountPath"@]);
    assert(d->Object_0["volumeMounts"@]->Array_0[2]->Object_0.dom()
        =~= set!["name"@, "mountPath"@]);
}

/// The pod of a headscale server: its container, its configuration and a place for its socket.
pub proof fn headscale_pods_have_their_volumes(
    name: Seq<char>,
    image: Seq<char>,
    resources: Option<Json>,
)
    ensures
        ({
            let d = headscale_pod(name, image, resources);
            &&& d is Object
            &&& d->Object_0.dom() == set!["securityContext"@, "containers"@, "volumes"@]
            &&& d->Object_0["securityContext"@] is Object
            &&& d->Object_0["securityContext"@]->Object_0.dom() == set!["seccompProfile"@]
            &&& d->Object_0["securityContext"@]->Object_0["seccompProfile"@]
                == manifest::default_seccomp()
            &&& d->Object_0["containers"@] is Array
            &&& d->Object_0["containers"@]->Array_0.len() == 1
            &&& d->Object_0["containers"@]->Array_0[0] == headscale_container(image, resources)
            &&& d->Object_0["volumes"@] is Array
            &&& d->Object_0["volumes"@]->Array_0.len() == 2
            &&& d->Object_0["volumes"@]->Array_0[0] == manifest::config_volume("config"@, name)
            &&& d->Object_0["volumes"@]->Array_0[1] is Object
            &&& d->Object_0["volumes"@]->Array_0[1]->Object_0.dom() == set!["name"@, "emptyDir"@]
            &&& d->Object_0["volumes"@]->Array_0[1]->Object_0["name"@]
                == Json::Text("var-run-headscale"@)
            &&& d->Object_0["volumes"@]->Array_0[1]->Object_0["emptyDir"@]
                == Json::Object(Map::empty())
        }),
{
    manifest::names_differ();
    broadcast use json::object_grows;

    let d = headscale_pod(name, image, resources);
    assert(d->Object_0.dom() =~= set!["securityContext"@, "containers"@, "volumes"@]);
    assert(d->Object_0["securityContext"@]->Object_0.dom() =~= set!["seccompProfile"@]);
    assert(d->Object_0["volumes"@]->Array_0[1]->Object_0.dom() =~= set!["name"@, "emptyDir"@]);
}

/// The StatefulSet of a headscale server: one pod, which carries the digest of its configuration,
/// with storage of its own.
pub proof fn one_headscale_server_runs(
    name: Seq<char>,
    image: Seq<char>,
    storage: StorageSpec,
    resources: Option<Json>,
    config_hash: Seq<char>,
)
    ensures
        ({
            let d = statefulset(name, image, storage, resources, config_hash);
            &&& d is Object
            &&& d->Object_0.dom() == set!["apiVersion"@, "kind"@, "metadata"@, "spec"@]
            &&& d->Object_0["apiVersion"@] == Json::Text("apps/v1"@)
            &&& d->Object_0["kind"@] == Json::Text("StatefulSet"@)
            &&& d->Object_0["metadata"@] is Object
            &&& d->Object_0["metadata"@]->Object_0.dom() == set!["name"@]
            &&& d->Object_0["metadata"@]->Object_0["name"@] == Json::Text(name)
            &&& d->Object_0["spec"@] is Object
            &&& d->Object_0["spec"@]->Object_0.dom()
                == set!["replicas"@, "serviceName"@, "template"@, "volumeClaimTemplates"@]
            &&& d->Object_0["spec"@]->Object_0["replicas"@] == json::whole(1)
            &&& d->Object_0["spec"@]->Object_0["serviceName"@] == Json::Text(name)
            &&& d->Object_0["spec"@]->Object_0["template"@] is Object
            &&& d->Object_0["spec"@]->Object_0["template"@]->Object_0.dom()
                == set!["metadata"@, "spec"@]
            &&& d->Object_0["spec"@]->Object_0["template"@]->Object_0["metadata"@] is Object
            &&& d->Object_0["spec"@]->Object_0["template"@]->Object_0["metadata"@]->Object_0.dom()
                == set!["annotations"@]
            &&& d->Object_0["spec"@]->Object_0["template"@]->Object_0["metadata"@]
                ->Object_0["annotations"@] is Object
            &&& d->Object_0["spec"@]->Object_0["template"@]->Object_0["metadata"@]
                ->Object_0["annotations"@]->Object_0.dom() == set!["headmaster/config-hash"@]
            &&& d->Object_0["spec"@]->Object_0["template"@]->Object_0["metadata"@]
                ->Object_0["annotations"@]->Object_0["headmaster/config-hash"@]
                == Json::Text(config_hash)
            &&& d->Object_0["spec"@]->Object_0["template"@]->Object_0["spec"@]
                == headscale_pod(name, image, resources)
            &&& d->Object_0["spec"@]->Object_0["volumeClaimTemplates"@] is Array
            &&& d->Object_0["spec"@]->Object_0["volumeClaimTemplates"@]->Array_0.len() == 1
            &&& d->Object_0["spec"@]->Object_0["volumeClaimTemplates"@]->Array_0[0]
                == manifest::data_claim(storage)
        }),
{
    manifest::names_differ();
    broadcast use json::object_grows;

    let d = statefulset(name, image, storage, resources, config_hash);
    assert(d->Object_0.dom() =~= set!["apiVersion"@, "kind"@, "metadata"@, "spec"@]);
    assert(d->Object_0["metadata"@]->Object_0.dom() =~= set!["name"@]);
    assert(d->Object_0["spec"@]->Object_0.dom()
        =~= set!["replicas"@, "serviceName"@, "template"@, "volumeClaimTemplates"@]);
    assert(d->Object_0["spec"@]->Object_0["template"@]->Object_0.dom()
        =~= set!["metadata"@, "spec"@]);
    assert(d->Object_0["spec"@]->Object_0["template"@]->Object_0["metadata"@]->Object_0.dom()
        =~= set!["annotations"@]);
    assert(d->Object_0["spec"@]->Object_0["template"@]->Object_0["metadata"@]
        ->Object_0["annotations"@]->Object_0.dom() =~= set!["headmaster/config-hash"@]);
}

/// The Service of a headscale server leads to all of its ports.
pub proof fn headscale_is_reached_at_its_ports(name: Seq<char>)
    ensures
        ({
            let d = service(name);
            &&& d is Object
            &&& d->Object_0.dom() == set!["apiVersion"@, "kind"@, "metadata"@, "spec"@]
            &&& d->Object_0["apiVersion"@] == Json::Text("v1"@)
            &&& d->Object_0["kind"@] == Json::Text("Service"@)
            &&& d->Object_0["metadata"@] is Object
            &&& d->Object_0["metadata"@]->Object_0.dom() == set!["name"@]
            &&& d->Object_0["metadata"@]->Object_0["name"@] == Json::Text(name)
            &&& d->Object_0["spec"@] is Object
            &&& d->Object_0["spec"@]->Object_0.dom() == set!["ports"@]
            &&& d->Object_0["spec"@]->Object_0["ports"@] is Array
            &&& d->Object_0["spec"@]->Object_0["ports"@]->Array_0.len() == 3
            &&& d->Object_0["spec"@]->Object_0["ports"@]->Array_0[0]
                == manifest::service_port("http"@, 8080)
            &&& d->Object_0["spec"@]->Object_0["ports"@]->Array_0[1]
                == manifest::service_port("metrics"@, 9090)
            &&& d->Object_0["spec"@]->Object_0["ports"@]->Array_0[2]
                == manifest::service_port("grpc"@, 50443)
        }),
{
    manifest::names_differ();
    broadcast use json::object_grows;

    let d = service(name);
    assert(d->Object_0.dom() =~= set!["apiVersion"@, "kind"@, "metadata"@, "spec"@]);
    assert(d->Object_0["metadata"@]->Object_0.dom() =~= set!["name"@]);
    assert(d->Object_0["spec"@]->Object_0.dom() =~= set!["ports"@]);
}

/// The digest of a text is that of its UTF-8 bytes, with two hexadecimal digits for each
/// byte, the higher one first.
pub proof fn digests_are_hexadecimal(s: Seq<char>, i: int)
    requires
        0 <= i < digest::sha256(vstd::utf8::encode_utf8(s)).len(),
    ensures
        ({
            let bytes = digest::sha256(vstd::utf8::encode_utf8(s));
            &&& text_hash(s).len() == 2 * bytes.len()
            &&& digest::hex_value(text_hash(s)[2 * i]) * 16 + digest::hex_value(
                text_hash(s)[2 * i + 1],
            ) == bytes[i]
        }),
{
}

} // verus!
