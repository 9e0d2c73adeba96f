//! The SCIM service of an instance.
use crate::controllers::headscale_instance::builders::PORT_SCIM;
use crate::controllers::manifest;
use crate::digest;
use crate::json;
use crate::json::{Fields, Json, List};
use crate::text;
use crate::types::headscale_instance::ScimSpec;
use rand::RngCore;
use vstd::prelude::*;

verus! {

/// The name of an instance's SCIM service.
pub open spec fn service_name(instance: Seq<char>) -> Seq<char> {
    "headscale-scim-"@ + instance
}

/// The name of the Secret with its bearer token.
pub open spec fn token_secret_name(instance: Seq<char>) -> Seq<char> {
    "headscale-scim-token-"@ + instance
}

/// The name of an instance's SCIM service.
pub fn scim_name(instance: &str) -> (r: String)
    ensures
        r@ == service_name(instance@),
{
    text::cat2("headscale-scim-", instance)
}

/// The name of the Secret with its bearer token.
pub fn scim_token_name(instance: &str) -> (r: String)
    ensures
        r@ == token_secret_name(instance@),
{
    text::cat2("headscale-scim-token-", instance)
}

/// `fill_bytes` of `rand::thread_rng`: puts random bytes in the place of those
/// that are there. Nothing is known of them.
#[verifier::external_body]
fn fill_bytes(bytes: &mut Vec<u8>)
    ensures
        final(bytes)@.len() == old(bytes)@.len(),
{
    rand::thread_rng().fill_bytes(bytes)
}

/// A Secret with one text entry.
pub open spec fn text_secret(name: Seq<char>, entry: Seq<char>, value: Seq<char>) -> Json {
    json::object(
        manifest::document("v1"@, "Secret"@, name).push(
            ("stringData"@, json::object(Seq::empty().push((entry, Json::Text(value))))),
        ),
    )
}

/// Builds a Secret with one text entry.
pub fn new_text_secret(name: &str, entry: &str, value: &str) -> (r: serde_json::Value)
    ensures
        json::json(r) == text_secret(name@, entry@, value@),
{
    manifest::new_document("v1", "Secret", name).with(
        "stringData",
        Fields::new().with_text(entry, value).done(),
    ).done()
}

/// The Secret with the bearer token that these bytes make.
pub fn token_secret(instance: &str, bytes: &Vec<u8>) -> (r: serde_json::Value)
    ensures
        json::json(r) == text_secret(
            token_secret_name(instance@),
            "SCIM_BEARER_TOKEN"@,
            digest::hex_text(bytes@),
        ),
{
    let name: String = scim_token_name(instance);
    let token: String = digest::hex(bytes);
    new_text_secret(name.as_str(), "SCIM_BEARER_TOKEN", token.as_str())
}

/// The bearer token in the entry of that Secret.
pub fn read_scim_token(entry: Option<Vec<u8>>) -> (r: Result<String, &'static str>)
    ensures
        match entry {
            Some(bytes) => r matches Ok(token) && token@ == text::readable(bytes@),
            None => r matches Err(why) && why@ == "SCIM_BEARER_TOKEN key not found in secret"@,
        },
{
    match entry {
        Some(bytes) => Ok(text::from_utf8_lossy(&bytes)),
        None => Err("SCIM_BEARER_TOKEN key not found in secret"),
    }
}

/// The Secret with a new bearer token, where there is none yet. The token is 32
/// random bytes in hexadecimal.
pub fn ensure_scim_token(exists: bool, instance: &str) -> (r: Option<serde_json::Value>)
    ensures
        r is None <==> exists,
        r matches Some(secret) ==> exists|bytes: Seq<u8>|
            bytes.len() == 32 && json::json(secret) == text_secret(
                token_secret_name(instance@),
                "SCIM_BEARER_TOKEN"@,
                #[trigger] digest::hex_text(bytes),
            ),
{
    if exists {
        return None;
    }
    let mut bytes: Vec<u8> = vec![0u8; 32];
    fill_bytes(&mut bytes);
    Some(token_secret(instance, &bytes))
}

/// An environment variable.
pub open spec fn env(name: Seq<char>, value: Seq<char>) -> Json {
    json::object(Seq::empty().push(("name"@, Json::Text(name))).push(("value"@, Json::Text(value))))
}

fn new_env(name: &str, value: &str) -> (r: serde_json::Value)
    ensures
        json::json(r) == env(name@, value@),
{
    Fields::new().with_text("name", name).with_text("value", value).done()
}

/// The environment of the SCIM service: where headscale is, and those settings
/// that the instance makes.
pub open spec fn scim_env(scim: ScimSpec, instance: Seq<char>, namespace: Seq<char>) -> Seq<Json> {
    let url = Seq::empty().push(
        env(
            "HEADSCALE_URL"@,
            "http://headscale-server-"@ + instance + "."@ + namespace + ".svc:50443"@,
        ),
    );
    let keyed = match scim.policy_user_key {
        Some(key) => url.push(env("POLICY_USER_KEY"@, key@)),
        None => url,
    };
    let issued = match scim.oidc_issuer {
        Some(issuer) => keyed.push(env("OIDC_ISSUER"@, issuer@)),
        None => keyed,
    };
    if scim.expire_nodes_on_change {
        issued.push(env("EXPIRE_NODES_ON_CHANGE"@, "true"@))
    } else {
        issued
    }
}

fn build_env(scim: &ScimSpec, instance: &str, namespace: &str) -> (r: serde_json::Value)
    ensures
        json::json(r) == Json::Array(scim_env(*scim, instance@, namespace@)),
{
    let url: String = text::cat5(
        "http://headscale-server-",
        instance,
        ".",
        namespace,
        ".svc:50443",
    );
    let mut out: List = List::new().with(new_env("HEADSCALE_URL", url.as_str()));
    if let Some(key) = &scim.policy_user_key {
        out = out.with(new_env("POLICY_USER_KEY", key.as_str()));
    }
    if let Some(issuer) = &scim.oidc_issuer {
        out = out.with(new_env("OIDC_ISSUER", issuer.as_str()));
    }
    if scim.expire_nodes_on_change {
        out = out.with(new_env("EXPIRE_NODES_ON_CHANGE", "true"));
    }
    out.done()
}

/// The environment that a Secret must give.
pub open spec fn env_secret(name: Seq<char>) -> Json {
    json::object(
        Seq::empty().push(
            (
                "secretRef"@,
                json::object(
                    Seq::empty().push(("name"@, Json::Text(name))).push(
                        ("optional"@, Json::Bool(false)),
                    ),
                ),
            ),
        ),
    )
}

fn new_env_secret(name: &str) -> (r: serde_json::Value)
    ensures
        json::json(r) == env_secret(name@),
{
    Fields::new().with(
        "secretRef",
        Fields::new().with_text("name", name).with("optional", json::of_bool(false)).done(),
    ).done()
}

/// The container of the SCIM service.
pub open spec fn scim_container(
    scim: ScimSpec,
    image: Seq<char>,
    instance: Seq<char>,
    namespace: Seq<char>,
) -> Json {
    json::object(
        Seq::empty().push(("name"@, Json::Text("scim"@))).push(("image"@, Json::Text(image))).push(
            ("command"@, Json::Array(seq![Json::Text("/usr/local/bin/headmaster-scim"@)])),
        ).push(("securityContext"@, manifest::hardened(true))).push(
            ("env"@, Json::Array(scim_env(scim, instance, namespace))),
        ).push(
            (
                "envFrom"@,
                Json::Array(
                    Seq::empty().push(env_secret("headscale-api-key-"@ + instance)).push(
                        env_secret(token_secret_name(instance)),
                    ),
                ),
            ),
        ).push(("ports"@, Json::Array(seq![manifest::container_port(8081, "scim"@)]))).push(
            (
                "volumeMounts"@,
                Json::Array(seq![json::object(manifest::mount("data"@, "/data"@))]),
            ),
        ).push(("readinessProbe"@, manifest::http_probe("/readyz"@, "scim"@, 5, 5))).push(
            ("livenessProbe"@, manifest::http_probe("/livez"@, "scim"@, 30, 10)),
        ),
    )
}

fn build_container(scim: &ScimSpec, image: &str, instance: &str, namespace: &str) -> (r:
    serde_json::Value)
    ensures
        json::json(r) == scim_container(*scim, image@, instance@, namespace@),
{
    let api_key: String = text::cat2("headscale-api-key-", instance);
    let token: String = scim_token_name(instance);
    let env_from: serde_json::Value = List::new().with(new_env_secret(api_key.as_str())).with(
        new_env_secret(token.as_str()),
    ).done();
    Fields::new().with_text("name", "scim").with_text("image", image).with(
        "command",
        List::new().with_text("/usr/local/bin/headmaster-scim").done(),
    ).with("securityContext", manifest::new_hardened(true)).with(
        "env",
        build_env(scim, instance, namespace),
    ).with("envFrom", env_from).with(
        "ports",
        List::new().with(manifest::new_container_port(PORT_SCIM, "scim")).done(),
    ).with(
        "volumeMounts",
        List::new().with(manifest::new_mount("data", "/data").done()).done(),
    ).with("readinessProbe", manifest::new_http_probe("/readyz", "scim", 5, 5)).with(
        "livenessProbe",
        manifest::new_http_probe("/livez", "scim", 30, 10),
    ).done()
}

/// The StatefulSet of the SCIM service.
pub open spec fn scim_statefulset(
    scim: ScimSpec,
    image: Seq<char>,
    instance: Seq<char>,
    namespace: Seq<char>,
) -> Json {
    let security = json::object(
        manifest::unprivileged().push(("fsGroup"@, json::whole(65532))).push(
            ("seccompProfile"@, manifest::default_seccomp()),
        ),
    );
    let pod = json::object(
        Seq::empty().push(("securityContext"@, security)).push(
            (
                "containers"@,
                Json::Array(seq![scim_container(scim, image, instance, namespace)]),
            ),
        ),
    );
    json::object(
        manifest::document("apps/v1"@, "StatefulSet"@, service_name(instance)).push(
            (
                "spec"@,
                json::object(
                    Seq::empty().push(("replicas"@, json::whole(1))).push(
                        ("serviceName"@, Json::Text(service_name(instance))),
                    ).push(("template"@, json::object(Seq::empty().push(("spec"@, pod))))).push(
                        (
                            "volumeClaimTemplates"@,
                            Json::Array(seq![manifest::data_claim(scim.storage)]),
                        ),
                    ),
                ),
            ),
        ),
    )
}

fn build_statefulset(scim: &ScimSpec, image: &str, instance: &str, namespace: &str) -> (r:
    serde_json::Value)
    ensures
        json::json(r) == scim_statefulset(*scim, image@, instance@, namespace@),
{
    let name: String = scim_name(instance);
    let security: serde_json::Value = manifest::new_unprivileged().with(
        "fsGroup",
        json::of_number(65532),
    ).with("seccompProfile", manifest::new_default_seccomp()).done();
    let pod: serde_json::Value = Fields::new().with("securityContext", security).with(
        "containers",
        List::new().with(build_container(scim, image, instance, namespace)).done(),
    ).done();
    let spec: serde_json::Value = Fields::new().with("replicas", json::of_number(1)).with_text(
        "serviceName",
        name.as_str(),
    ).with("template", Fields::new().with("spec", pod).done()).with(
        "volumeClaimTemplates",
        List::new().with(manifest::new_data_claim(&scim.storage)).done(),
    ).done();
    manifest::new_document("apps/v1", "StatefulSet", name.as_str()).with("spec", spec).done()
}

/// The Service in front of the SCIM service.
pub open spec fn scim_service(instance: Seq<char>) -> Json {
    json::object(
        manifest::document("v1"@, "Service"@, service_name(instance)).push(
            (
                "spec"@,
                json::object(
                    Seq::empty().push(
                        ("ports"@, Json::Array(seq![manifest::service_port("scim"@, 8081)])),
                    ),
                ),
            ),
        ),
    )
}

fn build_service(instance: &str) -> (r: serde_json::Value)
    ensures
        json::json(r) == scim_service(instance@),
{
    let name: String = scim_name(instance);
    manifest::new_document("v1", "Service", name.as_str()).with(
        "spec",
        Fields::new().with(
            "ports",
            List::new().with(manifest::new_service_port("scim", PORT_SCIM)).done(),
        ).done(),
    ).done()
}

/// The resources of the SCIM service, in the order in which they are applied after
/// its token.
pub struct ScimResources {
    pub statefulset: serde_json::Value,
    pub service: serde_json::Value,
}

/// Builds the resources of an instance's SCIM service.
pub fn ensure_scim(scim: &ScimSpec, image: &str, instance: &str, namespace: &str) -> (r:
    ScimResources)
    ensures
        json::json(r.statefulset) == scim_statefulset(*scim, image@, instance@, namespace@),
        json::json(r.service) == scim_service(instance@),
{
    ScimResources {
        statefulset: build_statefulset(scim, image, instance, namespace),
        service: build_service(instance),
    }
}

/// What a leftover of the SCIM service is.
#[derive(Clone, Copy, Debug, PartialEq, Eq, Structural)]
pub enum LeftoverKind {
    StatefulSet,
    Service,
    Secret,
    Claim,
}

/// A leftover of the SCIM service.
pub struct Leftover {
    pub kind: LeftoverKind,
    pub name: String,
}

/// A [`Leftover`] as plain values.
pub struct LeftoverV {
    pub kind: LeftoverKind,
    pub name: Seq<char>,
}

impl DeepView for Leftover {
    type V = LeftoverV;

    open spec fn deep_view(&self) -> LeftoverV {
        LeftoverV { kind: self.kind, name: self.name@ }
    }
}

/// What is deleted, in this order, when an instance has no SCIM service.
pub fn delete_scim_if_exists(instance: &str) -> (r: Vec<Leftover>)
    ensures
        r.deep_view() == Seq::<LeftoverV>::empty().push(
            LeftoverV { kind: LeftoverKind::StatefulSet, name: service_name(instance@) },
        ).push(LeftoverV { kind: LeftoverKind::Service, name: service_name(instance@) }).push(
            LeftoverV { kind: LeftoverKind::Secret, name: token_secret_name(instance@) },
        ).push(
            LeftoverV {
                kind: LeftoverKind::Claim,
                name: "data-headscale-scim-"@ + instance@ + "-0"@,
            },
        ),
{
    let mut out: Vec<Leftover> = Vec::new();
    out.push(Leftover { kind: LeftoverKind::StatefulSet, name: scim_name(instance) });
    out.push(Leftover { kind: LeftoverKind::Service, name: scim_name(instance) });
    out.push(Leftover { kind: LeftoverKind::Secret, name: scim_token_name(instance) });
    out.push(
        Leftover {
            kind: LeftoverKind::Claim,
            name: text::cat3("data-headscale-scim-", instance, "-0"),
        },
    );
    proof {
        assert(out.deep_view() =~= Seq::<LeftoverV>::empty().push(
            LeftoverV { kind: LeftoverKind::StatefulSet, name: service_name(instance@) },
        ).push(LeftoverV { kind: LeftoverKind::Service, name: service_name(instance@) }).push(
            LeftoverV { kind: LeftoverKind::Secret, name: token_secret_name(instance@) },
        ).push(
            LeftoverV {
                kind: LeftoverKind::Claim,
                name: "data-headscale-scim-"@ + instance@ + "-0"@,
            },
        ));
    }
    out
}

// Laws.

/// A Secret holds one entry.
pub proof fn secrets_hold_one_entry(name: Seq<char>, entry: Seq<char>, value: Seq<char>)
    ensures
        ({
            let d = text_secret(name, entry, value);
            &&& d is Object
            &&& d->Object_0.dom() == set!["apiVersion"@, "kind"@, "metadata"@, "stringData"@]
            &&& d->Object_0["apiVersion"@] == Json::Text("v1"@)
            &&& d->Object_0["kind"@] == Json::Text("Secret"@)
            &&& d->Object_0["metadata"@] is Object
            &&& d->Object_0["metadata"@]->Object_0.dom() == set!["name"@]
            &&& d->Object_0["metadata"@]->Object_0["name"@] == Json::Text(name)
            &&& d->Object_0["stringData"@]
                == Json::Object(Map::empty().insert(entry, Json::Text(value)))
        }),
{
    manifest::names_differ();
    broadcast use json::object_grows;

    let d = text_secret(name, entry, value);
    assert(d->Object_0.dom() =~= set!["apiVersion"@, "kind"@, "metadata"@, "stringData"@]);
    assert(d->Object_0["metadata"@]->Object_0.dom() =~= set!["name"@]);
}

/// A variable has a name and a value.
pub proof fn variables_have_names_and_values(name: Seq<char>, value: Seq<char>)
    ensures
        ({
            let d = env(name, value);
            &&& d is Object
            &&& d->Object_0.dom() == set!["name"@, "value"@]
            &&& d->Object_0["name"@] == Json::Text(name)
            &&& d->Object_0["value"@] == Json::Text(value)
        }),
{
    manifest::names_differ();
    broadcast use json::object_grows;

    let d = env(name, value);
    assert(d->Object_0.dom() =~= set!["name"@, "value"@]);
}

/// The environment that a Secret gives must be there.
pub proof fn secrets_must_be_there(name: Seq<char>)
    ensures
        ({
            let d = env_secret(name);
            &&& d is Object
            &&& d->Object_0.dom() == set!["secretRef"@]
            &&& d->Object_0["secretRef"@] is Object
            &&& d->Object_0["secretRef"@]->Object_0.dom() == set!["name"@, "optional"@]
            &&& d->Object_0["secretRef"@]->Object_0["name"@] == Json::Text(name)
            &&& d->Object_0["secretRef"@]->Object_0["optional"@] == Json::Bool(false)
        }),
{
    manifest::names_differ();
    broadcast use json::object_grows;

    let d = env_secret(name);
    assert(d->Object_0.dom() =~= set!["secretRef"@]);
    assert(d->Object_0["secretRef"@]->Object_0.dom() =~= set!["name"@, "optional"@]);
}

/// The container of the SCIM service: what it runs, the settings and the credentials that it has,
/// and where it keeps its data.
pub proof fn scim_is_served_from_its_container(
    scim: ScimSpec,
    image: Seq<char>,
    instance: Seq<char>,
    namespace: Seq<char>,
)
    ensures
        ({
            let d = scim_container(scim, image, instance, namespace);
            &&& d is Object
            &&& d->Object_0.dom()
                == set!["name"@, "image"@, "command"@, "securityContext"@, "env"@, "envFrom"@,
                "ports"@, "volumeMounts"@, "readinessProbe"@, "livenessProbe"@]
            &&& d->Object_0["name"@] == Json::Text("scim"@)
            &&& d->Object_0["image"@] == Json::Text(image)
            &&& d->Object_0["command"@] is Array
            &&& d->Object_0["command"@]->Array_0.len() == 1
            &&& d->Object_0["command"@]->Array_0[0] == Json::Text("/usr/local/bin/headmaster-scim"@)
            &&& d->Object_0["securityContext"@] == manifest::hardened(true)
            &&& d->Object_0["env"@] == Json::Array(scim_env(scim, instance, namespace))
            &&& d->Object_0["envFrom"@] is Array
            &&& d->Object_0["envFrom"@]->Array_0.len() == 2
            &&& d->Object_0["envFrom"@]->Array_0[0] == env_secret("headscale-api-key-"@ + instance)
            &&& d->Object_0["envFrom"@]->Array_0[1]
                == env_secret("headscale-scim-token-"@ + instance)
            &&& d->Object_0["ports"@] is Array
            &&& d->Object_0["ports"@]->Array_0.len() == 1
            &&& d->Object_0["ports"@]->Array_0[0] == manifest::container_port(8081, "scim"@)
            &&& d->Object_0["volumeMounts"@] is Array
            &&& d->Object_0["volumeMounts"@]->Array_0.len() == 1
            &&& d->Object_0["volumeMounts"@]->Array_0[0] is Object
            &&& d->Object_0["volumeMounts"@]->Array_0[0]->Object_0.dom()
                == set!["name"@, "mountPath"@]
            &&& d->Object_0["volumeMounts"@]->Array_0[0]->Object_0["name"@] == Json::Text("data"@)
            &&& d->Object_0["volumeMounts"@]->Array_0[0]->Object_0["mountPath"@]
                == Json::Text("/data"@)
            &&& d->Object_0["readinessProbe"@] == manifest::http_probe("/readyz"@, "scim"@, 5, 5)
            &&& d->Object_0["livenessProbe"@] == manifest::http_probe("/livez"@, "scim"@, 30, 10)
        }),
{
    manifest::names_differ();
    broadcast use json::object_grows;

    let d = scim_container(scim, image, instance, namespace);
    assert(d->Object_0.dom()
        =~= set!["name"@, "image"@, "command"@, "securityContext"@, "env"@, "envFrom"@, "ports"@,
        "volumeMounts"@, "readinessProbe"@, "livenessProbe"@]);
    assert(d->Object_0["volumeMounts"@]->Array_0[0]->Object_0.dom()
        =~= set!["name"@, "mountPath"@]);
}

/// The StatefulSet of the SCIM service: one unprivileged pod, with storage of its own.
pub proof fn one_scim_service_runs(
    scim: ScimSpec,
    image: Seq<char>,
    instance: Seq<char>,
    namespace: Seq<char>,
)
    ensures
        ({
            let d = scim_statefulset(scim, image, instance, namespace);
            &&& d is Object
            &&& d->Object_0.dom() == set!["apiVersion"@, "kind"@, "metadata"@, "spec"@]
            &&& d->Object_0["apiVersion"@] == Json::Text("apps/v1"@)
            &&& d->Object_0["kind"@] == Json::Text("StatefulSet"@)
            &&& d->Object_0["metadata"@] is Object
            &&& d->Object_0["metadata"@]->Object_0.dom() == set!["name"@]
            &&& d->Object_0["metadata"@]->Object_0["name"@]
                == Json::Text("headscale-scim-"@ + instance)
            &&& d->Object_0["spec"@] is Object
            &&& d->Object_0["spec"@]->Object_0.dom()
                == set!["replicas"@, "serviceName"@, "template"@, "volumeClaimTemplates"@]
            &&& d->Object_0["spec"@]->Object_0["replicas"@] == json::whole(1)
            &&& d->Object_0["spec"@]->Object_0["serviceName"@]
                == Json::Text("headscale-scim-"@ + instance)
            &&& d->Object_0["spec"@]->Object_0["template"@] is Object
            &&& d->Object_0["spec"@]->Object_0["template"@]->Object_0.dom() == set!["spec"@]
            &&& d->Object_0["spec"@]->Object_0["template"@]->Object_0["spec"@] is Object
            &&& d->Object_0["spec"@]->Object_0["template"@]->Object_0["spec"@]->Object_0.dom()
                == set!["securityContext"@, "containers"@]
            &&& d->Object_0["spec"@]->Object_0["template"@]->Object_0["spec"@]
                ->Object_0["securityContext"@] is Object
            &&& d->Object_0["spec"@]->Object_0["template"@]->Object_0["spec"@]
                ->Object_0["securityContext"@]->Object_0.dom()
                == set!["runAsNonRoot"@, "runAsUser"@, "runAsGroup"@, "fsGroup"@, "seccompProfile"@]
            &&& d->Object_0["spec"@]->Object_0["template"@]->Object_0["spec"@]
                ->Object_0["securityContext"@]->Object_0["runAsNonRoot"@] == Json::Bool(true)
            &&& d->Object_0["spec"@]->Object_0["template"@]->Object_0["spec"@]
                ->Object_0["securityContext"@]->Object_0["runAsUser"@] == json::whole(65532)
            &&& d->Object_0["spec"@]->Object_0["template"@]->Object_0["spec"@]
                ->Object_0["securityContext"@]->Object_0["runAsGroup"@] == json::whole(65532)
            &&& d->Object_0["spec"@]->Object_0["template"@]->Object_0["spec"@]
                ->Object_0["securityContext"@]->Object_0["fsGroup"@] == json::whole(65532)
            &&& d->Object_0["spec"@]->Object_0["template"@]->Object_0["spec"@]
                ->Object_0["securityContext"@]->Object_0["seccompProfile"@]
                == manifest::default_seccomp()
            &&& d->Object_0["spec"@]->Object_0["template"@]->Object_0["spec"@]
                ->Object_0["containers"@] is Array
            &&& d->Object_0["spec"@]->Object_0["template"@]->Object_0["spec"@]
                ->Object_0["containers"@]->Array_0.len() == 1
            &&& d->Object_0["spec"@]->Object_0["template"@]->Object_0["spec"@]
                ->Object_0["containers"@]->Array_0[0]
                == scim_container(scim, image, instance, namespace)
            &&& d->Object_0["spec"@]->Object_0["volumeClaimTemplates"@] is Array
            &&& d->Object_0["spec"@]->Object_0["volumeClaimTemplates"@]->Array_0.len() == 1
            &&& d->Object_0["spec"@]->Object_0["volumeClaimTemplates"@]->Array_0[0]
                == manifest::data_claim(scim.storage)
        }),
{
    manifest::names_differ();
    broadcast use json::object_grows;

    let d = scim_statefulset(scim, image, instance, namespace);
    assert(d->Object_0.dom() =~= set!["apiVersion"@, "kind"@, "metadata"@, "spec"@]);
    assert(d->Object_0["metadata"@]->Object_0.dom() =~= set!["name"@]);
    assert(d->Object_0["spec"@]->Object_0.dom()
        =~= set!["replicas"@, "serviceName"@, "template"@, "volumeClaimTemplates"@]);
    assert(d->Object_0["spec"@]->Object_0["template"@]->Object_0.dom() =~= set!["spec"@]);
    assert(d->Object_0["spec"@]->Object_0["template"@]->Object_0["spec"@]->Object_0.dom()
        =~= set!["securityContext"@, "containers"@]);
    assert(d->Object_0["spec"@]->Object_0["template"@]->Object_0["spec"@]
        ->Object_0["securityContext"@]->Object_0.dom()
        =~= set!["runAsNonRoot"@, "runAsUser"@, "runAsGroup"@, "fsGroup"@, "seccompProfile"@]);
}

/// The Service in front of the SCIM service leads to its port.
pub proof fn scim_is_reached_at_its_port(instance: Seq<char>)
    ensures
        ({
            let d = scim_service(instance);
            &&& d is Object
            &&& d->Object_0.dom() == set!["apiVersion"@, "kind"@, "metadata"@, "spec"@]
            &&& d->Object_0["apiVersion"@] == Json::Text("v1"@)
            &&& d->Object_0["kind"@] == Json::Text("Service"@)
            &&& d->Object_0["metadata"@] is Object
            &&& d->Object_0["metadata"@]->Object_0.dom() == set!["name"@]
            &&& d->Object_0["metadata"@]->Object_0["name"@]
                == Json::Text("headscale-scim-"@ + instance)
            &&& d->Object_0["spec"@] is Object
            &&& d->Object_0["spec"@]->Object_0.dom() == set!["ports"@]
            &&& d->Object_0["spec"@]->Object_0["ports"@] is Array
            &&& d->Object_0["spec"@]->Object_0["ports"@]->Array_0.len() == 1
            &&& d->Object_0["spec"@]->Object_0["ports"@]->Array_0[0]
                == manifest::service_port("scim"@, 8081)
        }),
{
    manifest::names_differ();
    broadcast use json::object_grows;

    let d = scim_service(instance);
    assert(d->Object_0.dom() =~= set!["apiVersion"@, "kind"@, "metadata"@, "spec"@]);
    assert(d->Object_0["metadata"@]->Object_0.dom() =~= set!["name"@]);
    assert(d->Object_0["spec"@]->Object_0.dom() =~= set!["ports"@]);
}

/// What the SCIM service is told: where headscale is, and those settings that the instance
/// makes; nothing of a setting that it does not make.
pub proof fn scim_is_told_the_settings(scim: ScimSpec, instance: Seq<char>, namespace: Seq<char>)
    ensures
        ({
            let told = scim_env(scim, instance, namespace);
            let keyed = if scim.policy_user_key is Some { 1int } else { 0 };
            let issued = if scim.oidc_issuer is Some { 1int } else { 0 };
            let expires = if scim.expire_nodes_on_change { 1int } else { 0 };
            &&& told.len() == 1 + keyed + issued + expires
            &&& told[0] == env(
                "HEADSCALE_URL"@,
                "http://headscale-server-"@ + instance + "."@ + namespace + ".svc:50443"@,
            )
            &&& scim.policy_user_key is Some ==> told[1] == env(
                "POLICY_USER_KEY"@,
                scim.policy_user_key->0@,
            )
            &&& scim.oidc_issuer is Some ==> told[1 + keyed] == env(
                "OIDC_ISSUER"@,
                scim.oidc_issuer->0@,
            )
            &&& scim.expire_nodes_on_change ==> told[1 + keyed + issued] == env(
                "EXPIRE_NODES_ON_CHANGE"@,
                "true"@,
            )
        }),
{
}

/// The names of an instance's SCIM service and of the Secret with its token.
pub proof fn scim_is_named_after_its_instance(instance: Seq<char>)
    ensures
        service_name(instance) == "headscale-scim-"@ + instance,
        token_secret_name(instance) == "headscale-scim-token-"@ + instance,
{
}

/// A leftover stands for its kind and its name.
pub proof fn leftovers_are_seen_as_they_are(leftover: Leftover)
    ensures
        leftover.deep_view().kind == leftover.kind,
        leftover.deep_view().name == leftover.name@,
{
}

} // verus!
