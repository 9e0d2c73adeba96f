//! Parts of Kubernetes documents.
use crate::json;
use crate::json::{Fields, Json, List};
use crate::types::headscale_instance::StorageSpec;
use vstd::prelude::*;

verus! {

/// An object document: API version, kind and name.
pub open spec fn document(api_version: Seq<char>, kind: Seq<char>, name: Seq<char>) -> Seq<
    (Seq<char>, Json),
> {
    Seq::empty().push(("apiVersion"@, Json::Text(api_version))).push(
        ("kind"@, Json::Text(kind)),
    ).push(("metadata"@, json::object(Seq::empty().push(("name"@, Json::Text(name))))))
}

/// Begins an object document.
pub fn new_document(api_version: &str, kind: &str, name: &str) -> (r: Fields)
    ensures
        r@ == document(api_version@, kind@, name@),
{
    Fields::new().with_text("apiVersion", api_version).with_text("kind", kind).with(
        "metadata",
        Fields::new().with_text("name", name).done(),
    )
}

/// A TCP port of a container.
pub open spec fn container_port(port: nat, name: Seq<char>) -> Json {
    json::object(
        Seq::empty().push(("containerPort"@, json::whole(port))).push(
            ("protocol"@, Json::Text("TCP"@)),
        ).push(("name"@, Json::Text(name))),
    )
}

/// A TCP port of a container.
pub fn new_container_port(port: u64, name: &str) -> (r: serde_json::Value)
    ensures
        json::json(r) == container_port(port as nat, name@),
{
    Fields::new().with("containerPort", json::of_number(port)).with_text(
        "protocol",
        "TCP",
    ).with_text("name", name).done()
}

/// A TCP port of a Service that leads to the container port of the same name.
pub open spec fn service_port(name: Seq<char>, port: nat) -> Json {
    json::object(
        Seq::empty().push(("name"@, Json::Text(name))).push(("port"@, json::whole(port))).push(
            ("protocol"@, Json::Text("TCP"@)),
        ).push(("targetPort"@, Json::Text(name))),
    )
}

/// A TCP port of a Service.
pub fn new_service_port(name: &str, port: u64) -> (r: serde_json::Value)
    ensures
        json::json(r) == service_port(name@, port as nat),
{
    Fields::new().with_text("name", name).with("port", json::of_number(port)).with_text(
        "protocol",
        "TCP",
    ).with_text("targetPort", name).done()
}

/// An HTTP probe of a named port that counts as failed after three failures.
pub open spec fn http_probe(path: Seq<char>, port: Seq<char>, delay: nat, period: nat) -> Json {
    json::object(
        Seq::empty().push(
            (
                "httpGet"@,
                json::object(
                    Seq::empty().push(("path"@, Json::Text(path))).push(
                        ("port"@, Json::Text(port)),
                    ).push(("scheme"@, Json::Text("HTTP"@))),
                ),
            ),
        ).push(("initialDelaySeconds"@, json::whole(delay))).push(
            ("periodSeconds"@, json::whole(period)),
        ).push(("failureThreshold"@, json::whole(3))),
    )
}

/// An HTTP probe of a named port.
pub fn new_http_probe(path: &str, port: &str, delay: u64, period: u64) -> (r: serde_json::Value)
    ensures
        json::json(r) == http_probe(path@, port@, delay as nat, period as nat),
{
    let get: serde_json::Value = Fields::new().with_text("path", path).with_text(
        "port",
        port,
    ).with_text("scheme", "HTTP").done();
    Fields::new().with("httpGet", get).with("initialDelaySeconds", json::of_number(delay)).with(
        "periodSeconds",
        json::of_number(period),
    ).with("failureThreshold", json::of_number(3)).done()
}

/// A volume mounted at a path.
pub open spec fn mount(volume: Seq<char>, path: Seq<char>) -> Seq<(Seq<char>, Json)> {
    Seq::empty().push(("name"@, Json::Text(volume))).push(("mountPath"@, Json::Text(path)))
}

/// A volume mounted at a path.
pub fn new_mount(volume: &str, path: &str) -> (r: Fields)
    ensures
        r@ == mount(volume@, path@),
{
    Fields::new().with_text("name", volume).with_text("mountPath", path)
}

/// A volume with the contents of a ConfigMap.
pub open spec fn config_volume(volume: Seq<char>, config_map: Seq<char>) -> Json {
    json::object(
        Seq::empty().push(("name"@, Json::Text(volume))).push(
            (
                "configMap"@,
                json::object(Seq::empty().push(("name"@, Json::Text(config_map)))),
            ),
        ),
    )
}

/// A volume with the contents of a ConfigMap.
pub fn new_config_volume(volume: &str, config_map: &str) -> (r: serde_json::Value)
    ensures
        json::json(r) == config_volume(volume@, config_map@),
{
    Fields::new().with_text("name", volume).with(
        "configMap",
        Fields::new().with_text("name", config_map).done(),
    ).done()
}

/// The runtime's own seccomp profile.
pub open spec fn default_seccomp() -> Json {
    json::object(Seq::empty().push(("type"@, Json::Text("RuntimeDefault"@))))
}

/// The runtime's own seccomp profile.
pub fn new_default_seccomp() -> (r: serde_json::Value)
    ensures
        json::json(r) == default_seccomp(),
{
    Fields::new().with_text("type", "RuntimeDefault").done()
}

/// The user that unprivileged pods run as.
pub open spec fn unprivileged() -> Seq<(Seq<char>, Json)> {
    Seq::empty().push(("runAsNonRoot"@, Json::Bool(true))).push(
        ("runAsUser"@, json::whole(65532)),
    ).push(("runAsGroup"@, json::whole(65532)))
}

/// The user that unprivileged pods run as.
pub fn new_unprivileged() -> (r: Fields)
    ensures
        r@ == unprivileged(),
{
    Fields::new().with("runAsNonRoot", json::of_bool(true)).with(
        "runAsUser",
        json::of_number(65532),
    ).with("runAsGroup", json::of_number(65532))
}

/// A container that gains no rights: no escalation, no capabilities, and where so
/// marked no writable root.
pub open spec fn hardened(read_only_root: bool) -> Json {
    let first = Seq::empty().push(("allowPrivilegeEscalation"@, Json::Bool(false)));
    let second = if read_only_root {
        first.push(("readOnlyRootFilesystem"@, Json::Bool(true)))
    } else {
        first
    };
    json::object(
        second.push(
            (
                "capabilities"@,
                json::object(
                    Seq::empty().push(("drop"@, Json::Array(seq![Json::Text("ALL"@)]))),
                ),
            ),
        ),
    )
}

/// The security context of a container that gains no rights.
pub fn new_hardened(read_only_root: bool) -> (r: serde_json::Value)
    ensures
        json::json(r) == hardened(read_only_root),
{
    let mut out: Fields = Fields::new().with("allowPrivilegeEscalation", json::of_bool(false));
    if read_only_root {
        out = out.with("readOnlyRootFilesystem", json::of_bool(true));
    }
    let none: serde_json::Value = Fields::new().with(
        "drop",
        List::new().with_text("ALL").done(),
    ).done();
    out.with("capabilities", none).done()
}

/// A claim called `data` for storage that one node may write.
pub open spec fn data_claim(storage: StorageSpec) -> Json {
    let modes = Seq::empty().push(
        ("accessModes"@, Json::Array(seq![Json::Text("ReadWriteOnce"@)])),
    );
    let classed = match storage.storage_class {
        Some(class) => modes.push(("storageClassName"@, Json::Text(class@))),
        None => modes,
    };
    json::object(
        document("v1"@, "PersistentVolumeClaim"@, "data"@).push(
            (
                "spec"@,
                json::object(
                    classed.push(
                        (
                            "resources"@,
                            json::object(
                                Seq::empty().push(
                                    (
                                        "requests"@,
                                        json::object(
                                            Seq::empty().push(
                                                ("storage"@, Json::Text(storage.size@)),
                                            ),
                                        ),
                                    ),
                                ),
                            ),
                        ),
                    ),
                ),
            ),
        ),
    )
}

/// A claim called `data` for storage that one node may write.
pub fn new_data_claim(storage: &StorageSpec) -> (r: serde_json::Value)
    ensures
        json::json(r) == data_claim(*storage),
{
    let mut spec: Fields = Fields::new().with(
        "accessModes",
        List::new().with_text("ReadWriteOnce").done(),
    );
    if let Some(class) = &storage.storage_class {
        spec = spec.with_text("storageClassName", class.as_str());
    }
    let requests: serde_json::Value = Fields::new().with_text(
        "storage",
        storage.size.as_str(),
    ).done();
    let resources: serde_json::Value = Fields::new().with("requests", requests).done();
    new_document("v1", "PersistentVolumeClaim", "data").with(
        "spec",
        spec.with("resources", resources).done(),
    ).done()
}

// Laws.

/// What tells the names of the fields of documents apart.
pub proof fn names_differ()
    ensures
        "accessModes"@.len() == 11,
        "accessModes"@[1] == 'c',
        "allowPrivilegeEscalation"@.len() == 24,
        "annotations"@.len() == 11,
        "annotations"@[1] == 'n',
        "apiVersion"@.len() == 10,
        "apiVersion"@[0] == 'a',
        "app.kubernetes.io/instance"@.len() == 26,
        "app.kubernetes.io/managed-by"@.len() == 28,
        "app.kubernetes.io/name"@.len() == 22,
        "app.kubernetes.io/name"@[0] == 'a',
        "args"@.len() == 4,
        "args"@[0] == 'a',
        "backoffLimit"@.len() == 12,
        "backoffLimit"@[0] == 'b',
        "capabilities"@.len() == 12,
        "capabilities"@[0] == 'c',
        "command"@.len() == 7,
        "command"@[0] == 'c',
        "config.yaml"@.len() == 11,
        "config.yaml"@[1] == 'o',
        "configMap"@.len() == 9,
        "configMap"@[0] == 'c',
        "containerPort"@.len() == 13,
        "containerPort"@[0] == 'c',
        "containers"@.len() == 10,
        "containers"@[0] == 'c',
        "containers"@[4] == 'a',
        "controller"@.len() == 10,
        "controller"@[0] == 'c',
        "controller"@[4] == 'r',
        "cpu"@.len() == 3,
        "cpu"@[0] == 'c',
        "data"@.len() == 4,
        "data"@[0] == 'd',
        "data"@[1] == 'a',
        "drop"@.len() == 4,
        "drop"@[0] == 'd',
        "drop"@[1] == 'r',
        "emptyDir"@.len() == 8,
        "emptyDir"@[0] == 'e',
        "env"@.len() == 3,
        "env"@[0] == 'e',
        "envFrom"@.len() == 7,
        "envFrom"@[0] == 'e',
        "failureThreshold"@.len() == 16,
        "failureThreshold"@[0] == 'f',
        "finalizers"@.len() == 10,
        "finalizers"@[0] == 'f',
        "fsGroup"@.len() == 7,
        "fsGroup"@[0] == 'f',
        "headmaster.potatonode.github.io/ingress-name"@.len() == 44,
        "headmaster.potatonode.github.io/ingress-namespace"@.len() == 49,
        "headmaster/config-hash"@.len() == 22,
        "headmaster/config-hash"@[0] == 'h',
        "httpGet"@.len() == 7,
        "httpGet"@[0] == 'h',
        "image"@.len() == 5,
        "image"@[0] == 'i',
        "initialDelaySeconds"@.len() == 19,
        "kind"@.len() == 4,
        "kind"@[0] == 'k',
        "labels"@.len() == 6,
        "labels"@[1] == 'a',
        "limits"@.len() == 6,
        "limits"@[1] == 'i',
        "livenessProbe"@.len() == 13,
        "livenessProbe"@[0] == 'l',
        "matchLabels"@.len() == 11,
        "matchLabels"@[1] == 'a',
        "memory"@.len() == 6,
        "memory"@[1] == 'e',
        "metadata"@.len() == 8,
        "metadata"@[0] == 'm',
        "mountPath"@.len() == 9,
        "mountPath"@[0] == 'm',
        "name"@.len() == 4,
        "name"@[0] == 'n',
        "namespace"@.len() == 9,
        "namespace"@[0] == 'n',
        "optional"@.len() == 8,
        "optional"@[0] == 'o',
        "ownerReferences"@.len() == 15,
        "ownerReferences"@[0] == 'o',
        "path"@.len() == 4,
        "path"@[0] == 'p',
        "path"@[1] == 'a',
        "periodSeconds"@.len() == 13,
        "periodSeconds"@[0] == 'p',
        "port"@.len() == 4,
        "port"@[0] == 'p',
        "port"@[1] == 'o',
        "ports"@.len() == 5,
        "ports"@[0] == 'p',
        "protocol"@.len() == 8,
        "protocol"@[0] == 'p',
        "readOnly"@.len() == 8,
        "readOnly"@[0] == 'r',
        "readOnly"@[2] == 'a',
        "readOnlyRootFilesystem"@.len() == 22,
        "readOnlyRootFilesystem"@[0] == 'r',
        "readinessProbe"@.len() == 14,
        "readinessProbe"@[0] == 'r',
        "replicas"@.len() == 8,
        "replicas"@[0] == 'r',
        "replicas"@[2] == 'p',
        "requests"@.len() == 8,
        "requests"@[0] == 'r',
        "requests"@[2] == 'q',
        "resourceVersion"@.len() == 15,
        "resourceVersion"@[0] == 'r',
        "resources"@.len() == 9,
        "resources"@[0] == 'r',
        "resources"@[1] == 'e',
        "restartPolicy"@.len() == 13,
        "restartPolicy"@[0] == 'r',
        "runAsGroup"@.len() == 10,
        "runAsGroup"@[0] == 'r',
        "runAsNonRoot"@.len() == 12,
        "runAsNonRoot"@[0] == 'r',
        "runAsUser"@.len() == 9,
        "runAsUser"@[0] == 'r',
        "runAsUser"@[1] == 'u',
        "scheme"@.len() == 6,
        "scheme"@[1] == 'c',
        "seccompProfile"@.len() == 14,
        "seccompProfile"@[0] == 's',
        "secretRef"@.len() == 9,
        "secretRef"@[0] == 's',
        "securityContext"@.len() == 15,
        "securityContext"@[0] == 's',
        "selector"@.len() == 8,
        "selector"@[0] == 's',
        "serviceName"@.len() == 11,
        "serviceName"@[1] == 'e',
        "spec"@.len() == 4,
        "spec"@[0] == 's',
        "status"@.len() == 6,
        "status"@[1] == 't',
        "storage"@.len() == 7,
        "storage"@[0] == 's',
        "storage"@[1] == 't',
        "storageClassName"@.len() == 16,
        "storageClassName"@[0] == 's',
        "stringData"@.len() == 10,
        "stringData"@[0] == 's',
        "subPath"@.len() == 7,
        "subPath"@[0] == 's',
        "subPath"@[1] == 'u',
        "targetPort"@.len() == 10,
        "targetPort"@[0] == 't',
        "template"@.len() == 8,
        "template"@[0] == 't',
        "ttlSecondsAfterFinished"@.len() == 23,
        "type"@.len() == 4,
        "type"@[0] == 't',
        "uid"@.len() == 3,
        "uid"@[0] == 'u',
        "value"@.len() == 5,
        "value"@[0] == 'v',
        "volumeClaimTemplates"@.len() == 20,
        "volumeMounts"@.len() == 12,
        "volumeMounts"@[0] == 'v',
        "volumes"@.len() == 7,
        "volumes"@[0] == 'v',
{
    reveal_strlit("accessModes");
    reveal_strlit("allowPrivilegeEscalation");
    reveal_strlit("annotations");
    reveal_strlit("apiVersion");
    reveal_strlit("app.kubernetes.io/instance");
    reveal_strlit("app.kubernetes.io/managed-by");
    reveal_strlit("app.kubernetes.io/name");
    reveal_strlit("args");
    reveal_strlit("backoffLimit");
    reveal_strlit("capabilities");
    reveal_strlit("command");
    reveal_strlit("config.yaml");
    reveal_strlit("configMap");
    reveal_strlit("containerPort");
    reveal_strlit("containers");
    reveal_strlit("controller");
    reveal_strlit("cpu");
    reveal_strlit("data");
    reveal_strlit("drop");
    reveal_strlit("emptyDir");
    reveal_strlit("env");
    reveal_strlit("envFrom");
    reveal_strlit("failureThreshold");
    reveal_strlit("finalizers");
    reveal_strlit("fsGroup");
    reveal_strlit("headmaster.potatonode.github.io/ingress-name");
    reveal_strlit("headmaster.potatonode.github.io/ingress-namespace");
    reveal_strlit("headmaster/config-hash");
    reveal_strlit("httpGet");
    reveal_strlit("image");
    reveal_strlit("initialDelaySeconds");
    reveal_strlit("kind");
    reveal_strlit("labels");
    reveal_strlit("limits");
    reveal_strlit("livenessProbe");
    reveal_strlit("matchLabels");
    reveal_strlit("memory");
    reveal_strlit("metadata");
    reveal_strlit("mountPath");
    reveal_strlit("name");
    reveal_strlit("namespace");
    reveal_strlit("optional");
    reveal_strlit("ownerReferences");
    reveal_strlit("path");
    reveal_strlit("periodSeconds");
    reveal_strlit("port");
    reveal_strlit("ports");
    reveal_strlit("protocol");
    reveal_strlit("readOnly");
    reveal_strlit("readOnlyRootFilesystem");
    reveal_strlit("readinessProbe");
    reveal_strlit("replicas");
    reveal_strlit("requests");
    reveal_strlit("resourceVersion");
    reveal_strlit("resources");
    reveal_strlit("restartPolicy");
    reveal_strlit("runAsGroup");
    reveal_strlit("runAsNonRoot");
    reveal_strlit("runAsUser");
    reveal_strlit("scheme");
    reveal_strlit("seccompProfile");
    reveal_strlit("secretRef");
    reveal_strlit("securityContext");
    reveal_strlit("selector");
    reveal_strlit("serviceName");
    reveal_strlit("spec");
    reveal_strlit("status");
    reveal_strlit("storage");
    reveal_strlit("storageClassName");
    reveal_strlit("stringData");
    reveal_strlit("subPath");
    reveal_strlit("targetPort");
    reveal_strlit("template");
    reveal_strlit("ttlSecondsAfterFinished");
    reveal_strlit("type");
    reveal_strlit("uid");
    reveal_strlit("value");
    reveal_strlit("volumeClaimTemplates");
    reveal_strlit("volumeMounts");
    reveal_strlit("volumes");
}

/// A document says what it is of and what it is called, and nothing else.
pub proof fn documents_name_their_object(api_version: Seq<char>, kind: Seq<char>, name: Seq<char>)
    ensures
        ({
            let d = json::object(document(api_version, kind, name));
            &&& d is Object
            &&& d->Object_0.dom() == set!["apiVersion"@, "kind"@, "metadata"@]
            &&& d->Object_0["apiVersion"@] == Json::Text(api_version)
            &&& d->Object_0["kind"@] == Json::Text(kind)
            &&& d->Object_0["metadata"@] is Object
            &&& d->Object_0["metadata"@]->Object_0.dom() == set!["name"@]
            &&& d->Object_0["metadata"@]->Object_0["name"@] == Json::Text(name)
        }),
{
    names_differ();
    broadcast use json::object_grows;

    let d = json::object(document(api_version, kind, name));
    assert(d->Object_0.dom() =~= set!["apiVersion"@, "kind"@, "metadata"@]);
    assert(d->Object_0["metadata"@]->Object_0.dom() =~= set!["name"@]);
}

/// A port of a container is a TCP port with a number and a name.
pub proof fn container_ports_are_named(port: nat, name: Seq<char>)
    ensures
        ({
            let d = container_port(port, name);
            &&& d is Object
            &&& d->Object_0.dom() == set!["containerPort"@, "protocol"@, "name"@]
            &&& d->Object_0["containerPort"@] == json::whole(port)
            &&& d->Object_0["protocol"@] == Json::Text("TCP"@)
            &&& d->Object_0["name"@] == Json::Text(name)
        }),
{
    names_differ();
    broadcast use json::object_grows;

    let d = container_port(port, name);
    assert(d->Object_0.dom() =~= set!["containerPort"@, "protocol"@, "name"@]);
}

/// A port of a Service is a TCP port that leads to the container port of its own name.
pub proof fn service_ports_lead_to_named_ports(name: Seq<char>, port: nat)
    ensures
        ({
            let d = service_port(name, port);
            &&& d is Object
            &&& d->Object_0.dom() == set!["name"@, "port"@, "protocol"@, "targetPort"@]
            &&& d->Object_0["name"@] == Json::Text(name)
            &&& d->Object_0["port"@] == json::whole(port)
            &&& d->Object_0["protocol"@] == Json::Text("TCP"@)
            &&& d->Object_0["targetPort"@] == Json::Text(name)
        }),
{
    names_differ();
    broadcast use json::object_grows;

    let d = service_port(name, port);
    assert(d->Object_0.dom() =~= set!["name"@, "port"@, "protocol"@, "targetPort"@]);
}

/// A probe asks for a path at a port over HTTP, as early and as often as it says, and gives up
/// at the third failure.
pub proof fn probes_ask_over_http(path: Seq<char>, port: Seq<char>, delay: nat, period: nat)
    ensures
        ({
            let d = http_probe(path, port, delay, period);
            &&& d is Object
            &&& d->Object_0.dom()
                == set!["httpGet"@, "initialDelaySeconds"@, "periodSeconds"@, "failureThreshold"@]
            &&& d->Object_0["httpGet"@] is Object
            &&& d->Object_0["httpGet"@]->Object_0.dom() == set!["path"@, "port"@, "scheme"@]
            &&& d->Object_0["httpGet"@]->Object_0["path"@] == Json::Text(path)
            &&& d->Object_0["httpGet"@]->Object_0["port"@] == Json::Text(port)
            &&& d->Object_0["httpGet"@]->Object_0["scheme"@] == Json::Text("HTTP"@)
            &&& d->Object_0["initialDelaySeconds"@] == json::whole(delay)
            &&& d->Object_0["periodSeconds"@] == json::whole(period)
            &&& d->Object_0["failureThreshold"@] == json::whole(3)
        }),
{
    names_differ();
    broadcast use json::object_grows;

    let d = http_probe(path, port, delay, period);
    assert(d->Object_0.dom()
        =~= set!["httpGet"@, "initialDelaySeconds"@, "periodSeconds"@, "failureThreshold"@]);
    assert(d->Object_0["httpGet"@]->Object_0.dom() =~= set!["path"@, "port"@, "scheme"@]);
}

/// A mount puts a volume at a path.
pub proof fn mounts_put_volumes_at_paths(volume: Seq<char>, path: Seq<char>)
    ensures
        ({
            let d = json::object(mount(volume, path));
            &&& d is Object
            &&& d->Object_0.dom() == set!["name"@, "mountPath"@]
            &&& d->Object_0["name"@] == Json::Text(volume)
            &&& d->Object_0["mountPath"@] == Json::Text(path)
        }),
{
    names_differ();
    broadcast use json::object_grows;

    let d = json::object(mount(volume, path));
    assert(d->Object_0.dom() =~= set!["name"@, "mountPath"@]);
}

/// A volume holds what a ConfigMap holds.
pub proof fn config_volumes_hold_config_maps(volume: Seq<char>, config_map: Seq<char>)
    ensures
        ({
            let d = config_volume(volume, config_map);
            &&& d is Object
            &&& d->Object_0.dom() == set!["name"@, "configMap"@]
            &&& d->Object_0["name"@] == Json::Text(volume)
            &&& d->Object_0["configMap"@] is Object
            &&& d->Object_0["configMap"@]->Object_0.dom() == set!["name"@]
            &&& d->Object_0["configMap"@]->Object_0["name"@] == Json::Text(config_map)
        }),
{
    names_differ();
    broadcast use json::object_grows;

    let d = config_volume(volume, config_map);
    assert(d->Object_0.dom() =~= set!["name"@, "configMap"@]);
    assert(d->Object_0["configMap"@]->Object_0.dom() =~= set!["name"@]);
}

/// The seccomp profile is the runtime's own.
pub proof fn seccomp_is_the_runtimes_own()
    ensures
        ({
            let d = default_seccomp();
            &&& d is Object
            &&& d->Object_0.dom() == set!["type"@]
            &&& d->Object_0["type"@] == Json::Text("RuntimeDefault"@)
        }),
{
    names_differ();
    broadcast use json::object_grows;

    let d = default_seccomp();
    assert(d->Object_0.dom() =~= set!["type"@]);
}

/// Unprivileged pods run as a user and a group that are not root.
pub proof fn unprivileged_pods_are_not_root()
    ensures
        ({
            let d = json::object(unprivileged());
            &&& d is Object
            &&& d->Object_0.dom() == set!["runAsNonRoot"@, "runAsUser"@, "runAsGroup"@]
            &&& d->Object_0["runAsNonRoot"@] == Json::Bool(true)
            &&& d->Object_0["runAsUser"@] == json::whole(65532)
            &&& d->Object_0["runAsGroup"@] == json::whole(65532)
        }),
{
    names_differ();
    broadcast use json::object_grows;

    let d = json::object(unprivileged());
    assert(d->Object_0.dom() =~= set!["runAsNonRoot"@, "runAsUser"@, "runAsGroup"@]);
}

/// A hardened container whose root is read-only cannot write it, gains no privileges and has no
/// capabilities.
pub proof fn hardened_containers_cannot_write_their_root()
    ensures
        ({
            let d = hardened(true);
            &&& d is Object
            &&& d->Object_0.dom()
                == set!["allowPrivilegeEscalation"@, "readOnlyRootFilesystem"@, "capabilities"@]
            &&& d->Object_0["allowPrivilegeEscalation"@] == Json::Bool(false)
            &&& d->Object_0["readOnlyRootFilesystem"@] == Json::Bool(true)
            &&& d->Object_0["capabilities"@] is Object
            &&& d->Object_0["capabilities"@]->Object_0.dom() == set!["drop"@]
            &&& d->Object_0["capabilities"@]->Object_0["drop"@] is Array
            &&& d->Object_0["capabilities"@]->Object_0["drop"@]->Array_0.len() == 1
            &&& d->Object_0["capabilities"@]->Object_0["drop"@]->Array_0[0] == Json::Text("ALL"@)
        }),
{
    names_differ();
    broadcast use json::object_grows;

    let d = hardened(true);
    assert(d->Object_0.dom()
        =~= set!["allowPrivilegeEscalation"@, "readOnlyRootFilesystem"@, "capabilities"@]);
    assert(d->Object_0["capabilities"@]->Object_0.dom() =~= set!["drop"@]);
}

/// A hardened container gains no privileges and has no capabilities.
pub proof fn hardened_containers_gain_no_rights()
    ensures
        ({
            let d = hardened(false);
            &&& d is Object
            &&& d->Object_0.dom() == set!["allowPrivilegeEscalation"@, "capabilities"@]
            &&& d->Object_0["allowPrivilegeEscalation"@] == Json::Bool(false)
            &&& d->Object_0["capabilities"@] is Object
            &&& d->Object_0["capabilities"@]->Object_0.dom() == set!["drop"@]
            &&& d->Object_0["capabilities"@]->Object_0["drop"@] is Array
            &&& d->Object_0["capabilities"@]->Object_0["drop"@]->Array_0.len() == 1
            &&& d->Object_0["capabilities"@]->Object_0["drop"@]->Array_0[0] == Json::Text("ALL"@)
        }),
{
    names_differ();
    broadcast use json::object_grows;

    let d = hardened(false);
    assert(d->Object_0.dom() =~= set!["allowPrivilegeEscalation"@, "capabilities"@]);
    assert(d->Object_0["capabilities"@]->Object_0.dom() =~= set!["drop"@]);
}

/// A claim asks for as much storage as the spec says, of the class that it names, for one node
/// to write.
pub proof fn claims_name_their_class(storage: StorageSpec)
    requires
        storage.storage_class is Some,
    ensures
        ({
            let d = data_claim(storage);
            &&& d is Object
            &&& d->Object_0.dom() == set!["apiVersion"@, "kind"@, "metadata"@, "spec"@]
            &&& d->Object_0["apiVersion"@] == Json::Text("v1"@)
            &&& d->Object_0["kind"@] == Json::Text("PersistentVolumeClaim"@)
            &&& d->Object_0["metadata"@] is Object
            &&& d->Object_0["metadata"@]->Object_0.dom() == set!["name"@]
            &&& d->Object_0["metadata"@]->Object_0["name"@] == Json::Text("data"@)
            &&& d->Object_0["spec"@] is Object
            &&& d->Object_0["spec"@]->Object_0.dom()
                == set!["accessModes"@, "storageClassName"@, "resources"@]
            &&& d->Object_0["spec"@]->Object_0["accessModes"@] is Array
            &&& d->Object_0["spec"@]->Object_0["accessModes"@]->Array_0.len() == 1
            &&& d->Object_0["spec"@]->Object_0["accessModes"@]->Array_0[0]
                == Json::Text("ReadWriteOnce"@)
            &&& d->Object_0["spec"@]->Object_0["storageClassName"@]
                == Json::Text(storage.storage_class->0@)
            &&& d->Object_0["spec"@]->Object_0["resources"@] is Object
            &&& d->Object_0["spec"@]->Object_0["resources"@]->Object_0.dom() == set!["requests"@]
            &&& d->Object_0["spec"@]->Object_0["resources"@]->Object_0["requests"@] is Object
            &&& d->Object_0["spec"@]->Object_0["resources"@]->Object_0["requests"@]->Object_0.dom()
                == set!["storage"@]
            &&& d->Object_0["spec"@]->Object_0["resources"@]->Object_0["requests"@]
                ->Object_0["storage"@] == Json::Text(storage.size@)
        }),
{
    names_differ();
    broadcast use json::object_grows;

    let d = data_claim(storage);
    assert(d->Object_0.dom() =~= set!["apiVersion"@, "kind"@, "metadata"@, "spec"@]);
    assert(d->Object_0["metadata"@]->Object_0.dom() =~= set!["name"@]);
    assert(d->Object_0["spec"@]->Object_0.dom()
        =~= set!["accessModes"@, "storageClassName"@, "resources"@]);
    assert(d->Object_0["spec"@]->Object_0["resources"@]->Object_0.dom() =~= set!["requests"@]);
    assert(d->Object_0["spec"@]->Object_0["resources"@]->Object_0["requests"@]->Object_0.dom()
        =~= set!["storage"@]);
}

/// A claim without a class asks for as much storage as the spec says, and names none.
pub proof fn claims_without_a_class_take_the_default(storage: StorageSpec)
    requires
        storage.storage_class is None,
    ensures
        ({
            let d = data_claim(storage);
            &&& d is Object
            &&& d->Object_0.dom() == set!["apiVersion"@, "kind"@, "metadata"@, "spec"@]
            &&& d->Object_0["apiVersion"@] == Json::Text("v1"@)
            &&& d->Object_0["kind"@] == Json::Text("PersistentVolumeClaim"@)
            &&& d->Object_0["metadata"@] is Object
            &&& d->Object_0["metadata"@]->Object_0.dom() == set!["name"@]
            &&& d->Object_0["metadata"@]->Object_0["name"@] == Json::Text("data"@)
            &&& d->Object_0["spec"@] is Object
            &&& d->Object_0["spec"@]->Object_0.dom() == set!["accessModes"@, "resources"@]
            &&& d->Object_0["spec"@]->Object_0["accessModes"@] is Array
            &&& d->Object_0["spec"@]->Object_0["accessModes"@]->Array_0.len() == 1
            &&& d->Object_0["spec"@]->Object_0["accessModes"@]->Array_0[0]
                == Json::Text("ReadWriteOnce"@)
            &&& d->Object_0["spec"@]->Object_0["resources"@] is Object
            &&& d->Object_0["spec"@]->Object_0["resources"@]->Object_0.dom() == set!["requests"@]
            &&& d->Object_0["spec"@]->Object_0["resources"@]->Object_0["requests"@] is Object
            &&& d->Object_0["spec"@]->Object_0["resources"@]->Object_0["requests"@]->Object_0.dom()
                == set!["storage"@]
            &&& d->Object_0["spec"@]->Object_0["resources"@]->Object_0["requests"@]
                ->Object_0["storage"@] == Json::Text(storage.size@)
        }),
{
    names_differ();
    broadcast use json::object_grows;

    let d = data_claim(storage);
    assert(d->Object_0.dom() =~= set!["apiVersion"@, "kind"@, "metadata"@, "spec"@]);
    assert(d->Object_0["metadata"@]->Object_0.dom() =~= set!["name"@]);
    assert(d->Object_0["spec"@]->Object_0.dom() =~= set!["accessModes"@, "resources"@]);
    assert(d->Object_0["spec"@]->Object_0["resources"@]->Object_0.dom() =~= set!["requests"@]);
    assert(d->Object_0["spec"@]->Object_0["resources"@]->Object_0["requests"@]->Object_0.dom()
        =~= set!["storage"@]);
}

} // verus!
