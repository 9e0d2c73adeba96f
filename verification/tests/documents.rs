//! Holds the documents that the library writes against the typed objects of the
//! Kubernetes API.
use headmaster::controllers::applier::ChildApplier;
use headmaster::controllers::headscale_instance::builders::{
    configmap_of, desired_statefulset, headscale_service,
};
use headmaster::controllers::headscale_instance::scim::{ensure_scim, new_text_secret};
use headmaster::server::webhook::configtest_job;
use headmaster::table::Table;
use headmaster::types::headscale_instance::{ScimSpec, StorageSpec};
use k8s_openapi_ext::appsv1::StatefulSet;
use k8s_openapi_ext::batchv1::Job;
use k8s_openapi_ext::corev1::{
    ConfigMap, ConfigMapVolumeSource, Container, ContainerPort, EmptyDirVolumeSource, EnvVar,
    PersistentVolumeClaim, PersistentVolumeClaimSpec, PodSecurityContext, PodSpec, PodTemplateSpec,
    Probe, SeccompProfile, Secret, SecretEnvSource, Service, ServicePort, ServiceSpec, Volume,
    VolumeMount, VolumeResourceRequirements,
};
use k8s_openapi_ext::metav1::{ObjectMeta, OwnerReference};
use k8s_openapi_ext::resource::Quantity;
use k8s_openapi_ext::{
    ConfigMapExt, ConfigMapVolumeSourceExt, ContainerExt, ContainerPortExt, EnvVarExt, JobExt,
    PodSpecExt, PodTemplateSpecExt, ProbeExt, SecretExt, ServiceExt, ServicePortExt,
    StatefulSetExt, VolumeExt, VolumeMountExt,
};
use serde_json::Value;
use std::collections::BTreeMap;

fn value<T: serde::Serialize>(object: T) -> Value {
    serde_json::to_value(object).unwrap()
}

fn own_labels(name: &str) -> BTreeMap<String, String> {
    BTreeMap::from([
        ("app.kubernetes.io/name".to_string(), name.to_string()),
        ("app.kubernetes.io/instance".to_string(), "main".to_string()),
        (
            "app.kubernetes.io/managed-by".to_string(),
            "headmaster".to_string(),
        ),
    ])
}

fn child() -> ChildApplier {
    let mut extra = Table::new();
    extra.insert("env".to_string(), "prod".to_string());
    ChildApplier::from_parent("ops", "main", "uid-1", &extra)
}

fn stamp(metadata: &mut ObjectMeta, name: &str) {
    metadata.namespace = Some("ops".to_string());
    metadata.owner_references = Some(vec![OwnerReference {
        api_version: "headmaster.potatonode.github.io/v1alpha1".to_string(),
        kind: "HeadscaleInstance".to_string(),
        name: "main".to_string(),
        uid: "uid-1".to_string(),
        controller: Some(true),
        ..Default::default()
    }]);
    let labels = metadata.labels.get_or_insert_default();
    labels.insert("env".to_string(), "prod".to_string());
    labels.extend(own_labels(name));
}

fn stamp_statefulset(mut sts: StatefulSet, name: &str) -> Value {
    let spec = sts.spec.as_mut().unwrap();
    spec.selector
        .match_labels
        .get_or_insert_default()
        .extend(own_labels(name));
    spec.template
        .metadata
        .get_or_insert_default()
        .labels
        .get_or_insert_default()
        .extend(own_labels(name));
    stamp(&mut sts.metadata, name);
    value(sts)
}

fn stamp_service(mut service: Service, name: &str) -> Value {
    let spec = service.spec.as_mut().unwrap();
    spec.selector.get_or_insert_default().extend(own_labels(name));
    stamp(&mut service.metadata, name);
    value(service)
}

fn claim(storage: &StorageSpec) -> PersistentVolumeClaim {
    PersistentVolumeClaim {
        metadata: ObjectMeta {
            name: Some("data".into()),
            ..Default::default()
        },
        spec: Some(PersistentVolumeClaimSpec {
            access_modes: Some(vec!["ReadWriteOnce".into()]),
            storage_class_name: storage.storage_class.clone(),
            resources: Some(VolumeResourceRequirements {
                requests: Some(BTreeMap::from([(
                    "storage".into(),
                    Quantity(storage.size.clone()),
                )])),
                ..Default::default()
            }),
            ..Default::default()
        }),
        ..Default::default()
    }
}

fn probe(path: &str, port: &str, delay: i32, period: i32) -> Probe {
    Probe::http_get(path, port)
        .initial_delay_seconds(delay)
        .period_seconds(period)
        .failure_threshold(3)
}

fn seccomp() -> Option<SeccompProfile> {
    Some(SeccompProfile {
        type_: "RuntimeDefault".into(),
        localhost_profile: None,
    })
}

fn storage() -> StorageSpec {
    StorageSpec {
        size: "5Gi".to_string(),
        storage_class: None,
    }
}

#[test]
fn headscale_statefulset_is_the_typed_one() {
    let quantities = |cpu: &str, memory: &str| {
        BTreeMap::from([
            ("cpu".to_string(), Quantity(cpu.to_string())),
            ("memory".to_string(), Quantity(memory.to_string())),
        ])
    };
    let config_volume = Volume::configmap("config", ConfigMapVolumeSource::new("server"));
    let container = Container::new("headscale")
        .image("headscale:1")
        .args(["serve"])
        .allow_privilege_escalation(false)
        .drop_capabilities(["ALL"])
        .ports([
            ContainerPort::tcp(8080).name("http"),
            ContainerPort::tcp(9090).name("metrics"),
            ContainerPort::tcp(50443).name("grpc"),
        ])
        .readiness_probe(probe("/health", "http", 5, 5))
        .liveness_probe(probe("/health", "http", 30, 10))
        .volume_mounts([
            VolumeMount::new("/etc/headscale/config.yaml", &config_volume)
                .read_only()
                .sub_path("config.yaml"),
            VolumeMount {
                name: "data".into(),
                mount_path: "/var/lib/headscale".into(),
                ..Default::default()
            },
            VolumeMount {
                name: "var-run-headscale".into(),
                mount_path: "/var/run/headscale".into(),
                ..Default::default()
            },
        ])
        .resource_requests(quantities("50m", "64Mi"))
        .resource_limits(quantities("500m", "512Mi"));
    let pod = PodSpec {
        security_context: Some(PodSecurityContext {
            seccomp_profile: seccomp(),
            ..Default::default()
        }),
        ..PodSpec::container(container).volumes([
            config_volume,
            Volume {
                name: "var-run-headscale".into(),
                empty_dir: Some(EmptyDirVolumeSource::default()),
                ..Default::default()
            },
        ])
    };
    let typed = StatefulSet::new("server")
        .replicas(1)
        .service_name("server")
        .template(
            PodTemplateSpec::new()
                .annotation("headmaster/config-hash", "abc")
                .pod_spec(pod),
        )
        .volume_claim_templates([claim(&storage())]);
    let document = desired_statefulset("server", "headscale:1", &storage(), None, "abc");
    assert_eq!(
        child().apply_statefulset("headscale", document),
        stamp_statefulset(typed, "headscale")
    );
}

#[test]
fn headscale_service_is_the_typed_one() {
    let typed = Service::new("server").spec(ServiceSpec {
        ports: Some(vec![
            ServicePort::tcp("http", 8080).target_port("http"),
            ServicePort::tcp("metrics", 9090).target_port("metrics"),
            ServicePort::tcp("grpc", 50443).target_port("grpc"),
        ]),
        ..Default::default()
    });
    assert_eq!(
        child().apply_service("headscale", headscale_service("server")),
        stamp_service(typed, "headscale")
    );
}

#[test]
fn config_map_and_secret_are_the_typed_ones() {
    assert_eq!(
        configmap_of("server", "a: 1\n"),
        value(ConfigMap::new("server").data([("config.yaml", "a: 1\n")]))
    );
    assert_eq!(
        new_text_secret("s", "KEY", "value"),
        value(Secret::new("s").string_data([("KEY", "value")]))
    );
}

#[test]
fn scim_resources_are_the_typed_ones() {
    let scim = ScimSpec {
        storage: storage(),
        policy_user_key: Some("username".to_string()),
        oidc_issuer: None,
        expire_nodes_on_change: true,
    };
    let container = Container::new("scim")
        .image("headmaster:1")
        .command(["/usr/local/bin/headmaster-scim"])
        .allow_privilege_escalation(false)
        .read_only_root_filesystem(true)
        .drop_capabilities(["ALL"])
        .env(vec![
            EnvVar::value("HEADSCALE_URL", "http://headscale-server-main.ops.svc:50443"),
            EnvVar::value("POLICY_USER_KEY", "username"),
            EnvVar::value("EXPIRE_NODES_ON_CHANGE", "true"),
        ])
        .env_from([
            SecretEnvSource {
                name: "headscale-api-key-main".to_string(),
                optional: Some(false),
            },
            SecretEnvSource {
                name: "headscale-scim-token-main".to_string(),
                optional: Some(false),
            },
        ])
        .ports([ContainerPort::tcp(8081).name("scim")])
        .volume_mounts([VolumeMount {
            name: "data".into(),
            mount_path: "/data".into(),
            ..Default::default()
        }])
        .readiness_probe(probe("/readyz", "scim", 5, 5))
        .liveness_probe(probe("/livez", "scim", 30, 10));
    let pod = PodSpec {
        security_context: Some(PodSecurityContext {
            run_as_non_root: Some(true),
            run_as_user: Some(65532),
            run_as_group: Some(65532),
            fs_group: Some(65532),
            seccomp_profile: seccomp(),
            ..Default::default()
        }),
        ..PodSpec::container(container)
    };
    let typed = StatefulSet::new("headscale-scim-main")
        .replicas(1)
        .service_name("headscale-scim-main")
        .template(PodTemplateSpec::new().pod_spec(pod))
        .volume_claim_templates([claim(&storage())]);
    let built = ensure_scim(&scim, "headmaster:1", "main", "ops");
    assert_eq!(
        child().apply_statefulset("scim", built.statefulset),
        stamp_statefulset(typed, "scim")
    );
    let typed = Service::new("headscale-scim-main").spec(ServiceSpec {
        ports: Some(vec![ServicePort::tcp("scim", 8081).target_port("scim")]),
        ..Default::default()
    });
    assert_eq!(
        child().apply_service("scim", built.service),
        stamp_service(typed, "scim")
    );
}

#[test]
fn configtest_job_is_the_typed_one() {
    let config_volume = Volume::configmap("config", ConfigMapVolumeSource::new("configtest-x"));
    let container = Container::new("configtest")
        .image("headscale:1")
        .args(["--config", "/etc/headscale/config.yaml", "configtest"])
        .allow_privilege_escalation(false)
        .read_only_root_filesystem(true)
        .drop_capabilities(["ALL"])
        .volume_mounts([VolumeMount::new("/etc/headscale", &config_volume).read_only()]);
    let pod = PodSpec {
        security_context: Some(PodSecurityContext {
            run_as_non_root: Some(true),
            run_as_user: Some(65532),
            run_as_group: Some(65532),
            seccomp_profile: seccomp(),
            ..Default::default()
        }),
        ..PodSpec::container(container)
            .restart_policy("Never")
            .volumes([config_volume])
    };
    let mut typed = Job::new("configtest-x")
        .backoff_limit(0)
        .ttl_seconds_after_finished(60)
        .template(PodTemplateSpec::new().pod_spec(pod));
    typed.metadata.namespace = Some("ops".to_string());
    typed.metadata.labels = Some(own_labels("headscale"));
    assert_eq!(
        configtest_job("ops", "headscale:1", "configtest-x", "main"),
        value(typed)
    );
}
