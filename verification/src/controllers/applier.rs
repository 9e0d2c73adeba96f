//! What the operator stamps on the resources that it applies.
use crate::controllers::manifest;
use crate::json;
use crate::json::{Fields, Json, List};
use crate::labels;
use crate::table::Table;
use vstd::prelude::*;

verus! {

/// The status document of an object.
pub open spec fn status_document(
    api_version: Seq<char>,
    kind: Seq<char>,
    name: Seq<char>,
    namespace: Seq<char>,
    status: Json,
) -> Json {
    json::object(
        Seq::empty().push(("apiVersion"@, Json::Text(api_version))).push(
            ("kind"@, Json::Text(kind)),
        ).push(
            (
                "metadata"@,
                json::object(
                    Seq::empty().push(("name"@, Json::Text(name))).push(
                        ("namespace"@, Json::Text(namespace)),
                    ),
                ),
            ),
        ).push(("status"@, status)),
    )
}

/// The status document of an object; nothing where the object has no namespace.
pub fn apply_status(
    api_version: &str,
    kind: &str,
    name: &str,
    namespace: Option<&str>,
    status: serde_json::Value,
) -> (r: Option<serde_json::Value>)
    ensures
        match namespace {
            Some(ns) => r matches Some(v) && json::json(v) == status_document(
                api_version@,
                kind@,
                name@,
                ns@,
                json::json(status),
            ),
            None => r is None,
        },
{
    match namespace {
        Some(ns) => {
            let metadata: serde_json::Value = Fields::new().with_text("name", name).with_text(
                "namespace",
                ns,
            ).done();
            Some(
                Fields::new().with_text("apiVersion", api_version).with_text("kind", kind).with(
                    "metadata",
                    metadata,
                ).with("status", status).done(),
            )
        },
        None => None,
    }
}

/// The reference to the instance that owns a resource.
pub open spec fn owner_reference(name: Seq<char>, uid: Seq<char>) -> Json {
    json::object(
        Seq::empty().push(
            ("apiVersion"@, Json::Text("headmaster.potatonode.github.io/v1alpha1"@)),
        ).push(("kind"@, Json::Text("HeadscaleInstance"@))).push(("name"@, Json::Text(name))).push(
            ("uid"@, Json::Text(uid)),
        ).push(("controller"@, Json::Bool(true))),
    )
}

/// Builds the reference to the instance that owns a resource.
pub fn new_owner_reference(name: &str, uid: &str) -> (r: serde_json::Value)
    ensures
        json::json(r) == owner_reference(name@, uid@),
{
    Fields::new().with_text("apiVersion", "headmaster.potatonode.github.io/v1alpha1").with_text(
        "kind",
        "HeadscaleInstance",
    ).with_text("name", name).with_text("uid", uid).with("controller", json::of_bool(true)).done()
}

/// Texts of a table as JSON.
pub open spec fn texts(table: Map<Seq<char>, String>) -> Map<Seq<char>, Json> {
    Map::new(
        |key: Seq<char>| table.dom().contains(key),
        |key: Seq<char>| Json::Text(table[key]@),
    )
}

/// The operator's own labels of a resource.
pub open spec fn selector(name: Seq<char>, instance: Seq<char>) -> Map<Seq<char>, Json> {
    Map::<Seq<char>, Json>::empty().insert(labels::APP_NAME@, Json::Text(name)).insert(
        labels::APP_INSTANCE@,
        Json::Text(instance),
    ).insert(labels::APP_MANAGED_BY@, Json::Text(labels::MANAGED_BY_VALUE@))
}

/// The fields of an object under a key; none where there is no such object.
pub open spec fn section(v: Json, key: Seq<char>) -> Map<Seq<char>, Json> {
    match json::field_of(v, key) {
        Some(Json::Object(m)) => m,
        _ => Map::empty(),
    }
}

/// The items of an array under a key; none where there is no such array.
pub open spec fn items(v: Json, key: Seq<char>) -> Seq<Json> {
    match json::field_of(v, key) {
        Some(Json::Array(a)) => a,
        _ => Seq::empty(),
    }
}

/// A resource with namespace, owner and labels stamped on it. The operator's own
/// labels win over the extra ones, and those over the resource's.
pub open spec fn stamped(
    resource: Map<Seq<char>, Json>,
    namespace: Seq<char>,
    owner: Json,
    extra: Map<Seq<char>, Json>,
    own: Map<Seq<char>, Json>,
) -> Map<Seq<char>, Json> {
    let metadata = section(Json::Object(resource), "metadata"@);
    let owners = items(Json::Object(metadata), "ownerReferences"@);
    let before = section(Json::Object(metadata), "labels"@);
    resource.insert(
        "metadata"@,
        Json::Object(
            metadata.insert("namespace"@, Json::Text(namespace)).insert(
                "ownerReferences"@,
                Json::Array(owners.push(owner)),
            ).insert(
                "labels"@,
                Json::Object(before.union_prefer_right(extra).union_prefer_right(own)),
            ),
        ),
    )
}

/// A section with more fields in it.
pub open spec fn extended(
    v: Map<Seq<char>, Json>,
    key: Seq<char>,
    more: Map<Seq<char>, Json>,
) -> Map<Seq<char>, Json> {
    v.insert(key, Json::Object(section(Json::Object(v), key).union_prefer_right(more)))
}

/// A StatefulSet that selects its pods by the operator's own labels, and pods that
/// carry them.
pub open spec fn selecting_pods(sts: Map<Seq<char>, Json>, own: Map<Seq<char>, Json>) -> Map<
    Seq<char>,
    Json,
> {
    let spec = section(Json::Object(sts), "spec"@);
    let chosen = section(Json::Object(spec), "selector"@);
    let template = section(Json::Object(spec), "template"@);
    let metadata = section(Json::Object(template), "metadata"@);
    sts.insert(
        "spec"@,
        Json::Object(
            spec.insert("selector"@, Json::Object(extended(chosen, "matchLabels"@, own))).insert(
                "template"@,
                Json::Object(
                    template.insert("metadata"@, Json::Object(extended(metadata, "labels"@, own))),
                ),
            ),
        ),
    )
}

/// A Service that selects its pods by the operator's own labels.
pub open spec fn selecting(service: Map<Seq<char>, Json>, own: Map<Seq<char>, Json>) -> Map<
    Seq<char>,
    Json,
> {
    let spec = section(Json::Object(service), "spec"@);
    service.insert("spec"@, Json::Object(extended(spec, "selector"@, own)))
}

fn section_of(v: &serde_json::Value, key: &str) -> (r: serde_json::Value)
    ensures
        json::json(r) == Json::Object(section(json::json(*v), key@)),
{
    match json::field(v, key) {
        Some(x) => if json::field_names(x).is_some() {
            x.clone()
        } else {
            json::empty_object()
        },
        None => json::empty_object(),
    }
}

fn extend_section(
    v: serde_json::Value,
    key: &str,
    more: &serde_json::Value,
) -> (r: serde_json::Value)
    requires
        json::json(v) is Object,
        json::json(*more) is Object,
    ensures
        json::json(r) == Json::Object(
            extended(json::json(v)->Object_0, key@, json::json(*more)->Object_0),
        ),
{
    let before: serde_json::Value = section_of(&v, key);
    json::with_field(v, key.to_owned(), json::overlay(before, more))
}

fn owners_of(metadata: &serde_json::Value) -> (r: List)
    ensures
        r@ == items(json::json(*metadata), "ownerReferences"@),
{
    let ghost all = items(json::json(*metadata), "ownerReferences"@);
    let mut out: List = List::new();
    let found: Option<&Vec<serde_json::Value>> = match json::field(metadata, "ownerReferences") {
        Some(v) => v.as_array(),
        None => None,
    };
    if let Some(list) = found {
        let mut i: usize = 0;
        assert(all == json::jsons(list@));
        while i < list.len()
            invariant
                i <= list@.len(),
                all == json::jsons(list@),
                out@ == all.take(i as int),
            decreases list@.len() - i,
        {
            out = out.with(list[i].clone());
            i += 1;
            assert(out@ =~= all.take(i as int));
        }
        assert(all.take(i as int) =~= all);
    }
    assert(out@ =~= all);
    out
}

/// Stamps the children of an instance, or the resources of a proxy.
pub struct ChildApplier {
    pub namespace: String,
    pub instance: String,
    pub owner: serde_json::Value,
    pub extra_labels: Table<String>,
}

fn text_object(table: &Table<String>) -> (r: serde_json::Value)
    ensures
        json::json(r) == Json::Object(texts(table@)),
{
    let keys: Vec<String> = table.keys();
    let ghost all = keys.deep_view();
    let mut out: serde_json::Value = json::empty_object();
    let mut i: usize = 0;
    proof {
        assert(texts(table@).restrict(all.take(0).to_set()) =~= Map::<Seq<char>, Json>::empty());
    }
    while i < keys.len()
        invariant
            i <= keys@.len(),
            all == keys.deep_view(),
            all.to_set() == table@.dom(),
            json::json(out) == Json::Object(texts(table@).restrict(all.take(i as int).to_set())),
        decreases keys@.len() - i,
    {
        let ghost k = keys@[i as int]@;
        proof {
            assert(all[i as int] == k);
            assert(all.to_set().contains(k));
        }
        if let Some(v) = table.get(keys[i].as_str()) {
            out = json::with_field(out, keys[i].clone(), json::str_value(v.as_str()));
        }
        proof {
            crate::table::set_grows(all, i as int);
            assert(texts(table@).restrict(all.take(i as int).to_set()).insert(
                k,
                Json::Text(table@[k]@),
            ) =~= texts(table@).restrict(all.take(i + 1).to_set()));
        }
        i += 1;
    }
    proof {
        assert(all.take(i as int) =~= all);
        assert(texts(table@).restrict(all.to_set()) =~= texts(table@));
    }
    out
}

impl ChildApplier {
    /// For the children of the instance `namespace`/`name` with this uid, whose
    /// spec asks for these labels.
    pub fn from_parent(
        namespace: &str,
        name: &str,
        uid: &str,
        extra_labels: &Table<String>,
    ) -> (r: Self)
        ensures
            r.namespace@ == namespace@,
            r.instance@ == name@,
            json::json(r.owner) == owner_reference(name@, uid@),
            r.extra_labels@ == extra_labels@,
    {
        ChildApplier {
            namespace: namespace.to_owned(),
            instance: name.to_owned(),
            owner: new_owner_reference(name, uid),
            extra_labels: extra_labels.copy(),
        }
    }

    /// For the resources of the proxy `proxy_base` of an Ingress. They belong to
    /// the instance, and their labels lead back to the Ingress.
    pub fn for_proxy(
        namespace: &str,
        proxy_base: &str,
        owner_name: &str,
        owner_uid: &str,
        extra_labels: &Table<String>,
        ingress_name: &str,
        ingress_namespace: &str,
    ) -> (r: Self)
        ensures
            r.namespace@ == namespace@,
            r.instance@ == proxy_base@,
            json::json(r.owner) == owner_reference(owner_name@, owner_uid@),
            texts(r.extra_labels@) == texts(extra_labels@).insert(
                labels::INGRESS_NAME@,
                Json::Text(ingress_name@),
            ).insert(labels::INGRESS_NAMESPACE@, Json::Text(ingress_namespace@)),
    {
        let mut all_labels: Table<String> = extra_labels.copy();
        all_labels.insert(labels::INGRESS_NAME.to_owned(), ingress_name.to_owned());
        all_labels.insert(labels::INGRESS_NAMESPACE.to_owned(), ingress_namespace.to_owned());
        proof {
            assert(texts(all_labels@) =~= texts(extra_labels@).insert(
                labels::INGRESS_NAME@,
                Json::Text(ingress_name@),
            ).insert(labels::INGRESS_NAMESPACE@, Json::Text(ingress_namespace@)));
        }
        ChildApplier {
            namespace: namespace.to_owned(),
            instance: proxy_base.to_owned(),
            owner: new_owner_reference(owner_name, owner_uid),
            extra_labels: all_labels,
        }
    }

    /// The labels by which the pods of `name` are selected: only the operator's
    /// own, which never change.
    pub fn selector_labels(&self, name: &str) -> (r: serde_json::Value)
        ensures
            json::json(r) == Json::Object(selector(name@, self.instance@)),
    {
        let a: serde_json::Value = json::with_field(
            json::empty_object(),
            labels::APP_NAME.to_owned(),
            json::str_value(name),
        );
        let b: serde_json::Value = json::with_field(
            a,
            labels::APP_INSTANCE.to_owned(),
            json::str_value(self.instance.as_str()),
        );
        json::with_field(
            b,
            labels::APP_MANAGED_BY.to_owned(),
            json::str_value(labels::MANAGED_BY_VALUE),
        )
    }

    /// Stamps a resource of the application `name`.
    pub fn apply(&self, name: &str, resource: serde_json::Value) -> (r: serde_json::Value)
        requires
            json::json(resource) is Object,
        ensures
            json::json(r) == Json::Object(
                stamped(
                    json::json(resource)->Object_0,
                    self.namespace@,
                    json::json(self.owner),
                    texts(self.extra_labels@),
                    selector(name@, self.instance@),
                ),
            ),
    {
        let metadata: serde_json::Value = section_of(&resource, "metadata");
        let ghost start = json::json(metadata)->Object_0;
        let owners: serde_json::Value = owners_of(&metadata).with(self.owner.clone()).done();
        let own: serde_json::Value = self.selector_labels(name);
        let before: serde_json::Value = section_of(&metadata, "labels");
        let merged: serde_json::Value = json::overlay(
            json::overlay(before, &text_object(&self.extra_labels)),
            &own,
        );
        let placed: serde_json::Value = json::with_field(
            metadata,
            "namespace".to_owned(),
            json::str_value(self.namespace.as_str()),
        );
        let owned: serde_json::Value = json::with_field(
            placed,
            "ownerReferences".to_owned(),
            owners,
        );
        let labelled: serde_json::Value = json::with_field(owned, "labels".to_owned(), merged);
        json::with_field(resource, "metadata".to_owned(), labelled)
    }

    /// Stamps a StatefulSet of the application `name`, and has it select its own
    /// pods.
    pub fn apply_statefulset(&self, name: &str, sts: serde_json::Value) -> (r: serde_json::Value)
        requires
            json::json(sts) is Object,
            json::field_of(json::json(sts), "spec"@) matches Some(Json::Object(_)),
        ensures
            json::json(r) == Json::Object(
                stamped(
                    selecting_pods(
                        json::json(sts)->Object_0,
                        selector(name@, self.instance@),
                    ),
                    self.namespace@,
                    json::json(self.owner),
                    texts(self.extra_labels@),
                    selector(name@, self.instance@),
                ),
            ),
    {
        let own: serde_json::Value = self.selector_labels(name);
        let spec: serde_json::Value = section_of(&sts, "spec");
        let chosen: serde_json::Value = extend_section(
            section_of(&spec, "selector"),
            "matchLabels",
            &own,
        );
        let template: serde_json::Value = section_of(&spec, "template");
        let metadata: serde_json::Value = extend_section(
            section_of(&template, "metadata"),
            "labels",
            &own,
        );
        let labelled: serde_json::Value = json::with_field(
            template,
            "metadata".to_owned(),
            metadata,
        );
        let selecting: serde_json::Value = json::with_field(spec, "selector".to_owned(), chosen);
        let complete: serde_json::Value = json::with_field(
            selecting,
            "template".to_owned(),
            labelled,
        );
        self.apply(name, json::with_field(sts, "spec".to_owned(), complete))
    }

    /// Stamps a Service of the application `name`, and has it select the
    /// application's pods.
    pub fn apply_service(&self, name: &str, service: serde_json::Value) -> (r: serde_json::Value)
        requires
            json::json(service) is Object,
            json::field_of(json::json(service), "spec"@) matches Some(Json::Object(_)),
        ensures
            json::json(r) == Json::Object(
                stamped(
                    selecting(json::json(service)->Object_0, selector(name@, self.instance@)),
                    self.namespace@,
                    json::json(self.owner),
                    texts(self.extra_labels@),
                    selector(name@, self.instance@),
                ),
            ),
    {
        let own: serde_json::Value = self.selector_labels(name);
        let spec: serde_json::Value = extend_section(
            section_of(&service, "spec"),
            "selector",
            &own,
        );
        self.apply(name, json::with_field(service, "spec".to_owned(), spec))
    }
}

// Laws.

/// The operator's own labels win over extra labels and over the resource's own;
/// extra labels win over the resource's own.
pub proof fn operator_labels_win(
    resource: Map<Seq<char>, Json>,
    namespace: Seq<char>,
    owner: Json,
    extra: Map<Seq<char>, Json>,
    own: Map<Seq<char>, Json>,
    key: Seq<char>,
)
    ensures
        ({
            let after = section(
                Json::Object(
                    section(
                        Json::Object(stamped(resource, namespace, owner, extra, own)),
                        "metadata"@,
                    ),
                ),
                "labels"@,
            );
            &&& own.dom().contains(key) ==> after.dom().contains(key) && after[key] == own[key]
            &&& extra.dom().contains(key) && !own.dom().contains(key) ==> after.dom().contains(key)
                && after[key] == extra[key]
        }),
{
}

/// The status document of an object names the object and holds the status.
pub proof fn status_documents_name_their_object(
    api_version: Seq<char>,
    kind: Seq<char>,
    name: Seq<char>,
    namespace: Seq<char>,
    status: Json,
)
    ensures
        ({
            let d = status_document(api_version, kind, name, namespace, status);
            &&& d is Object
            &&& d->Object_0.dom() == set!["apiVersion"@, "kind"@, "metadata"@, "status"@]
            &&& d->Object_0["apiVersion"@] == Json::Text(api_version)
            &&& d->Object_0["kind"@] == Json::Text(kind)
            &&& d->Object_0["metadata"@] is Object
            &&& d->Object_0["metadata"@]->Object_0.dom() == set!["name"@, "namespace"@]
            &&& d->Object_0["metadata"@]->Object_0["name"@] == Json::Text(name)
            &&& d->Object_0["metadata"@]->Object_0["namespace"@] == Json::Text(namespace)
            &&& d->Object_0["status"@] == status
        }),
{
    manifest::names_differ();
    broadcast use json::object_grows;

    let d = status_document(api_version, kind, name, namespace, status);
    assert(d->Object_0.dom() =~= set!["apiVersion"@, "kind"@, "metadata"@, "status"@]);
    assert(d->Object_0["metadata"@]->Object_0.dom() =~= set!["name"@, "namespace"@]);
}

/// The owner of a resource is the instance of this name and uid, which controls it.
pub proof fn owners_are_instances(name: Seq<char>, uid: Seq<char>)
    ensures
        ({
            let d = owner_reference(name, uid);
            &&& d is Object
            &&& d->Object_0.dom() == set!["apiVersion"@, "kind"@, "name"@, "uid"@, "controller"@]
            &&& d->Object_0["apiVersion"@]
                == Json::Text("headmaster.potatonode.github.io/v1alpha1"@)
            &&& d->Object_0["kind"@] == Json::Text("HeadscaleInstance"@)
            &&& d->Object_0["name"@] == Json::Text(name)
            &&& d->Object_0["uid"@] == Json::Text(uid)
            &&& d->Object_0["controller"@] == Json::Bool(true)
        }),
{
    manifest::names_differ();
    broadcast use json::object_grows;

    let d = owner_reference(name, uid);
    assert(d->Object_0.dom() =~= set!["apiVersion"@, "kind"@, "name"@, "uid"@, "controller"@]);
}

/// The operator's own labels: the application, its instance, and that the operator manages it.
pub proof fn selectors_are_the_operators_labels(name: Seq<char>, instance: Seq<char>)
    ensures
        ({
            let d = Json::Object(selector(name, instance));
            &&& d is Object
            &&& d->Object_0.dom()
                == set!["app.kubernetes.io/name"@, "app.kubernetes.io/instance"@,
                "app.kubernetes.io/managed-by"@]
            &&& d->Object_0["app.kubernetes.io/name"@] == Json::Text(name)
            &&& d->Object_0["app.kubernetes.io/instance"@] == Json::Text(instance)
            &&& d->Object_0["app.kubernetes.io/managed-by"@] == Json::Text("headmaster"@)
        }),
{
    manifest::names_differ();
    broadcast use json::object_grows;

    let d = Json::Object(selector(name, instance));
    assert(d->Object_0.dom()
        =~= set!["app.kubernetes.io/name"@, "app.kubernetes.io/instance"@,
        "app.kubernetes.io/managed-by"@]);
}


/// What is stamped on a resource: its namespace, one more owner behind those that it has,
/// and labels, of which the operator's own win over the extra ones and those over the
/// resource's. Everything else of it stays as it was.
pub proof fn stamping_keeps_the_rest(
    resource: Map<Seq<char>, Json>,
    namespace: Seq<char>,
    owner: Json,
    extra: Map<Seq<char>, Json>,
    own: Map<Seq<char>, Json>,
    key: Seq<char>,
)
    ensures
        ({
            let after = stamped(resource, namespace, owner, extra, own);
            let has = resource.dom().contains("metadata"@) && resource["metadata"@] is Object;
            let before = resource["metadata"@]->Object_0;
            let now = after["metadata"@]->Object_0;
            let owners = now["ownerReferences"@]->Array_0;
            let labels = now["labels"@]->Object_0;
            let old_owners = has && before.dom().contains("ownerReferences"@)
                && before["ownerReferences"@] is Array;
            let old_labels = has && before.dom().contains("labels"@) && before["labels"@] is Object;
            &&& key != "metadata"@ ==> after.dom().contains(key) == resource.dom().contains(key)
            &&& key != "metadata"@ && resource.dom().contains(key) ==> after[key] == resource[key]
            &&& after["metadata"@] is Object
            &&& now["namespace"@] == Json::Text(namespace)
            &&& now["ownerReferences"@] is Array
            &&& owners.len() > 0
            &&& owners.last() == owner
            &&& owners.drop_last() == (if old_owners {
                before["ownerReferences"@]->Array_0
            } else {
                Seq::empty()
            })
            &&& now["labels"@] is Object
            &&& labels.dom().contains(key) <==> {
                ||| own.dom().contains(key)
                ||| extra.dom().contains(key)
                ||| old_labels && before["labels"@]->Object_0.dom().contains(key)
            }
            &&& own.dom().contains(key) ==> labels[key] == own[key]
            &&& !own.dom().contains(key) && extra.dom().contains(key) ==> labels[key] == extra[key]
            &&& !own.dom().contains(key) && !extra.dom().contains(key) && labels.dom().contains(key)
                ==> labels[key] == before["labels"@]->Object_0[key]
            &&& key != "namespace"@ && key != "ownerReferences"@ && key != "labels"@ ==> {
                &&& now.dom().contains(key) <==> has && before.dom().contains(key)
                &&& now.dom().contains(key) ==> now[key] == before[key]
            }
        }),
{
    manifest::names_differ();
    let metadata = section(Json::Object(resource), "metadata"@);
    let owners = items(Json::Object(metadata), "ownerReferences"@);
    assert(owners.push(owner).drop_last() =~= owners);
}

/// A StatefulSet selects the pods that carry the operator's own labels, and its pods carry
/// them; everything else of it stays as it was.
pub proof fn statefulsets_select_their_own_pods(
    sts: Map<Seq<char>, Json>,
    own: Map<Seq<char>, Json>,
    key: Seq<char>,
)
    ensures
        ({
            let after = selecting_pods(sts, own);
            let spec = after["spec"@]->Object_0;
            let chosen = spec["selector"@]->Object_0["matchLabels"@]->Object_0;
            let template = spec["template"@]->Object_0;
            let carried = template["metadata"@]->Object_0["labels"@]->Object_0;
            let has_spec = sts.dom().contains("spec"@) && sts["spec"@] is Object;
            let old_spec = sts["spec"@]->Object_0;
            let has_template = has_spec && old_spec.dom().contains("template"@)
                && old_spec["template"@] is Object;
            let old_template = old_spec["template"@]->Object_0;
            &&& key != "spec"@ ==> after.dom().contains(key) == sts.dom().contains(key)
            &&& key != "spec"@ && sts.dom().contains(key) ==> after[key] == sts[key]
            &&& own.dom().contains(key) ==> chosen.dom().contains(key) && chosen[key] == own[key]
            &&& own.dom().contains(key) ==> carried.dom().contains(key) && carried[key] == own[key]
            &&& key != "selector"@ && key != "template"@ ==> {
                &&& spec.dom().contains(key) <==> has_spec && old_spec.dom().contains(key)
                &&& spec.dom().contains(key) ==> spec[key] == old_spec[key]
            }
            &&& key != "metadata"@ ==> {
                &&& template.dom().contains(key) <==> has_template && old_template.dom().contains(
                    key,
                )
                &&& template.dom().contains(key) ==> template[key] == old_template[key]
            }
        }),
{
    manifest::names_differ();
}

/// A Service selects the pods that carry the operator's own labels; everything else of it
/// stays as it was.
pub proof fn services_select_their_pods(
    service: Map<Seq<char>, Json>,
    own: Map<Seq<char>, Json>,
    key: Seq<char>,
)
    ensures
        ({
            let after = selecting(service, own);
            let spec = after["spec"@]->Object_0;
            let chosen = spec["selector"@]->Object_0;
            let has_spec = service.dom().contains("spec"@) && service["spec"@] is Object;
            let old_spec = service["spec"@]->Object_0;
            &&& key != "spec"@ ==> after.dom().contains(key) == service.dom().contains(key)
            &&& key != "spec"@ && service.dom().contains(key) ==> after[key] == service[key]
            &&& own.dom().contains(key) ==> chosen.dom().contains(key) && chosen[key] == own[key]
            &&& key != "selector"@ ==> {
                &&& spec.dom().contains(key) <==> has_spec && old_spec.dom().contains(key)
                &&& spec.dom().contains(key) ==> spec[key] == old_spec[key]
            }
        }),
{
    manifest::names_differ();
}

/// The labels of a table are its entries, as text.
pub proof fn labels_are_the_tables_entries(table: Map<Seq<char>, String>, key: Seq<char>)
    ensures
        texts(table).dom().contains(key) == table.dom().contains(key),
        table.dom().contains(key) ==> texts(table)[key] == Json::Text(table[key]@),
        labels::INGRESS_NAME@ == "headmaster.potatonode.github.io/ingress-name"@,
        labels::INGRESS_NAMESPACE@ == "headmaster.potatonode.github.io/ingress-namespace"@,
{
}

} // verus!
