//! Keeps the policy of a headscale server in line with the instance's own policy
//! and the access grants of the Ingresses that refer to it.
use crate::controllers::ingress::names;
use crate::json;
use crate::json::{Fields, Json, List};
use crate::policy_document;
use crate::policy_document::PolicyParseError;
use crate::text;
use crate::types::headscale_instance::HeadscaleInstancePolicy;
use crate::types::ingress_annotations::{AccessV, IngressAccessGrant};
use vstd::prelude::*;

verus! {

/// The tag that owns the tags of all proxies.
pub const HEADMASTER_TAG: &'static str = "tag:headmaster";

/// An Ingress that refers to the instance, with its access grants. One whose
/// annotation is not valid has none.
pub struct PolicyIngress {
    pub namespace: String,
    pub name: String,
    pub access: Vec<IngressAccessGrant>,
}

/// A [`PolicyIngress`] as plain values.
pub struct IngressV {
    pub namespace: Seq<char>,
    pub name: Seq<char>,
    pub access: Seq<AccessV>,
}

impl DeepView for PolicyIngress {
    type V = IngressV;

    open spec fn deep_view(&self) -> IngressV {
        IngressV {
            namespace: self.namespace@,
            name: self.name@,
            access: self.access.deep_view(),
        }
    }
}

/// Ingresses are taken by namespace, and within one by name.
pub open spec fn comes_before(a: IngressV, b: IngressV) -> bool {
    text::before(a.namespace, b.namespace) || (a.namespace == b.namespace && text::before(
        a.name,
        b.name,
    ))
}

/// Puts an Ingress behind every one that it does not come before.
pub open spec fn placed(sorted: Seq<IngressV>, ingress: IngressV) -> Seq<IngressV>
    decreases sorted.len(),
{
    if sorted.len() > 0 && comes_before(ingress, sorted.last()) {
        placed(sorted.drop_last(), ingress).push(sorted.last())
    } else {
        sorted.push(ingress)
    }
}

/// The Ingresses in order; equal ones stay as they came.
pub open spec fn in_order(ingresses: Seq<IngressV>) -> Seq<IngressV>
    decreases ingresses.len(),
{
    if ingresses.len() == 0 {
        Seq::empty()
    } else {
        placed(in_order(ingresses.drop_last()), ingresses.last())
    }
}

/// The groups that a grant refers to and the policy does not declare.
pub open spec fn missing_groups(from: Seq<Seq<char>>, known: Set<Seq<char>>) -> Seq<Seq<char>>
    decreases from.len(),
{
    if from.len() == 0 {
        Seq::empty()
    } else {
        let rest = missing_groups(from.drop_last(), known);
        if "group:"@.is_prefix_of(from.last()) && !known.contains(from.last()) {
            rest.push(from.last())
        } else {
            rest
        }
    }
}

/// The policy grant that gives an access entry its effect.
pub open spec fn grant_json(access: AccessV, tag: Seq<char>) -> Json {
    let src = json::text_items(access.from);
    let dst = Json::Array(seq![Json::Text(tag)]);
    let ends = Seq::empty().push(("src"@, src)).push(("dst"@, dst));
    match access.capabilities {
        Some(caps) => json::object(ends.push(("app"@, caps))),
        None => json::object(ends.push(("ip"@, Json::Array(seq![Json::Text("*:*"@)])))),
    }
}

/// A grant with the tag of the proxy it leads to.
pub struct IngressGrant {
    pub grant: serde_json::Value,
    pub tag: String,
}

/// An [`IngressGrant`] as plain values.
pub struct TaggedV {
    pub grant: Json,
    pub tag: Seq<char>,
}

impl DeepView for IngressGrant {
    type V = TaggedV;

    open spec fn deep_view(&self) -> TaggedV {
        TaggedV { grant: json::json(self.grant), tag: self.tag@ }
    }
}

/// The grants of an access list whose groups are all there.
pub open spec fn granted(access: Seq<AccessV>, tag: Seq<char>, known: Set<Seq<char>>) -> Seq<TaggedV>
    decreases access.len(),
{
    if access.len() == 0 {
        Seq::empty()
    } else {
        let rest = granted(access.drop_last(), tag, known);
        if missing_groups(access.last().from, known).len() == 0 {
            rest.push(TaggedV { grant: grant_json(access.last(), tag), tag })
        } else {
            rest
        }
    }
}

/// The reason that is given when an access entry waits for groups.
pub const WAITING_REASON: &'static str = "WaitingForGroup";

/// The notice that an access entry waits for groups.
pub struct WaitingForGroup {
    pub namespace: String,
    pub name: String,
    pub note: String,
}

/// A [`WaitingForGroup`] as plain text.
pub struct WaitingV {
    pub namespace: Seq<char>,
    pub name: Seq<char>,
    pub note: Seq<char>,
}

impl DeepView for WaitingForGroup {
    type V = WaitingV;

    open spec fn deep_view(&self) -> WaitingV {
        WaitingV { namespace: self.namespace@, name: self.name@, note: self.note@ }
    }
}

/// What is said of an access entry that waits for these groups.
pub open spec fn waiting_note(missing: Seq<Seq<char>>) -> Seq<char> {
    "access grant references groups not yet synced: "@ + text::joined(missing, ", "@)
        + "; the grant will be applied once these groups are available"@
}

/// The notices for the access entries that wait for groups.
pub open spec fn waiting(ingress: IngressV, access: Seq<AccessV>, known: Set<Seq<char>>) -> Seq<
    WaitingV,
>
    decreases access.len(),
{
    if access.len() == 0 {
        Seq::empty()
    } else {
        let rest = waiting(ingress, access.drop_last(), known);
        let missing = missing_groups(access.last().from, known);
        if missing.len() == 0 {
            rest
        } else {
            rest.push(
                WaitingV {
                    namespace: ingress.namespace,
                    name: ingress.name,
                    note: waiting_note(missing),
                },
            )
        }
    }
}

/// All grants of the Ingresses, in their order.
pub open spec fn all_granted(ingresses: Seq<IngressV>, known: Set<Seq<char>>) -> Seq<TaggedV>
    decreases ingresses.len(),
{
    if ingresses.len() == 0 {
        Seq::empty()
    } else {
        let last = ingresses.last();
        all_granted(ingresses.drop_last(), known) + granted(
            last.access,
            names::auto_tag(last.namespace, last.name),
            known,
        )
    }
}

/// All notices for the Ingresses, in their order.
pub open spec fn all_waiting(ingresses: Seq<IngressV>, known: Set<Seq<char>>) -> Seq<WaitingV>
    decreases ingresses.len(),
{
    if ingresses.len() == 0 {
        Seq::empty()
    } else {
        all_waiting(ingresses.drop_last(), known) + waiting(
            ingresses.last(),
            ingresses.last().access,
            known,
        )
    }
}

/// The policy with the owners of a tag set.
pub open spec fn with_owner(
    policy: Map<Seq<char>, Json>,
    tag: Seq<char>,
    owners: Seq<Seq<char>>,
) -> Map<Seq<char>, Json> {
    let before = match json::field_of(Json::Object(policy), "tagOwners"@) {
        Some(Json::Object(m)) => m,
        _ => Map::empty(),
    };
    policy.insert("tagOwners"@, Json::Object(before.insert(tag, json::text_items(owners))))
}

/// The policy with one more grant.
pub open spec fn with_grant(policy: Map<Seq<char>, Json>, grant: Json) -> Map<Seq<char>, Json> {
    policy.insert("grants"@, Json::Array(policy_document::grants_of(policy).push(grant)))
}

/// The policy with the Ingresses' grants and the owners of their tags.
pub open spec fn with_grants(policy: Map<Seq<char>, Json>, grants: Seq<TaggedV>) -> Map<
    Seq<char>,
    Json,
>
    decreases grants.len(),
{
    if grants.len() == 0 {
        policy
    } else {
        let before = with_grants(policy, grants.drop_last());
        let last = grants.last();
        with_grant(with_owner(before, last.tag, seq![HEADMASTER_TAG@]), last.grant)
    }
}

/// The policy before the Ingresses' grants: the instance's own, with the live
/// groups where SCIM owns them, and with the owning tag declared.
pub open spec fn staged(
    own: Map<Seq<char>, Json>,
    scim_enabled: bool,
    live: Option<Map<Seq<char>, Json>>,
) -> Map<Seq<char>, Json> {
    let grouped = if scim_enabled && live is Some && live->0.dom().contains("groups"@) {
        own.insert("groups"@, live->0["groups"@])
    } else {
        own
    };
    with_owner(grouped, HEADMASTER_TAG@, Seq::empty())
}

/// The policy that the server should have.
pub open spec fn desired(
    own: Map<Seq<char>, Json>,
    scim_enabled: bool,
    live: Option<Map<Seq<char>, Json>>,
    ingresses: Seq<IngressV>,
) -> Map<Seq<char>, Json> {
    let base = staged(own, scim_enabled, live);
    with_grants(base, all_granted(in_order(ingresses), policy_document::known_groups(base)))
}

fn order_of(ingresses: &Vec<PolicyIngress>) -> (r: Vec<usize>)
    ensures
        r@.len() == ingresses@.len(),
        forall|i: int| 0 <= i < r@.len() ==> #[trigger] r@[i] < ingresses@.len(),
        Seq::new(r@.len(), |i: int| ingresses.deep_view()[r@[i] as int]) == in_order(
            ingresses.deep_view(),
        ),
{
    let ghost all = ingresses.deep_view();
    let mut order: Vec<usize> = Vec::new();
    let mut k: usize = 0;
    proof {
        assert(all.take(0) =~= Seq::<IngressV>::empty());
        assert(Seq::new(0, |i: int| all[order@[i] as int]) =~= Seq::<IngressV>::empty());
    }
    while k < ingresses.len()
        invariant
            k <= ingresses@.len(),
            all == ingresses.deep_view(),
            order@.len() == k,
            forall|i: int| 0 <= i < order@.len() ==> #[trigger] order@[i] < ingresses@.len(),
            Seq::new(order@.len(), |i: int| all[order@[i] as int]) == in_order(all.take(k as int)),
        decreases ingresses@.len() - k,
    {
        let ghost sorted = Seq::new(order@.len(), |i: int| all[order@[i] as int]);
        let ghost x = all[k as int];
        let ghost start = order@;
        let mut p: usize = order.len();
        proof {
            assert(sorted.take(p as int) =~= sorted);
            assert(sorted.skip(p as int) =~= Seq::<IngressV>::empty());
            assert(placed(sorted, x) =~= placed(sorted.take(p as int), x) + sorted.skip(p as int));
        }
        while p > 0 && is_before(&ingresses[k], &ingresses[order[p - 1]])
            invariant
                k < ingresses@.len(),
                p <= order@.len(),
                order@ == start,
                order@.len() == k,
                all == ingresses.deep_view(),
                x == all[k as int],
                forall|i: int| 0 <= i < order@.len() ==> #[trigger] order@[i] < ingresses@.len(),
                sorted == Seq::new(order@.len(), |i: int| all[order@[i] as int]),
                placed(sorted, x) == placed(sorted.take(p as int), x) + sorted.skip(p as int),
            ensures
                p <= order@.len(),
                p == 0 || !comes_before(x, sorted[p - 1]),
                placed(sorted, x) == placed(sorted.take(p as int), x) + sorted.skip(p as int),
            decreases p,
        {
            proof {
                let head = sorted.take(p as int);
                assert(head.last() == all[order@[p - 1] as int]);
                assert(head.drop_last() =~= sorted.take(p - 1));
                assert(placed(head, x) == placed(sorted.take(p - 1), x).push(head.last()));
                assert(placed(sorted.take(p - 1), x).push(head.last()) + sorted.skip(p as int)
                    =~= placed(sorted.take(p - 1), x) + sorted.skip(p - 1));
            }
            p -= 1;
        }
        proof {
            let head = sorted.take(p as int);
            if p > 0 {
                assert(head.last() == sorted[p - 1]);
            }
            assert(placed(head, x) == head.push(x));
        }
        order.insert(p, k);
        proof {
            assert(Seq::new(order@.len(), |i: int| all[order@[i] as int]) =~= sorted.take(
                p as int,
            ).push(x) + sorted.skip(p as int));
            assert(all.take(k + 1).drop_last() =~= all.take(k as int));
            assert(all.take(k + 1).last() == x);
        }
        k += 1;
    }
    proof {
        assert(all.take(k as int) =~= all);
    }
    order
}

fn is_before(a: &PolicyIngress, b: &PolicyIngress) -> (r: bool)
    ensures
        r == comes_before(a.deep_view(), b.deep_view()),
{
    text::is_before(a.namespace.as_str(), b.namespace.as_str()) || (a.namespace == b.namespace
        && text::is_before(a.name.as_str(), b.name.as_str()))
}

fn list_missing(from: &Vec<String>, known: &Vec<String>) -> (r: Vec<String>)
    ensures
        r.deep_view() == missing_groups(from.deep_view(), known.deep_view().to_set()),
{
    let ghost all = from.deep_view();
    let ghost set = known.deep_view().to_set();
    let mut out: Vec<String> = Vec::new();
    let mut i: usize = 0;
    proof {
        assert(out.deep_view() =~= Seq::<Seq<char>>::empty());
        assert(all.take(0) =~= Seq::<Seq<char>>::empty());
    }
    while i < from.len()
        invariant
            i <= from@.len(),
            all == from.deep_view(),
            set == known.deep_view().to_set(),
            out.deep_view() == missing_groups(all.take(i as int), set),
        decreases from@.len() - i,
    {
        proof {
            assert(all.take(i + 1).drop_last() =~= all.take(i as int));
            assert(all.take(i + 1).last() == from@[i as int]@);
        }
        if text::starts_with(from[i].as_str(), "group:") && !text::contains(
            known,
            from[i].as_str(),
        ) {
            let ghost before = out.deep_view();
            out.push(from[i].clone());
            proof {
                assert(out.deep_view() =~= before.push(from@[i as int]@));
            }
        }
        i += 1;
    }
    proof {
        assert(all.take(i as int) =~= all);
    }
    out
}

fn build_grant(access: &IngressAccessGrant, tag: &str) -> (r: serde_json::Value)
    ensures
        json::json(r) == grant_json(access.deep_view(), tag@),
{
    let base: Fields = Fields::new().with("src", json::text_array(&access.from)).with(
        "dst",
        List::new().with_text(tag).done(),
    );
    match &access.capabilities {
        Some(caps) => base.with("app", caps.clone()).done(),
        None => base.with("ip", List::new().with_text("*:*").done()).done(),
    }
}

/// The grants that can be written now, and the notices for those that wait.
pub struct CollectedGrants {
    pub grants: Vec<IngressGrant>,
    pub waiting: Vec<WaitingForGroup>,
}

fn collect_ingress(ingress: &PolicyIngress, known: &Vec<String>, collected: &mut CollectedGrants)
    ensures
        final(collected).grants.deep_view() == old(collected).grants.deep_view() + granted(
            ingress.deep_view().access,
            names::auto_tag(ingress.namespace@, ingress.name@),
            known.deep_view().to_set(),
        ),
        final(collected).waiting.deep_view() == old(collected).waiting.deep_view() + waiting(
            ingress.deep_view(),
            ingress.deep_view().access,
            known.deep_view().to_set(),
        ),
{
    let ghost all = ingress.access.deep_view();
    let ghost set = known.deep_view().to_set();
    let ghost grants = collected.grants.deep_view();
    let ghost notes = collected.waiting.deep_view();
    let tag: String = names::ingress_auto_tag(ingress.namespace.as_str(), ingress.name.as_str());
    let mut i: usize = 0;
    proof {
        assert(all.take(0) =~= Seq::<AccessV>::empty());
        assert(collected.grants.deep_view() =~= grants + granted(all.take(0), tag@, set));
        assert(collected.waiting.deep_view() =~= notes + waiting(
            ingress.deep_view(),
            all.take(0),
            set,
        ));
    }
    while i < ingress.access.len()
        invariant
            i <= ingress.access@.len(),
            all == ingress.access.deep_view(),
            set == known.deep_view().to_set(),
            tag@ == names::auto_tag(ingress.namespace@, ingress.name@),
            collected.grants.deep_view() == grants + granted(all.take(i as int), tag@, set),
            collected.waiting.deep_view() == notes + waiting(
                ingress.deep_view(),
                all.take(i as int),
                set,
            ),
        decreases ingress.access@.len() - i,
    {
        let access: &IngressAccessGrant = &ingress.access[i];
        proof {
            assert(all.take(i + 1).drop_last() =~= all.take(i as int));
            assert(all.take(i + 1).last() == access.deep_view());
        }
        let missing: Vec<String> = list_missing(&access.from, known);
        let ghost granted_before = collected.grants.deep_view();
        let ghost waiting_before = collected.waiting.deep_view();
        if missing.len() == 0 {
            collected.grants.push(
                IngressGrant { grant: build_grant(access, tag.as_str()), tag: tag.clone() },
            );
            proof {
                let new = TaggedV { grant: grant_json(access.deep_view(), tag@), tag: tag@ };
                assert(collected.grants.deep_view() =~= granted_before.push(new));
                assert(granted_before.push(new) =~= grants + granted(
                    all.take(i as int),
                    tag@,
                    set,
                ).push(new));
            }
        } else {
            let names: String = text::join(&missing, ", ");
            let note: String = text::cat3(
                "access grant references groups not yet synced: ",
                names.as_str(),
                "; the grant will be applied once these groups are available",
            );
            collected.waiting.push(
                WaitingForGroup {
                    namespace: ingress.namespace.clone(),
                    name: ingress.name.clone(),
                    note,
                },
            );
            proof {
                let new = WaitingV {
                    namespace: ingress.namespace@,
                    name: ingress.name@,
                    note: waiting_note(missing.deep_view()),
                };
                assert(collected.waiting.deep_view() =~= waiting_before.push(new));
                assert(waiting_before.push(new) =~= notes + waiting(
                    ingress.deep_view(),
                    all.take(i as int),
                    set,
                ).push(new));
            }
        }
        i += 1;
    }
    proof {
        assert(all.take(i as int) =~= all);
    }
}

/// Collects the grants of the Ingresses, in their order, for a policy that
/// declares the groups `known`.
pub fn collect_grants(ingresses: &Vec<PolicyIngress>, known: &Vec<String>) -> (r: CollectedGrants)
    ensures
        r.grants.deep_view() == all_granted(
            in_order(ingresses.deep_view()),
            known.deep_view().to_set(),
        ),
        r.waiting.deep_view() == all_waiting(
            in_order(ingresses.deep_view()),
            known.deep_view().to_set(),
        ),
{
    let order: Vec<usize> = order_of(ingresses);
    let ghost sorted = in_order(ingresses.deep_view());
    let ghost set = known.deep_view().to_set();
    let mut out: CollectedGrants = CollectedGrants { grants: Vec::new(), waiting: Vec::new() };
    let mut i: usize = 0;
    proof {
        assert(sorted.take(0) =~= Seq::<IngressV>::empty());
        assert(out.grants.deep_view() =~= Seq::<TaggedV>::empty());
        assert(out.waiting.deep_view() =~= Seq::<WaitingV>::empty());
    }
    while i < order.len()
        invariant
            i <= order@.len(),
            order@.len() == ingresses@.len(),
            forall|j: int| 0 <= j < order@.len() ==> #[trigger] order@[j] < ingresses@.len(),
            sorted == Seq::new(order@.len(), |j: int| ingresses.deep_view()[order@[j] as int]),
            set == known.deep_view().to_set(),
            out.grants.deep_view() == all_granted(sorted.take(i as int), set),
            out.waiting.deep_view() == all_waiting(sorted.take(i as int), set),
        decreases order@.len() - i,
    {
        proof {
            assert(sorted.take(i + 1).drop_last() =~= sorted.take(i as int));
            assert(sorted.take(i + 1).last() == ingresses@[order@[i as int] as int].deep_view());
        }
        collect_ingress(&ingresses[order[i]], known, &mut out);
        i += 1;
    }
    proof {
        assert(sorted.take(i as int) =~= sorted);
    }
    out
}

fn set_owner(policy: serde_json::Value, tag: &str, owners: &Vec<String>) -> (r: serde_json::Value)
    requires
        json::json(policy) is Object,
    ensures
        json::json(r) == Json::Object(
            with_owner(json::json(policy)->Object_0, tag@, owners.deep_view()),
        ),
{
    let before: serde_json::Value = match json::field(&policy, "tagOwners") {
        Some(v) => if json::field_names(v).is_some() {
            v.clone()
        } else {
            json::empty_object()
        },
        None => json::empty_object(),
    };
    let after: serde_json::Value = json::with_field(
        before,
        tag.to_owned(),
        json::text_array(owners),
    );
    json::with_field(policy, "tagOwners".to_owned(), after)
}

fn add_grant(policy: serde_json::Value, grant: serde_json::Value) -> (r: serde_json::Value)
    requires
        json::json(policy) is Object,
    ensures
        json::json(r) == Json::Object(with_grant(json::json(policy)->Object_0, json::json(grant))),
{
    let ghost all = policy_document::grants_of(json::json(policy)->Object_0);
    let mut out: List = List::new();
    let items: Option<&Vec<serde_json::Value>> = match json::field(&policy, "grants") {
        Some(v) => v.as_array(),
        None => None,
    };
    if let Some(items) = items {
        let mut i: usize = 0;
        assert(all == json::jsons(items@));
        while i < items.len()
            invariant
                i <= items@.len(),
                all == json::jsons(items@),
                out@ == all.take(i as int),
            decreases items@.len() - i,
        {
            out = out.with(items[i].clone());
            i += 1;
            assert(out@ =~= all.take(i as int));
        }
        assert(all.take(i as int) =~= all);
    }
    assert(out@ =~= all);
    let grants: serde_json::Value = out.with(grant).done();
    json::with_field(policy, "grants".to_owned(), grants)
}

/// Writes the Ingresses' grants into a policy.
pub fn add_grants(policy: serde_json::Value, grants: &Vec<IngressGrant>) -> (r: serde_json::Value)
    requires
        json::json(policy) is Object,
    ensures
        json::json(r) == Json::Object(
            with_grants(json::json(policy)->Object_0, grants.deep_view()),
        ),
{
    let ghost start = json::json(policy)->Object_0;
    let ghost all = grants.deep_view();
    let mut owners: Vec<String> = Vec::new();
    owners.push(HEADMASTER_TAG.to_owned());
    let mut out: serde_json::Value = policy;
    let mut i: usize = 0;
    proof {
        assert(owners.deep_view() =~= seq![HEADMASTER_TAG@]);
        assert(all.take(0) =~= Seq::<TaggedV>::empty());
    }
    while i < grants.len()
        invariant
            i <= grants@.len(),
            all == grants.deep_view(),
            owners.deep_view() == seq![HEADMASTER_TAG@],
            json::json(out) == Json::Object(with_grants(start, all.take(i as int))),
        decreases grants@.len() - i,
    {
        proof {
            assert(all.take(i + 1).drop_last() =~= all.take(i as int));
            assert(all.take(i + 1).last() == grants@[i as int].deep_view());
        }
        out = set_owner(out, grants[i].tag.as_str(), &owners);
        out = add_grant(out, grants[i].grant.clone());
        i += 1;
    }
    proof {
        assert(all.take(i as int) =~= all);
    }
    out
}

/// A policy with the Ingresses' grants in it, and what is left to say of them.
pub struct MergedPolicy {
    /// The policy afterwards.
    pub policy: serde_json::Value,
    /// The grants that were added.
    pub grants: Vec<IngressGrant>,
    /// The notices for the grants that wait.
    pub waiting: Vec<WaitingForGroup>,
}

/// Adds the Ingresses' grants to a policy, in the order of the Ingresses. A grant
/// for a group that the policy does not declare waits.
pub fn merge_ingress_grants(policy: serde_json::Value, ingresses: &Vec<PolicyIngress>) -> (r:
    MergedPolicy)
    requires
        json::json(policy) is Object,
    ensures
        ({
            let base = json::json(policy)->Object_0;
            let known = policy_document::known_groups(base);
            let sorted = in_order(ingresses.deep_view());
            &&& json::json(r.policy) == Json::Object(
                with_grants(base, all_granted(sorted, known)),
            )
            &&& r.grants.deep_view() == all_granted(sorted, known)
            &&& r.waiting.deep_view() == all_waiting(sorted, known)
        }),
{
    let known: Vec<String> = policy_document::list_groups(&policy);
    let collected: CollectedGrants = collect_grants(ingresses, &known);
    let merged: serde_json::Value = add_grants(policy, &collected.grants);
    MergedPolicy { policy: merged, grants: collected.grants, waiting: collected.waiting }
}

/// How the live policy text is to change.
pub struct PolicyChange {
    /// Whether the live groups replace those of the instance's policy.
    pub copy_groups: bool,
    /// The grants to add, each with the tag that it leads to.
    pub grants: Vec<IngressGrant>,
    /// The policy afterwards.
    pub policy: serde_json::Value,
    /// Whether the SCIM service is to be told.
    pub notify_scim: bool,
}

/// What to do about the live policy.
pub enum PolicyPlan {
    /// The instance's policy is no policy.
    Invalid(PolicyParseError),
    /// The live policy is as it should be.
    Keep,
    /// Make the live policy empty.
    Clear,
    /// Change the live policy.
    Change(PolicyChange),
}

/// A plan, with the notices to publish before it is carried out.
pub struct PlannedPolicy {
    pub waiting: Vec<WaitingForGroup>,
    pub plan: PolicyPlan,
}

/// What is planned for an instance with the policy `own` whose server has the policy
/// `live`, and `compared` where the blanks around its text are left out.
pub open spec fn plans(
    own: Map<Seq<char>, Json>,
    scim_enabled: bool,
    live: Option<Map<Seq<char>, Json>>,
    compared: Option<Map<Seq<char>, Json>>,
    ingresses: Seq<IngressV>,
    r: PlannedPolicy,
) -> bool {
    let known = policy_document::known_groups(staged(own, scim_enabled, live));
    let wanted = desired(own, scim_enabled, live, ingresses);
    &&& r.waiting.deep_view() == all_waiting(in_order(ingresses), known)
    &&& compared == Some(wanted) ==> r.plan is Keep
    &&& compared != Some(wanted) ==> {
        &&& r.plan matches PolicyPlan::Change(change)
        &&& change.copy_groups == (scim_enabled && live is Some)
        &&& change.grants.deep_view() == all_granted(in_order(ingresses), known)
        &&& json::json(change.policy) == Json::Object(wanted)
        &&& change.notify_scim == scim_enabled
    }
}

/// The fields of a policy that was read.
pub open spec fn fields_of(policy: Option<serde_json::Value>) -> Option<Map<Seq<char>, Json>> {
    match policy {
        Some(v) => Some(json::json(v)->Object_0),
        None => None,
    }
}

/// Plans what to do about the live policy of a server: `own` is the instance's policy,
/// `live` the server's where that is one, and `compared` the same without the blanks
/// around its text. All of them are objects.
pub fn plan_policy(
    own: serde_json::Value,
    scim_enabled: bool,
    live: Option<serde_json::Value>,
    compared: Option<serde_json::Value>,
    ingresses: &Vec<PolicyIngress>,
) -> (r: PlannedPolicy)
    requires
        json::json(own) is Object,
        live matches Some(v) ==> json::json(v) is Object,
        compared matches Some(v) ==> json::json(v) is Object,
    ensures
        plans(
            json::json(own)->Object_0,
            scim_enabled,
            fields_of(live),
            fields_of(compared),
            ingresses.deep_view(),
            r,
        ),
{
    let mut staged_policy: serde_json::Value = own;
    let mut copy_groups: bool = false;
    if scim_enabled {
        if let Some(live) = &live {
            copy_groups = true;
            if let Some(groups) = json::field(live, "groups") {
                staged_policy = json::with_field(
                    staged_policy,
                    "groups".to_owned(),
                    groups.clone(),
                );
            }
        }
    }
    let nobody: Vec<String> = Vec::new();
    proof {
        assert(nobody.deep_view() =~= Seq::<Seq<char>>::empty());
    }
    staged_policy = set_owner(staged_policy, HEADMASTER_TAG, &nobody);
    let merged: MergedPolicy = merge_ingress_grants(staged_policy, ingresses);
    let same: bool = match &compared {
        Some(live) => json::equal(live, &merged.policy),
        None => false,
    };
    if same {
        return PlannedPolicy { waiting: merged.waiting, plan: PolicyPlan::Keep };
    }
    PlannedPolicy {
        waiting: merged.waiting,
        plan: PolicyPlan::Change(
            PolicyChange {
                copy_groups,
                grants: merged.grants,
                policy: merged.policy,
                notify_scim: scim_enabled,
            },
        ),
    }
}

fn readable(policy: &str) -> (r: Option<serde_json::Value>)
    ensures
        r is Some <==> policy_document::policy_of(policy@) is Some,
        r matches Some(v) ==> json::json(v) is Object,
        fields_of(r) == policy_document::policy_of(policy@),
{
    match policy_document::parse_policy(policy) {
        Ok(v) => Some(v),
        Err(_) => None,
    }
}

/// Plans what to do about the live policy `current` of a server.
///
/// Without a policy of its own, an instance has an empty live policy. With SCIM
/// the live groups are kept, whatever the instance's own policy says of groups.
pub fn sync_policy(
    policy: Option<&HeadscaleInstancePolicy>,
    scim_enabled: bool,
    current: &str,
    ingresses: &Vec<PolicyIngress>,
) -> (r: PlannedPolicy)
    ensures
        match policy {
            None => r.waiting@.len() == 0 && (if current@.len() == 0 {
                r.plan is Keep
            } else {
                r.plan is Clear
            }),
            Some(HeadscaleInstancePolicy::Inline { inline }) => match policy_document::policy_of(
                inline@,
            ) {
                None => r.waiting@.len() == 0 && r.plan is Invalid,
                Some(own) => plans(
                    own,
                    scim_enabled,
                    policy_document::policy_of(current@),
                    policy_document::policy_of(text::trimmed(current@)),
                    ingresses.deep_view(),
                    r,
                ),
            },
        },
{
    let inline: &String = match policy {
        None => {
            let plan: PolicyPlan = if current.unicode_len() == 0 {
                PolicyPlan::Keep
            } else {
                PolicyPlan::Clear
            };
            return PlannedPolicy { waiting: Vec::new(), plan };
        },
        Some(HeadscaleInstancePolicy::Inline { inline }) => inline,
    };
    match policy_document::parse_policy(inline.as_str()) {
        Ok(own) => plan_policy(
            own,
            scim_enabled,
            readable(current),
            readable(text::trim(current)),
            ingresses,
        ),
        Err(e) => PlannedPolicy { waiting: Vec::new(), plan: PolicyPlan::Invalid(e) },
    }
}

/// A group of this policy that has members.
pub open spec fn has_members(policy: Json, group: Seq<char>) -> bool {
    json::field_of(policy, "groups"@) matches Some(Json::Object(groups)) && groups.dom().contains(
        group,
    ) && (groups[group] matches Json::Array(members) && members.len() > 0)
}

/// Whether a policy has a group with members.
pub fn groups_with_members(policy: &serde_json::Value) -> (r: bool)
    ensures
        r == exists|group: Seq<char>| has_members(json::json(*policy), group),
{
    let groups: &serde_json::Value = match json::field(policy, "groups") {
        Some(g) => g,
        None => {
            return false;
        },
    };
    let names: Vec<String> = match json::field_names(groups) {
        Some(names) => names,
        None => {
            return false;
        },
    };
    let ghost m = json::json(*groups)->Object_0;
    let mut i: usize = 0;
    while i < names.len()
        invariant
            i <= names@.len(),
            json::json(*groups) == Json::Object(m),
            json::field_of(json::json(*policy), "groups"@) == Some(Json::Object(m)),
            names.deep_view().to_set() == m.dom(),
            forall|j: int|
                0 <= j < i ==> !has_members(json::json(*policy), (#[trigger] names@[j])@),
        decreases names@.len() - i,
    {
        proof {
            assert(names.deep_view()[i as int] == names@[i as int]@);
            assert(names.deep_view().to_set().contains(names@[i as int]@));
        }
        if let Some(group) = json::field(groups, names[i].as_str()) {
            if let Some(members) = group.as_array() {
                if members.len() > 0 {
                    assert(has_members(json::json(*policy), names@[i as int]@));
                    return true;
                }
            }
        }
        i += 1;
    }
    proof {
        assert forall|group: Seq<char>| !has_members(json::json(*policy), group) by {
            if m.dom().contains(group) {
                assert(names.deep_view().to_set().contains(group));
                let j = choose|j: int|
                    0 <= j < names.deep_view().len() && names.deep_view()[j] == group;
                assert(names@[j]@ == group);
            }
        }
    }
    false
}

/// Whether the instance's own policy has a group with members. A policy that
/// cannot be read has none.
pub fn policy_has_groups_with_members(policy: Option<&HeadscaleInstancePolicy>) -> (r: bool)
    ensures
        r == (policy matches Some(HeadscaleInstancePolicy::Inline { inline }) && text::trimmed(
            inline@,
        ).len() > 0 && (policy_document::hujson(inline@) matches Some(v) && exists|
            group: Seq<char>,
        |
            has_members(v, group))),
{
    match policy {
        None => false,
        Some(HeadscaleInstancePolicy::Inline { inline }) => {
            if text::trim(inline.as_str()).unicode_len() == 0 {
                return false;
            }
            match policy_document::parse_hujson(inline.as_str()) {
                Ok(v) => groups_with_members(&v),
                Err(_) => false,
            }
        },
    }
}

/// Where the SCIM service of an instance is told to reconcile.
pub fn scim_reconcile_url(namespace: &str, instance: &str) -> (r: String)
    ensures
        r@ == "http://headscale-scim-"@ + instance@ + "."@ + namespace@
            + ".svc:8081/internal/reconcile"@,
{
    text::cat5(
        "http://headscale-scim-",
        instance,
        ".",
        namespace,
        ".svc:8081/internal/reconcile",
    )
}

// Laws.

proof fn placed_keeps(sorted: Seq<IngressV>, x: IngressV)
    ensures
        placed(sorted, x).to_multiset() == sorted.to_multiset().insert(x),
    decreases sorted.len(),
{
    broadcast use vstd::seq_lib::group_to_multiset_ensures;

    if sorted.len() > 0 && comes_before(x, sorted.last()) {
        placed_keeps(sorted.drop_last(), x);
        assert(sorted =~= sorted.drop_last().push(sorted.last()));
        assert(placed(sorted, x).to_multiset() =~= sorted.to_multiset().insert(x));
    }
}

/// Ordering the Ingresses loses none and adds none.
pub proof fn ordering_keeps_all(ingresses: Seq<IngressV>)
    ensures
        in_order(ingresses).to_multiset() == ingresses.to_multiset(),
    decreases ingresses.len(),
{
    broadcast use vstd::seq_lib::group_to_multiset_ensures;

    if ingresses.len() > 0 {
        ordering_keeps_all(ingresses.drop_last());
        placed_keeps(in_order(ingresses.drop_last()), ingresses.last());
        assert(ingresses =~= ingresses.drop_last().push(ingresses.last()));
    } else {
        assert(in_order(ingresses) =~= ingresses);
    }
}

spec fn is_ordered(s: Seq<IngressV>) -> bool {
    forall|i: int, j: int| 0 <= i < j < s.len() ==> !comes_before(#[trigger] s[j], #[trigger] s[i])
}

proof fn comes_before_chain(a: IngressV, b: IngressV, c: IngressV)
    requires
        !comes_before(b, a),
        comes_before(c, a),
    ensures
        comes_before(c, b),
{
    text::before_is_total(a.namespace, b.namespace);
    text::before_is_total(a.name, b.name);
    if text::before(c.namespace, a.namespace) && text::before(a.namespace, b.namespace) {
        text::before_is_transitive(c.namespace, a.namespace, b.namespace);
    }
    if text::before(c.name, a.name) && text::before(a.name, b.name) {
        text::before_is_transitive(c.name, a.name, b.name);
    }
}

proof fn placed_ordered(sorted: Seq<IngressV>, x: IngressV)
    requires
        is_ordered(sorted),
    ensures
        is_ordered(placed(sorted, x)),
        forall|i: int|
            0 <= i < placed(sorted, x).len() ==> #[trigger] placed(sorted, x)[i] == x
                || sorted.contains(placed(sorted, x)[i]),
    decreases sorted.len(),
{
    let r = placed(sorted, x);
    if sorted.len() > 0 && comes_before(x, sorted.last()) {
        let rest = sorted.drop_last();
        assert(is_ordered(rest)) by {
            assert forall|i: int, j: int| 0 <= i < j < rest.len() implies !comes_before(
                #[trigger] rest[j],
                #[trigger] rest[i],
            ) by {
                assert(!comes_before(sorted[j], sorted[i]));
            }
        }
        placed_ordered(rest, x);
        let q = placed(rest, x);
        assert forall|i: int| 0 <= i < r.len() implies #[trigger] r[i] == x || sorted.contains(
            r[i],
        ) by {
            if i < q.len() {
                assert(r[i] == q[i]);
                if q[i] != x {
                    let k = choose|k: int| 0 <= k < rest.len() && rest[k] == q[i];
                    assert(sorted[k] == r[i]);
                }
            } else {
                assert(sorted[sorted.len() - 1] == r[i]);
            }
        }
        assert forall|i: int, j: int| 0 <= i < j < r.len() implies !comes_before(
            #[trigger] r[j],
            #[trigger] r[i],
        ) by {
            if j < q.len() {
                assert(!comes_before(q[j], q[i]));
            } else {
                assert(r[i] == q[i]);
                let last = sorted.last();
                if q[i] == x {
                    if comes_before(last, x) {
                        text::before_is_total(last.namespace, x.namespace);
                        if text::before(last.namespace, x.namespace) {
                            text::before_is_asymmetric(last.namespace, x.namespace);
                        } else {
                            text::before_is_irreflexive(x.namespace);
                            text::before_is_asymmetric(last.name, x.name);
                        }
                    }
                } else {
                    let k = choose|k: int| 0 <= k < rest.len() && rest[k] == q[i];
                    assert(!comes_before(sorted[sorted.len() - 1], sorted[k]));
                }
            }
        }
    } else {
        assert forall|i: int| 0 <= i < r.len() implies #[trigger] r[i] == x || sorted.contains(
            r[i],
        ) by {
            if i < sorted.len() {
                assert(r[i] == sorted[i]);
            }
        }
        assert forall|i: int, j: int| 0 <= i < j < r.len() implies !comes_before(
            #[trigger] r[j],
            #[trigger] r[i],
        ) by {
            if j < sorted.len() {
                assert(!comes_before(sorted[j], sorted[i]));
            } else {
                assert(!comes_before(x, sorted.last()));
                if i < sorted.len() - 1 {
                    assert(!comes_before(sorted[sorted.len() - 1], sorted[i]));
                    if comes_before(x, sorted[i]) {
                        comes_before_chain(sorted[i], sorted.last(), x);
                    }
                }
            }
        }
    }
}

/// The Ingresses are taken in order: none comes before one that is taken earlier.
pub proof fn ordering_orders(ingresses: Seq<IngressV>, i: int, j: int)
    requires
        0 <= i < j < in_order(ingresses).len(),
    ensures
        !comes_before(in_order(ingresses)[j], in_order(ingresses)[i]),
{
    ordering_is_ordered(ingresses);
}

proof fn ordering_is_ordered(ingresses: Seq<IngressV>)
    ensures
        is_ordered(in_order(ingresses)),
    decreases ingresses.len(),
{
    if ingresses.len() > 0 {
        ordering_is_ordered(ingresses.drop_last());
        placed_ordered(in_order(ingresses.drop_last()), ingresses.last());
    }
}

proof fn distinct_sections()
    ensures
        "groups"@ != "grants"@,
        "groups"@ != "tagOwners"@,
        "grants"@ != "tagOwners"@,
{
    reveal_strlit("groups");
    reveal_strlit("grants");
    reveal_strlit("tagOwners");
    assert("groups"@[2] == 'o' && "grants"@[2] == 'a');
    assert("tagOwners"@[0] == 't' && "groups"@[0] == 'g' && "grants"@[0] == 'g');
}

/// The Ingresses' grants come behind the policy's own, which stay; every other
/// section but `tagOwners` stays too.
pub proof fn grants_are_only_added(
    policy: Map<Seq<char>, Json>,
    grants: Seq<TaggedV>,
    key: Seq<char>,
)
    ensures
        key != "grants"@ && key != "tagOwners"@ ==> json::field_of(
            Json::Object(with_grants(policy, grants)),
            key,
        ) == json::field_of(Json::Object(policy), key),
        policy_document::grants_of(with_grants(policy, grants)) == policy_document::grants_of(
            policy,
        ) + Seq::new(grants.len(), |i: int| grants[i].grant),
    decreases grants.len(),
{
    distinct_sections();
    let added = Seq::new(grants.len(), |i: int| grants[i].grant);
    if grants.len() > 0 {
        let before = with_grants(policy, grants.drop_last());
        grants_are_only_added(policy, grants.drop_last(), key);
        let last = grants.last();
        let owned = with_owner(before, last.tag, seq![HEADMASTER_TAG@]);
        assert(policy_document::grants_of(owned) == policy_document::grants_of(before));
        assert(policy_document::grants_of(with_grants(policy, grants))
            == policy_document::grants_of(before).push(last.grant));
        assert(policy_document::grants_of(before).push(last.grant) =~= policy_document::grants_of(
            policy,
        ) + added);
    } else {
        assert(policy_document::grants_of(policy) + added =~= policy_document::grants_of(policy));
    }
}

proof fn grants_keep_groups(policy: Map<Seq<char>, Json>, grants: Seq<TaggedV>)
    ensures
        json::field_of(Json::Object(with_grants(policy, grants)), "groups"@) == json::field_of(
            Json::Object(policy),
            "groups"@,
        ),
{
    distinct_sections();
    grants_are_only_added(policy, grants, "groups"@);
}

/// With SCIM, the groups of the live policy are never overwritten.
pub proof fn scim_groups_survive(
    own: Map<Seq<char>, Json>,
    live: Map<Seq<char>, Json>,
    ingresses: Seq<IngressV>,
)
    requires
        live.dom().contains("groups"@),
    ensures
        desired(own, true, Some(live), ingresses).dom().contains("groups"@),
        desired(own, true, Some(live), ingresses)["groups"@] == live["groups"@],
{
    distinct_sections();
    let base = staged(own, true, Some(live));
    grants_keep_groups(
        base,
        all_granted(in_order(ingresses), policy_document::known_groups(base)),
    );
}

/// Without SCIM, the groups are those of the instance's own policy.
pub proof fn own_groups_without_scim(
    own: Map<Seq<char>, Json>,
    live: Option<Map<Seq<char>, Json>>,
    ingresses: Seq<IngressV>,
)
    ensures
        json::field_of(Json::Object(desired(own, false, live, ingresses)), "groups"@)
            == json::field_of(Json::Object(own), "groups"@),
{
    distinct_sections();
    let base = staged(own, false, live);
    grants_keep_groups(
        base,
        all_granted(in_order(ingresses), policy_document::known_groups(base)),
    );
}

/// The live policy that a synchronisation writes is one that the next
/// synchronisation keeps.
pub proof fn synchronising_again_keeps(
    own: Map<Seq<char>, Json>,
    scim_enabled: bool,
    live: Option<Map<Seq<char>, Json>>,
    ingresses: Seq<IngressV>,
)
    ensures
        ({
            let wanted = desired(own, scim_enabled, live, ingresses);
            desired(own, scim_enabled, Some(wanted), ingresses) == wanted
        }),
{
    distinct_sections();
    let base = staged(own, scim_enabled, live);
    let wanted = desired(own, scim_enabled, live, ingresses);
    grants_keep_groups(
        base,
        all_granted(in_order(ingresses), policy_document::known_groups(base)),
    );
    let again = staged(own, scim_enabled, Some(wanted));
    if scim_enabled && wanted.dom().contains("groups"@) {
        if live is Some && live->0.dom().contains("groups"@) {
            assert(wanted["groups"@] == live->0["groups"@]);
        } else {
            assert(wanted["groups"@] == own["groups"@]);
            assert(own.insert("groups"@, wanted["groups"@]) =~= own);
        }
    }
    assert(again == base);
}

/// The tag that owns all proxy tags is always declared.
pub proof fn owning_tag_is_declared(
    own: Map<Seq<char>, Json>,
    scim_enabled: bool,
    live: Option<Map<Seq<char>, Json>>,
    ingresses: Seq<IngressV>,
)
    ensures
        json::field_of(
            Json::Object(desired(own, scim_enabled, live, ingresses)),
            "tagOwners"@,
        ) matches Some(Json::Object(owners)) && owners.dom().contains(HEADMASTER_TAG@),
{
    distinct_sections();
    let base = staged(own, scim_enabled, live);
    owners_stay(
        base,
        all_granted(in_order(ingresses), policy_document::known_groups(base)),
        HEADMASTER_TAG@,
    );
}

proof fn owners_stay(policy: Map<Seq<char>, Json>, grants: Seq<TaggedV>, tag: Seq<char>)
    requires
        json::field_of(Json::Object(policy), "tagOwners"@) matches Some(Json::Object(owners))
            && owners.dom().contains(tag),
    ensures
        json::field_of(Json::Object(with_grants(policy, grants)), "tagOwners"@) matches Some(
            Json::Object(owners),
        ) && owners.dom().contains(tag),
    decreases grants.len(),
{
    distinct_sections();
    if grants.len() > 0 {
        owners_stay(policy, grants.drop_last(), tag);
    }
}

/// A grant is written only when every group that it refers to is declared.
pub proof fn grants_wait_for_their_groups(
    access: Seq<AccessV>,
    tag: Seq<char>,
    known: Set<Seq<char>>,
    i: int,
)
    requires
        0 <= i < granted(access, tag, known).len(),
    ensures
        exists|k: int|
            0 <= k < access.len() && missing_groups((#[trigger] access[k]).from, known).len() == 0
                && granted(access, tag, known)[i] == (TaggedV {
                grant: grant_json(access[k], tag),
                tag,
            }),
    decreases access.len(),
{
    let rest = granted(access.drop_last(), tag, known);
    if i < rest.len() {
        grants_wait_for_their_groups(access.drop_last(), tag, known, i);
        let k = choose|k: int|
            0 <= k < access.drop_last().len() && missing_groups(
                (#[trigger] access.drop_last()[k]).from,
                known,
            ).len() == 0 && rest[i] == (TaggedV {
                grant: grant_json(access.drop_last()[k], tag),
                tag,
            });
        assert(access[k] == access.drop_last()[k]);
    } else {
        assert(access[access.len() - 1] == access.last());
    }
}

proof fn in_longer<T>(shorter: Seq<T>, longer: Seq<T>, x: T)
    requires
        shorter.contains(x),
        shorter.is_prefix_of(longer),
    ensures
        longer.contains(x),
{
    let i = choose|i: int| 0 <= i < shorter.len() && shorter[i] == x;
    assert(longer[i] == x);
}

proof fn in_pushed<T>(s: Seq<T>, x: T)
    ensures
        s.push(x).contains(x),
{
    assert(s.push(x)[s.len() as int] == x);
}

/// Of every access entry of an Ingress there is either a grant or a notice on the
/// Ingress that names the groups it waits for.
pub proof fn access_is_granted_or_announced(
    ingress: IngressV,
    access: Seq<AccessV>,
    tag: Seq<char>,
    known: Set<Seq<char>>,
    k: int,
)
    requires
        0 <= k < access.len(),
    ensures
        ({
            let missing = missing_groups(access[k].from, known);
            if missing.len() == 0 {
                granted(access, tag, known).contains(
                    TaggedV { grant: grant_json(access[k], tag), tag },
                )
            } else {
                waiting(ingress, access, known).contains(
                    WaitingV {
                        namespace: ingress.namespace,
                        name: ingress.name,
                        note: waiting_note(missing),
                    },
                )
            }
        }),
    decreases access.len(),
{
    let fewer = access.drop_last();
    let missing = missing_groups(access[k].from, known);
    let grant = TaggedV { grant: grant_json(access[k], tag), tag };
    let notice = WaitingV {
        namespace: ingress.namespace,
        name: ingress.name,
        note: waiting_note(missing),
    };
    if k < fewer.len() {
        assert(fewer[k] == access[k]);
        access_is_granted_or_announced(ingress, fewer, tag, known, k);
        if missing.len() == 0 {
            in_longer(granted(fewer, tag, known), granted(access, tag, known), grant);
        } else {
            in_longer(waiting(ingress, fewer, known), waiting(ingress, access, known), notice);
        }
    } else if missing.len() == 0 {
        in_pushed(granted(fewer, tag, known), grant);
    } else {
        in_pushed(waiting(ingress, fewer, known), notice);
    }
}

/// An access entry is granted once every group that it refers to is declared.
pub proof fn access_is_granted_once_its_groups_are_there(
    access: Seq<AccessV>,
    tag: Seq<char>,
    known: Set<Seq<char>>,
    k: int,
)
    requires
        0 <= k < access.len(),
        forall|group: Seq<char>|
            access[k].from.contains(group) && "group:"@.is_prefix_of(group) ==> known.contains(
                group,
            ),
    ensures
        granted(access, tag, known).contains(TaggedV { grant: grant_json(access[k], tag), tag }),
{
    nothing_is_missing(access[k].from, known);
    let nobody = IngressV { namespace: Seq::empty(), name: Seq::empty(), access };
    access_is_granted_or_announced(nobody, access, tag, known, k);
}

proof fn nothing_is_missing(from: Seq<Seq<char>>, known: Set<Seq<char>>)
    requires
        forall|group: Seq<char>|
            from.contains(group) && "group:"@.is_prefix_of(group) ==> known.contains(group),
    ensures
        missing_groups(from, known).len() == 0,
    decreases from.len(),
{
    if from.len() > 0 {
        let fewer = from.drop_last();
        assert forall|group: Seq<char>|
            fewer.contains(group) && "group:"@.is_prefix_of(group) implies known.contains(
            group,
        ) by {
            in_longer(fewer, from, group);
        }
        nothing_is_missing(fewer, known);
        assert(from[from.len() - 1] == from.last());
    }
}

/// The tag that a grant leads to is declared, and owned by the tag that owns all
/// proxy tags.
pub proof fn granted_tags_are_owned(
    policy: Map<Seq<char>, Json>,
    grants: Seq<TaggedV>,
    i: int,
)
    requires
        0 <= i < grants.len(),
    ensures
        json::field_of(Json::Object(with_grants(policy, grants)), "tagOwners"@) matches Some(
            Json::Object(owners),
        ) && owners.dom().contains(grants[i].tag) && owners[grants[i].tag] == json::text_items(
            seq![HEADMASTER_TAG@],
        ),
    decreases grants.len(),
{
    distinct_sections();
    if i < grants.len() - 1 {
        granted_tags_are_owned(policy, grants.drop_last(), i);
        assert(grants.drop_last()[i] == grants[i]);
    }
}

/// What stands in a section of a policy that is a list; nothing where it is none.
pub open spec fn list_in(policy: Map<Seq<char>, Json>, section: Seq<char>) -> Seq<Json> {
    if policy.dom().contains(section) && policy[section] is Array {
        policy[section]->Array_0
    } else {
        Seq::empty()
    }
}

/// What stands under a key in a section of a policy that is an object.
pub open spec fn entry_in(
    policy: Map<Seq<char>, Json>,
    section: Seq<char>,
    key: Seq<char>,
) -> Option<Json> {
    if policy.dom().contains(section) && policy[section] is Object
        && policy[section]->Object_0.dom().contains(key) {
        Some(policy[section]->Object_0[key])
    } else {
        None
    }
}

/// The policy that a server has once a plan for it is carried out, where it had the
/// policy `compared` before.
pub open spec fn settled(compared: Option<Map<Seq<char>, Json>>, r: PlannedPolicy) -> Map<
    Seq<char>,
    Json,
> {
    match r.plan {
        PolicyPlan::Change(change) => json::json(change.policy)->Object_0,
        _ => compared->0,
    }
}

proof fn settled_is_desired(
    own: Map<Seq<char>, Json>,
    scim_enabled: bool,
    live: Option<Map<Seq<char>, Json>>,
    compared: Option<Map<Seq<char>, Json>>,
    ingresses: Seq<IngressV>,
    r: PlannedPolicy,
)
    requires
        plans(own, scim_enabled, live, compared, ingresses, r),
    ensures
        settled(compared, r) == desired(own, scim_enabled, live, ingresses),
{
}

/// A server's policy is left alone exactly where it already is what the instance asks
/// for; otherwise the plan is a change, and the SCIM service is told of it where there
/// is one.
pub proof fn policy_is_changed_where_it_differs(
    own: Map<Seq<char>, Json>,
    scim_enabled: bool,
    live: Option<Map<Seq<char>, Json>>,
    compared: Option<Map<Seq<char>, Json>>,
    ingresses: Seq<IngressV>,
    r: PlannedPolicy,
    other: PlannedPolicy,
    elsewhere: Option<Map<Seq<char>, Json>>,
)
    requires
        plans(own, scim_enabled, live, compared, ingresses, r),
        plans(own, scim_enabled, live, elsewhere, ingresses, other),
    ensures
        settled(compared, r) == settled(elsewhere, other),
        r.plan is Keep || r.plan is Change,
        r.plan is Keep <==> compared == Some(settled(elsewhere, other)),
        r.plan matches PolicyPlan::Change(change) ==> {
            &&& json::json(change.policy) is Object
            &&& change.notify_scim == scim_enabled
            &&& change.copy_groups == (scim_enabled && live is Some)
        },
{
}

/// Whatever the plan, every section of the instance's own policy but `groups`, `grants`
/// and `tagOwners` is what the server has afterwards, and there are no further ones.
pub proof fn own_sections_are_kept(
    own: Map<Seq<char>, Json>,
    scim_enabled: bool,
    live: Option<Map<Seq<char>, Json>>,
    compared: Option<Map<Seq<char>, Json>>,
    ingresses: Seq<IngressV>,
    r: PlannedPolicy,
    section: Seq<char>,
)
    requires
        plans(own, scim_enabled, live, compared, ingresses, r),
        section != "groups"@,
        section != "grants"@,
        section != "tagOwners"@,
    ensures
        settled(compared, r).dom().contains(section) == own.dom().contains(section),
        own.dom().contains(section) ==> settled(compared, r)[section] == own[section],
{
    let base = staged(own, scim_enabled, live);
    grants_are_only_added(
        base,
        all_granted(in_order(ingresses), policy_document::known_groups(base)),
        section,
    );
    let after = desired(own, scim_enabled, live, ingresses);
    assert(json::field_of(Json::Object(after), section) == json::field_of(
        Json::Object(base),
        section,
    ));
    assert(json::field_of(Json::Object(base), section) == json::field_of(
        Json::Object(own),
        section,
    ));
}

/// The groups that a server has afterwards are its own where SCIM keeps them, and those
/// of the instance's policy otherwise.
pub proof fn groups_are_kept(
    own: Map<Seq<char>, Json>,
    scim_enabled: bool,
    live: Option<Map<Seq<char>, Json>>,
    compared: Option<Map<Seq<char>, Json>>,
    ingresses: Seq<IngressV>,
    r: PlannedPolicy,
)
    requires
        plans(own, scim_enabled, live, compared, ingresses, r),
    ensures
        ({
            let after = settled(compared, r);
            if scim_enabled && live is Some && live->0.dom().contains("groups"@) {
                after.dom().contains("groups"@) && after["groups"@] == live->0["groups"@]
            } else {
                &&& after.dom().contains("groups"@) == own.dom().contains("groups"@)
                &&& own.dom().contains("groups"@) ==> after["groups"@] == own["groups"@]
            }
        }),
{
    distinct_sections();
    let base = staged(own, scim_enabled, live);
    let after = desired(own, scim_enabled, live, ingresses);
    grants_keep_groups(
        base,
        all_granted(in_order(ingresses), policy_document::known_groups(base)),
    );
    assert(json::field_of(Json::Object(after), "groups"@) == json::field_of(
        Json::Object(base),
        "groups"@,
    ));
}

proof fn other_owners_stay(policy: Map<Seq<char>, Json>, grants: Seq<TaggedV>, tag: Seq<char>)
    requires
        forall|i: int| 0 <= i < grants.len() ==> (#[trigger] grants[i]).tag != tag,
    ensures
        entry_in(with_grants(policy, grants), "tagOwners"@, tag) == entry_in(
            policy,
            "tagOwners"@,
            tag,
        ),
    decreases grants.len(),
{
    distinct_sections();
    if grants.len() > 0 {
        let fewer = grants.drop_last();
        assert forall|i: int| 0 <= i < fewer.len() implies (#[trigger] fewer[i]).tag != tag by {
            assert(fewer[i] == grants[i]);
        }
        other_owners_stay(policy, fewer, tag);
        assert(grants[grants.len() - 1].tag != tag);
    }
}

proof fn granted_have_tag(access: Seq<AccessV>, tag: Seq<char>, known: Set<Seq<char>>)
    ensures
        forall|i: int|
            0 <= i < granted(access, tag, known).len() ==> (#[trigger] granted(
                access,
                tag,
                known,
            )[i]).tag == tag,
    decreases access.len(),
{
    if access.len() > 0 {
        granted_have_tag(access.drop_last(), tag, known);
        let rest = granted(access.drop_last(), tag, known);
        let all = granted(access, tag, known);
        assert forall|i: int| 0 <= i < all.len() implies (#[trigger] all[i]).tag == tag by {
            if i < rest.len() {
                assert(all[i] == rest[i]);
            }
        }
    }
}

proof fn no_grant_has_the_owning_tag(ingresses: Seq<IngressV>, known: Set<Seq<char>>)
    ensures
        forall|i: int|
            0 <= i < all_granted(ingresses, known).len() ==> (#[trigger] all_granted(
                ingresses,
                known,
            )[i]).tag != "tag:headmaster"@,
    decreases ingresses.len(),
{
    if ingresses.len() > 0 {
        no_grant_has_the_owning_tag(ingresses.drop_last(), known);
        let last = ingresses.last();
        let tag = names::auto_tag(last.namespace, last.name);
        let rest = all_granted(ingresses.drop_last(), known);
        let more = granted(last.access, tag, known);
        let all = all_granted(ingresses, known);
        granted_have_tag(last.access, tag, known);
        reveal_strlit("tag:headmaster");
        reveal_strlit("tag:hm-");
        assert("tag:headmaster"@[5] == 'e');
        assert(tag[5] == 'm');
        assert forall|i: int| 0 <= i < all.len() implies (#[trigger] all[i]).tag
            != "tag:headmaster"@ by {
            if i < rest.len() {
                assert(all[i] == rest[i]);
            } else {
                assert(all[i] == more[i - rest.len()]);
            }
        }
    }
}

/// A grant whose one target is this tag.
pub open spec fn has_target(grant: Json, tag: Seq<char>) -> bool {
    grant is Object && grant->Object_0.dom().contains("dst"@) && grant->Object_0["dst"@]
        == Json::Array(seq![Json::Text(tag)])
}

/// The owners of a tag in the policy that a server has afterwards: nobody for
/// `tag:headmaster`; `tag:headmaster` for a tag that a written grant leads to; and for
/// every other tag the owners that the instance's own policy gives it, which has it or
/// not as it had before.
pub proof fn tag_owners_are_kept(
    own: Map<Seq<char>, Json>,
    scim_enabled: bool,
    live: Option<Map<Seq<char>, Json>>,
    compared: Option<Map<Seq<char>, Json>>,
    ingresses: Seq<IngressV>,
    r: PlannedPolicy,
    tag: Seq<char>,
)
    requires
        plans(own, scim_enabled, live, compared, ingresses, r),
    ensures
        ({
            let after = settled(compared, r);
            let before = list_in(own, "grants"@).len();
            let leads_to = |i: int|
                before <= i < list_in(after, "grants"@).len() && has_target(
                    list_in(after, "grants"@)[i],
                    tag,
                );
            if tag == "tag:headmaster"@ {
                entry_in(after, "tagOwners"@, tag) == Some(Json::Array(Seq::empty()))
            } else if exists|i: int| #[trigger] leads_to(i) {
                entry_in(after, "tagOwners"@, tag) == Some(
                    Json::Array(seq![Json::Text("tag:headmaster"@)]),
                )
            } else {
                entry_in(after, "tagOwners"@, tag) == entry_in(own, "tagOwners"@, tag)
            }
        }),
{
    distinct_sections();
    let base = staged(own, scim_enabled, live);
    let known = policy_document::known_groups(base);
    let grants = all_granted(in_order(ingresses), known);
    let after = settled(compared, r);
    assert(after == with_grants(base, grants));
    let before = list_in(own, "grants"@).len();
    let leads_to = |i: int|
        before <= i < list_in(after, "grants"@).len() && has_target(
            list_in(after, "grants"@)[i],
            tag,
        );
    grants_are_only_added(base, grants, "groups"@);
    let added = Seq::new(grants.len(), |i: int| grants[i].grant);
    assert(list_in(after, "grants"@) == policy_document::grants_of(after));
    assert(policy_document::grants_of(base) == list_in(own, "grants"@));
    no_grant_has_the_owning_tag(in_order(ingresses), known);
    grants_lead_to_their_tags(in_order(ingresses), known);
    assert forall|i: int| 0 <= i < grants.len() implies (#[trigger] grants[i]).tag == tag
        <==> leads_to(before + i) by {
        assert(list_in(after, "grants"@)[before + i] == added[i]);
        let dst = seq![Json::Text(grants[i].tag)];
        assert(dst[0] == Json::Text(grants[i].tag));
        if leads_to(before + i) {
            assert(dst == seq![Json::Text(tag)]);
            assert(seq![Json::Text(tag)][0] == Json::Text(tag));
        }
    }
    if tag == "tag:headmaster"@ {
        other_owners_stay(base, grants, tag);
        assert(json::text_items(Seq::empty())->Array_0 =~= Seq::<Json>::empty());
    } else if exists|i: int| #[trigger] leads_to(i) {
        let i = choose|i: int| #[trigger] leads_to(i);
        let k = i - before;
        assert(leads_to(before + k));
        assert(grants[k].tag == tag);
        granted_tags_are_owned(base, grants, k);
        assert(json::text_items(seq!["tag:headmaster"@])->Array_0 =~= seq![
            Json::Text("tag:headmaster"@),
        ]);
    } else {
        other_owners_stay(base, grants, tag);
    }
}

proof fn grants_lead_to_their_tags(ingresses: Seq<IngressV>, known: Set<Seq<char>>)
    ensures
        forall|i: int|
            0 <= i < all_granted(ingresses, known).len() ==> leads_to_its_tag(
                #[trigger] all_granted(ingresses, known)[i],
            ),
    decreases ingresses.len(),
{
    if ingresses.len() > 0 {
        grants_lead_to_their_tags(ingresses.drop_last(), known);
        let last = ingresses.last();
        let tag = names::auto_tag(last.namespace, last.name);
        let rest = all_granted(ingresses.drop_last(), known);
        let more = granted(last.access, tag, known);
        let all = all_granted(ingresses, known);
        assert forall|i: int| 0 <= i < all.len() implies leads_to_its_tag(#[trigger] all[i]) by {
            if i < rest.len() {
                assert(all[i] == rest[i]);
            } else {
                let k = i - rest.len();
                assert(all[i] == more[k]);
                grants_wait_for_their_groups(last.access, tag, known, k);
                let a = choose|a: int|
                    0 <= a < last.access.len() && missing_groups(
                        (#[trigger] last.access[a]).from,
                        known,
                    ).len() == 0 && more[k] == (TaggedV {
                        grant: grant_json(last.access[a], tag),
                        tag,
                    });
                grant_has_its_fields(last.access[a], tag);
            }
        }
    }
}

spec fn leads_to_its_tag(grant: TaggedV) -> bool {
    has_target(grant.grant, grant.tag)
}

/// The grant of an access entry: its sources are the entry's principals, one for one;
/// its one target is the tag; it carries the entry's capabilities where there are any,
/// and plain connectivity to every port where there are none; and nothing else.
pub proof fn grant_has_its_fields(access: AccessV, tag: Seq<char>)
    ensures
        grant_json(access, tag) is Object,
        ({
            let grant = grant_json(access, tag)->Object_0;
            &&& grant.dom() == set!["src"@, "dst"@, if access.capabilities is Some {
                "app"@
            } else {
                "ip"@
            }]
            &&& grant["src"@] matches Json::Array(src) && src.len() == access.from.len() && forall|
                i: int,
            |
                0 <= i < src.len() ==> #[trigger] src[i] == Json::Text(access.from[i])
            &&& grant["dst"@] == Json::Array(seq![Json::Text(tag)])
            &&& access.capabilities is Some ==> grant["app"@] == access.capabilities->0
            &&& access.capabilities is None ==> grant["ip"@] == Json::Array(
                seq![Json::Text("*:*"@)],
            )
        }),
{
    reveal_strlit("src");
    reveal_strlit("dst");
    reveal_strlit("app");
    reveal_strlit("ip");
    assert("src"@[0] == 's' && "dst"@[0] == 'd' && "app"@[0] == 'a' && "ip"@[0] == 'i');
    let src = json::text_items(access.from);
    let dst = Json::Array(seq![Json::Text(tag)]);
    let one = Seq::<(Seq<char>, Json)>::empty().push(("src"@, src));
    let two = one.push(("dst"@, dst));
    assert(one.drop_last() =~= Seq::<(Seq<char>, Json)>::empty());
    assert(two.drop_last() =~= one);
    reveal_with_fuel(json::object_fields, 4);
    match access.capabilities {
        Some(caps) => {
            let all = two.push(("app"@, caps));
            assert(all.drop_last() =~= two);
            assert(grant_json(access, tag)->Object_0.dom() =~= set!["src"@, "dst"@, "app"@]);
        },
        None => {
            let all = two.push(("ip"@, Json::Array(seq![Json::Text("*:*"@)])));
            assert(all.drop_last() =~= two);
            assert(grant_json(access, tag)->Object_0.dom() =~= set!["src"@, "dst"@, "ip"@]);
        },
    }
}

/// The groups that an access entry waits for are exactly its principals that begin with
/// `group:` and are not declared.
pub proof fn missing_are_the_undeclared_groups(
    from: Seq<Seq<char>>,
    known: Set<Seq<char>>,
    principal: Seq<char>,
)
    ensures
        missing_groups(from, known).contains(principal) <==> from.contains(principal)
            && "group:"@.is_prefix_of(principal) && !known.contains(principal),
    decreases from.len(),
{
    if from.len() > 0 {
        let fewer = from.drop_last();
        missing_are_the_undeclared_groups(fewer, known, principal);
        let rest = missing_groups(fewer, known);
        let all = missing_groups(from, known);
        assert(from.contains(principal) <==> fewer.contains(principal) || principal
            == from.last()) by {
            if from.contains(principal) {
                let i = choose|i: int| 0 <= i < from.len() && from[i] == principal;
                if i < fewer.len() {
                    assert(fewer[i] == principal);
                }
            }
            if fewer.contains(principal) {
                in_longer(fewer, from, principal);
            }
            assert(from[from.len() - 1] == from.last());
        }
        if all.len() > rest.len() {
            if all.contains(principal) {
                let i = choose|i: int| 0 <= i < all.len() && all[i] == principal;
                if i < rest.len() {
                    assert(rest[i] == principal);
                }
            }
            if rest.contains(principal) {
                in_longer(rest, all, principal);
            }
            if principal == from.last() {
                assert(all[rest.len() as int] == principal);
            }
        }
    }
}

/// The groups that two lists of principals wait for are those of the one and then those
/// of the other: what is missing of a principal does not depend on the others.
pub proof fn missing_groups_come_in_order(
    first: Seq<Seq<char>>,
    second: Seq<Seq<char>>,
    known: Set<Seq<char>>,
)
    ensures
        missing_groups(first + second, known) == missing_groups(first, known) + missing_groups(
            second,
            known,
        ),
        first.len() == 1 ==> missing_groups(first, known) == (if "group:"@.is_prefix_of(first[0])
            && !known.contains(first[0]) {
            first
        } else {
            Seq::empty()
        }),
    decreases second.len(),
{
    if second.len() == 0 {
        assert(first + second =~= first);
        assert(missing_groups(first, known) + missing_groups(second, known) =~= missing_groups(
            first,
            known,
        ));
    } else {
        missing_groups_come_in_order(first, second.drop_last(), known);
        assert((first + second).drop_last() =~= first + second.drop_last());
        assert((first + second).last() == second.last());
        assert(missing_groups(first + second, known) =~= missing_groups(first, known)
            + missing_groups(second, known));
    }
    if first.len() == 1 {
        assert(first.drop_last() =~= Seq::<Seq<char>>::empty());
        assert(missing_groups(first.drop_last(), known) =~= Seq::<Seq<char>>::empty());
        assert(Seq::<Seq<char>>::empty().push(first[0]) =~= first);
    }
}

/// The grants and the notices of two lists of access entries are those of the one and
/// then those of the other. A single entry has a grant or a notice, never both.
pub proof fn access_entries_stand_alone(
    ingress: IngressV,
    first: Seq<AccessV>,
    second: Seq<AccessV>,
    tag: Seq<char>,
    known: Set<Seq<char>>,
)
    ensures
        granted(first + second, tag, known) == granted(first, tag, known) + granted(
            second,
            tag,
            known,
        ),
        waiting(ingress, first + second, known) == waiting(ingress, first, known) + waiting(
            ingress,
            second,
            known,
        ),
        first.len() == 1 ==> {
            let undeclared = exists|p: Seq<char>| #[trigger]
                first[0].from.contains(p) && "group:"@.is_prefix_of(p) && !known.contains(p);
            &&& granted(first, tag, known).len() == (if undeclared { 0int } else { 1 })
            &&& waiting(ingress, first, known).len() == (if undeclared { 1int } else { 0 })
        },
    decreases second.len(),
{
    if second.len() == 0 {
        assert(first + second =~= first);
        assert(granted(first, tag, known) + granted(second, tag, known) =~= granted(
            first,
            tag,
            known,
        ));
        assert(waiting(ingress, first, known) + waiting(ingress, second, known) =~= waiting(
            ingress,
            first,
            known,
        ));
    } else {
        access_entries_stand_alone(ingress, first, second.drop_last(), tag, known);
        assert((first + second).drop_last() =~= first + second.drop_last());
        assert((first + second).last() == second.last());
        assert(granted(first + second, tag, known) =~= granted(first, tag, known) + granted(
            second,
            tag,
            known,
        ));
        assert(waiting(ingress, first + second, known) =~= waiting(ingress, first, known) + waiting(
            ingress,
            second,
            known,
        ));
    }
    if first.len() == 1 {
        reveal_with_fuel(granted, 2);
        reveal_with_fuel(waiting, 2);
        nothing_missing_means_all_declared(first[0].from, known);
        assert(first.last() == first[0]);
    }
}

proof fn nothing_missing_means_all_declared(from: Seq<Seq<char>>, known: Set<Seq<char>>)
    ensures
        missing_groups(from, known).len() == 0 <==> !(exists|p: Seq<char>| #[trigger]
            from.contains(p) && "group:"@.is_prefix_of(p) && !known.contains(p)),
{
    let missing = missing_groups(from, known);
    if missing.len() > 0 {
        missing_are_the_undeclared_groups(from, known, missing[0]);
        assert(missing.contains(missing[0]));
        assert(from.contains(missing[0]));
    }
    if exists|p: Seq<char>| #[trigger]
        from.contains(p) && "group:"@.is_prefix_of(p) && !known.contains(p) {
        let p = choose|p: Seq<char>| #[trigger]
            from.contains(p) && "group:"@.is_prefix_of(p) && !known.contains(p);
        missing_are_the_undeclared_groups(from, known, p);
    }
}

/// The grants and the notices of two lists of Ingresses are those of the one and then
/// those of the other; those of one Ingress are those of its access entries, which lead
/// to `tag:hm-` with its namespace and its name.
pub proof fn ingresses_stand_alone(
    first: Seq<IngressV>,
    second: Seq<IngressV>,
    known: Set<Seq<char>>,
)
    ensures
        all_granted(first + second, known) == all_granted(first, known) + all_granted(
            second,
            known,
        ),
        all_waiting(first + second, known) == all_waiting(first, known) + all_waiting(
            second,
            known,
        ),
        first.len() == 1 ==> {
            &&& all_granted(first, known) == granted(
                first[0].access,
                "tag:hm-"@ + first[0].namespace + "-"@ + first[0].name,
                known,
            )
            &&& all_waiting(first, known) == waiting(first[0], first[0].access, known)
        },
    decreases second.len(),
{
    if second.len() == 0 {
        assert(first + second =~= first);
        assert(all_granted(first, known) + all_granted(second, known) =~= all_granted(
            first,
            known,
        ));
        assert(all_waiting(first, known) + all_waiting(second, known) =~= all_waiting(
            first,
            known,
        ));
    } else {
        ingresses_stand_alone(first, second.drop_last(), known);
        assert((first + second).drop_last() =~= first + second.drop_last());
        assert((first + second).last() == second.last());
        assert(all_granted(first + second, known) =~= all_granted(first, known) + all_granted(
            second,
            known,
        ));
        assert(all_waiting(first + second, known) =~= all_waiting(first, known) + all_waiting(
            second,
            known,
        ));
    }
    if first.len() == 1 {
        let tag = names::auto_tag(first[0].namespace, first[0].name);
        reveal_with_fuel(all_granted, 2);
        reveal_with_fuel(all_waiting, 2);
        assert(all_granted(first, known) =~= granted(first[0].access, tag, known));
        assert(all_waiting(first, known) =~= waiting(first[0], first[0].access, known));
    }
}

/// The notice of an access entry names its Ingress and every group that the entry waits
/// for.
pub proof fn notice_names_the_missing_groups(
    ingress: IngressV,
    access: Seq<AccessV>,
    known: Set<Seq<char>>,
    k: int,
    group: Seq<char>,
)
    requires
        0 <= k < access.len(),
        access[k].from.contains(group),
        "group:"@.is_prefix_of(group),
        !known.contains(group),
    ensures
        exists|notice: WaitingV, before: Seq<char>, after: Seq<char>|
            {
                &&& #[trigger] waiting(ingress, access, known).contains(notice)
                &&& notice.namespace == ingress.namespace
                &&& notice.name == ingress.name
                &&& notice.note == #[trigger] (before + group + after)
            },
{
    let missing = missing_groups(access[k].from, known);
    missing_are_the_undeclared_groups(access[k].from, known, group);
    access_is_granted_or_announced(ingress, access, Seq::empty(), known, k);
    let notice = WaitingV {
        namespace: ingress.namespace,
        name: ingress.name,
        note: waiting_note(missing),
    };
    let i = choose|i: int| 0 <= i < missing.len() && missing[i] == group;
    text::joined_holds_each(missing, ", "@, i);
    let (x, y) = choose|x: Seq<char>, y: Seq<char>|
        text::joined(missing, ", "@) == #[trigger] (x + group + y);
    let before = "access grant references groups not yet synced: "@ + x;
    let after = y + "; the grant will be applied once these groups are available"@;
    assert(notice.note =~= before + group + after);
    assert(waiting(ingress, access, known).contains(notice));
}

/// In the policy that a server has afterwards, the grants of the instance's own policy
/// come first, as they were. Every further one is for an access entry of an Ingress, and
/// all groups among its sources are declared in that same policy.
pub proof fn written_grants_have_their_groups(
    own: Map<Seq<char>, Json>,
    scim_enabled: bool,
    live: Option<Map<Seq<char>, Json>>,
    compared: Option<Map<Seq<char>, Json>>,
    ingresses: Seq<IngressV>,
    r: PlannedPolicy,
    i: int,
)
    requires
        plans(own, scim_enabled, live, compared, ingresses, r),
        0 <= i < list_in(settled(compared, r), "grants"@).len(),
    ensures
        ({
            let after = settled(compared, r);
            let before = list_in(own, "grants"@);
            let grant = list_in(after, "grants"@)[i];
            &&& before.is_prefix_of(list_in(after, "grants"@))
            &&& i >= before.len() ==> exists|n: int, k: int|
                {
                    &&& 0 <= n < ingresses.len()
                    &&& 0 <= k < ingresses[n].access.len()
                    &&& grant == grant_json(
                        #[trigger] ingresses[n].access[k],
                        "tag:hm-"@ + ingresses[n].namespace + "-"@ + ingresses[n].name,
                    )
                    &&& forall|p: Seq<char>| #[trigger]
                        ingresses[n].access[k].from.contains(p) && "group:"@.is_prefix_of(p)
                            ==> entry_in(after, "groups"@, p) is Some
                }
        }),
{
    distinct_sections();
    let base = staged(own, scim_enabled, live);
    let known = policy_document::known_groups(base);
    let sorted = in_order(ingresses);
    let grants = all_granted(sorted, known);
    let after = settled(compared, r);
    let before = list_in(own, "grants"@);
    grants_are_only_added(base, grants, "groups"@);
    let added = Seq::new(grants.len(), |j: int| grants[j].grant);
    assert(list_in(after, "grants"@) == policy_document::grants_of(after));
    assert(policy_document::grants_of(base) == before);
    assert(before =~= (before + added).take(before.len() as int));
    grants_keep_groups(base, grants);
    assert(json::field_of(Json::Object(after), "groups"@) == json::field_of(
        Json::Object(base),
        "groups"@,
    ));
    if i >= before.len() {
        let j = i - before.len();
        assert(list_in(after, "grants"@)[i] == added[j]);
        let (s, k) = grant_has_an_entry(sorted, known, j);
        ordering_keeps_all(ingresses);
        let x = sorted[s];
        assert(sorted.contains(x));
        broadcast use vstd::seq_lib::group_to_multiset_ensures;

        assert(sorted.to_multiset().count(x) > 0);
        assert(ingresses.contains(x));
        let n = choose|n: int| 0 <= n < ingresses.len() && ingresses[n] == x;
        let entry = ingresses[n].access[k];
        nothing_missing_means_all_declared(entry.from, known);
        assert forall|p: Seq<char>| #[trigger]
            entry.from.contains(p) && "group:"@.is_prefix_of(p) implies entry_in(
            after,
            "groups"@,
            p,
        ) is Some by {
            assert(known.contains(p));
        }
        assert(0 <= k < ingresses[n].access.len());
    }
}

proof fn grant_has_an_entry(sorted: Seq<IngressV>, known: Set<Seq<char>>, j: int) -> (r: (int, int))
    requires
        0 <= j < all_granted(sorted, known).len(),
    ensures
        0 <= r.0 < sorted.len(),
        0 <= r.1 < sorted[r.0].access.len(),
        missing_groups(sorted[r.0].access[r.1].from, known).len() == 0,
        all_granted(sorted, known)[j] == (TaggedV {
            grant: grant_json(
                sorted[r.0].access[r.1],
                names::auto_tag(sorted[r.0].namespace, sorted[r.0].name),
            ),
            tag: names::auto_tag(sorted[r.0].namespace, sorted[r.0].name),
        }),
    decreases sorted.len(),
{
    let last = sorted.last();
    let tag = names::auto_tag(last.namespace, last.name);
    let rest = all_granted(sorted.drop_last(), known);
    if j < rest.len() {
        let r = grant_has_an_entry(sorted.drop_last(), known, j);
        assert(sorted.drop_last()[r.0] == sorted[r.0]);
        r
    } else {
        let more = granted(last.access, tag, known);
        let k = j - rest.len();
        grants_wait_for_their_groups(last.access, tag, known, k);
        let a = choose|a: int|
            0 <= a < last.access.len() && missing_groups(
                (#[trigger] last.access[a]).from,
                known,
            ).len() == 0 && more[k] == (TaggedV { grant: grant_json(last.access[a], tag), tag });
        (sorted.len() - 1, a)
    }
}

proof fn entry_has_a_grant(sorted: Seq<IngressV>, known: Set<Seq<char>>, n: int, k: int)
    requires
        0 <= n < sorted.len(),
        0 <= k < sorted[n].access.len(),
    ensures
        ({
            let tag = names::auto_tag(sorted[n].namespace, sorted[n].name);
            let missing = missing_groups(sorted[n].access[k].from, known);
            if missing.len() == 0 {
                all_granted(sorted, known).contains(
                    TaggedV { grant: grant_json(sorted[n].access[k], tag), tag },
                )
            } else {
                forall|notice: WaitingV|
                    waiting(sorted[n], sorted[n].access, known).contains(notice)
                        ==> #[trigger] all_waiting(sorted, known).contains(notice)
            }
        }),
    decreases sorted.len(),
{
    let fewer = sorted.drop_last();
    let x = sorted[n];
    let tag = names::auto_tag(x.namespace, x.name);
    let missing = missing_groups(x.access[k].from, known);
    let grant = TaggedV { grant: grant_json(x.access[k], tag), tag };
    let g = all_granted(sorted, known);
    let w = all_waiting(sorted, known);
    if n < fewer.len() {
        assert(fewer[n] == x);
        entry_has_a_grant(fewer, known, n, k);
        if missing.len() == 0 {
            assert(all_granted(fewer, known) =~= g.take(all_granted(fewer, known).len() as int));
            in_longer(all_granted(fewer, known), g, grant);
        } else {
            assert forall|notice: WaitingV|
                waiting(x, x.access, known).contains(notice) implies #[trigger] w.contains(
                notice,
            ) by {
                assert(all_waiting(fewer, known).contains(notice));
                assert(all_waiting(fewer, known) =~= w.take(
                    all_waiting(fewer, known).len() as int,
                ));
                in_longer(all_waiting(fewer, known), w, notice);
            }
        }
    } else {
        assert(x == sorted.last());
        access_is_granted_or_announced(x, x.access, tag, known, k);
        if missing.len() == 0 {
            let more = granted(x.access, tag, known);
            let i = choose|i: int| 0 <= i < more.len() && more[i] == grant;
            assert(g[all_granted(fewer, known).len() + i] == grant);
        } else {
            assert forall|notice: WaitingV|
                waiting(x, x.access, known).contains(notice) implies #[trigger] w.contains(
                notice,
            ) by {
                let more = waiting(x, x.access, known);
                let i = choose|i: int| 0 <= i < more.len() && more[i] == notice;
                assert(w[all_waiting(fewer, known).len() + i] == notice);
            }
        }
    }
}

/// Every access entry of every Ingress has its effect: where all its groups are declared
/// in the policy that the server has afterwards, that policy holds its grant; where a
/// group is not, a notice on the Ingress names it.
pub proof fn every_access_entry_has_its_effect(
    own: Map<Seq<char>, Json>,
    scim_enabled: bool,
    live: Option<Map<Seq<char>, Json>>,
    compared: Option<Map<Seq<char>, Json>>,
    ingresses: Seq<IngressV>,
    r: PlannedPolicy,
    n: int,
    k: int,
)
    requires
        plans(own, scim_enabled, live, compared, ingresses, r),
        0 <= n < ingresses.len(),
        0 <= k < ingresses[n].access.len(),
    ensures
        ({
            let after = settled(compared, r);
            let from = ingresses[n].access[k].from;
            let undeclared = |p: Seq<char>|
                from.contains(p) && "group:"@.is_prefix_of(p) && entry_in(after, "groups"@, p)
                    is None;
            &&& (forall|p: Seq<char>| !#[trigger] undeclared(p)) ==> list_in(
                after,
                "grants"@,
            ).contains(
                grant_json(
                    ingresses[n].access[k],
                    "tag:hm-"@ + ingresses[n].namespace + "-"@ + ingresses[n].name,
                ),
            )
            &&& forall|p: Seq<char>| #[trigger]
                undeclared(p) ==> exists|notice: WaitingV, a: Seq<char>, b: Seq<char>|
                    {
                        &&& #[trigger] r.waiting.deep_view().contains(notice)
                        &&& notice.namespace == ingresses[n].namespace
                        &&& notice.name == ingresses[n].name
                        &&& notice.note == #[trigger] (a + p + b)
                    }
        }),
{
    distinct_sections();
    let base = staged(own, scim_enabled, live);
    let known = policy_document::known_groups(base);
    let sorted = in_order(ingresses);
    let grants = all_granted(sorted, known);
    let after = settled(compared, r);
    let x = ingresses[n];
    let from = x.access[k].from;
    let undeclared = |p: Seq<char>|
        from.contains(p) && "group:"@.is_prefix_of(p) && entry_in(after, "groups"@, p) is None;
    grants_keep_groups(base, grants);
    assert(json::field_of(Json::Object(after), "groups"@) == json::field_of(
        Json::Object(base),
        "groups"@,
    ));
    assert forall|p: Seq<char>| known.contains(p) == (#[trigger] entry_in(after, "groups"@, p)
        is Some) by {}
    ordering_keeps_all(ingresses);
    broadcast use vstd::seq_lib::group_to_multiset_ensures;

    assert(ingresses.contains(x));
    assert(ingresses.to_multiset().count(x) > 0);
    assert(sorted.contains(x));
    let s = choose|s: int| 0 <= s < sorted.len() && sorted[s] == x;
    entry_has_a_grant(sorted, known, s, k);
    nothing_missing_means_all_declared(from, known);
    if forall|p: Seq<char>| !#[trigger] undeclared(p) {
        assert forall|p: Seq<char>| #[trigger]
            from.contains(p) && "group:"@.is_prefix_of(p) implies known.contains(p) by {
            assert(!undeclared(p));
        }
        let tag = names::auto_tag(x.namespace, x.name);
        let grant = TaggedV { grant: grant_json(x.access[k], tag), tag };
        let i = choose|i: int| 0 <= i < grants.len() && grants[i] == grant;
        grants_are_only_added(base, grants, "groups"@);
        assert(list_in(after, "grants"@) == policy_document::grants_of(after));
        let added = Seq::new(grants.len(), |j: int| grants[j].grant);
        assert(list_in(after, "grants"@)[policy_document::grants_of(base).len() + i] == added[i]);
    }
    assert forall|p: Seq<char>| #[trigger] undeclared(p) implies exists|
        notice: WaitingV,
        a: Seq<char>,
        b: Seq<char>,
    |
        {
            &&& #[trigger] r.waiting.deep_view().contains(notice)
            &&& notice.namespace == x.namespace
            &&& notice.name == x.name
            &&& notice.note == #[trigger] (a + p + b)
        } by {
        assert(from.contains(p) && !known.contains(p));
        notice_names_the_missing_groups(x, x.access, known, k, p);
        let (notice, a, b) = choose|notice: WaitingV, a: Seq<char>, b: Seq<char>|
            {
                &&& #[trigger] waiting(x, x.access, known).contains(notice)
                &&& notice.namespace == x.namespace
                &&& notice.name == x.name
                &&& notice.note == #[trigger] (a + p + b)
            };
        assert(all_waiting(sorted, known).contains(notice));
        assert(r.waiting.deep_view().contains(notice));
    }
}

/// Ingresses are taken by namespace first, and by name within a namespace.
pub proof fn namespace_comes_first(a: IngressV, b: IngressV)
    ensures
        a.namespace == b.namespace ==> comes_before(a, b) == text::before(a.name, b.name),
        a.namespace != b.namespace ==> comes_before(a, b) == text::before(
            a.namespace,
            b.namespace,
        ),
{
    text::before_is_irreflexive(a.namespace);
}

/// Ingresses of the same namespace and name stay in the order in which they came.
pub proof fn ordering_is_stable(ingresses: Seq<IngressV>, namespace: Seq<char>, name: Seq<char>)
    ensures
        ({
            let same = |x: IngressV| x.namespace == namespace && x.name == name;
            in_order(ingresses).filter(same) == ingresses.filter(same)
        }),
    decreases ingresses.len(),
{
    let same = |x: IngressV| x.namespace == namespace && x.name == name;
    reveal(Seq::filter);
    if ingresses.len() > 0 {
        ordering_is_stable(ingresses.drop_last(), namespace, name);
        ordering_is_ordered(ingresses.drop_last());
        placing_is_stable(in_order(ingresses.drop_last()), ingresses.last(), namespace, name);
    }
}

proof fn placing_is_stable(
    sorted: Seq<IngressV>,
    x: IngressV,
    namespace: Seq<char>,
    name: Seq<char>,
)
    requires
        is_ordered(sorted),
    ensures
        ({
            let same = |x: IngressV| x.namespace == namespace && x.name == name;
            placed(sorted, x).filter(same) == (if same(x) {
                sorted.filter(same).push(x)
            } else {
                sorted.filter(same)
            })
        }),
    decreases sorted.len(),
{
    let same = |x: IngressV| x.namespace == namespace && x.name == name;
    reveal(Seq::filter);
    let r = placed(sorted, x);
    if sorted.len() > 0 && comes_before(x, sorted.last()) {
        let rest = sorted.drop_last();
        assert(is_ordered(rest)) by {
            assert forall|i: int, j: int| 0 <= i < j < rest.len() implies !comes_before(
                #[trigger] rest[j],
                #[trigger] rest[i],
            ) by {
                assert(!comes_before(sorted[j], sorted[i]));
            }
        }
        placing_is_stable(rest, x, namespace, name);
        assert(r.drop_last() =~= placed(rest, x));
        text::before_is_irreflexive(x.namespace);
        text::before_is_irreflexive(x.name);
        assert(!(same(x) && same(sorted.last())));
    } else {
        assert(r.drop_last() =~= sorted);
    }
}

/// A policy has a group with members exactly where its `groups` section has a list that is
/// not empty under that group.
pub proof fn members_are_listed_under_their_group(policy: Json, group: Seq<char>)
    ensures
        has_members(policy, group) <==> {
            &&& policy is Object
            &&& policy->Object_0.dom().contains("groups"@)
            &&& policy->Object_0["groups"@] is Object
            &&& policy->Object_0["groups"@]->Object_0.dom().contains(group)
            &&& policy->Object_0["groups"@]->Object_0[group] is Array
            &&& policy->Object_0["groups"@]->Object_0[group]->Array_0.len() > 0
        },
{
}

/// The notices and the grants of a plan are those of the Ingresses in their order, for the
/// groups that the server has afterwards, and no others; the grants that a change lists are
/// the ones that its policy has beyond the instance's own.
pub proof fn plans_go_by_the_groups_afterwards(
    own: Map<Seq<char>, Json>,
    scim_enabled: bool,
    live: Option<Map<Seq<char>, Json>>,
    compared: Option<Map<Seq<char>, Json>>,
    ingresses: Seq<IngressV>,
    r: PlannedPolicy,
    declared: Set<Seq<char>>,
)
    requires
        plans(own, scim_enabled, live, compared, ingresses, r),
        forall|group: Seq<char>| #[trigger]
            declared.contains(group) <==> entry_in(settled(compared, r), "groups"@, group) is Some,
    ensures
        r.waiting.deep_view() == all_waiting(in_order(ingresses), declared),
        r.plan matches PolicyPlan::Change(change) ==> {
            let listed = change.grants.deep_view();
            &&& listed == all_granted(in_order(ingresses), declared)
            &&& list_in(settled(compared, r), "grants"@) == list_in(own, "grants"@) + Seq::new(
                listed.len(),
                |i: int| listed[i].grant,
            )
        },
{
    distinct_sections();
    let base = staged(own, scim_enabled, live);
    let known = policy_document::known_groups(base);
    let grants = all_granted(in_order(ingresses), known);
    let after = settled(compared, r);
    settled_is_desired(own, scim_enabled, live, compared, ingresses, r);
    grants_keep_groups(base, grants);
    grants_are_only_added(base, grants, "groups"@);
    assert(json::field_of(Json::Object(after), "groups"@) == json::field_of(
        Json::Object(base),
        "groups"@,
    ));
    assert(declared =~= known);
    assert(list_in(after, "grants"@) == policy_document::grants_of(after));
    assert(policy_document::grants_of(base) == list_in(own, "grants"@));
}

/// An Ingress stands for its namespace, its name and its access entries.
pub proof fn ingresses_are_seen_as_they_are(ingress: PolicyIngress)
    ensures
        ingress.deep_view().namespace == ingress.namespace@,
        ingress.deep_view().name == ingress.name@,
        ingress.deep_view().access == ingress.access.deep_view(),
{
}

/// A grant stands for its document and its tag.
pub proof fn grants_are_seen_as_they_are(grant: IngressGrant)
    ensures
        grant.deep_view().grant == json::json(grant.grant),
        grant.deep_view().tag == grant.tag@,
{
}

/// A notice stands for the namespace and the name of its Ingress, and for what it says.
pub proof fn notices_are_seen_as_they_are(notice: WaitingForGroup)
    ensures
        notice.deep_view().namespace == notice.namespace@,
        notice.deep_view().name == notice.name@,
        notice.deep_view().note == notice.note@,
{
}

} // verus!
