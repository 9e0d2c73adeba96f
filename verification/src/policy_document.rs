//! Headscale policy documents: what a policy text holds, and the edits that the
//! operator and the SCIM service make to it.
use crate::json;
use crate::json::{Fields, Json, List};
use crate::text;
use vstd::prelude::*;

verus! {

/// The value that a HuJSON text stands for.
pub uninterp spec fn hujson(text: Seq<char>) -> Option<Json>;

/// `jsonc_parser::parse_to_serde_value` with default options: the value that a
/// text with comments and trailing commas stands for, or an error where it
/// stands for none.
#[verifier::external_body]
pub(crate) fn parse_hujson(text: &str) -> (r: Result<
    serde_json::Value,
    jsonc_parser::errors::ParseError,
>)
    ensures
        r is Ok <==> hujson(text@) is Some,
        r matches Ok(v) ==> hujson(text@) == Some(json::json(v)),
{
    jsonc_parser::parse_to_serde_value(text, &jsonc_parser::ParseOptions::default())
}

/// Why a text is no policy.
pub enum PolicyParseError {
    /// The text is not HuJSON.
    Invalid(jsonc_parser::errors::ParseError),
    /// The text holds something other than an object.
    NotAnObject,
}

/// The fields of the policy that a text holds. A blank text is the empty policy.
pub open spec fn policy_of(policy: Seq<char>) -> Option<Map<Seq<char>, Json>> {
    if text::trimmed(policy).len() == 0 {
        Some(Map::empty())
    } else {
        match hujson(policy) {
            Some(Json::Object(m)) => Some(m),
            _ => None,
        }
    }
}

/// Reads a policy text.
pub fn parse_policy(policy: &str) -> (r: Result<serde_json::Value, PolicyParseError>)
    ensures
        r is Ok <==> policy_of(policy@) is Some,
        r matches Ok(v) ==> json::json(v) == Json::Object(policy_of(policy@)->0),
        r matches Err(PolicyParseError::Invalid(_)) ==> hujson(policy@) is None,
        r matches Err(PolicyParseError::NotAnObject) ==> hujson(policy@) is Some,
{
    if text::trim(policy).unicode_len() == 0 {
        return Ok(json::empty_object());
    }
    as_policy(parse_hujson(policy))
}

/// Takes a parsed text as a policy: an object is one, any other value is not.
pub fn as_policy(
    parsed: Result<serde_json::Value, jsonc_parser::errors::ParseError>,
) -> (r: Result<serde_json::Value, PolicyParseError>)
    ensures
        r is Ok <==> (parsed is Ok && json::json(parsed->Ok_0) is Object),
        r matches Ok(v) ==> v == parsed->Ok_0,
        r matches Err(PolicyParseError::Invalid(e)) ==> parsed == Err::<
            serde_json::Value,
            jsonc_parser::errors::ParseError,
        >(e),
        r matches Err(PolicyParseError::NotAnObject) ==> parsed is Ok,
{
    match parsed {
        Ok(v) => if json::field_names(&v).is_some() {
            Ok(v)
        } else {
            Err(PolicyParseError::NotAnObject)
        },
        Err(e) => Err(PolicyParseError::Invalid(e)),
    }
}

/// A group member as it stands in the policy, with the remark written beside it.
pub struct PolicyMember {
    pub token: String,
    pub comment: Option<String>,
}

/// A [`PolicyMember`] as plain text.
pub struct MemberV {
    pub token: Seq<char>,
    pub comment: Option<Seq<char>>,
}

impl DeepView for PolicyMember {
    type V = MemberV;

    open spec fn deep_view(&self) -> MemberV {
        MemberV { token: self.token@, comment: self.comment.deep_view() }
    }
}

/// A group and its members.
pub struct PolicyGroup {
    pub name: String,
    pub members: Vec<PolicyMember>,
}

/// A [`PolicyGroup`] as plain text.
pub struct GroupV {
    pub name: Seq<char>,
    pub members: Seq<MemberV>,
}

impl DeepView for PolicyGroup {
    type V = GroupV;

    open spec fn deep_view(&self) -> GroupV {
        GroupV { name: self.name@, members: self.members.deep_view() }
    }
}

/// The key of a group in the `groups` section.
pub open spec fn group_key(name: Seq<char>) -> Seq<char> {
    "group:"@ + name
}

/// What the members are written as.
pub open spec fn tokens(members: Seq<MemberV>) -> Seq<Seq<char>> {
    Seq::new(members.len(), |i: int| members[i].token)
}

/// The `groups` section for these groups.
pub open spec fn groups_section(groups: Seq<GroupV>) -> Json {
    json::object(
        Seq::new(
            groups.len(),
            |i: int| (group_key(groups[i].name), json::text_items(tokens(groups[i].members))),
        ),
    )
}

fn tokens_of(members: &Vec<PolicyMember>) -> (r: Vec<String>)
    ensures
        r.deep_view() == tokens(members.deep_view()),
{
    let mut out: Vec<String> = Vec::new();
    let mut i: usize = 0;
    while i < members.len()
        invariant
            i <= members@.len(),
            out@.len() == i,
            forall|j: int| 0 <= j < i ==> (#[trigger] out@[j])@ == members@[j].token@,
        decreases members@.len() - i,
    {
        out.push(members[i].token.clone());
        i += 1;
    }
    proof {
        assert(out.deep_view() =~= tokens(members.deep_view()));
    }
    out
}

/// Builds the `groups` section.
pub fn build_groups(groups: &Vec<PolicyGroup>) -> (r: serde_json::Value)
    ensures
        json::json(r) == groups_section(groups.deep_view()),
{
    let ghost all = Seq::new(
        groups@.len(),
        |i: int|
            (
                group_key(groups.deep_view()[i].name),
                json::text_items(tokens(groups.deep_view()[i].members)),
            ),
    );
    let mut out: Fields = Fields::new();
    let mut i: usize = 0;
    while i < groups.len()
        invariant
            i <= groups@.len(),
            all == Seq::new(
                groups@.len(),
                |i: int|
                    (
                        group_key(groups.deep_view()[i].name),
                        json::text_items(tokens(groups.deep_view()[i].members)),
                    ),
            ),
            out@ == all.take(i as int),
        decreases groups@.len() - i,
    {
        let key: String = text::cat2("group:", groups[i].name.as_str());
        let members: Vec<String> = tokens_of(&groups[i].members);
        out = out.with(key.as_str(), json::text_array(&members));
        proof {
            assert(groups.deep_view()[i as int] == groups@[i as int].deep_view());
            assert(out@ =~= all.take(i + 1));
        }
        i += 1;
    }
    proof {
        assert(all.take(i as int) =~= all);
        assert(groups_section(groups.deep_view()) == json::object(all));
    }
    out.done()
}

/// The group keys that a policy declares.
pub open spec fn known_groups(policy: Map<Seq<char>, Json>) -> Set<Seq<char>> {
    match json::field_of(Json::Object(policy), "groups"@) {
        Some(Json::Object(groups)) => groups.dom(),
        _ => Set::empty(),
    }
}

/// Lists the group keys that a policy declares.
pub fn list_groups(policy: &serde_json::Value) -> (r: Vec<String>)
    requires
        json::json(*policy) is Object,
    ensures
        r.deep_view().to_set() == known_groups(json::json(*policy)->Object_0),
{
    let found: Option<Vec<String>> = match json::field(policy, "groups") {
        Some(groups) => json::field_names(groups),
        None => None,
    };
    match found {
        Some(names) => names,
        None => {
            let none: Vec<String> = Vec::new();
            proof {
                assert(none.deep_view().to_set() =~= Set::empty());
            }
            none
        },
    }
}

/// A grant's member that names a group which is not declared.
pub open spec fn is_stale(member: Json, known: Set<Seq<char>>) -> bool {
    member matches Json::Text(t) && "group:"@.is_prefix_of(t) && !known.contains(t)
}

/// The members that stay.
pub open spec fn kept(members: Seq<Json>, known: Set<Seq<char>>) -> Seq<Json>
    decreases members.len(),
{
    if members.len() == 0 {
        Seq::empty()
    } else if is_stale(members.last(), known) {
        kept(members.drop_last(), known)
    } else {
        kept(members.drop_last(), known).push(members.last())
    }
}

/// The names of the undeclared groups among the members.
pub open spec fn stale_names(members: Seq<Json>, known: Set<Seq<char>>) -> Seq<Seq<char>>
    decreases members.len(),
{
    if members.len() == 0 {
        Seq::empty()
    } else if is_stale(members.last(), known) {
        stale_names(members.drop_last(), known).push(members.last()->Text_0)
    } else {
        stale_names(members.drop_last(), known)
    }
}

/// One side of a grant; a side that is no array has no members.
pub open spec fn side(grant: Json, key: Seq<char>) -> Seq<Json> {
    match json::field_of(grant, key) {
        Some(Json::Array(members)) => members,
        _ => Seq::empty(),
    }
}

/// A side that had members and keeps none of them.
pub open spec fn emptied(grant: Json, key: Seq<char>, known: Set<Seq<char>>) -> bool {
    side(grant, key).len() > 0 && kept(side(grant, key), known).len() == 0
}

/// A grant goes when pruning leaves it without sources or without targets that
/// it had before.
pub open spec fn falls(grant: Json, known: Set<Seq<char>>) -> bool {
    emptied(grant, "src"@, known) || emptied(grant, "dst"@, known)
}

/// The grant with one side pruned.
pub open spec fn pruned_side(grant: Json, key: Seq<char>, known: Set<Seq<char>>) -> Json {
    match json::field_of(grant, key) {
        Some(Json::Array(members)) => Json::Object(
            grant->Object_0.insert(key, Json::Array(kept(members, known))),
        ),
        _ => grant,
    }
}

/// The grant with both sides pruned.
pub open spec fn pruned_grant(grant: Json, known: Set<Seq<char>>) -> Json {
    pruned_side(pruned_side(grant, "src"@, known), "dst"@, known)
}

/// The grants that stay, pruned.
pub open spec fn pruned_grants(grants: Seq<Json>, known: Set<Seq<char>>) -> Seq<Json>
    decreases grants.len(),
{
    if grants.len() == 0 {
        Seq::empty()
    } else if falls(grants.last(), known) {
        pruned_grants(grants.drop_last(), known)
    } else {
        pruned_grants(grants.drop_last(), known).push(pruned_grant(grants.last(), known))
    }
}

/// The policy with its `groups` section replaced and its grants pruned of the
/// groups that are gone.
pub open spec fn with_groups(policy: Map<Seq<char>, Json>, groups: Json) -> Map<Seq<char>, Json> {
    let replaced = policy.insert("groups"@, groups);
    match json::field_of(Json::Object(replaced), "grants"@) {
        Some(Json::Array(grants)) => replaced.insert(
            "grants"@,
            Json::Array(pruned_grants(grants, known_groups(replaced))),
        ),
        _ => replaced,
    }
}

/// What pruning takes out of one grant.
pub struct GrantEdit {
    /// Group names to take out of `src`.
    pub src: Vec<String>,
    /// Group names to take out of `dst`.
    pub dst: Vec<String>,
    /// Whether the grant itself goes.
    pub remove: bool,
}

/// A [`GrantEdit`] as plain values.
pub struct GrantEditV {
    pub src: Seq<Seq<char>>,
    pub dst: Seq<Seq<char>>,
    pub remove: bool,
}

impl DeepView for GrantEdit {
    type V = GrantEditV;

    open spec fn deep_view(&self) -> GrantEditV {
        GrantEditV {
            src: self.src.deep_view(),
            dst: self.dst.deep_view(),
            remove: self.remove,
        }
    }
}

/// What pruning takes out of a grant.
pub open spec fn grant_edit(grant: Json, known: Set<Seq<char>>) -> GrantEditV {
    GrantEditV {
        src: stale_names(side(grant, "src"@), known),
        dst: stale_names(side(grant, "dst"@), known),
        remove: falls(grant, known),
    }
}

/// The grants of a policy; there are none where `grants` is no array.
pub open spec fn grants_of(policy: Map<Seq<char>, Json>) -> Seq<Json> {
    side(Json::Object(policy), "grants"@)
}

/// What new groups take out of each grant of a policy.
pub open spec fn grant_edits(policy: Map<Seq<char>, Json>, groups: Json) -> Seq<GrantEditV> {
    Seq::new(
        grants_of(policy).len(),
        |i: int| grant_edit(grants_of(policy)[i], known_groups(policy.insert("groups"@, groups))),
    )
}

struct PrunedSide {
    kept: List,
    stale: Vec<String>,
    size: usize,
}

fn prune_side(grant: &serde_json::Value, key: &str, known: &Vec<String>) -> (r: PrunedSide)
    ensures
        r.kept@ == kept(side(json::json(*grant), key@), known.deep_view().to_set()),
        r.stale.deep_view() == stale_names(
            side(json::json(*grant), key@),
            known.deep_view().to_set(),
        ),
        r.size == side(json::json(*grant), key@).len(),
{
    let ghost set = known.deep_view().to_set();
    let ghost all = side(json::json(*grant), key@);
    let mut out: List = List::new();
    let mut stale: Vec<String> = Vec::new();
    proof {
        assert(stale.deep_view() =~= Seq::<Seq<char>>::empty());
    }
    let items: Option<&Vec<serde_json::Value>> = match json::field(grant, key) {
        Some(v) => v.as_array(),
        None => None,
    };
    if let Some(items) = items {
        let mut i: usize = 0;
        proof {
            assert(all == json::jsons(items@));
            assert(all.take(0) =~= Seq::<Json>::empty());
        }
        while i < items.len()
            invariant
                i <= items@.len(),
                all == json::jsons(items@),
                set == known.deep_view().to_set(),
                out@ == kept(all.take(i as int), set),
                stale.deep_view() == stale_names(all.take(i as int), set),
            decreases items@.len() - i,
        {
            proof {
                assert(all.take(i + 1).drop_last() =~= all.take(i as int));
                assert(all.take(i + 1).last() == json::json(items@[i as int]));
            }
            let mut gone: bool = false;
            if let Some(name) = items[i].as_str() {
                if text::starts_with(name, "group:") && !text::contains(known, name) {
                    gone = true;
                    let ghost before = stale.deep_view();
                    stale.push(name.to_owned());
                    proof {
                        assert(stale.deep_view() =~= before.push(name@));
                    }
                }
            }
            if !gone {
                out = out.with(items[i].clone());
            }
            i += 1;
        }
        proof {
            assert(all.take(i as int) =~= all);
        }
        return PrunedSide { kept: out, stale, size: items.len() };
    }
    PrunedSide { kept: out, stale, size: 0 }
}

fn prune_grant(grant: &serde_json::Value, known: &Vec<String>) -> (r: (
    serde_json::Value,
    GrantEdit,
))
    ensures
        json::json(r.0) == pruned_grant(json::json(*grant), known.deep_view().to_set()),
        r.1.deep_view() == grant_edit(json::json(*grant), known.deep_view().to_set()),
{
    let ghost set = known.deep_view().to_set();
    let ghost start = json::json(*grant);
    let src: PrunedSide = prune_side(grant, "src", known);
    let dst: PrunedSide = prune_side(grant, "dst", known);
    let ghost kept_src = src.kept@;
    let ghost kept_dst = dst.kept@;
    let src_left: usize = src.kept.len();
    let dst_left: usize = dst.kept.len();
    let remove: bool = (src.size > 0 && src_left == 0) || (dst.size > 0 && dst_left == 0);
    let mut out: serde_json::Value = grant.clone();
    if is_array_field(grant, "src") {
        out = json::with_field(out, "src".to_owned(), src.kept.done());
    }
    proof {
        assert(json::json(out) == pruned_side(start, "src"@, set));
        reveal_strlit("src");
        reveal_strlit("dst");
        assert("src"@[0] == 's' && "dst"@[0] == 'd');
        assert(json::field_of(json::json(out), "dst"@) == json::field_of(start, "dst"@));
    }
    if is_array_field(grant, "dst") {
        out = json::with_field(out, "dst".to_owned(), dst.kept.done());
    }
    (out, GrantEdit { src: src.stale, dst: dst.stale, remove })
}

fn is_array_field(v: &serde_json::Value, key: &str) -> (r: bool)
    ensures
        r == (json::field_of(json::json(*v), key@) matches Some(Json::Array(_))),
{
    match json::field(v, key) {
        Some(x) => x.as_array().is_some(),
        None => false,
    }
}

/// The outcome of putting new groups into a policy.
pub struct GroupUpdate {
    /// The policy afterwards.
    pub policy: serde_json::Value,
    /// What goes out of each grant, in the order of the grants before.
    pub grants: Vec<GrantEdit>,
    /// Whether the policy afterwards holds anything else than before.
    pub changed: bool,
}

/// Replaces the groups of a policy and takes the groups that are gone out of its
/// grants. Everything else stays.
pub fn update_groups(policy: &serde_json::Value, groups: &Vec<PolicyGroup>) -> (r: GroupUpdate)
    requires
        json::json(*policy) is Object,
    ensures
        json::json(r.policy) == Json::Object(
            with_groups(
                json::json(*policy)->Object_0,
                groups_section(groups.deep_view()),
            ),
        ),
        r.changed == (json::json(r.policy) != json::json(*policy)),
        r.grants.deep_view() == grant_edits(
            json::json(*policy)->Object_0,
            groups_section(groups.deep_view()),
        ),
{
    let ghost old_policy = json::json(*policy)->Object_0;
    let ghost section = groups_section(groups.deep_view());
    let ghost replaced = old_policy.insert("groups"@, section);
    let ghost all = grants_of(old_policy);
    let mut out: serde_json::Value = json::with_field(
        policy.clone(),
        "groups".to_owned(),
        build_groups(groups),
    );
    let known: Vec<String> = list_groups(&out);
    let ghost set = known_groups(replaced);
    let mut edits: Vec<GrantEdit> = Vec::new();
    proof {
        reveal_strlit("groups");
        reveal_strlit("grants");
        assert("groups"@[2] == 'o' && "grants"@[2] == 'a');
        assert(json::field_of(Json::Object(replaced), "grants"@) == json::field_of(
            Json::Object(old_policy),
            "grants"@,
        ));
    }
    let items: Option<&Vec<serde_json::Value>> = match json::field(policy, "grants") {
        Some(v) => v.as_array(),
        None => None,
    };
    if let Some(items) = items {
        let mut left: List = List::new();
        let mut i: usize = 0;
        proof {
            assert(all == json::jsons(items@));
            assert(all.take(0) =~= Seq::<Json>::empty());
        }
        while i < items.len()
            invariant
                i <= items@.len(),
                all == json::jsons(items@),
                set == known.deep_view().to_set(),
                left@ == pruned_grants(all.take(i as int), set),
                edits@.len() == i,
                forall|j: int|
                    0 <= j < i ==> (#[trigger] edits@[j]).deep_view() == grant_edit(all[j], set),
            decreases items@.len() - i,
        {
            proof {
                assert(all.take(i + 1).drop_last() =~= all.take(i as int));
                assert(all.take(i + 1).last() == json::json(items@[i as int]));
                assert(all[i as int] == json::json(items@[i as int]));
            }
            let (grant, edit) = prune_grant(&items[i], &known);
            if !edit.remove {
                left = left.with(grant);
            }
            edits.push(edit);
            i += 1;
        }
        proof {
            assert(all.take(i as int) =~= all);
        }
        out = json::with_field(out, "grants".to_owned(), left.done());
    }
    proof {
        assert(edits.deep_view() =~= grant_edits(old_policy, section));
    }
    let changed: bool = !json::equal(&out, policy);
    GroupUpdate { policy: out, grants: edits, changed }
}

proof fn kept_members(members: Seq<Json>, known: Set<Seq<char>>)
    ensures
        forall|m: Json| kept(members, known).contains(m) <==> members.contains(m) && !is_stale(m, known),
        forall|i: int|
            0 <= i < kept(members, known).len() ==> !is_stale(
                #[trigger] kept(members, known)[i],
                known,
            ),
    decreases members.len(),
{
    if members.len() > 0 {
        kept_members(members.drop_last(), known);
        let rest = kept(members.drop_last(), known);
        let all = kept(members, known);
        assert(members =~= members.drop_last().push(members.last()));
        assert forall|m: Json| all.contains(m) <==> members.contains(m) && !is_stale(m, known) by {
            assert(members.contains(m) <==> members.drop_last().contains(m) || m
                == members.last()) by {
                if members.contains(m) {
                    let i = choose|i: int| 0 <= i < members.len() && members[i] == m;
                    if i < members.len() - 1 {
                        assert(members.drop_last()[i] == m);
                    }
                }
                if members.drop_last().contains(m) {
                    let i = choose|i: int|
                        0 <= i < members.drop_last().len() && members.drop_last()[i] == m;
                    assert(members[i] == m);
                }
                if m == members.last() {
                    assert(members[members.len() - 1] == m);
                }
            }
            if !is_stale(members.last(), known) {
                assert(all == rest.push(members.last()));
                if rest.contains(m) {
                    let i = choose|i: int| 0 <= i < rest.len() && rest[i] == m;
                    assert(all[i] == m);
                }
                if m == members.last() {
                    assert(all[all.len() - 1] == m);
                }
                if all.contains(m) {
                    let i = choose|i: int| 0 <= i < all.len() && all[i] == m;
                    if i < rest.len() {
                        assert(rest[i] == m);
                    }
                }
            }
        }
        assert forall|i: int| 0 <= i < all.len() implies !is_stale(#[trigger] all[i], known) by {
            if i < rest.len() {
                assert(all[i] == rest[i]);
                assert(!is_stale(rest[i], known));
            }
        }
    }
}

proof fn nothing_stale_is_kept_whole(members: Seq<Json>, known: Set<Seq<char>>)
    requires
        forall|i: int| 0 <= i < members.len() ==> !is_stale(#[trigger] members[i], known),
    ensures
        kept(members, known) == members,
    decreases members.len(),
{
    if members.len() > 0 {
        assert forall|i: int| 0 <= i < members.drop_last().len() implies !is_stale(
            #[trigger] members.drop_last()[i],
            known,
        ) by {
            assert(members.drop_last()[i] == members[i]);
        }
        nothing_stale_is_kept_whole(members.drop_last(), known);
        assert(!is_stale(members[members.len() - 1], known));
        assert(members =~= members.drop_last().push(members.last()));
    } else {
        assert(kept(members, known) =~= members);
    }
}

/// Pruning takes out of a side of a grant exactly the members that name a group
/// which is not declared: tags, wildcards, addresses and declared groups stay.
pub proof fn pruning_takes_only_stale_groups(members: Seq<Json>, known: Set<Seq<char>>, m: Json)
    ensures
        kept(members, known).contains(m) <==> members.contains(m) && !is_stale(m, known),
{
    kept_members(members, known);
}

/// A grant without sources and without targets is never taken away: only a side
/// that pruning emptied counts.
pub proof fn empty_grant_stays(grant: Json, known: Set<Seq<char>>)
    requires
        side(grant, "src"@).len() == 0,
        side(grant, "dst"@).len() == 0,
    ensures
        !falls(grant, known),
{
}

/// New groups leave every section of the policy but `groups` and `grants` as it
/// was, and `groups` holds exactly the new groups.
pub proof fn other_sections_stay(policy: Map<Seq<char>, Json>, groups: Json, key: Seq<char>)
    ensures
        key != "groups"@ && key != "grants"@ ==> {
            &&& with_groups(policy, groups).dom().contains(key) == policy.dom().contains(key)
            &&& policy.dom().contains(key) ==> with_groups(policy, groups)[key] == policy[key]
        },
        with_groups(policy, groups).dom().contains("groups"@),
        with_groups(policy, groups)["groups"@] == groups,
{
    reveal_strlit("groups");
    reveal_strlit("grants");
    assert("groups"@[2] == 'o' && "grants"@[2] == 'a');
}

proof fn pruning_again(grant: Json, known: Set<Seq<char>>)
    ensures
        pruned_grant(pruned_grant(grant, known), known) == pruned_grant(grant, known),
        !falls(pruned_grant(grant, known), known),
{
    let once = pruned_side(grant, "src"@, known);
    let both = pruned_grant(grant, known);
    reveal_strlit("src");
    reveal_strlit("dst");
    assert("src"@[0] == 's' && "dst"@[0] == 'd');
    let s = side(grant, "src"@);
    let d = side(grant, "dst"@);
    kept_members(s, known);
    kept_members(d, known);
    nothing_stale_is_kept_whole(kept(s, known), known);
    nothing_stale_is_kept_whole(kept(d, known), known);
    assert(kept(Seq::<Json>::empty(), known) =~= Seq::<Json>::empty());
    if json::field_of(grant, "src"@) matches Some(Json::Array(_)) {
        assert(json::field_of(once, "src"@) == Some(Json::Array(kept(s, known))));
        assert(json::field_of(once, "dst"@) == json::field_of(grant, "dst"@));
    }
    assert(json::field_of(both, "src"@) == json::field_of(once, "src"@));
    if json::field_of(grant, "dst"@) matches Some(Json::Array(_)) {
        assert(json::field_of(both, "dst"@) == Some(Json::Array(kept(d, known))));
    }
    if json::field_of(both, "src"@) matches Some(Json::Array(_)) {
        assert(both->Object_0.insert("src"@, Json::Array(kept(s, known))) =~= both->Object_0);
    }
    assert(pruned_side(both, "src"@, known) == both);
    if json::field_of(both, "dst"@) matches Some(Json::Array(_)) {
        assert(both->Object_0.insert("dst"@, Json::Array(kept(d, known))) =~= both->Object_0);
    }
    assert(pruned_side(both, "dst"@, known) == both);
}

proof fn pruning_all_again(grants: Seq<Json>, known: Set<Seq<char>>)
    ensures
        pruned_grants(pruned_grants(grants, known), known) == pruned_grants(grants, known),
    decreases grants.len(),
{
    if grants.len() > 0 {
        pruning_all_again(grants.drop_last(), known);
        let rest = pruned_grants(grants.drop_last(), known);
        if !falls(grants.last(), known) {
            let g = pruned_grant(grants.last(), known);
            pruning_again(grants.last(), known);
            assert(rest.push(g).drop_last() =~= rest);
        }
    }
}

/// Putting the same groups into the policy a second time changes nothing.
pub proof fn same_groups_again(policy: Map<Seq<char>, Json>, groups: Json)
    ensures
        with_groups(with_groups(policy, groups), groups) == with_groups(policy, groups),
{
    reveal_strlit("groups");
    reveal_strlit("grants");
    assert("groups"@[2] == 'o' && "grants"@[2] == 'a');
    let replaced = policy.insert("groups"@, groups);
    let once = with_groups(policy, groups);
    assert(once.insert("groups"@, groups) =~= once);
    if json::field_of(Json::Object(replaced), "grants"@) matches Some(Json::Array(_)) {
        let grants = side(Json::Object(replaced), "grants"@);
        let known = known_groups(replaced);
        assert(known_groups(once) == known);
        pruning_all_again(grants, known);
        assert(once.insert("grants"@, Json::Array(pruned_grants(grants, known))) =~= once);
    }
}

/// The group at a place is the one that stands under `key`: it is written there, and no
/// later one is.
pub open spec fn counts_for(groups: Seq<PolicyGroup>, i: int, key: Seq<char>) -> bool {
    &&& 0 <= i < groups.len()
    &&& key == "group:"@ + groups[i].name@
    &&& forall|j: int| i < j < groups.len() ==> key != "group:"@ + (#[trigger] groups[j]).name@
}

/// What a group is written as: under `group:` and its name stands a list with the token
/// of each of its members at that member's place. Of groups with the same name the last
/// one counts. No other group is declared.
pub proof fn groups_are_written_member_by_member(
    policy: Map<Seq<char>, Json>,
    groups: Vec<PolicyGroup>,
    key: Seq<char>,
    i: int,
)
    ensures
        ({
            let after = with_groups(policy, groups_section(groups.deep_view()));
            &&& after.dom().contains("groups"@)
            &&& after["groups"@] is Object
            &&& after["groups"@]->Object_0.dom().contains(key) <==> exists|n: int|
                counts_for(groups@, n, key)
            &&& counts_for(groups@, i, key) ==> {
                let members = groups@[i].members@;
                let written = after["groups"@]->Object_0[key];
                &&& written is Array
                &&& written->Array_0.len() == members.len()
                &&& forall|j: int|
                    0 <= j < members.len() ==> #[trigger] written->Array_0[j] == Json::Text(
                        members[j].token@,
                    )
            }
        }),
{
    let views = groups.deep_view();
    let after = with_groups(policy, groups_section(views));
    other_sections_stay(policy, groups_section(views), "groups"@);
    let fields = Seq::new(
        views.len(),
        |n: int| (group_key(views[n].name), json::text_items(tokens(views[n].members))),
    );
    assert forall|n: int| 0 <= n < fields.len() implies (#[trigger] fields[n]).0 == "group:"@
        + groups@[n].name@ by {
        assert(views[n] == groups@[n].deep_view());
    }
    if after["groups"@]->Object_0.dom().contains(key) {
        let n = json::object_has_no_other_field(fields, key);
        let m = last_of_name(groups@, n, key);
        assert(counts_for(groups@, m, key));
    }
    if exists|n: int| counts_for(groups@, n, key) {
        let n = choose|n: int| counts_for(groups@, n, key);
        json::object_has_each_field(fields, n);
        assert(fields[n].0 == key);
    }
    if counts_for(groups@, i, key) {
        json::object_has_each_field(fields, i);
        assert(fields[i].0 == key);
        let members = groups@[i].members;
        assert(views[i] == groups@[i].deep_view());
        let written = after["groups"@]->Object_0[key];
        assert(written == json::text_items(tokens(members.deep_view())));
        assert forall|j: int| 0 <= j < members@.len() implies #[trigger] written->Array_0[j]
            == Json::Text(members@[j].token@) by {
            assert(members.deep_view()[j] == members@[j].deep_view());
            assert(tokens(members.deep_view())[j] == members.deep_view()[j].token);
        }
    }
}

proof fn last_of_name(groups: Seq<PolicyGroup>, n: int, key: Seq<char>) -> (r: int)
    requires
        0 <= n < groups.len(),
        key == "group:"@ + groups[n].name@,
    ensures
        counts_for(groups, r, key),
    decreases groups.len() - n,
{
    if exists|m: int| n < m < groups.len() && key == "group:"@ + (#[trigger] groups[m]).name@ {
        let m = choose|m: int|
            n < m < groups.len() && key == "group:"@ + (#[trigger] groups[m]).name@;
        last_of_name(groups, m, key)
    } else {
        n
    }
}

/// Pruning takes a member out of a side of a grant exactly where it is a text that
/// begins with `group:` and is not declared.
pub proof fn undeclared_groups_go(members: Seq<Json>, known: Set<Seq<char>>, m: Json)
    ensures
        kept(members, known).contains(m) <==> members.contains(m) && !(m is Text
            && "group:"@.is_prefix_of(m->Text_0) && !known.contains(m->Text_0)),
{
    kept_members(members, known);
}

/// Pruning looks at each member by itself, and leaves the order of those that stay: what
/// is left of two lists is what is left of the one and then what is left of the other.
/// The same holds of the names that go.
pub proof fn members_are_pruned_one_by_one(
    first: Seq<Json>,
    second: Seq<Json>,
    known: Set<Seq<char>>,
)
    ensures
        kept(first + second, known) == kept(first, known) + kept(second, known),
        stale_names(first + second, known) == stale_names(first, known) + stale_names(
            second,
            known,
        ),
        first.len() == 1 ==> {
            let goes = first[0] is Text && "group:"@.is_prefix_of(first[0]->Text_0)
                && !known.contains(first[0]->Text_0);
            &&& kept(first, known) == (if goes { Seq::empty() } else { first })
            &&& stale_names(first, known) == (if goes { seq![first[0]->Text_0] } else {
                Seq::empty()
            })
        },
    decreases second.len(),
{
    if second.len() == 0 {
        assert(first + second =~= first);
        assert(kept(first, known) + kept(second, known) =~= kept(first, known));
        assert(stale_names(first, known) + stale_names(second, known) =~= stale_names(
            first,
            known,
        ));
    } else {
        members_are_pruned_one_by_one(first, second.drop_last(), known);
        assert((first + second).drop_last() =~= first + second.drop_last());
        assert((first + second).last() == second.last());
        assert(kept(first + second, known) =~= kept(first, known) + kept(second, known));
        assert(stale_names(first + second, known) =~= stale_names(first, known) + stale_names(
            second,
            known,
        ));
    }
    if first.len() == 1 {
        reveal_with_fuel(kept, 2);
        reveal_with_fuel(stale_names, 2);
        assert(first.last() == first[0]);
        assert(first.drop_last() =~= Seq::<Json>::empty());
        assert(Seq::<Json>::empty().push(first[0]) =~= first);
    }
}

/// The members of a grant under `key`, where there is a list of them.
pub open spec fn list_under(grant: Json, key: Seq<char>) -> Option<Seq<Json>> {
    if grant is Object && grant->Object_0.dom().contains(key) && grant->Object_0[key] is Array {
        Some(grant->Object_0[key]->Array_0)
    } else {
        None
    }
}

/// The grants after pruning are those before, each by itself and in their order. A grant
/// goes exactly where its sources or its targets were not empty and all of them go. A
/// grant that stays keeps everything but the sources and targets that go.
pub proof fn grants_are_pruned_one_by_one(
    first: Seq<Json>,
    second: Seq<Json>,
    known: Set<Seq<char>>,
    key: Seq<char>,
)
    ensures
        pruned_grants(first + second, known) == pruned_grants(first, known) + pruned_grants(
            second,
            known,
        ),
        first.len() == 1 ==> {
            let before = first[0];
            let after = pruned_grants(first, known);
            let emptied = |key: Seq<char>|
                list_under(before, key) is Some && list_under(before, key)->0.len() > 0 && kept(
                    list_under(before, key)->0,
                    known,
                ).len() == 0;
            if emptied("src"@) || emptied("dst"@) {
                after.len() == 0
            } else {
                &&& after.len() == 1
                &&& before is Object <==> after[0] is Object
                &&& !(before is Object) ==> after[0] == before
                &&& before is Object ==> {
                    &&& after[0]->Object_0.dom() == before->Object_0.dom()
                    &&& before->Object_0.dom().contains(key) ==> after[0]->Object_0[key] == (if (key
                        == "src"@ || key == "dst"@) && list_under(before, key) is Some {
                        Json::Array(kept(list_under(before, key)->0, known))
                    } else {
                        before->Object_0[key]
                    })
                }
            }
        },
    decreases second.len(),
{
    if second.len() == 0 {
        assert(first + second =~= first);
        assert(pruned_grants(first, known) + pruned_grants(second, known) =~= pruned_grants(
            first,
            known,
        ));
    } else {
        grants_are_pruned_one_by_one(first, second.drop_last(), known, key);
        assert((first + second).drop_last() =~= first + second.drop_last());
        assert((first + second).last() == second.last());
        assert(pruned_grants(first + second, known) =~= pruned_grants(first, known)
            + pruned_grants(second, known));
    }
    if first.len() == 1 {
        reveal_with_fuel(pruned_grants, 2);
        let before = first[0];
        assert(first.last() == before);
        assert(first.drop_last() =~= Seq::<Json>::empty());
        reveal_strlit("src");
        reveal_strlit("dst");
        assert("src"@[0] == 's' && "dst"@[0] == 'd');
        let once = pruned_side(before, "src"@, known);
        let both = pruned_grant(before, known);
        assert(side(before, "src"@) == (match list_under(before, "src"@) {
            Some(s) => s,
            None => Seq::empty(),
        }));
        assert(side(before, "dst"@) == (match list_under(before, "dst"@) {
            Some(s) => s,
            None => Seq::empty(),
        }));
        if before is Object {
            assert(once->Object_0.dom() =~= before->Object_0.dom());
            assert(both->Object_0.dom() =~= before->Object_0.dom());
        }
    }
}

/// After new groups are put into a policy, no grant refers to a group that is not
/// declared.
pub proof fn no_grant_refers_to_a_missing_group(
    policy: Map<Seq<char>, Json>,
    groups: Json,
    i: int,
    key: Seq<char>,
    m: int,
)
    requires
        key == "src"@ || key == "dst"@,
        ({
            let after = with_groups(policy, groups);
            &&& after.dom().contains("grants"@)
            &&& after["grants"@] is Array
            &&& 0 <= i < after["grants"@]->Array_0.len()
            &&& list_under(after["grants"@]->Array_0[i], key) is Some
            &&& 0 <= m < list_under(after["grants"@]->Array_0[i], key)->0.len()
        }),
    ensures
        ({
            let after = with_groups(policy, groups);
            let member = list_under(after["grants"@]->Array_0[i], key)->0[m];
            member is Text && "group:"@.is_prefix_of(member->Text_0) ==> {
                &&& after["groups"@] is Object
                &&& after["groups"@]->Object_0.dom().contains(member->Text_0)
            }
        }),
{
    reveal_strlit("groups");
    reveal_strlit("grants");
    assert("groups"@[2] == 'o' && "grants"@[2] == 'a');
    let replaced = policy.insert("groups"@, groups);
    let known = known_groups(replaced);
    let grants = grants_of(replaced);
    let after = with_groups(policy, groups);
    assert(after["grants"@]->Array_0 == pruned_grants(grants, known));
    let g = pruned_has_source(grants, known, i);
    let before = grants[g];
    reveal_strlit("src");
    reveal_strlit("dst");
    assert("src"@[0] == 's' && "dst"@[0] == 'd');
    let once = pruned_side(before, "src"@, known);
    kept_members(side(before, key), known);
    assert(list_under(pruned_grant(before, known), key)->0 == kept(side(before, key), known));
}

proof fn pruned_has_source(grants: Seq<Json>, known: Set<Seq<char>>, i: int) -> (r: int)
    requires
        0 <= i < pruned_grants(grants, known).len(),
    ensures
        0 <= r < grants.len(),
        pruned_grants(grants, known)[i] == pruned_grant(grants[r], known),
    decreases grants.len(),
{
    let rest = pruned_grants(grants.drop_last(), known);
    if i < rest.len() {
        pruned_has_source(grants.drop_last(), known, i)
    } else {
        grants.len() - 1
    }
}

/// What is said of a grant's pruning is what pruning does to it: the names that are told
/// for a side are exactly the undeclared groups in it, and a grant that is said to go is
/// one that is not among the grants afterwards.
pub proof fn edits_tell_what_pruning_does(
    policy: Map<Seq<char>, Json>,
    groups: Json,
    i: int,
    name: Seq<char>,
)
    requires
        0 <= i < grants_of(policy).len(),
    ensures
        ({
            let edits = grant_edits(policy, groups);
            let grant = grants_of(policy)[i];
            let declared = groups is Object && groups->Object_0.dom().contains(name);
            let goes = "group:"@.is_prefix_of(name) && !declared;
            &&& edits.len() == grants_of(policy).len()
            &&& edits[i].src.contains(name) <==> goes && list_under(grant, "src"@) is Some
                && list_under(grant, "src"@)->0.contains(Json::Text(name))
            &&& edits[i].dst.contains(name) <==> goes && list_under(grant, "dst"@) is Some
                && list_under(grant, "dst"@)->0.contains(Json::Text(name))
            &&& edits[i].remove <==> pruned_grants(
                seq![grant],
                known_groups(policy.insert("groups"@, groups)),
            ).len() == 0
        }),
{
    let known = known_groups(policy.insert("groups"@, groups));
    let grant = grants_of(policy)[i];
    assert(known.contains(name) == (groups is Object && groups->Object_0.dom().contains(name)));
    stale_name_members(side(grant, "src"@), known, name);
    stale_name_members(side(grant, "dst"@), known, name);
    reveal_with_fuel(pruned_grants, 2);
    assert(seq![grant].drop_last() =~= Seq::<Json>::empty());
    assert(seq![grant].last() == grant);
}

proof fn stale_name_members(members: Seq<Json>, known: Set<Seq<char>>, name: Seq<char>)
    ensures
        stale_names(members, known).contains(name) <==> members.contains(Json::Text(name))
            && "group:"@.is_prefix_of(name) && !known.contains(name),
    decreases members.len(),
{
    if members.len() > 0 {
        let fewer = members.drop_last();
        stale_name_members(fewer, known, name);
        let rest = stale_names(fewer, known);
        let all = stale_names(members, known);
        let m = Json::Text(name);
        assert(members.contains(m) <==> fewer.contains(m) || members.last() == m) by {
            if members.contains(m) {
                let i = choose|i: int| 0 <= i < members.len() && members[i] == m;
                if i < fewer.len() {
                    assert(fewer[i] == m);
                }
            }
            if fewer.contains(m) {
                let i = choose|i: int| 0 <= i < fewer.len() && fewer[i] == m;
                assert(members[i] == m);
            }
            assert(members[members.len() - 1] == members.last());
        }
        if all.len() > rest.len() {
            if all.contains(name) {
                let i = choose|i: int| 0 <= i < all.len() && all[i] == name;
                if i < rest.len() {
                    assert(rest[i] == name);
                }
            }
            if rest.contains(name) {
                let i = choose|i: int| 0 <= i < rest.len() && rest[i] == name;
                assert(all[i] == name);
            }
            assert(all[rest.len() as int] == members.last()->Text_0);
        }
    }
}

/// A text is a policy exactly where it is blank or stands for an object; a blank text is
/// the policy without any sections.
pub proof fn policies_are_objects(policy: Seq<char>)
    ensures
        (forall|i: int| 0 <= i < policy.len() ==> text::is_space(#[trigger] policy[i]))
            ==> policy_of(policy) == Some(Map::<Seq<char>, Json>::empty()),
        (exists|i: int| 0 <= i < policy.len() && !text::is_space(#[trigger] policy[i])) ==> {
            &&& policy_of(policy) is Some <==> hujson(policy) is Some && hujson(policy)->0 is Object
            &&& policy_of(policy) is Some ==> hujson(policy) == Some(
                Json::Object(policy_of(policy)->0),
            )
        },
{
    text::blank_texts_are_trimmed_to_nothing(policy);
}

/// The declared groups are the keys of the `groups` section, where that is an object.
pub proof fn declared_groups_are_the_keys(policy: Map<Seq<char>, Json>, group: Seq<char>)
    ensures
        known_groups(policy).contains(group) <==> policy.dom().contains("groups"@)
            && policy["groups"@] is Object && policy["groups"@]->Object_0.dom().contains(group),
{
}

/// What a headscale server answers when asked for its policy.
pub enum PolicyReply<E> {
    /// The policy text.
    Text(String),
    /// No policy: the message of the refusal, and the refusal itself.
    Refused { message: String, error: E },
}

/// The policy text of a server. A server that says it has no policy has an empty
/// one; any other refusal stands.
pub fn live_policy<E>(reply: PolicyReply<E>) -> (r: Result<String, E>)
    ensures
        match reply {
            PolicyReply::Text(text) => r == Ok::<String, E>(text),
            PolicyReply::Refused { message, error } => if text::has_part(
                message@,
                "policy not found"@,
            ) {
                r is Ok && r->Ok_0@ == Seq::<char>::empty()
            } else {
                r == Err::<String, E>(error)
            },
        },
{
    match reply {
        PolicyReply::Text(text) => Ok(text),
        PolicyReply::Refused { message, error } => {
            if text::contains_text(message.as_str(), "policy not found") {
                Ok(String::new())
            } else {
                Err(error)
            }
        },
    }
}

/// A member stands for its token and its comment.
pub proof fn members_are_seen_as_they_are(member: PolicyMember)
    ensures
        member.deep_view().token == member.token@,
        member.deep_view().comment == member.comment.deep_view(),
{
}

/// A group stands for its name and its members.
pub proof fn groups_are_seen_as_they_are(group: PolicyGroup)
    ensures
        group.deep_view().name == group.name@,
        group.deep_view().members == group.members.deep_view(),
{
}

/// An edit stands for what becomes of both sides, and for whether the grant goes.
pub proof fn edits_are_seen_as_they_are(edit: GrantEdit)
    ensures
        edit.deep_view().src == edit.src.deep_view(),
        edit.deep_view().dst == edit.dst.deep_view(),
        edit.deep_view().remove == edit.remove,
{
}

} // verus!
