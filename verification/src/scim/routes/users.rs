//! The endpoints for users.
use crate::scim::services;
use crate::scim::services::{ScimService, UserBody};
use crate::scim::storage::{Mapping, MappingV, UserRecord};
use crate::scim::types;
use crate::scim::types::{ScimEmail, ScimError, ScimId, ScimListResponse, ScimUser, ScimUserV};
use crate::text;
use vstd::prelude::*;

verus! {

/// The query of a request for the list of users.
pub struct ListQuery {
    pub filter: Option<String>,
}

/// The body of a request about a user.
pub struct UserBodyJson {
    pub user_name: Option<String>,
    pub display_name: Option<String>,
    pub external_id: Option<String>,
    pub emails: Option<Vec<ScimEmail>>,
    pub active: Option<bool>,
}

impl From<UserBodyJson> for UserBody {
    fn from(j: UserBodyJson) -> (r: Self) {
        UserBody {
            user_name: j.user_name,
            display_name: j.display_name,
            external_id: j.external_id,
            emails: j.emails,
            active: j.active,
        }
    }
}

impl vstd::std_specs::convert::FromSpecImpl<UserBodyJson> for UserBody {
    open spec fn obeys_from_spec() -> bool {
        true
    }

    open spec fn from_spec(j: UserBodyJson) -> Self {
        UserBody {
            user_name: j.user_name,
            display_name: j.display_name,
            external_id: j.external_id,
            emails: j.emails,
            active: j.active,
        }
    }
}

/// A character is this one, or its capital letter.
pub open spec fn folds(c: char, p: char) -> bool {
    c == p || ('A' <= c <= 'Z' && c as int + 32 == p as int)
}

/// A text begins with another, where capital letters count as small ones.
pub open spec fn begins_folded(s: Seq<char>, prefix: Seq<char>) -> bool {
    s.len() >= prefix.len() && forall|i: int|
        #![trigger s[i]]
        0 <= i < prefix.len() ==> folds(s[i], prefix[i])
}

/// The character at a position has a backslash before it that has none before itself
/// by the same rule: of two backslashes in a row the second one escapes nothing.
pub open spec fn is_escaped(s: Seq<char>, i: int) -> bool
    decreases i,
{
    i > 0 && s[i - 1] == '\\' && !is_escaped(s, i - 1)
}

/// Every quote in a text has a backslash before it.
pub open spec fn quotes_are_escaped(s: Seq<char>) -> bool {
    forall|i: int| 0 <= i < s.len() && #[trigger] s[i] == '"' ==> is_escaped(s, i)
}

/// The name that a filter asks for, where it has the form `userName eq "name"` with
/// or without blanks round it. Only the attribute and the operator may be in capital
/// letters; the name is taken as it is, backslashes and all, and a quote in it has a
/// backslash before it.
pub open spec fn username_filter(filter: Seq<char>) -> Option<Seq<char>> {
    let t = text::trimmed(filter);
    if t.len() >= 14 && begins_folded(t, "username eq \""@) && t.last() == '"'
        && quotes_are_escaped(t.subrange(13, t.len() - 1)) {
        Some(t.subrange(13, t.len() - 1))
    } else {
        None
    }
}

fn is_folded(c: char, p: char) -> (r: bool)
    ensures
        r == folds(c, p),
{
    let a: u32 = text::code_point(c);
    let b: u32 = text::code_point(p);
    a == b || (65 <= a && a <= 90 && a + 32 == b)
}

fn begins(s: &Vec<char>, prefix: &Vec<char>) -> (r: bool)
    ensures
        r == begins_folded(s@, prefix@),
{
    if s.len() < prefix.len() {
        return false;
    }
    let mut i: usize = 0;
    while i < prefix.len()
        invariant
            i <= prefix@.len() <= s@.len(),
            forall|j: int| #![trigger s@[j]] 0 <= j < i ==> folds(s@[j], prefix@[j]),
        decreases prefix@.len() - i,
    {
        if !is_folded(s[i], prefix[i]) {
            assert(!folds(s@[i as int], prefix@[i as int]));
            return false;
        }
        i += 1;
    }
    true
}

fn only_escaped_quotes(s: &Vec<char>, from: usize, to: usize) -> (r: bool)
    requires
        from <= to <= s@.len(),
    ensures
        r == quotes_are_escaped(s@.subrange(from as int, to as int)),
{
    let ghost part = s@.subrange(from as int, to as int);
    let mut escaped: bool = false;
    let mut i: usize = from;
    while i < to
        invariant
            from <= i <= to <= s@.len(),
            part == s@.subrange(from as int, to as int),
            escaped == is_escaped(part, i - from),
            forall|j: int|
                0 <= j < i - from && #[trigger] part[j] == '"' ==> is_escaped(part, j),
        decreases to - i,
    {
        assert(part[i - from] == s@[i as int]);
        if s[i] == '"' && !escaped {
            return false;
        }
        escaped = s[i] == '\\' && !escaped;
        i += 1;
    }
    true
}

/// Reads a filter of the form `userName eq "name"`. Any other filter is handed
/// back as it came.
pub fn parse_username_eq_filter(filter: &str) -> (r: Result<String, &str>)
    ensures
        match username_filter(filter@) {
            Some(name) => r matches Ok(found) && found@ == name,
            None => r matches Err(whole) && whole@ == filter@,
        },
{
    proof {
        reveal_strlit("username eq \"");
    }
    let trimmed: &str = text::trim(filter);
    let n: usize = trimmed.unicode_len();
    let chars: Vec<char> = text::chars_of(trimmed);
    let prefix: Vec<char> = text::chars_of("username eq \"");
    if n < 14 || chars[n - 1] != '"' {
        return Err(filter);
    }
    if !begins(&chars, &prefix) || !only_escaped_quotes(&chars, 13, n - 1) {
        return Err(filter);
    }
    Ok(trimmed.substring_char(13, n - 1).to_owned())
}

/// The users of a name among these.
pub open spec fn named(users: Seq<ScimUserV>, name: Seq<char>) -> Seq<ScimUserV>
    decreases users.len(),
{
    if users.len() == 0 {
        Seq::empty()
    } else if users.last().user_name == name {
        named(users.drop_last(), name).push(users.last())
    } else {
        named(users.drop_last(), name)
    }
}

fn list_named(mapping: &Mapping, name: &str) -> (r: Vec<ScimUser>)
    ensures
        r.deep_view() == named(services::all_users(mapping@), name@),
{
    let ghost all = services::all_users(mapping@);
    let users: Vec<(ScimId, &UserRecord)> = mapping.users();
    let mut out: Vec<ScimUser> = Vec::new();
    let mut i: usize = 0;
    proof {
        assert(out.deep_view() =~= Seq::<ScimUserV>::empty());
        assert(all.take(0) =~= Seq::<ScimUserV>::empty());
    }
    while i < users.len()
        invariant
            i <= users@.len(),
            all == services::all_users(mapping@),
            all.len() == users@.len(),
            forall|j: int|
                #![trigger users@[j]]
                0 <= j < users@.len() ==> all[j] == services::user_resource(
                    users@[j].0.deep_view(),
                    users@[j].1.deep_view(),
                ),
            out.deep_view() == named(all.take(i as int), name@),
        decreases users@.len() - i,
    {
        proof {
            assert(all.take(i + 1).drop_last() =~= all.take(i as int));
            assert(all.take(i + 1).last() == all[i as int]);
            assert(users@[i as int].1.deep_view().name == all[i as int].user_name);
        }
        if text::same(users[i].1.name.as_str(), name) {
            let ghost so_far = out.deep_view();
            out.push(services::user_record_to_scim(&users[i].0, users[i].1));
            proof {
                assert(out.deep_view() =~= so_far.push(all[i as int]));
            }
        }
        i += 1;
    }
    proof {
        assert(all.take(i as int) =~= all);
    }
    out
}

/// The answer to a request for the list of users.
pub open spec fn listed(m: MappingV, filter: Option<Seq<char>>) -> Option<Seq<ScimUserV>> {
    match filter {
        Some(filter) => match username_filter(filter) {
            Some(name) => Some(named(services::all_users(m), name)),
            None => None,
        },
        None => Some(services::all_users(m)),
    }
}

/// Lists the users, or those of the name that a filter asks for. Other filters
/// are refused.
pub fn list_users(service: &ScimService, mapping: &Mapping, query: &ListQuery) -> (r: Result<
    ScimListResponse<ScimUser>,
    ScimError,
>)
    ensures
        match listed(mapping@, query.filter.deep_view()) {
            Some(users) => r matches Ok(list) && {
                &&& list.resources.deep_view() == users
                &&& list.schemas.deep_view() == Seq::empty().push(types::SCHEMA_LIST_RESPONSE@)
                &&& list.total_results == users.len()
                &&& list.start_index == 1
                &&& list.items_per_page == users.len()
            },
            None => r matches Err(e) && e.deep_view() == types::not_implemented(
                "unsupported filter: "@ + query.filter.deep_view()->0,
            ),
        },
{
    match &query.filter {
        Some(filter) => match parse_username_eq_filter(filter.as_str()) {
            Ok(name) => {
                let users: Vec<ScimUser> = list_named(mapping, name.as_str());
                Ok(ScimListResponse::new(users))
            },
            Err(whole) => Err(
                ScimError::not_implemented(text::cat2("unsupported filter: ", whole)),
            ),
        },
        None => Ok(service.list_users(mapping)),
    }
}

/// The status of the answer to a report of a user: whether the user is new.
pub fn create_user(created: bool) -> (r: u16)
    ensures
        r == (if created {
            201u16
        } else {
            200u16
        }),
{
    if created {
        201
    } else {
        200
    }
}

/// The status of the answer to the removal of a user.
pub fn delete_user() -> (r: u16)
    ensures
        r == 204,
{
    204
}

// Laws.

/// A filter for a name that is put between quotes is read as that name, whatever the
/// letter case of what stands before it and whatever blanks stand round the filter. A
/// quote in the name needs a backslash before it.
pub proof fn quoted_name_is_read_back(
    before: Seq<char>,
    prefix: Seq<char>,
    name: Seq<char>,
    after: Seq<char>,
)
    requires
        text::is_blank(before),
        text::is_blank(after),
        prefix.len() == 13,
        begins_folded(prefix, "username eq \""@),
        quotes_are_escaped(name),
    ensures
        username_filter(before + (prefix + name + "\""@) + after) == Some(name),
{
    reveal_strlit("username eq \"");
    reveal_strlit("\"");
    let core = prefix + name + "\""@;
    assert(core[0] == prefix[0]);
    assert(folds(prefix[0], 'u'));
    assert(core.last() == '"');
    text::blanks_are_trimmed(before, core, after);
    assert forall|i: int| #![trigger core[i]] 0 <= i < 13 implies folds(
        core[i],
        "username eq \""@[i],
    ) by {
        assert(core[i] == prefix[i]);
    }
    assert(core.subrange(13, core.len() - 1) =~= name);
}

proof fn escaping_looks_back_only(s: Seq<char>, t: Seq<char>, i: int)
    requires
        0 <= i <= s.len(),
        s.is_prefix_of(t),
    ensures
        is_escaped(s, i) == is_escaped(t, i),
    decreases i,
{
    if i > 0 {
        assert(s[i - 1] == t[i - 1]);
        escaping_looks_back_only(s, t, i - 1);
    }
}

/// A filter with more than one quoted text is refused, whatever joins them: the quote
/// that ends the first one must end the filter. A quote ends a text where no backslash
/// before it says otherwise.
pub proof fn joined_filters_are_refused(name: Seq<char>, between: Seq<char>, other: Seq<char>)
    requires
        !is_escaped(name, name.len() as int),
    ensures
        username_filter(
            "userName eq \""@ + name + "\""@ + between + "\""@ + other + "\""@,
        ) is None,
{
    reveal_strlit("userName eq \"");
    reveal_strlit("\"");
    let whole = "userName eq \""@ + name + "\""@ + between + "\""@ + other + "\""@;
    assert(whole[0] == 'u');
    assert(whole.last() == '"');
    text::blanks_are_trimmed(Seq::empty(), whole, Seq::empty());
    assert(Seq::<char>::empty() + whole + Seq::<char>::empty() =~= whole);
    let inner = whole.subrange(13, whole.len() - 1);
    assert(inner[name.len() as int] == '"');
    escaping_looks_back_only(name, inner, name.len() as int);
}

/// The body of a request is handed on as it is.
pub proof fn bodies_are_handed_on(j: UserBodyJson)
    ensures
        ({
            let body = <UserBody as vstd::std_specs::convert::FromSpec<UserBodyJson>>::from_spec(
                j,
            );
            &&& body.user_name == j.user_name
            &&& body.display_name == j.display_name
            &&& body.external_id == j.external_id
            &&& body.emails == j.emails
            &&& body.active == j.active
        }),
{
}

/// The users of a name are those among all that have it, in their order: those of two lists
/// are those of the one and then those of the other.
pub proof fn users_of_a_name_are_picked(
    first: Seq<ScimUserV>,
    second: Seq<ScimUserV>,
    name: Seq<char>,
)
    ensures
        named(first + second, name) == named(first, name) + named(second, name),
        first.len() == 1 ==> named(first, name) == (if first[0].user_name == name {
            first
        } else {
            Seq::empty()
        }),
    decreases second.len(),
{
    if second.len() == 0 {
        assert(first + second =~= first);
        assert(named(first, name) + named(second, name) =~= named(first, name));
    } else {
        users_of_a_name_are_picked(first, second.drop_last(), name);
        assert((first + second).drop_last() =~= first + second.drop_last());
        assert((first + second).last() == second.last());
        assert(named(first + second, name) =~= named(first, name) + named(second, name));
    }
    if first.len() == 1 {
        reveal_with_fuel(named, 2);
        assert(first.drop_last() =~= Seq::<ScimUserV>::empty());
        assert(Seq::<ScimUserV>::empty().push(first[0]) =~= first);
        assert(first.last() == first[0]);
    }
}

/// Without a filter all users are listed; with one that can be read those of the name that it
/// asks for; and any other filter is refused.
pub proof fn lists_follow_the_filter(m: MappingV, filter: Seq<char>, user: ScimUserV)
    ensures
        listed(m, None) == Some(services::all_users(m)),
        listed(m, Some(filter)) is None <==> username_filter(filter) is None,
        username_filter(filter) is Some ==> (listed(m, Some(filter))->0.contains(user)
            <==> services::all_users(m).contains(user) && user.user_name == username_filter(
            filter,
        )->0),
{
    if username_filter(filter) is Some {
        named_members(services::all_users(m), username_filter(filter)->0, user);
    }
}

proof fn named_members(users: Seq<ScimUserV>, name: Seq<char>, user: ScimUserV)
    ensures
        named(users, name).contains(user) <==> users.contains(user) && user.user_name == name,
    decreases users.len(),
{
    if users.len() > 0 {
        let fewer = users.drop_last();
        named_members(fewer, name, user);
        let rest = named(fewer, name);
        let all = named(users, name);
        assert(users.contains(user) <==> fewer.contains(user) || user == users.last()) by {
            if users.contains(user) {
                let i = choose|i: int| 0 <= i < users.len() && users[i] == user;
                if i < fewer.len() {
                    assert(fewer[i] == user);
                }
            }
            if fewer.contains(user) {
                let i = choose|i: int| 0 <= i < fewer.len() && fewer[i] == user;
                assert(users[i] == user);
            }
            assert(users[users.len() - 1] == users.last());
        }
        if users.last().user_name == name {
            if all.contains(user) {
                let i = choose|i: int| 0 <= i < all.len() && all[i] == user;
                if i < rest.len() {
                    assert(rest[i] == user);
                }
            }
            if rest.contains(user) {
                let i = choose|i: int| 0 <= i < rest.len() && rest[i] == user;
                assert(all[i] == user);
            }
            assert(all[rest.len() as int] == users.last());
        }
    }
}

/// A filter that is read names its user between the first quote and the last: it begins, in
/// whatever case, with `userName eq` and a quote, and ends with a quote, blanks apart.
pub proof fn filters_have_their_form(filter: Seq<char>)
    requires
        username_filter(filter) is Some,
    ensures
        exists|before: Seq<char>, prefix: Seq<char>, after: Seq<char>|
            {
                &&& text::is_blank(before)
                &&& text::is_blank(after)
                &&& prefix.len() == 13
                &&& (forall|i: int|
                    0 <= i < 13 ==> #[trigger] prefix[i] == "username eq \""@[i] || prefix[i] as int
                        + 32 == "username eq \""@[i] as int && 'A' <= prefix[i] <= 'Z')
                &&& filter == #[trigger] (before + prefix + username_filter(filter)->0 + "\""@
                    + after)
            },
{
    let (before, after) = text::trimming_takes_only_blanks(filter);
    let t = text::trimmed(filter);
    let prefix = t.take(13);
    reveal_strlit("username eq \"");
    reveal_strlit("\"");
    assert(t =~= prefix + username_filter(filter)->0 + "\""@);
    assert forall|i: int| 0 <= i < 13 implies #[trigger] prefix[i] == "username eq \""@[i]
        || prefix[i] as int + 32 == "username eq \""@[i] as int && 'A' <= prefix[i] <= 'Z' by {
        assert(folds(t[i], "username eq \""@[i]));
    }
    assert(filter =~= before + prefix + username_filter(filter)->0 + "\""@ + after);
}

proof fn trimming_leaves_the_middle(before: Seq<char>, t: Seq<char>, after: Seq<char>)
    requires
        text::is_blank(before),
        text::is_blank(after),
        t.len() > 0,
        !text::is_space(t[0]),
        !text::is_space(t.last()),
    ensures
        text::trimmed(before + t + after) == t,
{
    let s = before + t + after;
    let (x, y) = text::trimming_takes_only_blanks(s);
    let m = text::trimmed(s);
    text::blank_texts_are_trimmed_to_nothing(s);
    assert(s[before.len() as int] == t[0]);
    assert(m.len() > 0);
    assert(s[x.len() as int] == m[0]);
    if x.len() < before.len() {
        assert(text::is_space(before[x.len() as int]));
    }
    if before.len() < x.len() {
        assert(text::is_space(x[before.len() as int]));
    }
    let end = before.len() + t.len() - 1;
    let last = x.len() + m.len() - 1;
    assert(s[end as int] == t.last());
    assert(s[last as int] == m.last());
    if last > end {
        assert(text::is_space(after[last - before.len() - t.len()]));
    }
    if end > last {
        assert(text::is_space(y[end - x.len() - m.len()]));
    }
    assert(x.len() == before.len() && m.len() == t.len());
    assert(m =~= s.subrange(x.len() as int, (x.len() + m.len()) as int));
    assert(t =~= s.subrange(x.len() as int, (x.len() + m.len()) as int));
}

/// A filter of the form `userName eq "name"`, in whatever case and with blanks around it, is
/// read, and what it asks for is the name between the quotes.
pub proof fn filters_of_the_form_are_read(
    before: Seq<char>,
    prefix: Seq<char>,
    name: Seq<char>,
    after: Seq<char>,
)
    requires
        text::is_blank(before),
        text::is_blank(after),
        prefix.len() == 13,
        forall|i: int|
            0 <= i < 13 ==> #[trigger] prefix[i] == "username eq \""@[i] || prefix[i] as int + 32
                == "username eq \""@[i] as int && 'A' <= prefix[i] <= 'Z',
        quotes_are_escaped(name),
    ensures
        username_filter(before + prefix + name + "\""@ + after) == Some(name),
{
    reveal_strlit("username eq \"");
    reveal_strlit("\"");
    let t = prefix + name + "\""@;
    assert(t[0] == prefix[0]);
    assert(t.last() == '"');
    trimming_leaves_the_middle(before, t, after);
    assert(before + prefix + name + "\""@ + after =~= before + t + after);
    assert(t.subrange(13, t.len() - 1) =~= name);
    assert(begins_folded(t, "username eq \""@));
}

/// A character is escaped exactly where the backslashes right before it are odd in number.
pub proof fn backslashes_escape_in_pairs(s: Seq<char>, i: int, count: int)
    requires
        0 <= count <= i <= s.len(),
        forall|j: int| i - count <= j < i ==> #[trigger] s[j] == '\\',
        i > count ==> s[i - count - 1] != '\\',
    ensures
        is_escaped(s, i) <==> count % 2 == 1,
    decreases count,
{
    if count > 0 {
        backslashes_escape_in_pairs(s, i - 1, count - 1);
        assert(s[i - 1] == '\\');
    }
}

/// The quotes of a name are in order exactly where every one of them is escaped; one without
/// quotes is always in order.
pub proof fn quotes_need_a_backslash(name: Seq<char>, i: int)
    requires
        0 <= i < name.len(),
        name[i] == '"',
    ensures
        quotes_are_escaped(name) ==> is_escaped(name, i),
        !is_escaped(name, i) ==> !quotes_are_escaped(name),
        quotes_are_escaped(name) ==> i > 0 && name[i - 1] == '\\',
{
}

/// A name without quotes needs no backslashes.
pub proof fn names_without_quotes_are_in_order(name: Seq<char>)
    requires
        !name.contains('"'),
    ensures
        quotes_are_escaped(name),
{
}

} // verus!
