//! The mapping: the users and groups that the service knows.
//!
//! The mapping lives in memory and in a file. A change is made in memory first and
//! written out after; a removal that cannot be written out is taken back.
use crate::scim::types::{ExternalId, GroupScimId, ScimId};
use crate::table;
use crate::table::Table;
use crate::text;
use crate::time;
use crate::time::Timestamp;
use vstd::prelude::*;

verus! {

/// What is kept of a user.
#[derive(Debug, PartialEq)]
pub struct UserRecord {
    /// Whether the identity provider considers the user active.
    pub active: bool,
    pub name: String,
    pub display_name: Option<String>,
    pub email: Option<String>,
    pub external_id: Option<ExternalId>,
    /// When the record was last written.
    pub updated_at: Timestamp,
}

/// A [`UserRecord`] as plain values.
pub struct UserRecordV {
    pub active: bool,
    pub name: Seq<char>,
    pub display_name: Option<Seq<char>>,
    pub email: Option<Seq<char>>,
    pub external_id: Option<Seq<char>>,
    pub updated_at: Timestamp,
}

impl DeepView for UserRecord {
    type V = UserRecordV;

    open spec fn deep_view(&self) -> UserRecordV {
        UserRecordV {
            active: self.active,
            name: self.name@,
            display_name: self.display_name.deep_view(),
            email: self.email.deep_view(),
            external_id: self.external_id.deep_view(),
            updated_at: self.updated_at,
        }
    }
}

/// Copies an id that may be missing.
pub(crate) fn copy_external_id(id: &Option<ExternalId>) -> (r: Option<ExternalId>)
    ensures
        r.deep_view() == id.deep_view(),
{
    match id {
        Some(id) => Some(id.clone()),
        None => None,
    }
}

impl Clone for UserRecord {
    fn clone(&self) -> (r: Self)
        ensures
            r.deep_view() == self.deep_view(),
    {
        UserRecord {
            active: self.active,
            name: self.name.clone(),
            display_name: text::copy_optional(&self.display_name),
            email: text::copy_optional(&self.email),
            external_id: copy_external_id(&self.external_id),
            updated_at: self.updated_at,
        }
    }
}

/// What is kept of a group.
#[derive(Debug, PartialEq)]
pub struct GroupRecord {
    pub name: String,
    /// The ids of the members, in the order in which they were given. A member
    /// need not be known.
    pub members: Vec<ScimId>,
    pub external_id: Option<ExternalId>,
    /// When the record was last written, as far as clients are told.
    pub updated_at: Timestamp,
}

/// A [`GroupRecord`] as plain values.
pub struct GroupRecordV {
    pub name: Seq<char>,
    pub members: Seq<Seq<char>>,
    pub external_id: Option<Seq<char>>,
    pub updated_at: Timestamp,
}

impl DeepView for GroupRecord {
    type V = GroupRecordV;

    open spec fn deep_view(&self) -> GroupRecordV {
        GroupRecordV {
            name: self.name@,
            members: self.members.deep_view(),
            external_id: self.external_id.deep_view(),
            updated_at: self.updated_at,
        }
    }
}

/// Copies ids.
pub(crate) fn copy_ids(ids: &Vec<ScimId>) -> (r: Vec<ScimId>)
    ensures
        r.deep_view() == ids.deep_view(),
{
    let mut out: Vec<ScimId> = Vec::new();
    let mut i: usize = 0;
    while i < ids.len()
        invariant
            i <= ids@.len(),
            out@.len() == i,
            forall|j: int|
                0 <= j < i ==> (#[trigger] out@[j]).deep_view() == ids@[j].deep_view(),
        decreases ids@.len() - i,
    {
        out.push(ids[i].clone());
        i += 1;
    }
    proof {
        assert(out.deep_view() =~= ids.deep_view());
    }
    out
}

impl Clone for GroupRecord {
    fn clone(&self) -> (r: Self)
        ensures
            r.deep_view() == self.deep_view(),
    {
        GroupRecord {
            name: self.name.clone(),
            members: copy_ids(&self.members),
            external_id: copy_external_id(&self.external_id),
            updated_at: self.updated_at,
        }
    }
}

/// The users and groups that the service knows.
pub struct Mapping {
    users: Table<UserRecord>,
    groups: Table<GroupRecord>,
}

/// A [`Mapping`] as plain values.
#[verifier::ext_equal]
pub struct MappingV {
    pub users: Map<Seq<char>, UserRecordV>,
    pub groups: Map<Seq<char>, GroupRecordV>,
}

impl View for Mapping {
    type V = MappingV;

    closed spec fn view(&self) -> MappingV {
        MappingV { users: self.users.deep_view(), groups: self.groups.deep_view() }
    }
}

/// The map that these entries make one after the other.
pub open spec fn entries<V>(list: Seq<(Seq<char>, V)>) -> Map<Seq<char>, V>
    decreases list.len(),
{
    if list.len() == 0 {
        Map::empty()
    } else {
        entries(list.drop_last()).insert(list.last().0, list.last().1)
    }
}

/// The entries of a map, in the order of their keys.
pub open spec fn listing<V>(m: Map<Seq<char>, V>) -> Seq<(Seq<char>, V)> {
    let keys = table::sorted(m.dom());
    Seq::new(keys.len(), |i: int| (keys[i], m[keys[i]]))
}

/// The first of these ids whose record has this name.
pub open spec fn first_named(
    ids: Seq<Seq<char>>,
    names: Map<Seq<char>, Seq<char>>,
    name: Seq<char>,
) -> Option<Seq<char>>
    decreases ids.len(),
{
    if ids.len() == 0 {
        None
    } else {
        match first_named(ids.drop_last(), names, name) {
            Some(id) => Some(id),
            None => if names[ids.last()] == name {
                Some(ids.last())
            } else {
                None
            },
        }
    }
}

/// The names of the users.
pub open spec fn user_names(m: MappingV) -> Map<Seq<char>, Seq<char>> {
    Map::new(|id: Seq<char>| m.users.dom().contains(id), |id: Seq<char>| m.users[id].name)
}

/// The names of the groups.
pub open spec fn group_names(m: MappingV) -> Map<Seq<char>, Seq<char>> {
    Map::new(|id: Seq<char>| m.groups.dom().contains(id), |id: Seq<char>| m.groups[id].name)
}

/// The id of the user with this name: of the first one, where there are more.
pub open spec fn user_named(m: MappingV, name: Seq<char>) -> Option<Seq<char>> {
    first_named(table::sorted(m.users.dom()), user_names(m), name)
}

/// The id of the group with this name: of the first one, where there are more.
pub open spec fn group_named(m: MappingV, name: Seq<char>) -> Option<Seq<char>> {
    first_named(table::sorted(m.groups.dom()), group_names(m), name)
}

/// The mapping with this record of a user.
pub open spec fn with_user(m: MappingV, id: Seq<char>, record: UserRecordV) -> MappingV {
    MappingV { users: m.users.insert(id, record), groups: m.groups }
}

/// The mapping without a user, who stays a member of groups.
pub open spec fn without_user(m: MappingV, id: Seq<char>) -> MappingV {
    MappingV { users: m.users.remove(id), groups: m.groups }
}

/// The mapping with this record of a group.
pub open spec fn with_group(m: MappingV, id: Seq<char>, record: GroupRecordV) -> MappingV {
    MappingV { users: m.users, groups: m.groups.insert(id, record) }
}

/// The mapping without a group.
pub open spec fn without_group(m: MappingV, id: Seq<char>) -> MappingV {
    MappingV { users: m.users, groups: m.groups.remove(id) }
}

/// The members but this one.
pub open spec fn others(members: Seq<Seq<char>>, id: Seq<char>) -> Seq<Seq<char>>
    decreases members.len(),
{
    if members.len() == 0 {
        Seq::empty()
    } else if members.last() == id {
        others(members.drop_last(), id)
    } else {
        others(members.drop_last(), id).push(members.last())
    }
}

/// The group without a member.
pub open spec fn without_member(group: GroupRecordV, id: Seq<char>) -> GroupRecordV {
    GroupRecordV { members: others(group.members, id), ..group }
}

/// The mapping without a user, who is not a member of any group either.
pub open spec fn without_user_anywhere(m: MappingV, id: Seq<char>) -> MappingV {
    MappingV {
        users: m.users.remove(id),
        groups: Map::new(
            |group: Seq<char>| m.groups.dom().contains(group),
            |group: Seq<char>| without_member(m.groups[group], id),
        ),
    }
}

/// What it takes to take the removal of a user back.
pub struct Removal {
    pub id: ScimId,
    /// The record of the user, if there was one.
    pub user: Option<UserRecord>,
    /// The members of the groups that the user was in.
    pub groups: Table<Vec<ScimId>>,
}

/// A [`Removal`] as plain values.
pub struct RemovalV {
    pub id: Seq<char>,
    pub user: Option<UserRecordV>,
    pub groups: Map<Seq<char>, Seq<Seq<char>>>,
}

impl DeepView for Removal {
    type V = RemovalV;

    open spec fn deep_view(&self) -> RemovalV {
        RemovalV {
            id: self.id.deep_view(),
            user: self.user.deep_view(),
            groups: self.groups.deep_view(),
        }
    }
}

/// What it takes to take the removal of this user back.
pub open spec fn removal_of(m: MappingV, id: Seq<char>) -> RemovalV {
    RemovalV {
        id,
        user: if m.users.dom().contains(id) {
            Some(m.users[id])
        } else {
            None
        },
        groups: Map::new(
            |group: Seq<char>|
                m.groups.dom().contains(group) && m.groups[group].members.contains(id),
            |group: Seq<char>| m.groups[group].members,
        ),
    }
}

/// The mapping with a removal taken back.
pub open spec fn restored(m: MappingV, removal: RemovalV) -> MappingV {
    MappingV {
        users: match removal.user {
            Some(user) => m.users.insert(removal.id, user),
            None => m.users,
        },
        groups: Map::new(
            |group: Seq<char>| m.groups.dom().contains(group),
            |group: Seq<char>|
                if removal.groups.dom().contains(group) {
                    GroupRecordV { members: removal.groups[group], ..m.groups[group] }
                } else {
                    m.groups[group]
                },
        ),
    }
}

/// Whether an id is among these.
pub(crate) fn is_member(ids: &Vec<ScimId>, id: &str) -> (r: bool)
    ensures
        r == ids.deep_view().contains(id@),
{
    let ghost all = ids.deep_view();
    let mut i: usize = 0;
    while i < ids.len()
        invariant
            i <= ids@.len(),
            all == ids.deep_view(),
            forall|j: int| 0 <= j < i ==> #[trigger] all[j] != id@,
        decreases ids@.len() - i,
    {
        assert(all[i as int] == ids@[i as int].deep_view());
        if text::same(ids[i].as_str(), id) {
            assert(all.contains(id@));
            return true;
        }
        i += 1;
    }
    false
}

fn drop_member(ids: &Vec<ScimId>, id: &str) -> (r: Vec<ScimId>)
    ensures
        r.deep_view() == others(ids.deep_view(), id@),
{
    let ghost all = ids.deep_view();
    let mut out: Vec<ScimId> = Vec::new();
    let mut i: usize = 0;
    proof {
        assert(out.deep_view() =~= Seq::<Seq<char>>::empty());
        assert(all.take(0) =~= Seq::<Seq<char>>::empty());
    }
    while i < ids.len()
        invariant
            i <= ids@.len(),
            all == ids.deep_view(),
            out.deep_view() == others(all.take(i as int), id@),
        decreases ids@.len() - i,
    {
        proof {
            assert(all.take(i + 1).drop_last() =~= all.take(i as int));
            assert(all.take(i + 1).last() == ids@[i as int].deep_view());
        }
        if !text::same(ids[i].as_str(), id) {
            let ghost so_far = out.deep_view();
            out.push(ids[i].clone());
            proof {
                assert(out.deep_view() =~= so_far.push(ids@[i as int].deep_view()));
            }
        }
        i += 1;
    }
    proof {
        assert(all.take(i as int) =~= all);
    }
    out
}

impl Mapping {
    /// The mapping that knows nobody.
    pub fn new() -> (r: Self)
        ensures
            r@ == (MappingV { users: Map::empty(), groups: Map::empty() }),
    {
        let r: Mapping = Mapping { users: Table::new(), groups: Table::new() };
        proof {
            assert(r@ =~= (MappingV { users: Map::empty(), groups: Map::empty() }));
        }
        r
    }

    /// The mapping with these records. Where an id occurs twice, its last record
    /// stands.
    pub fn load(
        users: &Vec<(ScimId, UserRecord)>,
        groups: &Vec<(GroupScimId, GroupRecord)>,
    ) -> (r: Self)
        ensures
            r@ == (MappingV {
                users: entries(users.deep_view()),
                groups: entries(groups.deep_view()),
            }),
    {
        let mut out: Mapping = Mapping::new();
        let ghost all = users.deep_view();
        let mut i: usize = 0;
        proof {
            assert(all.take(0) =~= Seq::empty());
        }
        while i < users.len()
            invariant
                i <= users@.len(),
                all == users.deep_view(),
                out@ == (MappingV { users: entries(all.take(i as int)), groups: Map::empty() }),
            decreases users@.len() - i,
        {
            proof {
                assert(all.take(i + 1).drop_last() =~= all.take(i as int));
                assert(all.take(i + 1).last() == users@[i as int].deep_view());
            }
            let ghost start = out@;
            out.users.insert(users[i].0.0.clone(), users[i].1.clone());
            proof {
                assert(out@.users =~= start.users.insert(
                    users@[i as int].0.deep_view(),
                    users@[i as int].1.deep_view(),
                ));
            }
            i += 1;
        }
        proof {
            assert(all.take(i as int) =~= all);
        }
        let ghost list = groups.deep_view();
        let mut n: usize = 0;
        proof {
            assert(list.take(0) =~= Seq::empty());
        }
        while n < groups.len()
            invariant
                n <= groups@.len(),
                list == groups.deep_view(),
                all == users.deep_view(),
                out@ == (MappingV { users: entries(all), groups: entries(list.take(n as int)) }),
            decreases groups@.len() - n,
        {
            proof {
                assert(list.take(n + 1).drop_last() =~= list.take(n as int));
                assert(list.take(n + 1).last() == groups@[n as int].deep_view());
            }
            let ghost start = out@;
            out.groups.insert(groups[n].0.0.clone(), groups[n].1.clone());
            proof {
                assert(out@.groups =~= start.groups.insert(
                    groups@[n as int].0.deep_view(),
                    groups@[n as int].1.deep_view(),
                ));
            }
            n += 1;
        }
        proof {
            assert(list.take(n as int) =~= list);
        }
        out
    }

    /// The record of a user.
    pub fn get_user(&self, id: &ScimId) -> (r: Option<&UserRecord>)
        ensures
            r is Some <==> self@.users.dom().contains(id.deep_view()),
            r matches Some(user) ==> user.deep_view() == self@.users[id.deep_view()],
    {
        self.users.get(id.as_str())
    }

    /// The user with this name.
    pub fn get_user_by_name(&self, name: &str) -> (r: Option<(ScimId, &UserRecord)>)
        ensures
            match user_named(self@, name@) {
                Some(id) => (r matches Some((found, record)) && found.deep_view() == id && record.deep_view()
                    == self@.users[id] && self@.users.dom().contains(id)),
                None => r is None,
            },
    {
        let ghost ids = table::sorted(self@.users.dom());
        let ghost names = user_names(self@);
        proof {
            assert(self.users@.dom() =~= self@.users.dom());
            assert(ids.take(0) =~= Seq::empty());
        }
        let mut i: usize = 0;
        while i < self.users.len()
            invariant
                i <= ids.len(),
                ids == table::sorted(self.users@.dom()),
                self.users@.dom() == self@.users.dom(),
                names == user_names(self@),
                user_named(self@, name@) == first_named(ids, names, name@),
                first_named(ids.take(i as int), names, name@) is None,
            decreases ids.len() - i,
        {
            let (id, user): (&String, &UserRecord) = self.users.entry(i);
            proof {
                assert(ids.take(i + 1).drop_last() =~= ids.take(i as int));
                assert(ids.take(i + 1).last() == id@);
            }
            if text::same(user.name.as_str(), name) {
                proof {
                    first_named_stays(ids, names, name@, i + 1);
                }
                return Some((ScimId(id.clone()), user));
            }
            i += 1;
        }
        proof {
            assert(ids.take(i as int) =~= ids);
        }
        None
    }

    /// All users, in the order of their ids.
    pub fn users(&self) -> (r: Vec<(ScimId, &UserRecord)>)
        ensures
            r@.len() == table::sorted(self@.users.dom()).len(),
            table::sorted(self@.users.dom()).to_set() == self@.users.dom(),
            forall|i: int|
                #![trigger r@[i]]
                0 <= i < r@.len() ==> r@[i].0.deep_view() == table::sorted(self@.users.dom())[i]
                    && self@.users.dom().contains(r@[i].0.deep_view()) && r@[i].1.deep_view()
                    == self@.users[r@[i].0.deep_view()],
            r.deep_view() == listing(self@.users),
    {
        let ghost ids = table::sorted(self@.users.dom());
        proof {
            assert(self.users@.dom() =~= self@.users.dom());
        }
        let mut out: Vec<(ScimId, &UserRecord)> = Vec::new();
        let count: usize = self.users.len();
        let mut i: usize = 0;
        while i < count
            invariant
                i <= ids.len(),
                count == ids.len(),
                ids == table::sorted(self.users@.dom()),
                self.users@.dom() == self@.users.dom(),
                out@.len() == i,
                forall|j: int|
                    #![trigger out@[j]]
                    0 <= j < i ==> out@[j].0.deep_view() == ids[j] && self@.users.dom().contains(
                        out@[j].0.deep_view(),
                    ) && out@[j].1.deep_view() == self@.users[out@[j].0.deep_view()],
            decreases ids.len() - i,
        {
            let (id, user): (&String, &UserRecord) = self.users.entry(i);
            out.push((ScimId(id.clone()), user));
            i += 1;
        }
        proof {
            assert(out.deep_view() =~= listing(self@.users));
        }
        out
    }

    /// Puts the record of a user in place, as written at `now`.
    pub fn set_user_at(&mut self, id: &ScimId, record: UserRecord, now: Timestamp) -> (r:
        UserRecord)
        ensures
            r.deep_view() == (UserRecordV { updated_at: now, ..record.deep_view() }),
            final(self)@ == with_user(old(self)@, id.deep_view(), r.deep_view()),
    {
        let stored: UserRecord = UserRecord {
            active: record.active,
            name: record.name,
            display_name: record.display_name,
            email: record.email,
            external_id: record.external_id,
            updated_at: now,
        };
        let out: UserRecord = stored.clone();
        self.users.insert(id.0.clone(), stored);
        proof {
            assert(self@ =~= with_user(old(self)@, id.deep_view(), out.deep_view()));
        }
        out
    }

    /// Puts the record of a user in place, as written now.
    pub fn set_user(&mut self, id: &ScimId, record: UserRecord) -> (r: UserRecord)
        ensures
            r.deep_view() == (UserRecordV { updated_at: r.updated_at, ..record.deep_view() }),
            time::on_the_clock(r.updated_at),
            final(self)@ == with_user(old(self)@, id.deep_view(), r.deep_view()),
    {
        self.set_user_at(id, record, time::now())
    }

    /// Removes the record of a user and hands it out.
    pub fn remove_user(&mut self, id: &ScimId) -> (r: Option<UserRecord>)
        ensures
            final(self)@ == without_user(old(self)@, id.deep_view()),
            r is Some <==> old(self)@.users.dom().contains(id.deep_view()),
            r matches Some(user) ==> user.deep_view() == old(self)@.users[id.deep_view()],
    {
        let r: Option<UserRecord> = self.users.remove(id.as_str());
        proof {
            assert(self@ =~= without_user(old(self)@, id.deep_view()));
        }
        r
    }

    /// Puts back the record of a user as it was.
    pub fn restore_user(&mut self, id: &ScimId, record: UserRecord)
        ensures
            final(self)@ == with_user(old(self)@, id.deep_view(), record.deep_view()),
    {
        self.users.insert(id.0.clone(), record);
        proof {
            assert(self@ =~= with_user(old(self)@, id.deep_view(), record.deep_view()));
        }
    }

    /// Removes the record of a user and takes the user out of every group.
    pub fn remove_user_and_from_groups(&mut self, id: &ScimId) -> (r: Removal)
        ensures
            final(self)@ == without_user_anywhere(old(self)@, id.deep_view()),
            r.deep_view() == removal_of(old(self)@, id.deep_view()),
    {
        let ghost start = self.groups@;
        let ghost who = id.deep_view();
        let user: Option<UserRecord> = self.users.remove(id.as_str());
        let mut saved: Table<Vec<ScimId>> = Table::new();
        let keys: Vec<String> = self.groups.keys();
        let ghost ids = keys.deep_view();
        let mut i: usize = 0;
        while i < keys.len()
            invariant
                i <= keys@.len(),
                ids == keys.deep_view(),
                who == id.deep_view(),
                table::ascending(ids),
                ids.to_set() == start.dom(),
                self.groups@.dom() == start.dom(),
                self.users.deep_view() == old(self)@.users.remove(who),
                forall|j: int|
                    #![trigger ids[j]]
                    0 <= j < i ==> self.groups@[ids[j]].deep_view() == without_member(
                        start[ids[j]].deep_view(),
                        who,
                    ),
                forall|j: int|
                    #![trigger ids[j]]
                    i <= j < ids.len() ==> self.groups@[ids[j]] == start[ids[j]],
                forall|j: int|
                    #![trigger ids[j]]
                    0 <= j < i ==> saved@.dom().contains(ids[j]) == start[ids[j]].deep_view(
                    ).members.contains(who),
                forall|group: Seq<char>|
                    #![trigger saved@[group]]
                    saved@.dom().contains(group) ==> start.dom().contains(group)
                        && saved@[group].deep_view() == start[group].deep_view().members,
                forall|j: int|
                    #![trigger ids[j]]
                    i <= j < ids.len() ==> !saved@.dom().contains(ids[j]),
                forall|group: Seq<char>| #[trigger]
                    saved@.dom().contains(group) ==> start.dom().contains(group),
            decreases keys@.len() - i,
        {
            let ghost key = ids[i as int];
            proof {
                assert(keys@[i as int]@ == key);
                assert(ids.to_set().contains(key));
                ascending_is_distinct(ids);
            }
            match self.groups.get(keys[i].as_str()) {
                Some(group) => {
                    if is_member(&group.members, id.as_str()) {
                        let ghost before_table = self.groups@;
                        let members: Vec<ScimId> = copy_ids(&group.members);
                        let left: GroupRecord = GroupRecord {
                            name: group.name.clone(),
                            members: drop_member(&group.members, id.as_str()),
                            external_id: copy_external_id(&group.external_id),
                            updated_at: group.updated_at,
                        };
                        saved.insert(keys[i].clone(), members);
                        self.groups.insert(keys[i].clone(), left);
                        proof {
                            assert(self.groups@.dom() =~= before_table.dom());
                        }
                    } else {
                        proof {
                            nobody_to_drop(group.deep_view().members, who);
                        }
                    }
                },
                None => {},
            }
            i += 1;
        }
        proof {
            let m = old(self)@;
            assert forall|group: Seq<char>| m.groups.dom().contains(group) implies
                self.groups@[group].deep_view() == without_member(m.groups[group], who)
                && saved@.dom().contains(group) == m.groups[group].members.contains(who) by {
                assert(ids.to_set().contains(group));
                let j = choose|j: int| 0 <= j < ids.len() && ids[j] == group;
                assert(ids[j] == group);
            }
            assert(self@ =~= without_user_anywhere(m, who));
            assert(saved.deep_view() =~= removal_of(m, who).groups) by {
                assert forall|group: Seq<char>| saved@.dom().contains(group) implies
                    saved@[group].deep_view() == m.groups[group].members by {
                    assert(saved@[group].deep_view() == start[group].deep_view().members);
                }
            }
        }
        Removal { id: id.clone(), user, groups: saved }
    }

    /// Takes the removal of a user back.
    pub fn restore(&mut self, removal: Removal)
        ensures
            final(self)@ == restored(old(self)@, removal.deep_view()),
    {
        let ghost what = removal.deep_view();
        let ghost start = self.groups@;
        let ghost m = self@;
        let keys: Vec<String> = removal.groups.keys();
        let ghost ids = keys.deep_view();
        if let Some(user) = removal.user {
            self.users.insert(removal.id.0.clone(), user);
        }
        proof {
            assert(self.users.deep_view() =~= restored(m, what).users);
        }
        let mut i: usize = 0;
        while i < keys.len()
            invariant
                i <= keys@.len(),
                ids == keys.deep_view(),
                table::ascending(ids),
                ids.to_set() == removal.groups@.dom(),
                what.groups == removal.groups.deep_view(),
                self.users.deep_view() == restored(m, what).users,
                self.groups@.dom() == start.dom(),
                forall|j: int|
                    #![trigger ids[j]]
                    0 <= j < i && start.dom().contains(ids[j]) ==> self.groups@[ids[j]].deep_view()
                        == (GroupRecordV {
                        members: what.groups[ids[j]],
                        ..start[ids[j]].deep_view()
                    }),
                forall|j: int|
                    #![trigger ids[j]]
                    i <= j < ids.len() && start.dom().contains(ids[j]) ==> self.groups@[ids[j]]
                        == start[ids[j]],
                forall|group: Seq<char>|
                    #![trigger self.groups@[group]]
                    start.dom().contains(group) && !removal.groups@.dom().contains(group)
                        ==> self.groups@[group] == start[group],
            decreases keys@.len() - i,
        {
            let ghost key = ids[i as int];
            proof {
                assert(keys@[i as int]@ == key);
                assert(ids.to_set().contains(key));
                ascending_is_distinct(ids);
            }
            match (self.groups.get(keys[i].as_str()), removal.groups.get(keys[i].as_str())) {
                (Some(group), Some(members)) => {
                    let ghost before_table = self.groups@;
                    let whole: GroupRecord = GroupRecord {
                        name: group.name.clone(),
                        members: copy_ids(members),
                        external_id: copy_external_id(&group.external_id),
                        updated_at: group.updated_at,
                    };
                    self.groups.insert(keys[i].clone(), whole);
                    proof {
                        assert(self.groups@.dom() =~= before_table.dom());
                    }
                },
                _ => {},
            }
            i += 1;
        }
        proof {
            assert forall|group: Seq<char>| m.groups.dom().contains(group) implies
                self.groups@[group].deep_view() == restored(m, what).groups[group] by {
                if removal.groups@.dom().contains(group) {
                    assert(ids.to_set().contains(group));
                    let j = choose|j: int| 0 <= j < ids.len() && ids[j] == group;
                    assert(ids[j] == group);
                }
            }
            assert(self@ =~= restored(m, what));
        }
    }

    /// The record of a group.
    pub fn get_group(&self, id: &GroupScimId) -> (r: Option<&GroupRecord>)
        ensures
            r is Some <==> self@.groups.dom().contains(id.deep_view()),
            r matches Some(group) ==> group.deep_view() == self@.groups[id.deep_view()],
    {
        self.groups.get(id.as_str())
    }

    /// The group with this name.
    pub fn get_group_by_name(&self, name: &str) -> (r: Option<(GroupScimId, &GroupRecord)>)
        ensures
            match group_named(self@, name@) {
                Some(id) => (r matches Some((found, record)) && found.deep_view() == id && record.deep_view()
                    == self@.groups[id] && self@.groups.dom().contains(id)),
                None => r is None,
            },
    {
        let ghost ids = table::sorted(self@.groups.dom());
        let ghost names = group_names(self@);
        proof {
            assert(self.groups@.dom() =~= self@.groups.dom());
            assert(ids.take(0) =~= Seq::empty());
        }
        let mut i: usize = 0;
        while i < self.groups.len()
            invariant
                i <= ids.len(),
                ids == table::sorted(self.groups@.dom()),
                self.groups@.dom() == self@.groups.dom(),
                names == group_names(self@),
                group_named(self@, name@) == first_named(ids, names, name@),
                first_named(ids.take(i as int), names, name@) is None,
            decreases ids.len() - i,
        {
            let (id, group): (&String, &GroupRecord) = self.groups.entry(i);
            proof {
                assert(ids.take(i + 1).drop_last() =~= ids.take(i as int));
                assert(ids.take(i + 1).last() == id@);
            }
            if text::same(group.name.as_str(), name) {
                proof {
                    first_named_stays(ids, names, name@, i + 1);
                }
                return Some((GroupScimId(id.clone()), group));
            }
            i += 1;
        }
        proof {
            assert(ids.take(i as int) =~= ids);
        }
        None
    }

    /// All groups, in the order of their ids.
    pub fn groups(&self) -> (r: Vec<(GroupScimId, &GroupRecord)>)
        ensures
            r@.len() == table::sorted(self@.groups.dom()).len(),
            table::sorted(self@.groups.dom()).to_set() == self@.groups.dom(),
            forall|i: int|
                #![trigger r@[i]]
                0 <= i < r@.len() ==> r@[i].0.deep_view() == table::sorted(self@.groups.dom())[i]
                    && self@.groups.dom().contains(r@[i].0.deep_view()) && r@[i].1.deep_view()
                    == self@.groups[r@[i].0.deep_view()],
            r.deep_view() == listing(self@.groups),
    {
        let ghost ids = table::sorted(self@.groups.dom());
        proof {
            assert(self.groups@.dom() =~= self@.groups.dom());
        }
        let mut out: Vec<(GroupScimId, &GroupRecord)> = Vec::new();
        let count: usize = self.groups.len();
        let mut i: usize = 0;
        while i < count
            invariant
                i <= ids.len(),
                count == ids.len(),
                ids == table::sorted(self.groups@.dom()),
                self.groups@.dom() == self@.groups.dom(),
                out@.len() == i,
                forall|j: int|
                    #![trigger out@[j]]
                    0 <= j < i ==> out@[j].0.deep_view() == ids[j] && self@.groups.dom().contains(
                        out@[j].0.deep_view(),
                    ) && out@[j].1.deep_view() == self@.groups[out@[j].0.deep_view()],
            decreases ids.len() - i,
        {
            let (id, group): (&String, &GroupRecord) = self.groups.entry(i);
            out.push((GroupScimId(id.clone()), group));
            i += 1;
        }
        proof {
            assert(out.deep_view() =~= listing(self@.groups));
        }
        out
    }

    /// Puts the record of a group in place as it is.
    pub fn set_group(&mut self, id: GroupScimId, record: GroupRecord) -> (r: GroupRecord)
        ensures
            r.deep_view() == record.deep_view(),
            final(self)@ == with_group(old(self)@, id.deep_view(), record.deep_view()),
    {
        let out: GroupRecord = record.clone();
        self.groups.insert(id.0, record);
        proof {
            assert(self@ =~= with_group(old(self)@, id.deep_view(), record.deep_view()));
        }
        out
    }

    /// Removes the record of a group and hands it out.
    pub fn remove_group(&mut self, id: &GroupScimId) -> (r: Option<GroupRecord>)
        ensures
            final(self)@ == without_group(old(self)@, id.deep_view()),
            r is Some <==> old(self)@.groups.dom().contains(id.deep_view()),
            r matches Some(group) ==> group.deep_view() == old(self)@.groups[id.deep_view()],
    {
        let r: Option<GroupRecord> = self.groups.remove(id.as_str());
        proof {
            assert(self@ =~= without_group(old(self)@, id.deep_view()));
        }
        r
    }
}

proof fn ascending_is_distinct(ids: Seq<Seq<char>>)
    requires
        table::ascending(ids),
    ensures
        forall|i: int, j: int|
            #![trigger ids[i], ids[j]]
            0 <= i < ids.len() && 0 <= j < ids.len() && ids[i] == ids[j] ==> i == j,
{
    assert forall|i: int, j: int|
        #![trigger ids[i], ids[j]]
        0 <= i < ids.len() && 0 <= j < ids.len() && ids[i] == ids[j] implies i == j by {
        text::before_is_irreflexive(ids[i]);
        if i < j {
            assert(text::before(ids[i], ids[j]));
        } else if j < i {
            assert(text::before(ids[j], ids[i]));
        }
    }
}

proof fn first_named_stays(
    ids: Seq<Seq<char>>,
    names: Map<Seq<char>, Seq<char>>,
    name: Seq<char>,
    i: int,
)
    requires
        0 <= i <= ids.len(),
        first_named(ids.take(i), names, name) is Some,
    ensures
        first_named(ids, names, name) == first_named(ids.take(i), names, name),
    decreases ids.len() - i,
{
    if i < ids.len() {
        assert(ids.take(i + 1).drop_last() =~= ids.take(i));
        first_named_stays(ids, names, name, i + 1);
    } else {
        assert(ids.take(i) =~= ids);
    }
}

proof fn nobody_to_drop(members: Seq<Seq<char>>, id: Seq<char>)
    requires
        !members.contains(id),
    ensures
        others(members, id) == members,
    decreases members.len(),
{
    if members.len() > 0 {
        assert(members[members.len() - 1] != id);
        assert(!members.drop_last().contains(id)) by {
            if members.drop_last().contains(id) {
                let i = choose|i: int|
                    0 <= i < members.drop_last().len() && members.drop_last()[i] == id;
                assert(members[i] == id);
            }
        }
        nobody_to_drop(members.drop_last(), id);
        assert(members =~= members.drop_last().push(members.last()));
    } else {
        assert(others(members, id) =~= members);
    }
}

proof fn first_named_is_named(
    ids: Seq<Seq<char>>,
    names: Map<Seq<char>, Seq<char>>,
    name: Seq<char>,
)
    ensures
        match first_named(ids, names, name) {
            Some(id) => ids.contains(id) && names[id] == name,
            None => forall|id: Seq<char>| ids.contains(id) ==> #[trigger] names[id] != name,
        },
    decreases ids.len(),
{
    if ids.len() > 0 {
        let rest = ids.drop_last();
        first_named_is_named(rest, names, name);
        assert forall|id: Seq<char>| #[trigger] ids.contains(id) implies rest.contains(id) || id
            == ids.last() by {
            let i = choose|i: int| 0 <= i < ids.len() && ids[i] == id;
            if i < rest.len() {
                assert(rest[i] == id);
            }
        }
        assert forall|id: Seq<char>| #[trigger] rest.contains(id) implies ids.contains(id) by {
            let i = choose|i: int| 0 <= i < rest.len() && rest[i] == id;
            assert(ids[i] == id);
        }
        assert(ids[ids.len() - 1] == ids.last());
        assert(ids.contains(ids.last()));
    }
}

// Laws.

proof fn entries_so_far<V>(m: Map<Seq<char>, V>, n: int)
    requires
        m.dom().finite(),
        0 <= n <= table::sorted(m.dom()).len(),
    ensures
        entries(listing(m).take(n)) == m.restrict(table::sorted(m.dom()).take(n).to_set()),
    decreases n,
{
    let keys = table::sorted(m.dom());
    table::finite_is_sorted(m.dom());
    let list = listing(m);
    if n == 0 {
        assert(m.restrict(keys.take(0).to_set()) =~= Map::empty());
    } else {
        entries_so_far(m, n - 1);
        assert(list.take(n).drop_last() =~= list.take(n - 1));
        assert(keys.to_set().contains(keys[n - 1]));
        table::set_grows(keys, n - 1);
        assert(entries(list.take(n)) =~= m.restrict(keys.take(n).to_set()));
    }
}

/// The entries of a map make that map again.
pub proof fn listed_entries_make_the_map<V>(m: Map<Seq<char>, V>)
    requires
        m.dom().finite(),
    ensures
        entries(listing(m)) == m,
{
    let keys = table::sorted(m.dom());
    table::finite_is_sorted(m.dom());
    entries_so_far(m, keys.len() as int);
    assert(listing(m).take(keys.len() as int) =~= listing(m));
    assert(keys.take(keys.len() as int) =~= keys);
    assert(m.restrict(keys.to_set()) =~= m);
}

/// A mapping that is loaded from the users and groups that it lists is the same in
/// every field: nothing is lost, and the members of a group keep their order.
pub proof fn reloaded_mapping_is_the_same(m: MappingV)
    requires
        m.users.dom().finite(),
        m.groups.dom().finite(),
    ensures
        (MappingV {
            users: entries(listing(m.users)),
            groups: entries(listing(m.groups)),
        }) == m,
{
    listed_entries_make_the_map(m.users);
    listed_entries_make_the_map(m.groups);
}

/// A user is found by a name exactly when one has it.
pub proof fn user_is_found_by_name(m: MappingV, name: Seq<char>)
    requires
        m.users.dom().finite(),
    ensures
        match user_named(m, name) {
            Some(id) => m.users.dom().contains(id) && m.users[id].name == name,
            None => forall|id: Seq<char>|
                m.users.dom().contains(id) ==> #[trigger] m.users[id].name != name,
        },
{
    let ids = table::sorted(m.users.dom());
    table::finite_is_sorted(m.users.dom());
    first_named_is_named(ids, user_names(m), name);
    if let Some(id) = user_named(m, name) {
        assert(ids.to_set().contains(id));
    } else {
        assert forall|id: Seq<char>| m.users.dom().contains(id) implies #[trigger] m.users[id].name
            != name by {
            assert(ids.to_set().contains(id));
            assert(user_names(m)[id] == m.users[id].name);
        }
    }
}

/// A group is found by a name exactly when one has it.
pub proof fn group_is_found_by_name(m: MappingV, name: Seq<char>)
    requires
        m.groups.dom().finite(),
    ensures
        match group_named(m, name) {
            Some(id) => m.groups.dom().contains(id) && m.groups[id].name == name,
            None => forall|id: Seq<char>|
                m.groups.dom().contains(id) ==> #[trigger] m.groups[id].name != name,
        },
{
    let ids = table::sorted(m.groups.dom());
    table::finite_is_sorted(m.groups.dom());
    first_named_is_named(ids, group_names(m), name);
    if let Some(id) = group_named(m, name) {
        assert(ids.to_set().contains(id));
    } else {
        assert forall|id: Seq<char>| m.groups.dom().contains(id) implies #[trigger] m.groups[id].name
            != name by {
            assert(ids.to_set().contains(id));
            assert(group_names(m)[id] == m.groups[id].name);
        }
    }
}

/// A record that was written is read back, and no other record changes.
pub proof fn written_user_is_read_back(
    m: MappingV,
    id: Seq<char>,
    record: UserRecordV,
    other: Seq<char>,
)
    ensures
        with_user(m, id, record).users[id] == record,
        with_user(m, id, record).users.dom().contains(id),
        other != id ==> with_user(m, id, record).users.dom().contains(other)
            == m.users.dom().contains(other),
        other != id && m.users.dom().contains(other) ==> with_user(m, id, record).users[other]
            == m.users[other],
        with_user(m, id, record).groups == m.groups,
{
}

/// The removal of a user that could not be written out leaves no trace once it is
/// taken back.
pub proof fn failed_user_removal_leaves_no_trace(m: MappingV, id: Seq<char>)
    requires
        m.users.dom().contains(id),
    ensures
        with_user(without_user(m, id), id, m.users[id]) == m,
{
    assert(with_user(without_user(m, id), id, m.users[id]).users =~= m.users);
}

/// The removal of a group that could not be written out leaves no trace once it is
/// taken back.
pub proof fn failed_group_removal_leaves_no_trace(m: MappingV, id: Seq<char>)
    requires
        m.groups.dom().contains(id),
    ensures
        with_group(without_group(m, id), id, m.groups[id]) == m,
{
    assert(with_group(without_group(m, id), id, m.groups[id]).groups =~= m.groups);
}

/// The removal of a user from the mapping and from all groups leaves no trace once
/// it is taken back.
pub proof fn failed_removal_leaves_no_trace(m: MappingV, id: Seq<char>)
    ensures
        restored(without_user_anywhere(m, id), removal_of(m, id)) == m,
{
    let back = restored(without_user_anywhere(m, id), removal_of(m, id));
    assert(back.users =~= m.users);
    assert forall|group: Seq<char>| m.groups.dom().contains(group) implies #[trigger]
        back.groups[group] == m.groups[group] by {
        if !m.groups[group].members.contains(id) {
            nobody_to_drop(m.groups[group].members, id);
        }
    }
    assert(back.groups =~= m.groups);
}

proof fn others_hold(members: Seq<Seq<char>>, id: Seq<char>, member: Seq<char>)
    ensures
        others(members, id).contains(member) <==> members.contains(member) && member != id,
    decreases members.len(),
{
    if members.len() > 0 {
        let rest = members.drop_last();
        others_hold(rest, id, member);
        assert(members.contains(member) <==> rest.contains(member) || member == members.last())
            by {
            if members.contains(member) {
                let i = choose|i: int| 0 <= i < members.len() && members[i] == member;
                if i < rest.len() {
                    assert(rest[i] == member);
                }
            }
            if rest.contains(member) {
                let i = choose|i: int| 0 <= i < rest.len() && rest[i] == member;
                assert(members[i] == member);
            }
            assert(members[members.len() - 1] == members.last());
        }
        let left = others(rest, id);
        let all = others(members, id);
        if members.last() != id {
            assert(all == left.push(members.last()));
            if left.contains(member) {
                let i = choose|i: int| 0 <= i < left.len() && left[i] == member;
                assert(all[i] == member);
            }
            assert(all[left.len() as int] == members.last());
            if all.contains(member) {
                let i = choose|i: int| 0 <= i < all.len() && all[i] == member;
                if i < left.len() {
                    assert(left[i] == member);
                }
            }
        }
    }
}

/// A removed user is known nowhere: no record, no member of any group. Everyone
/// else stays, and stays a member.
pub proof fn removed_user_is_gone_everywhere(
    m: MappingV,
    id: Seq<char>,
    group: Seq<char>,
    member: Seq<char>,
)
    requires
        m.groups.dom().contains(group),
    ensures
        ({
            let left = without_user_anywhere(m, id);
            &&& !left.users.dom().contains(id)
            &&& left.groups.dom() == m.groups.dom()
            &&& left.groups[group].members.contains(member) <==> member != id
                && m.groups[group].members.contains(member)
            &&& left.groups[group].name == m.groups[group].name
            &&& member != id && m.users.dom().contains(member) ==> left.users.dom().contains(
                member,
            ) && left.users[member] == m.users[member]
        }),
{
    others_hold(m.groups[group].members, id, member);
    assert(without_user_anywhere(m, id).groups.dom() =~= m.groups.dom());
}

/// A group that was written is read back, and no other group and no user changes.
pub proof fn written_group_is_read_back(
    m: MappingV,
    id: Seq<char>,
    record: GroupRecordV,
    other: Seq<char>,
)
    ensures
        with_group(m, id, record).groups.dom().contains(id),
        with_group(m, id, record).groups[id] == record,
        other != id ==> with_group(m, id, record).groups.dom().contains(other)
            == m.groups.dom().contains(other),
        other != id && m.groups.dom().contains(other) ==> with_group(m, id, record).groups[other]
            == m.groups[other],
        with_group(m, id, record).users == m.users,
{
}

/// What is removed is gone, and nothing else is: a group alone, or a user alone, who stays a
/// member of groups.
pub proof fn removal_takes_only_one(m: MappingV, id: Seq<char>, other: Seq<char>)
    ensures
        !without_group(m, id).groups.dom().contains(id),
        !without_user(m, id).users.dom().contains(id),
        other != id ==> without_group(m, id).groups.dom().contains(other)
            == m.groups.dom().contains(other),
        other != id && m.groups.dom().contains(other) ==> without_group(m, id).groups[other]
            == m.groups[other],
        other != id ==> without_user(m, id).users.dom().contains(other) == m.users.dom().contains(
            other,
        ),
        other != id && m.users.dom().contains(other) ==> without_user(m, id).users[other]
            == m.users[other],
        without_group(m, id).users == m.users,
        without_user(m, id).groups == m.groups,
{
}

/// The members of a group that stay keep their order, each for itself; everything else of the
/// group stays as it was.
pub proof fn other_members_keep_their_order(
    group: GroupRecordV,
    first: Seq<Seq<char>>,
    second: Seq<Seq<char>>,
    id: Seq<char>,
)
    ensures
        others(first + second, id) == others(first, id) + others(second, id),
        first.len() == 1 ==> others(first, id) == (if first[0] == id {
            Seq::empty()
        } else {
            first
        }),
        without_member(group, id).name == group.name,
        without_member(group, id).external_id == group.external_id,
        without_member(group, id).updated_at == group.updated_at,
    decreases second.len(),
{
    if second.len() == 0 {
        assert(first + second =~= first);
        assert(others(first, id) + others(second, id) =~= others(first, id));
    } else {
        other_members_keep_their_order(group, first, second.drop_last(), id);
        assert((first + second).drop_last() =~= first + second.drop_last());
        assert((first + second).last() == second.last());
        assert(others(first + second, id) =~= others(first, id) + others(second, id));
    }
    if first.len() == 1 {
        reveal_with_fuel(others, 2);
        assert(first.drop_last() =~= Seq::<Seq<char>>::empty());
        assert(Seq::<Seq<char>>::empty().push(first[0]) =~= first);
        assert(first.last() == first[0]);
    }
}

/// Of several users, or groups, of one name, the one with the first id is found.
pub proof fn first_of_a_name_is_found(m: MappingV, name: Seq<char>, id: Seq<char>)
    requires
        m.users.dom().finite(),
        m.groups.dom().finite(),
    ensures
        m.users.dom().contains(id) && m.users[id].name == name ==> user_named(m, name) is Some
            && (user_named(m, name)->0 == id || text::before(user_named(m, name)->0, id)),
        m.groups.dom().contains(id) && m.groups[id].name == name ==> group_named(m, name) is Some
            && (group_named(m, name)->0 == id || text::before(group_named(m, name)->0, id)),
{
    table::finite_is_sorted(m.users.dom());
    table::finite_is_sorted(m.groups.dom());
    let users = table::sorted(m.users.dom());
    let groups = table::sorted(m.groups.dom());
    if m.users.dom().contains(id) && m.users[id].name == name {
        assert(users.to_set().contains(id));
        let i = choose|i: int| 0 <= i < users.len() && users[i] == id;
        earliest_is_found(users, user_names(m), name, i);
    }
    if m.groups.dom().contains(id) && m.groups[id].name == name {
        assert(groups.to_set().contains(id));
        let i = choose|i: int| 0 <= i < groups.len() && groups[i] == id;
        earliest_is_found(groups, group_names(m), name, i);
    }
}

proof fn earliest_is_found(
    ids: Seq<Seq<char>>,
    names: Map<Seq<char>, Seq<char>>,
    name: Seq<char>,
    i: int,
)
    requires
        table::ascending(ids),
        0 <= i < ids.len(),
        names[ids[i]] == name,
    ensures
        first_named(ids, names, name) is Some,
        first_named(ids, names, name)->0 == ids[i] || text::before(
            first_named(ids, names, name)->0,
            ids[i],
        ),
    decreases ids.len(),
{
    let fewer = ids.drop_last();
    assert forall|a: int, b: int|
        #![trigger fewer[a], fewer[b]]
        0 <= a < b < fewer.len() implies text::before(fewer[a], fewer[b]) by {
        assert(text::before(ids[a], ids[b]));
    }
    if i < fewer.len() {
        assert(fewer[i] == ids[i]);
        earliest_is_found(fewer, names, name, i);
    } else {
        if first_named(fewer, names, name) is Some {
            let k = found_among(fewer, names, name);
            assert(ids[k] == fewer[k]);
            assert(text::before(ids[k], ids[i]));
        }
    }
}

proof fn found_among(
    ids: Seq<Seq<char>>,
    names: Map<Seq<char>, Seq<char>>,
    name: Seq<char>,
) -> (k: int)
    requires
        first_named(ids, names, name) is Some,
    ensures
        0 <= k < ids.len(),
        first_named(ids, names, name) == Some(ids[k]),
    decreases ids.len(),
{
    if first_named(ids.drop_last(), names, name) is Some {
        found_among(ids.drop_last(), names, name)
    } else {
        ids.len() - 1
    }
}

/// Of several entries of one key the last one counts, and there are no others.
pub proof fn last_entry_counts<V>(list: Seq<(Seq<char>, V)>, i: int, key: Seq<char>)
    ensures
        0 <= i < list.len() ==> entries(list).dom().contains(list[i].0),
        0 <= i < list.len() && (forall|j: int|
            i < j < list.len() ==> (#[trigger] list[j]).0 != list[i].0) ==> entries(
            list,
        )[list[i].0] == list[i].1,
        entries(list).dom().contains(key) ==> exists|k: int|
            0 <= k < list.len() && (#[trigger] list[k]).0 == key,
    decreases list.len(),
{
    if list.len() > 0 {
        let fewer = list.drop_last();
        last_entry_counts(fewer, i, key);
        assert(list[list.len() - 1] == list.last());
        if entries(fewer).dom().contains(key) {
            let k = choose|k: int| 0 <= k < fewer.len() && (#[trigger] fewer[k]).0 == key;
            assert(list[k].0 == key);
        }
        if 0 <= i < fewer.len() {
            assert(fewer[i] == list[i]);
            if forall|j: int| i < j < list.len() ==> (#[trigger] list[j]).0 != list[i].0 {
                assert forall|j: int| i < j < fewer.len() implies (#[trigger] fewer[j]).0
                    != fewer[i].0 by {
                    assert(list[j].0 != list[i].0);
                }
                assert(list[list.len() - 1].0 != list[i].0);
            }
        }
    }
}

/// What it takes to take a removal back is what was there: the record, and the members of
/// exactly those groups that the user was in.
pub proof fn removals_remember_what_was_there(m: MappingV, id: Seq<char>, group: Seq<char>)
    ensures
        removal_of(m, id).id == id,
        removal_of(m, id).user is Some <==> m.users.dom().contains(id),
        m.users.dom().contains(id) ==> removal_of(m, id).user->0 == m.users[id],
        removal_of(m, id).groups.dom().contains(group) <==> m.groups.dom().contains(group)
            && m.groups[group].members.contains(id),
        removal_of(m, id).groups.dom().contains(group) ==> removal_of(m, id).groups[group]
            == m.groups[group].members,
{
}

/// Taking a removal back leaves what has changed meanwhile as it is: other users, groups that
/// the user was not in, and all but the members of those that the user was in.
pub proof fn restoring_touches_only_the_removal(
    m: MappingV,
    removal: RemovalV,
    group: Seq<char>,
    user: Seq<char>,
)
    ensures
        ({
            let after = restored(m, removal);
            &&& after.groups.dom() == m.groups.dom()
            &&& m.groups.dom().contains(group) && !removal.groups.dom().contains(group)
                ==> after.groups[group] == m.groups[group]
            &&& m.groups.dom().contains(group) && removal.groups.dom().contains(group) ==> {
                &&& after.groups[group].members == removal.groups[group]
                &&& after.groups[group].name == m.groups[group].name
                &&& after.groups[group].external_id == m.groups[group].external_id
                &&& after.groups[group].updated_at == m.groups[group].updated_at
            }
            &&& removal.user is Some ==> after.users.dom().contains(removal.id)
                && after.users[removal.id] == removal.user->0
            &&& removal.user is None ==> after.users == m.users
            &&& user != removal.id ==> after.users.dom().contains(user) == m.users.dom().contains(
                user,
            )
            &&& user != removal.id && m.users.dom().contains(user) ==> after.users[user]
                == m.users[user]
        }),
{
    assert(restored(m, removal).groups.dom() =~= m.groups.dom());
}

/// The record of a user stands for each of its fields.
pub proof fn user_records_are_seen_as_they_are(record: UserRecord)
    ensures
        record.deep_view().active == record.active,
        record.deep_view().name == record.name@,
        record.deep_view().display_name == record.display_name.deep_view(),
        record.deep_view().email == record.email.deep_view(),
        record.deep_view().external_id == record.external_id.deep_view(),
        record.deep_view().updated_at == record.updated_at,
{
}

/// The record of a group stands for each of its fields.
pub proof fn group_records_are_seen_as_they_are(record: GroupRecord)
    ensures
        record.deep_view().name == record.name@,
        record.deep_view().members == record.members.deep_view(),
        record.deep_view().external_id == record.external_id.deep_view(),
        record.deep_view().updated_at == record.updated_at,
{
}

/// A removal stands for the id, the record and the groups of who was removed.
pub proof fn removals_are_seen_as_they_are(removal: Removal)
    ensures
        removal.deep_view().id == removal.id.deep_view(),
        removal.deep_view().user == removal.user.deep_view(),
        removal.deep_view().groups == removal.groups.deep_view(),
{
}

} // verus!
