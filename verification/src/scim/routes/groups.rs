//! The endpoints for groups.
use crate::scim::services::GroupBody;
use crate::scim::types::ScimMember;
use vstd::prelude::*;

verus! {

/// The body of a request about a group.
pub struct GroupBodyJson {
    pub display_name: Option<String>,
    pub external_id: Option<String>,
    pub members: Option<Vec<ScimMember>>,
}

impl From<GroupBodyJson> for GroupBody {
    fn from(j: GroupBodyJson) -> (r: Self) {
        GroupBody { display_name: j.display_name, external_id: j.external_id, members: j.members }
    }
}

impl vstd::std_specs::convert::FromSpecImpl<GroupBodyJson> for GroupBody {
    open spec fn obeys_from_spec() -> bool {
        true
    }

    open spec fn from_spec(j: GroupBodyJson) -> Self {
        GroupBody { display_name: j.display_name, external_id: j.external_id, members: j.members }
    }
}

/// The status of the answer to a report of a group: whether the group is new.
pub fn create_group(created: bool) -> (r: u16)
    ensures
        r == (if created {
            201u16
        } else {
            200u16
        }),
{
    if created {
        201
    } else {
        200
    }
}

/// The status of the answer to the removal of a group.
pub fn delete_group() -> (r: u16)
    ensures
        r == 204,
{
    204
}

// Laws.

/// The body of a request is handed on as it is.
pub proof fn bodies_are_handed_on(j: GroupBodyJson)
    ensures
        ({
            let body = <GroupBody as vstd::std_specs::convert::FromSpec<GroupBodyJson>>::from_spec(
                j,
            );
            &&& body.display_name == j.display_name
            &&& body.external_id == j.external_id
            &&& body.members == j.members
        }),
{
}

} // verus!
