//! The policy of a headscale server, as the SCIM service edits it.
use crate::json;
use crate::json::Json;
use crate::policy_document;
use crate::policy_document::{GroupUpdate, PolicyGroup, PolicyParseError};
use vstd::prelude::*;

verus! {

/// The policy of a headscale server.
pub struct PolicyRepository {
    /// The text of the policy.
    pub policy: String,
}

impl PolicyRepository {
    /// The policy with this text.
    pub fn new(policy: String) -> (r: Self)
        ensures
            r.policy == policy,
    {
        PolicyRepository { policy }
    }

    /// Puts groups in place of those that the policy has, and takes the groups that
    /// are gone out of its grants. Nothing is to be written where that leaves the
    /// policy as it is.
    pub fn set_group_membership(&self, groups: &Vec<PolicyGroup>) -> (r: Result<
        Option<GroupUpdate>,
        PolicyParseError,
    >)
        ensures
            match policy_document::policy_of(self.policy@) {
                Some(before) => {
                    let after = policy_document::with_groups(
                        before,
                        policy_document::groups_section(groups.deep_view()),
                    );
                    r matches Ok(update) && if before == after {
                        update is None
                    } else {
                        update matches Some(update) && {
                            &&& json::json(update.policy) == Json::Object(after)
                            &&& update.changed
                            &&& update.grants.deep_view() == policy_document::grant_edits(
                                before,
                                policy_document::groups_section(groups.deep_view()),
                            )
                        }
                    }
                },
                None => r is Err,
            },
    {
        match policy_document::parse_policy(self.policy.as_str()) {
            Ok(policy) => {
                let update: GroupUpdate = policy_document::update_groups(&policy, groups);
                if update.changed {
                    Ok(Some(update))
                } else {
                    Ok(None)
                }
            },
            Err(e) => Err(e),
        }
    }
}

} // verus!
