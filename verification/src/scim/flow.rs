//! The course of a request that changes users or groups.
//!
//! A headscale server is told first, the mapping is changed next and written out,
//! and the policy comes last: whatever fails, the request can be made again.
use vstd::prelude::*;

verus! {

/// What a request is for.
#[derive(Clone, Copy, Debug, PartialEq, Eq, Structural)]
pub enum Operation {
    CreateUser,
    PutUser,
    DeleteUser,
    CreateGroup,
    PutGroup,
    DeleteGroup,
    /// To write the policy anew, and nothing else.
    Reconcile,
}

/// Something to do for a request.
#[derive(Clone, Copy, Debug, PartialEq, Eq, Structural)]
pub enum Action {
    /// Expire the nodes of the account that is looked for.
    ExpireNodes,
    /// Delete the account that is looked for.
    DeleteAccount,
    /// Change the mapping and write it out.
    Write,
    /// Take the change of the mapping back.
    Restore,
    /// Write the groups of the mapping into the policy.
    Publish,
}

/// Where a request stands: what it is waiting for.
pub enum Stage<E> {
    Begin,
    Account,
    Write,
    /// The change was not written out, for this reason.
    Restore(E),
    Publish,
}

/// What came of the last action.
pub enum Event<E> {
    /// The request is in order; whether there is an account to see to.
    Ready { account: bool },
    /// It was done.
    Done,
    /// The mapping was changed and written out; whether that shows in the policy.
    Written { publish: bool },
    /// The request is refused, and nothing was changed.
    Refused(E),
    /// It failed.
    Failed(E),
}

/// What comes next.
pub enum Step<E> {
    /// Do this, and go on with what comes of it.
    Do(Action, Stage<E>),
    /// The request is done.
    Done,
    /// The request fails.
    Fail(E),
    /// The event does not belong to the stage.
    Unexpected,
}

/// A removal, which is taken back when it cannot be written out.
pub open spec fn removes(operation: Operation) -> bool {
    operation == Operation::DeleteUser || operation == Operation::DeleteGroup
}

/// The course of a request.
pub open spec fn next<E>(operation: Operation, stage: Stage<E>, event: Event<E>) -> Step<E> {
    match (stage, event) {
        (Stage::Begin, Event::Ready { account }) => if operation == Operation::Reconcile {
            Step::Do(Action::Publish, Stage::Publish)
        } else if account && operation == Operation::PutUser {
            Step::Do(Action::ExpireNodes, Stage::Account)
        } else if account && operation == Operation::DeleteUser {
            Step::Do(Action::DeleteAccount, Stage::Account)
        } else {
            Step::Do(Action::Write, Stage::Write)
        },
        (Stage::Begin, Event::Refused(e)) => Step::Fail(e),
        (Stage::Account, Event::Done) => Step::Do(Action::Write, Stage::Write),
        (Stage::Account, Event::Failed(e)) => Step::Fail(e),
        (Stage::Write, Event::Written { publish }) => if publish || operation
            != Operation::PutUser {
            Step::Do(Action::Publish, Stage::Publish)
        } else {
            Step::Done
        },
        (Stage::Write, Event::Refused(e)) => Step::Fail(e),
        (Stage::Write, Event::Failed(e)) => if removes(operation) {
            Step::Do(Action::Restore, Stage::Restore(e))
        } else {
            Step::Fail(e)
        },
        (Stage::Restore(e), Event::Done) => Step::Fail(e),
        (Stage::Publish, Event::Done) => Step::Done,
        (Stage::Publish, Event::Failed(e)) => Step::Fail(e),
        _ => Step::Unexpected,
    }
}

/// Says what to do next for a request.
pub fn advance<E>(operation: Operation, stage: Stage<E>, event: Event<E>) -> (r: Step<E>)
    ensures
        r == next(operation, stage, event),
{
    match stage {
        Stage::Begin => match event {
            Event::Ready { account } => match operation {
                Operation::Reconcile => Step::Do(Action::Publish, Stage::Publish),
                Operation::PutUser if account => Step::Do(Action::ExpireNodes, Stage::Account),
                Operation::DeleteUser if account => Step::Do(
                    Action::DeleteAccount,
                    Stage::Account,
                ),
                _ => Step::Do(Action::Write, Stage::Write),
            },
            Event::Refused(e) => Step::Fail(e),
            _ => Step::Unexpected,
        },
        Stage::Account => match event {
            Event::Done => Step::Do(Action::Write, Stage::Write),
            Event::Failed(e) => Step::Fail(e),
            _ => Step::Unexpected,
        },
        Stage::Write => match event {
            Event::Written { publish } => if publish || operation != Operation::PutUser {
                Step::Do(Action::Publish, Stage::Publish)
            } else {
                Step::Done
            },
            Event::Refused(e) => Step::Fail(e),
            Event::Failed(e) => match operation {
                Operation::DeleteUser => Step::Do(Action::Restore, Stage::Restore(e)),
                Operation::DeleteGroup => Step::Do(Action::Restore, Stage::Restore(e)),
                _ => Step::Fail(e),
            },
            _ => Step::Unexpected,
        },
        Stage::Restore(e) => match event {
            Event::Done => Step::Fail(e),
            _ => Step::Unexpected,
        },
        Stage::Publish => match event {
            Event::Done => Step::Done,
            Event::Failed(e) => Step::Fail(e),
            _ => Step::Unexpected,
        },
    }
}

/// The stage that a course of events leads to, as long as the request goes on.
pub open spec fn stage_after<E>(operation: Operation, events: Seq<Event<E>>) -> Option<Stage<E>>
    decreases events.len(),
{
    if events.len() == 0 {
        Some(Stage::Begin)
    } else {
        match stage_after(operation, events.drop_last()) {
            Some(stage) => match next(operation, stage, events.last()) {
                Step::Do(_, after) => Some(after),
                _ => None,
            },
            None => None,
        }
    }
}

// Laws.

/// The mapping is changed only after the account, where there is one to see to, was
/// seen to without failure.
pub proof fn mapping_waits_for_headscale<E>(operation: Operation, events: Seq<Event<E>>)
    requires
        stage_after(operation, events) matches Some(Stage::Write),
    ensures
        events.len() >= 1,
        operation == Operation::PutUser || operation == Operation::DeleteUser ==> {
            ||| events[0] == Event::<E>::Ready { account: false }
            ||| events.len() == 2 && events[0] == Event::<E>::Ready { account: true } && events[1]
                == Event::<E>::Done
        },
{
    let before = events.drop_last();
    if stage_after(operation, before) matches Some(Stage::Account) {
        let first = before.drop_last();
        assert(first.len() == 0) by {
            if first.len() > 0 {
                assert(stage_after(operation, first) is Some);
                begin_is_first(operation, first);
            }
        }
        assert(events[0] == before.last());
        assert(events[1] == events.last());
    } else {
        begin_is_first(operation, before);
        assert(events[0] == events.last());
    }
}

proof fn begin_is_first<E>(operation: Operation, events: Seq<Event<E>>)
    ensures
        stage_after(operation, events) matches Some(Stage::Begin) ==> events.len() == 0,
{
    if events.len() > 0 {
        let before = events.drop_last();
        if let Some(stage) = stage_after(operation, before) {
            assert(!(next(operation, stage, events.last()) matches Step::Do(_, Stage::Begin)));
        }
    }
}

/// When an account could not be seen to, the request ends there: the mapping is as
/// it was, and the request can be made again.
pub proof fn failed_account_work_ends_the_request<E>(operation: Operation, e: E)
    ensures
        next(operation, Stage::Account, Event::Failed(e)) == Step::Fail(e),
{
}

/// A removal that could not be written out is taken back before the request fails.
pub proof fn failed_removal_is_taken_back<E>(operation: Operation, e: E)
    requires
        removes(operation),
    ensures
        next(operation, Stage::Write, Event::Failed(e)) == Step::Do(
            Action::Restore,
            Stage::Restore(e),
        ),
        next(operation, Stage::Restore(e), Event::Done) == Step::Fail(e),
{
}

/// A request that changed the mapping is done only after the policy was written,
/// unless it was a change of a user that does not show there.
pub proof fn policy_follows_the_mapping<E>(operation: Operation, stage: Stage<E>, event: Event<E>)
    requires
        next(operation, stage, event) is Done,
    ensures
        (stage is Publish && event is Done) || (operation == Operation::PutUser && event
            == Event::<E>::Written { publish: false }),
{
}

/// The course of a request that goes well: the account first, where a user with one is
/// changed or removed; then the mapping; and then the policy, unless a changed user does
/// not show there. To reconcile is to write the policy and nothing else.
pub proof fn requests_go_their_course<E>(operation: Operation, account: bool, publish: bool)
    ensures
        ({
            let starts = next(operation, Stage::Begin, Event::<E>::Ready { account });
            &&& operation == Operation::Reconcile ==> (starts matches Step::Do(Action::Publish, a)
                && next(operation, a, Event::<E>::Done) is Done)
            &&& operation == Operation::PutUser && account ==> (starts matches Step::Do(
                Action::ExpireNodes,
                a,
            ) && next(operation, a, Event::<E>::Done) == Step::<E>::Do(
                Action::Write,
                Stage::Write,
            ))
            &&& operation == Operation::DeleteUser && account ==> (starts matches Step::Do(
                Action::DeleteAccount,
                a,
            ) && next(operation, a, Event::<E>::Done) == Step::<E>::Do(
                Action::Write,
                Stage::Write,
            ))
            &&& operation != Operation::Reconcile && (!account || (operation != Operation::PutUser
                && operation != Operation::DeleteUser)) ==> starts == Step::<E>::Do(
                Action::Write,
                Stage::Write,
            )
        }),
        publish || operation != Operation::PutUser ==> (next(
            operation,
            Stage::Write,
            Event::<E>::Written { publish },
        ) matches Step::Do(Action::Publish, a) && next(operation, a, Event::<E>::Done) is Done),
        !publish && operation == Operation::PutUser ==> next(
            operation,
            Stage::Write,
            Event::<E>::Written { publish },
        ) is Done,
{
}

/// The course of a request that does not go well: a refusal changes nothing; a removal that
/// cannot be written out is taken back, and nothing else is; and a policy that cannot be
/// written is the request's error.
pub proof fn requests_fail_with_their_error<E>(operation: Operation, e: E)
    ensures
        next(operation, Stage::Begin, Event::Refused(e)) == Step::Fail(e),
        next(operation, Stage::Account, Event::Failed(e)) == Step::Fail(e),
        next(operation, Stage::Write, Event::Refused(e)) == Step::Fail(e),
        operation == Operation::DeleteUser || operation == Operation::DeleteGroup ==> (next(
            operation,
            Stage::Write,
            Event::Failed(e),
        ) matches Step::Do(Action::Restore, a) && next(operation, a, Event::<E>::Done)
            == Step::Fail(e)),
        operation != Operation::DeleteUser && operation != Operation::DeleteGroup ==> next(
            operation,
            Stage::Write,
            Event::Failed(e),
        ) == Step::Fail(e),
        next(operation, Stage::Publish, Event::Failed(e)) == Step::Fail(e),
{
}

} // verus!
