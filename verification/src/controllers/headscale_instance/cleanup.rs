//! The course of the work on a HeadscaleInstance that is deleted.
//!
//! The Ingresses that refer to the instance are told and lose their addresses, and
//! the volumes that nothing else would delete are deleted.
use crate::text;
use vstd::prelude::*;

verus! {

/// Something to do for an instance that is deleted.
#[derive(Clone, Copy, Debug, PartialEq, Eq, Structural)]
pub enum Action {
    /// List the Ingresses that refer to the instance, wherever they are.
    ListIngresses,
    /// Publish on this Ingress that it is orphaned; that may fail.
    Warn(usize),
    /// Take the address out of the status of this Ingress; that may fail.
    ClearStatus(usize),
    /// Delete this one of the volume claims.
    DeleteClaim(usize),
    /// Publish that the instance is gone; that may fail.
    PublishDeleted,
}

/// Where the work stands: what it is waiting for.
#[derive(Clone, Copy, Debug, PartialEq, Eq, Structural)]
pub enum Stage {
    Begin,
    Ingresses,
    Warned { ingress: usize, count: usize },
    Cleared { ingress: usize, count: usize },
    Claim(usize),
    Published,
}

/// What came of the last action.
pub enum Event<E> {
    /// Nothing yet: the work begins.
    Start,
    /// It was done.
    Done,
    /// It failed.
    Failed(E),
    /// So many Ingresses refer to the instance.
    Listed(usize),
}

/// What comes next.
pub enum Step<E> {
    /// Do this, and go on with what comes of it.
    Do(Action, Stage),
    /// The instance has been cleaned up.
    End,
    /// The work is over with this error.
    Fail(E),
    /// The event does not belong to the stage.
    Unexpected,
}

/// The Ingress at a position is next; after the last one it is the volume claims.
pub open spec fn with_ingress<E>(ingress: int, count: usize) -> Step<E> {
    if ingress < count {
        Step::Do(
            Action::Warn(ingress as usize),
            Stage::Warned { ingress: ingress as usize, count },
        )
    } else {
        Step::Do(Action::DeleteClaim(0), Stage::Claim(0))
    }
}

/// The course of the work on an instance that is deleted.
pub open spec fn next<E>(stage: Stage, event: Event<E>) -> Step<E> {
    match stage {
        Stage::Begin => match event {
            Event::Start => Step::Do(Action::ListIngresses, Stage::Ingresses),
            _ => Step::Unexpected,
        },
        Stage::Ingresses => match event {
            Event::Listed(count) => with_ingress(0, count),
            Event::Failed(e) => Step::Fail(e),
            _ => Step::Unexpected,
        },
        Stage::Warned { ingress, count } => match event {
            Event::Done | Event::Failed(_) => Step::Do(
                Action::ClearStatus(ingress),
                Stage::Cleared { ingress, count },
            ),
            _ => Step::Unexpected,
        },
        Stage::Cleared { ingress, count } => match event {
            Event::Done | Event::Failed(_) => with_ingress(ingress + 1, count),
            _ => Step::Unexpected,
        },
        Stage::Claim(claim) => match event {
            Event::Done => if claim == 0 {
                Step::Do(Action::DeleteClaim(1), Stage::Claim(1))
            } else {
                Step::Do(Action::PublishDeleted, Stage::Published)
            },
            Event::Failed(e) => Step::Fail(e),
            _ => Step::Unexpected,
        },
        Stage::Published => match event {
            Event::Done | Event::Failed(_) => Step::End,
            _ => Step::Unexpected,
        },
    }
}

/// Says what to do next for an instance that is deleted.
pub fn cleanup<E>(stage: Stage, event: Event<E>) -> (r: Step<E>)
    ensures
        r == next(stage, event),
{
    match stage {
        Stage::Begin => match event {
            Event::Start => Step::Do(Action::ListIngresses, Stage::Ingresses),
            _ => Step::Unexpected,
        },
        Stage::Ingresses => match event {
            Event::Listed(count) => if count > 0 {
                Step::Do(Action::Warn(0), Stage::Warned { ingress: 0, count })
            } else {
                Step::Do(Action::DeleteClaim(0), Stage::Claim(0))
            },
            Event::Failed(e) => Step::Fail(e),
            _ => Step::Unexpected,
        },
        Stage::Warned { ingress, count } => match event {
            Event::Done | Event::Failed(_) => Step::Do(
                Action::ClearStatus(ingress),
                Stage::Cleared { ingress, count },
            ),
            _ => Step::Unexpected,
        },
        Stage::Cleared { ingress, count } => match event {
            Event::Done | Event::Failed(_) => if ingress < count && ingress + 1 < count {
                Step::Do(Action::Warn(ingress + 1), Stage::Warned { ingress: ingress + 1, count })
            } else {
                Step::Do(Action::DeleteClaim(0), Stage::Claim(0))
            },
            _ => Step::Unexpected,
        },
        Stage::Claim(claim) => match event {
            Event::Done => if claim == 0 {
                Step::Do(Action::DeleteClaim(1), Stage::Claim(1))
            } else {
                Step::Do(Action::PublishDeleted, Stage::Published)
            },
            Event::Failed(e) => Step::Fail(e),
            _ => Step::Unexpected,
        },
        Stage::Published => match event {
            Event::Done | Event::Failed(_) => Step::End,
            _ => Step::Unexpected,
        },
    }
}

/// The reason that is given to an Ingress whose instance is deleted.
pub const DELETED_REASON: &'static str = "InstanceDeleted";

/// What is said to an Ingress whose instance is deleted.
pub fn orphan_note(instance: &str) -> (r: String)
    ensures
        r@ == "HeadscaleInstance '"@ + instance@
            + "' was deleted; this Ingress is now orphaned and will stop functioning"@,
{
    text::cat3(
        "HeadscaleInstance '",
        instance,
        "' was deleted; this Ingress is now orphaned and will stop functioning",
    )
}

/// The volume claims that are deleted with an instance, in this order.
pub fn cleanup_claims(instance: &str) -> (r: Vec<String>)
    ensures
        r.deep_view() == Seq::<Seq<char>>::empty().push(
            "data-headscale-server-"@ + instance@ + "-0"@,
        ).push("data-headscale-scim-"@ + instance@ + "-0"@),
{
    let mut out: Vec<String> = Vec::new();
    out.push(text::cat3("data-headscale-server-", instance, "-0"));
    out.push(text::cat3("data-headscale-scim-", instance, "-0"));
    proof {
        assert(out.deep_view() =~= Seq::<Seq<char>>::empty().push(
            "data-headscale-server-"@ + instance@ + "-0"@,
        ).push("data-headscale-scim-"@ + instance@ + "-0"@));
    }
    out
}

// Laws.

/// The stage that a course of events leads to, as long as the work goes on.
pub open spec fn stage_after<E>(events: Seq<Event<E>>) -> Option<Stage>
    decreases events.len(),
{
    if events.len() == 0 {
        Some(Stage::Begin)
    } else {
        match stage_after(events.drop_last()) {
            Some(stage) => match next(stage, events.last()) {
                Step::Do(_, after) => Some(after),
                _ => None,
            },
            None => None,
        }
    }
}

/// The action was taken in a course of events.
pub open spec fn did<E>(events: Seq<Event<E>>, action: Action) -> bool
    decreases events.len(),
{
    events.len() > 0 && (did(events.drop_last(), action) || (stage_after(events.drop_last())
        matches Some(stage) && next(stage, events.last()) matches Step::Do(last, _) && last
        == action))
}

/// How many Ingresses were listed in a course of events.
pub open spec fn listed<E>(events: Seq<Event<E>>) -> usize {
    match events[1] {
        Event::Listed(count) => count,
        _ => 0,
    }
}

/// What lies behind a stage.
proof fn course<E>(events: Seq<Event<E>>)
    ensures
        stage_after(events) matches Some(stage) ==> match stage {
            Stage::Begin => events.len() == 0,
            Stage::Ingresses => events.len() == 1,
            Stage::Warned { ingress, count } => {
                &&& events.len() >= 2
                &&& events[1] is Listed
                &&& count == listed(events)
                &&& ingress < count
                &&& did(events, Action::Warn(ingress))
                &&& forall|i: usize|
                    i < ingress ==> #[trigger] did(events, Action::Warn(i)) && did(
                        events,
                        Action::ClearStatus(i),
                    )
            },
            Stage::Cleared { ingress, count } => {
                &&& events.len() >= 2
                &&& events[1] is Listed
                &&& count == listed(events)
                &&& ingress < count
                &&& forall|i: usize|
                    i <= ingress ==> #[trigger] did(events, Action::Warn(i)) && did(
                        events,
                        Action::ClearStatus(i),
                    )
            },
            Stage::Claim(claim) => {
                &&& events.len() >= 2
                &&& events[1] is Listed
                &&& did(events, Action::DeleteClaim(0))
                &&& claim <= 1
                &&& claim == 1 ==> did(events, Action::DeleteClaim(1))
                &&& forall|i: usize|
                    i < listed(events) ==> #[trigger] did(events, Action::Warn(i)) && did(
                        events,
                        Action::ClearStatus(i),
                    )
            },
            Stage::Published => {
                &&& events.len() >= 2
                &&& events[1] is Listed
                &&& did(events, Action::DeleteClaim(0))
                &&& did(events, Action::DeleteClaim(1))
                &&& forall|i: usize|
                    i < listed(events) ==> #[trigger] did(events, Action::Warn(i)) && did(
                        events,
                        Action::ClearStatus(i),
                    )
            },
        },
    decreases events.len(),
{
    if events.len() > 0 {
        let before = events.drop_last();
        course(before);
        assert(events.last() == events[events.len() - 1]);
        assert forall|action: Action| did(before, action) implies #[trigger] did(
            events,
            action,
        ) by {}
        if before.len() >= 2 {
            assert(events[1] == before[1]);
        }
        match (stage_after(before), events.last()) {
            (Some(Stage::Ingresses), Event::Listed(count)) => {
                assert(events[1] == Event::<E>::Listed(count));
                if count > 0 {
                    assert(did(events, Action::Warn(0)));
                } else {
                    assert(did(events, Action::DeleteClaim(0)));
                }
            },
            (Some(Stage::Warned { ingress, count }), Event::Done | Event::Failed(_)) => {
                assert(did(events, Action::ClearStatus(ingress)));
                assert forall|i: usize| i <= ingress implies #[trigger] did(
                    events,
                    Action::Warn(i),
                ) && did(events, Action::ClearStatus(i)) by {
                    assert(did(before, Action::Warn(i)));
                }
            },
            (Some(Stage::Cleared { ingress, count }), Event::Done | Event::Failed(_)) => {
                assert forall|i: usize| i <= ingress implies #[trigger] did(
                    events,
                    Action::Warn(i),
                ) && did(events, Action::ClearStatus(i)) by {
                    assert(did(before, Action::Warn(i)));
                }
                if ingress + 1 < count {
                    assert(did(events, Action::Warn((ingress + 1) as usize)));
                } else {
                    assert(did(events, Action::DeleteClaim(0)));
                }
            },
            (Some(Stage::Claim(claim)), Event::Done) => {
                assert(did(before, Action::DeleteClaim(0)));
                assert(did(events, Action::DeleteClaim(0)));
                if claim == 1 {
                    assert(did(before, Action::DeleteClaim(1)));
                }
                assert(did(events, Action::DeleteClaim(1)));
                assert forall|i: usize| i < listed(events) implies #[trigger] did(
                    events,
                    Action::Warn(i),
                ) && did(events, Action::ClearStatus(i)) by {
                    assert(did(before, Action::Warn(i)));
                }
            },
            _ => {},
        }
    }
}

/// The volumes of an instance are deleted, and the instance with them, only after
/// every Ingress that refers to it was told and lost its address, whether or not
/// that succeeded.
pub proof fn every_ingress_is_orphaned_first<E>(events: Seq<Event<E>>, ingress: usize)
    requires
        stage_after(events) matches Some(stage) && (stage is Claim || stage is Published),
        ingress < listed(events),
    ensures
        events[1] is Listed,
        did(events, Action::Warn(ingress)),
        did(events, Action::ClearStatus(ingress)),
{
    course(events);
    assert(did(events, Action::Warn(ingress)) && did(events, Action::ClearStatus(ingress)));
}

/// The work ends well only after both volume claims were deleted.
pub proof fn claims_are_deleted<E>(events: Seq<Event<E>>, last: Event<E>)
    requires
        stage_after(events) matches Some(stage) && next(stage, last) is End,
    ensures
        did(events, Action::DeleteClaim(0)),
        did(events, Action::DeleteClaim(1)),
{
    course(events);
}

/// An instance that is deleted, with no Ingress that refers to it: both volume claims are deleted,
/// and that it is gone is published. A claim that cannot be deleted, or Ingresses that cannot be
/// listed, end the work with the error.
pub proof fn deleted_instance_is_cleaned_up<E>(e: E, settled: Event<E>)
    requires
        settled is Done || settled is Failed,
    ensures
        next(Stage::Begin, Event::<E>::Start) matches Step::Do(Action::ListIngresses, a0)
            && (next(a0, Event::<E>::Listed(0)) matches Step::Do(Action::DeleteClaim(0), a1)
            && (next(a1, Event::<E>::Done) matches Step::Do(Action::DeleteClaim(1), a2)
            && (next(a2, Event::<E>::Done) matches Step::Do(Action::PublishDeleted, a3)
            && next(a3, settled) == Step::<E>::End))),
        next(Stage::Begin, Event::<E>::Start) matches Step::Do(Action::ListIngresses, a0)
            && next(a0, Event::Failed(e)) == Step::<E>::Fail(e),
        forall|claim: usize| #[trigger] next(Stage::Claim(claim), Event::Failed(e))
            == Step::<E>::Fail(e),
{
}

/// Each Ingress that refers to the instance is told and then loses its address, whether or not that
/// succeeds; after the last one it is the turn of the volume claims.
pub proof fn ingresses_are_told_one_after_the_other<E>(i: usize, count: usize, settled: Event<E>)
    requires
        i < count,
        settled is Done || settled is Failed,
    ensures
        next(Stage::Ingresses, Event::<E>::Listed(count)) matches Step::Do(Action::Warn(0), a0)
            && next(a0, settled)
            == Step::<E>::Do(Action::ClearStatus(0), Stage::Cleared { ingress: 0, count }),
        next(Stage::Warned { ingress: i, count }, settled)
            == Step::<E>::Do(Action::ClearStatus(i), Stage::Cleared { ingress: i, count }),
        i + 1 < count
            ==> next(Stage::Cleared { ingress: i, count }, settled)
            == Step::<E>::Do(Action::Warn((i + 1) as usize), Stage::Warned { ingress: (i
            + 1) as usize, count }),
        i + 1 == count
            ==> next(Stage::Cleared { ingress: i, count }, settled)
            == Step::<E>::Do(Action::DeleteClaim(0), Stage::Claim(0)),
{
}

} // verus!
