//! What comes back from the cluster, and when to look again.
use vstd::prelude::*;

verus! {

/// The outcome of reading an object.
pub enum Lookup<T, E> {
    Found(T),
    NotFound,
    Failed(E),
}

/// When an object is looked at again.
#[derive(Clone, Copy, Debug, PartialEq, Eq, Structural)]
pub enum Schedule {
    /// When it changes.
    AwaitChange,
    /// After this many seconds.
    Requeue(u64),
}

/// When an object is looked at again after the work on it failed.
pub fn error_policy() -> (r: Schedule)
    ensures
        r == Schedule::Requeue(30),
{
    Schedule::Requeue(30)
}

/// What comes next in a list of things to do in turn.
pub enum Turn<E> {
    /// Do the one at this position.
    Do(usize),
    /// All are done.
    End,
    /// One failed, and the rest is left undone.
    Fail(E),
}

/// The things are done in order, and the first failure ends it.
pub open spec fn turn_after<E>(count: usize, done: usize, last: Result<(), E>) -> Turn<E> {
    match last {
        Err(e) => Turn::Fail(e),
        Ok(()) => if done < count {
            Turn::Do(done)
        } else {
            Turn::End
        },
    }
}

/// Says what comes next of `count` things to do in turn, once `done` of them have
/// been done or tried and this came of the last one.
pub fn in_turn<E>(count: usize, done: usize, last: Result<(), E>) -> (r: Turn<E>)
    ensures
        r == turn_after(count, done, last),
{
    match last {
        Err(e) => Turn::Fail(e),
        Ok(()) => if done < count {
            Turn::Do(done)
        } else {
            Turn::End
        },
    }
}

/// What came of deleting an object.
pub enum Deletion<E> {
    Done,
    NotFound,
    Failed(E),
}

/// Deleting an object that is not there is no failure.
pub fn delete_ignoring_404<E>(outcome: Deletion<E>) -> (r: Result<(), E>)
    ensures
        match outcome {
            Deletion::Failed(e) => r == Err::<(), E>(e),
            _ => r == Ok::<(), E>(()),
        },
{
    match outcome {
        Deletion::Done => Ok(()),
        Deletion::NotFound => Ok(()),
        Deletion::Failed(e) => Err(e),
    }
}

/// Things that are to be done in turn are done one after the other from the first on, as
/// long as none fails; the failure of one is the failure of all, and nothing comes after it.
pub proof fn things_are_done_in_turn<E>(count: usize, done: usize, e: E)
    ensures
        turn_after(count, done, Err(e)) == Turn::Fail(e),
        done < count ==> turn_after(count, done, Ok::<(), E>(())) == Turn::<E>::Do(done),
        done >= count ==> turn_after(count, done, Ok::<(), E>(())) is End,
{
}

} // verus!
