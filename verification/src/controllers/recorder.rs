//! The events that the operator publishes.
use crate::text;
use crate::types::condition;
use crate::types::condition::ResourceStatus;
use vstd::prelude::*;

verus! {

/// An event about an object.
pub struct Event {
    /// Whether it is a warning.
    pub warning: bool,
    pub reason: String,
    pub note: String,
    pub action: String,
}

/// An event in the life of an object.
pub open spec fn lifecycle_note(
    kind: Option<Seq<char>>,
    name: Option<Seq<char>>,
    verb: Seq<char>,
) -> Seq<char> {
    let what = match kind {
        Some(k) => k,
        None => "resource"@,
    };
    let which = match name {
        Some(n) => n,
        None => "unknown"@,
    };
    what + " "@ + which + " "@ + verb
}

/// An event in the life of the object of this kind and name.
pub fn lifecycle_event(
    kind: Option<&str>,
    name: Option<&str>,
    reason: &str,
    verb: &str,
) -> (r: Event)
    ensures
        !r.warning,
        r.reason@ == reason@,
        r.action@ == reason@,
        r.note@ == lifecycle_note(kind.deep_view(), name.deep_view(), verb@),
{
    let what: &str = match kind {
        Some(k) => k,
        None => "resource",
    };
    let which: &str = match name {
        Some(n) => n,
        None => "unknown",
    };
    Event {
        warning: false,
        reason: reason.to_owned(),
        note: text::cat5(what, " ", which, " ", verb),
        action: reason.to_owned(),
    }
}

/// The event that an object was created.
pub fn created(kind: Option<&str>, name: Option<&str>) -> (r: Event)
    ensures
        !r.warning,
        r.reason@ == "Created"@,
        r.action@ == "Created"@,
        r.note@ == lifecycle_note(kind.deep_view(), name.deep_view(), "created"@),
{
    lifecycle_event(kind, name, "Created", "created")
}

/// The event that an object is ready.
pub fn ready(kind: Option<&str>, name: Option<&str>) -> (r: Event)
    ensures
        !r.warning,
        r.reason@ == "Ready"@,
        r.action@ == "Ready"@,
        r.note@ == lifecycle_note(kind.deep_view(), name.deep_view(), "is ready"@),
{
    lifecycle_event(kind, name, "Ready", "is ready")
}

/// The event that an object was deleted.
pub fn deleted(kind: Option<&str>, name: Option<&str>) -> (r: Event)
    ensures
        !r.warning,
        r.reason@ == "Deleted"@,
        r.action@ == "Deleted"@,
        r.note@ == lifecycle_note(kind.deep_view(), name.deep_view(), "deleted"@),
{
    lifecycle_event(kind, name, "Deleted", "deleted")
}

/// A warning.
pub fn warning(reason: &str, note: &str) -> (r: Event)
    ensures
        r.warning,
        r.reason@ == reason@,
        r.action@ == reason@,
        r.note@ == note@,
{
    Event {
        warning: true,
        reason: reason.to_owned(),
        note: note.to_owned(),
        action: reason.to_owned(),
    }
}

/// The transitions of a status that are worth an event.
#[derive(Clone, Copy, Debug, PartialEq, Eq, Structural)]
pub struct Transitions {
    /// The object is new.
    pub created: bool,
    /// The object has become ready.
    pub ready: bool,
}

/// Says which transitions lead from one status to the next.
pub fn publish_transitions<S: ResourceStatus>(old_status: &S, new_status: &S) -> (r: Transitions)
    ensures
        r.created == (old_status.listed().len() == 0),
        r.ready == (!condition::says_ready(old_status.listed()) && condition::says_ready(
            new_status.listed(),
        )),
{
    Transitions {
        created: old_status.is_new(),
        ready: !old_status.is_ready() && new_status.is_ready(),
    }
}

// Laws.

/// The note of an event names the kind and the name of its object, or says that they are not
/// known, and what has become of it.
pub proof fn notes_name_their_object(kind: Seq<char>, name: Seq<char>, verb: Seq<char>)
    ensures
        lifecycle_note(Some(kind), Some(name), verb) == kind + " "@ + name + " "@ + verb,
        lifecycle_note(None, Some(name), verb) == "resource"@ + " "@ + name + " "@ + verb,
        lifecycle_note(Some(kind), None, verb) == kind + " "@ + "unknown"@ + " "@ + verb,
{
}

} // verus!
