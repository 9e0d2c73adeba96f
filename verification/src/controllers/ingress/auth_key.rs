//! The pre-auth key with which a proxy joins the tailnet.
//!
//! [`ensure_auth_key`] takes the stage that the work is in and what came of the
//! last action, and says what to do next.
use crate::controllers::ingress::connect;
use crate::controllers::outcome::Lookup;
use crate::text;
use crate::time;
use crate::time::Timestamp;
use vstd::prelude::*;

verus! {

/// What came of the work.
#[derive(Clone, Copy, Debug, PartialEq, Eq, Structural)]
pub enum AuthKeyStatus {
    /// There is a key.
    Ready,
    /// The user that the key is meant for does not exist yet.
    WaitingForUser,
}

/// Something to do to have a key.
#[derive(Clone, Copy, Debug, PartialEq, Eq, Structural)]
pub enum Action {
    /// Read the key's Secret.
    GetSecret,
    /// Look up the headscale user.
    ListUsers,
    /// Publish that the user does not exist; that may fail.
    WarnNoUser,
    /// Create a key for this user; user zero is nobody.
    CreateKey(u64),
    /// Save the key with this id in its Secret.
    SaveKey(u64),
    /// Delete the key with this id again; that may fail.
    DeleteKey(u64),
}

/// Where the work stands: what it is waiting for.
pub enum Stage<E> {
    Begin,
    Secret,
    Users,
    Warned,
    Key,
    Saved(u64),
    /// The key could not be saved, and this is why.
    Undone(E),
}

/// What came of the last action.
pub enum Event<E> {
    /// Nothing yet: the work begins.
    Start,
    /// It was done.
    Done,
    /// It failed.
    Failed(E),
    /// Whether the Secret holds a key.
    Secret(bool),
    /// The first user of that name.
    User(Option<u64>),
    /// The id of the new key; none where the server gave no key.
    Key(Option<u64>),
}

/// What comes next.
pub enum Step<E> {
    /// Do this, and go on with what comes of it.
    Do(Action, Stage<E>),
    /// The work is over.
    End(AuthKeyStatus),
    /// The work is over with this error.
    Fail(E),
    /// The server gave no key, which is an error.
    NoKey,
    /// The event does not belong to the stage.
    Unexpected,
}

/// The course of the work; `has_user` says whether the key is meant for a user.
pub open spec fn next<E>(has_user: bool, stage: Stage<E>, event: Event<E>) -> Step<E> {
    match (stage, event) {
        (Stage::Begin, Event::Start) => Step::Do(Action::GetSecret, Stage::Secret),
        (Stage::Secret, Event::Secret(present)) => if present {
            Step::End(AuthKeyStatus::Ready)
        } else if has_user {
            Step::Do(Action::ListUsers, Stage::Users)
        } else {
            Step::Do(Action::CreateKey(0), Stage::Key)
        },
        (Stage::Secret, Event::Failed(e)) => Step::Fail(e),
        (Stage::Users, Event::User(Some(id))) => Step::Do(Action::CreateKey(id), Stage::Key),
        (Stage::Users, Event::User(None)) => Step::Do(Action::WarnNoUser, Stage::Warned),
        (Stage::Users, Event::Failed(e)) => Step::Fail(e),
        (Stage::Warned, Event::Done) => Step::End(AuthKeyStatus::WaitingForUser),
        (Stage::Warned, Event::Failed(_)) => Step::End(AuthKeyStatus::WaitingForUser),
        (Stage::Key, Event::Key(Some(id))) => Step::Do(Action::SaveKey(id), Stage::Saved(id)),
        (Stage::Key, Event::Key(None)) => Step::NoKey,
        (Stage::Key, Event::Failed(e)) => Step::Fail(e),
        (Stage::Saved(_), Event::Done) => Step::End(AuthKeyStatus::Ready),
        (Stage::Saved(id), Event::Failed(e)) => Step::Do(Action::DeleteKey(id), Stage::Undone(e)),
        (Stage::Undone(e), Event::Done) => Step::Fail(e),
        (Stage::Undone(e), Event::Failed(_)) => Step::Fail(e),
        _ => Step::Unexpected,
    }
}

/// Says what to do next to have a key.
pub fn ensure_auth_key<E>(has_user: bool, stage: Stage<E>, event: Event<E>) -> (r: Step<E>)
    ensures
        r == next(has_user, stage, event),
{
    match stage {
        Stage::Begin => match event {
            Event::Start => Step::Do(Action::GetSecret, Stage::Secret),
            _ => Step::Unexpected,
        },
        Stage::Secret => match event {
            Event::Secret(present) => {
                if present {
                    return Step::End(AuthKeyStatus::Ready);
                }
                if has_user {
                    Step::Do(Action::ListUsers, Stage::Users)
                } else {
                    Step::Do(Action::CreateKey(0), Stage::Key)
                }
            },
            Event::Failed(e) => Step::Fail(e),
            _ => Step::Unexpected,
        },
        Stage::Users => match event {
            Event::User(Some(id)) => Step::Do(Action::CreateKey(id), Stage::Key),
            Event::User(None) => Step::Do(Action::WarnNoUser, Stage::Warned),
            Event::Failed(e) => Step::Fail(e),
            _ => Step::Unexpected,
        },
        Stage::Warned => match event {
            Event::Done => Step::End(AuthKeyStatus::WaitingForUser),
            Event::Failed(_) => Step::End(AuthKeyStatus::WaitingForUser),
            _ => Step::Unexpected,
        },
        Stage::Key => match event {
            Event::Key(Some(id)) => Step::Do(Action::SaveKey(id), Stage::Saved(id)),
            Event::Key(None) => Step::NoKey,
            Event::Failed(e) => Step::Fail(e),
            _ => Step::Unexpected,
        },
        Stage::Saved(id) => match event {
            Event::Done => Step::End(AuthKeyStatus::Ready),
            Event::Failed(e) => Step::Do(Action::DeleteKey(id), Stage::Undone(e)),
            _ => Step::Unexpected,
        },
        Stage::Undone(e) => match event {
            Event::Done => Step::Fail(e),
            Event::Failed(_) => Step::Fail(e),
            _ => Step::Unexpected,
        },
    }
}

/// The key in a Secret's `key` entry: UTF-8 and not empty.
pub open spec fn key_of(entry: Option<Seq<u8>>) -> Option<Seq<char>> {
    match entry {
        Some(bytes) => match connect::text_of(bytes) {
            Some(key) if key.len() > 0 => Some(key),
            _ => None,
        },
        None => None,
    }
}

/// Reads the key out of a Secret's `key` entry.
pub fn extract_auth_key(entry: Option<Vec<u8>>) -> (r: Option<String>)
    ensures
        r.deep_view() == key_of(
            match entry {
                Some(bytes) => Some(bytes@),
                None => None,
            },
        ),
{
    match connect::read_secret_string(entry) {
        Some(key) => if key.as_str().unicode_len() == 0 {
            None
        } else {
            Some(key)
        },
        None => None,
    }
}

/// The key that is already there; `secret` is the `key` entry of its Secret. A
/// Secret that is not there holds no key.
pub fn existing_auth_key<E>(secret: Lookup<Option<Vec<u8>>, E>) -> (r: Result<Option<String>, E>)
    ensures
        match secret {
            Lookup::Found(entry) => r matches Ok(key) && key.deep_view() == key_of(
                match entry {
                    Some(bytes) => Some(bytes@),
                    None => None,
                },
            ),
            Lookup::NotFound => r == Ok::<Option<String>, E>(None),
            Lookup::Failed(e) => r == Err::<Option<String>, E>(e),
        },
{
    match secret {
        Lookup::Found(entry) => Ok(extract_auth_key(entry)),
        Lookup::NotFound => Ok(None),
        Lookup::Failed(e) => Err(e),
    }
}

/// The tags of a new key: those that the Ingress names, and the operator's own
/// behind them.
pub fn key_tags(managed: &Vec<String>, auto_tag: Option<&String>) -> (r: Vec<String>)
    ensures
        r.deep_view() == (match auto_tag {
            Some(tag) => managed.deep_view().push(tag@),
            None => managed.deep_view(),
        }),
{
    let mut tags: Vec<String> = text::copy_all(managed);
    if let Some(tag) = auto_tag {
        tags.push(tag.clone());
        proof {
            assert(tags.deep_view() =~= managed.deep_view().push(tag@));
        }
    }
    tags
}

/// The second in which a key that is created now expires.
pub fn expiration(now: Timestamp, expiry_secs: u64) -> (r: i64)
    ensures
        r == time::end_of(now, expiry_secs),
{
    time::after(now, expiry_secs)
}

/// The reason that is given when a user does not exist.
pub const NO_USER_REASON: &'static str = "UserNotFound";

/// What is said of a user that does not exist.
pub fn no_user_note(user: &str) -> (r: String)
    ensures
        r@ == "headscale user '"@ + user@
            + "' does not exist; create it in headscale before this Ingress can be provisioned"@,
{
    text::cat3(
        "headscale user '",
        user,
        "' does not exist; create it in headscale before this Ingress can be provisioned",
    )
}

// Laws.

/// A key that cannot be saved is deleted again, and the work ends with the error
/// of the save, whatever comes of the deletion.
pub proof fn unsaved_key_is_deleted<E>(has_user: bool, id: u64, e: E, undo: Event<E>)
    requires
        undo is Done || undo is Failed,
    ensures
        next(has_user, Stage::Saved(id), Event::Failed(e)) == Step::<E>::Do(
            Action::DeleteKey(id),
            Stage::Undone(e),
        ),
        next(has_user, Stage::Undone(e), undo) == Step::<E>::Fail(e),
{
}

/// A key that is there already is kept: nothing is asked of headscale.
pub proof fn existing_key_is_kept<E>(has_user: bool)
    ensures
        next(has_user, Stage::Begin, Event::<E>::Start) == Step::<E>::Do(
            Action::GetSecret,
            Stage::Secret,
        ),
        next(has_user, Stage::Secret, Event::<E>::Secret(true)) == Step::<E>::End(
            AuthKeyStatus::Ready,
        ),
{
}

/// A key is deleted only when it could not be saved.
pub proof fn saved_key_stays<E>(has_user: bool, stage: Stage<E>, event: Event<E>)
    requires
        next(has_user, stage, event) matches Step::Do(Action::DeleteKey(_), _),
    ensures
        stage is Saved,
        event is Failed,
{
}

/// Where there is no key yet, one is made and saved: for the user that the Ingress names, once that
/// user exists, or for nobody where it names none. A key that cannot be saved is deleted again.
pub proof fn key_is_made_for_its_user<E>(
    has_user: bool,
    user: u64,
    id: u64,
    e: E,
    settled: Event<E>,
)
    requires
        settled is Done || settled is Failed,
    ensures
        has_user ==> (next(has_user, Stage::Begin, Event::<E>::Start)
            matches Step::Do(Action::GetSecret, a0)
            && (next(has_user, a0, Event::<E>::Secret(false))
            matches Step::Do(Action::ListUsers, a1)
            && (next(has_user, a1, Event::<E>::User(Some(user)))
            matches Step::Do(Action::CreateKey(u), a2) && u == user
            && (next(has_user, a2, Event::<E>::Key(Some(id)))
            matches Step::Do(Action::SaveKey(k), a3) && k == id
            && next(has_user, a3, Event::<E>::Done) == Step::<E>::End(AuthKeyStatus::Ready))))),
        !has_user ==> (next(has_user, Stage::Begin, Event::<E>::Start)
            matches Step::Do(Action::GetSecret, a0)
            && (next(has_user, a0, Event::<E>::Secret(false))
            matches Step::Do(Action::CreateKey(u), a1) && u == 0
            && (next(has_user, a1, Event::<E>::Key(Some(id)))
            matches Step::Do(Action::SaveKey(k), a2) && k == id
            && next(has_user, a2, Event::<E>::Done) == Step::<E>::End(AuthKeyStatus::Ready)))),
        has_user ==> (next(has_user, Stage::Begin, Event::<E>::Start)
            matches Step::Do(Action::GetSecret, a0)
            && (next(has_user, a0, Event::<E>::Secret(false))
            matches Step::Do(Action::ListUsers, a1)
            && (next(has_user, a1, Event::<E>::User(None)) matches Step::Do(Action::WarnNoUser, a2)
            && next(has_user, a2, settled) == Step::<E>::End(AuthKeyStatus::WaitingForUser)))),
        next(has_user, Stage::Key, Event::<E>::Key(Some(id)))
            matches Step::Do(Action::SaveKey(_), a0)
            && (next(has_user, a0, Event::Failed(e)) matches Step::Do(Action::DeleteKey(k), a1)
            && k == id && next(has_user, a1, settled) == Step::<E>::Fail(e)),
        next(has_user, Stage::Key, Event::<E>::Key(None)) is NoKey,
        next(has_user, Stage::Secret, Event::Failed(e)) == Step::<E>::Fail(e),
        next(has_user, Stage::Users, Event::Failed(e)) == Step::<E>::Fail(e),
        next(has_user, Stage::Key, Event::Failed(e)) == Step::<E>::Fail(e),
{
}

/// A Secret holds a key exactly where its entry is there, is UTF-8 and is not empty; the key
/// is the text of the entry.
pub proof fn keys_are_texts(entry: Option<Seq<u8>>)
    ensures
        key_of(entry) is Some <==> entry is Some && vstd::utf8::valid_utf8(entry->0)
            && vstd::utf8::decode_utf8(entry->0).len() > 0,
        key_of(entry) is Some ==> key_of(entry)->0 == vstd::utf8::decode_utf8(entry->0),
{
}

/// A key expires as many whole seconds after the second that it is made in as it is valid
/// for; a time that cannot be written is the last one that can.
pub proof fn keys_expire_later(now: Timestamp, secs: u64)
    requires
        now.second >= 0,
        now.nanosecond >= 0,
    ensures
        now.second + secs <= i64::MAX ==> time::end_of(now, secs) == now.second + secs,
        now.second + secs > i64::MAX ==> time::end_of(now, secs) == i64::MAX,
{
}

} // verus!
