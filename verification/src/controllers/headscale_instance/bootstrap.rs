//! The API key with which the operator reaches a headscale server. The server
//! makes it when it is told to inside its pod.
use crate::controllers::headscale_instance::scim;
use crate::json;
use crate::text;
use vstd::prelude::*;

verus! {

/// The text that a JSON string stands for.
pub uninterp spec fn json_string(text: Seq<char>) -> Option<Seq<char>>;

/// `serde_json::from_str` to a `String`: the text that a JSON string stands for, or
/// an error where the input is no JSON string.
#[verifier::external_body]
fn parse_json_string(text: &str) -> (r: Result<String, serde_json::Error>)
    ensures
        r is Ok <==> json_string(text@) is Some,
        r matches Ok(s) ==> json_string(text@) == Some(s@),
{
    serde_json::from_str(text)
}

/// The pod of a headscale server.
pub fn server_pod(instance: &str) -> (r: String)
    ensures
        r@ == "headscale-server-"@ + instance@ + "-0"@,
{
    text::cat3("headscale-server-", instance, "-0")
}

/// The command that makes an API key, which is valid for a hundred years.
pub fn create_key_command() -> (r: Vec<String>)
    ensures
        r.deep_view() == Seq::<Seq<char>>::empty().push("headscale"@).push("apikeys"@).push(
            "create"@,
        ).push("--expiration"@).push("876000h"@).push("--output"@).push("json"@),
{
    let mut out: Vec<String> = Vec::new();
    out.push("headscale".to_owned());
    out.push("apikeys".to_owned());
    out.push("create".to_owned());
    out.push("--expiration".to_owned());
    out.push("876000h".to_owned());
    out.push("--output".to_owned());
    out.push("json".to_owned());
    proof {
        assert(out.deep_view() =~= Seq::<Seq<char>>::empty().push("headscale"@).push(
            "apikeys"@,
        ).push("create"@).push("--expiration"@).push("876000h"@).push("--output"@).push("json"@));
    }
    out
}

/// The Secret with an instance's API key.
pub fn api_key_secret(instance: &str, api_key: &str) -> (r: serde_json::Value)
    ensures
        json::json(r) == scim::text_secret(
            "headscale-api-key-"@ + instance@,
            "HEADSCALE_API_KEY"@,
            api_key@,
        ),
{
    let name: String = text::cat2("headscale-api-key-", instance);
    scim::new_text_secret(name.as_str(), "HEADSCALE_API_KEY", api_key)
}

/// Something to do for an API key.
pub enum Action {
    /// Read the key's Secret.
    GetSecret,
    /// Run the command that makes a key, in the server's pod.
    CreateKey,
    /// Apply this Secret.
    SaveKey(serde_json::Value),
}

/// Where the work stands: what it is waiting for.
#[derive(Clone, Copy, Debug, PartialEq, Eq, Structural)]
pub enum Stage {
    Begin,
    Secret,
    Key,
    Saved,
}

/// What came of the last action.
pub enum Event<E> {
    /// Nothing yet: the work begins.
    Start,
    /// Whether the Secret is there.
    Found(bool),
    /// The command ran and printed this.
    Printed(String),
    /// It was done.
    Done,
    /// It failed.
    Failed(E),
}

/// What comes next.
pub enum Step<E> {
    /// Do this, and go on with what comes of it.
    Do(Action, Stage),
    /// There is a key.
    End,
    /// The work is over with this error.
    Fail(E),
    /// The command printed something other than a key, which is an error. The error
    /// says nothing of what was printed.
    BadOutput(serde_json::Error),
    /// The event does not belong to the stage.
    Unexpected,
}

/// The step saves the key of an instance; where there is no key it is the error that
/// says so.
pub open spec fn saves<E>(instance: Seq<char>, key: Option<Seq<char>>, step: Step<E>) -> bool {
    match key {
        Some(key) => step matches Step::Do(Action::SaveKey(secret), Stage::Saved) && json::json(
            secret,
        ) == scim::text_secret(
            "headscale-api-key-"@ + instance,
            "HEADSCALE_API_KEY"@,
            key,
        ),
        None => step is BadOutput,
    }
}

/// The step is the next one for the API key of an instance.
pub open spec fn follows<E>(
    instance: Seq<char>,
    stage: Stage,
    event: Event<E>,
    step: Step<E>,
) -> bool {
    match (stage, event) {
        (Stage::Begin, Event::Start) => step == Step::<E>::Do(Action::GetSecret, Stage::Secret),
        (Stage::Secret, Event::Found(found)) => if found {
            step == Step::<E>::End
        } else {
            step == Step::<E>::Do(Action::CreateKey, Stage::Key)
        },
        (Stage::Key, Event::Printed(output)) => saves(
            instance,
            json_string(text::trimmed(output@)),
            step,
        ),
        (Stage::Saved, Event::Done) => step == Step::<E>::End,
        (Stage::Secret, Event::Failed(e)) => step == Step::<E>::Fail(e),
        (Stage::Key, Event::Failed(e)) => step == Step::<E>::Fail(e),
        (Stage::Saved, Event::Failed(e)) => step == Step::<E>::Fail(e),
        _ => step == Step::<E>::Unexpected,
    }
}

/// Goes on with what was read from the command's output.
pub fn save_key<E>(instance: &str, read: Result<String, serde_json::Error>) -> (r: Step<E>)
    ensures
        match read {
            Ok(key) => saves(instance@, Some(key@), r),
            Err(e) => r == Step::<E>::BadOutput(e),
        },
{
    match read {
        Ok(key) => Step::Do(
            Action::SaveKey(api_key_secret(instance, key.as_str())),
            Stage::Saved,
        ),
        Err(e) => Step::BadOutput(e),
    }
}

/// Says what to do next for the API key of an instance.
pub fn ensure_api_key<E>(instance: &str, stage: Stage, event: Event<E>) -> (r: Step<E>)
    ensures
        follows(instance@, stage, event, r),
{
    match stage {
        Stage::Begin => match event {
            Event::Start => Step::Do(Action::GetSecret, Stage::Secret),
            _ => Step::Unexpected,
        },
        Stage::Secret => match event {
            Event::Found(true) => Step::End,
            Event::Found(false) => Step::Do(Action::CreateKey, Stage::Key),
            Event::Failed(e) => Step::Fail(e),
            _ => Step::Unexpected,
        },
        Stage::Key => match event {
            Event::Printed(output) => save_key(
                instance,
                parse_json_string(text::trim(output.as_str())),
            ),
            Event::Failed(e) => Step::Fail(e),
            _ => Step::Unexpected,
        },
        Stage::Saved => match event {
            Event::Done => Step::End,
            Event::Failed(e) => Step::Fail(e),
            _ => Step::Unexpected,
        },
    }
}

// Laws.

/// A key is made only where there is no Secret for it, and a Secret is written only
/// with a key that was just made: one that is there stays as it is.
pub proof fn api_key_is_made_once<E>(
    instance: Seq<char>,
    stage: Stage,
    event: Event<E>,
    step: Step<E>,
)
    requires
        follows(instance, stage, event, step),
    ensures
        step matches Step::Do(Action::CreateKey, _) ==> stage is Secret && event
            == Event::<E>::Found(false),
        step matches Step::Do(Action::SaveKey(_), _) ==> stage is Key && event is Printed,
        stage is Secret && event == Event::<E>::Found(true) ==> step is End,
{
}

/// The course of the work for an API key: the Secret is looked for; where there is none, the
/// command that makes a key is run, the key that it printed, in JSON and perhaps with blanks
/// round it, is saved under the instance's name, and that is all. A failure is the work's
/// error.
pub proof fn api_key_is_made_and_saved<E>(
    instance: Seq<char>,
    stage: Stage,
    event: Event<E>,
    step: Step<E>,
)
    requires
        follows(instance, stage, event, step),
    ensures
        stage is Begin && event is Start ==> (step matches Step::Do(Action::GetSecret, after)
            && after is Secret),
        stage is Secret && event == Event::<E>::Found(true) ==> step is End,
        stage is Secret && event == Event::<E>::Found(false) ==> (step matches Step::Do(
            Action::CreateKey,
            after,
        ) && after is Key),
        stage is Key && event is Printed && json_string(text::trimmed((event->Printed_0)@)) is Some
            ==> (step matches Step::Do(Action::SaveKey(secret), after) && after is Saved
            && json::json(secret) == scim::text_secret(
            "headscale-api-key-"@ + instance,
            "HEADSCALE_API_KEY"@,
            json_string(text::trimmed((event->Printed_0)@))->0,
        )),
        stage is Key && event is Printed && json_string(text::trimmed((event->Printed_0)@)) is None
            ==> step is BadOutput,
        stage is Saved && event is Done ==> step is End,
        !(stage is Begin) && event is Failed ==> (step matches Step::Fail(e) && e
            == event->Failed_0),
{
}

} // verus!
