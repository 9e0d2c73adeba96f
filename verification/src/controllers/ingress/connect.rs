//! Reaching the headscale server of an instance, and the small reads around it.
use crate::controllers::outcome::Lookup;
use crate::json;
use crate::text;
use vstd::prelude::*;
use vstd::utf8;

verus! {

#[verifier::external_type_specification]
#[verifier::external_body]
pub struct ExFromUtf8Error(std::string::FromUtf8Error);

/// `String::from_utf8`: the text that the bytes are the UTF-8 of, or an error
/// where they are not UTF-8.
pub assume_specification[ String::from_utf8 ](vec: Vec<u8>) -> (r: Result<
    String,
    std::string::FromUtf8Error,
>)
    ensures
        r is Ok <==> utf8::valid_utf8(vec@),
        r matches Ok(s) ==> s@ == utf8::decode_utf8(vec@),
;

/// The text that bytes stand for.
pub open spec fn text_of(bytes: Seq<u8>) -> Option<Seq<char>> {
    if utf8::valid_utf8(bytes) {
        Some(utf8::decode_utf8(bytes))
    } else {
        None
    }
}

/// The text that an entry of a Secret stands for; nothing where there is no such
/// entry or it is not UTF-8.
pub fn read_secret_string(entry: Option<Vec<u8>>) -> (r: Option<String>)
    ensures
        r.deep_view() == (match entry {
            Some(bytes) => text_of(bytes@),
            None => None,
        }),
{
    match entry {
        Some(bytes) => match String::from_utf8(bytes) {
            Ok(s) => Some(s),
            Err(_) => None,
        },
        None => None,
    }
}

/// The texts that an entry of a Secret lists in JSON; nothing where there is no
/// such entry or it is no such list.
pub fn read_secret_json(entry: Option<Vec<u8>>) -> (r: Option<Vec<String>>)
    ensures
        r.deep_view() == (match entry {
            Some(bytes) => json::texts_in(bytes@),
            None => None,
        }),
{
    match entry {
        Some(bytes) => match json::parse_texts(&bytes) {
            Ok(items) => Some(items),
            Err(_) => None,
        },
        None => None,
    }
}

/// The Secret that holds the API key of an instance.
pub fn api_key_secret_name(instance: &str) -> (r: String)
    ensures
        r@ == "headscale-api-key-"@ + instance@,
{
    text::cat2("headscale-api-key-", instance)
}

/// The entry of that Secret.
pub const API_KEY_FIELD: &'static str = "HEADSCALE_API_KEY";

/// How to reach the server of an instance.
pub enum Connection<E> {
    /// Connect there with this key.
    Connect { endpoint: String, api_key: String },
    /// The Secret is not there; this says so.
    NoSecret { message: String },
    /// The Secret has no key.
    NoKey { message: String },
    /// The Secret could not be read.
    Failed(E),
}

/// Works out how to reach the server of the instance `name`; `secret` is the API
/// key's entry in its Secret.
pub fn headscale_connect<E>(
    secret: Lookup<Option<Vec<u8>>, E>,
    namespace: &str,
    name: &str,
) -> (r: Connection<E>)
    ensures
        match secret {
            Lookup::Found(Some(key)) => {
                &&& r matches Connection::Connect { endpoint, api_key }
                &&& api_key@ == text::readable(key@)
                &&& endpoint@ == "http://headscale-server-"@ + name@ + "."@ + namespace@
                    + ".svc:50443"@
            },
            Lookup::Found(None) => {
                &&& r matches Connection::NoKey { message }
                &&& message@ == "api-key secret has no 'HEADSCALE_API_KEY' field"@
            },
            Lookup::NotFound => {
                &&& r matches Connection::NoSecret { message }
                &&& message@ == "Secret "@ + ("headscale-api-key-"@ + name@)
                    + " not found; is HeadscaleInstance ready?"@
            },
            Lookup::Failed(e) => r == Connection::<E>::Failed(e),
        },
{
    match secret {
        Lookup::Found(Some(key)) => Connection::Connect {
            endpoint: text::cat5("http://headscale-server-", name, ".", namespace, ".svc:50443"),
            api_key: text::from_utf8_lossy(&key),
        },
        Lookup::Found(None) => Connection::NoKey {
            message: "api-key secret has no 'HEADSCALE_API_KEY' field".to_owned(),
        },
        Lookup::NotFound => {
            let secret_name: String = api_key_secret_name(name);
            Connection::NoSecret {
                message: text::cat3(
                    "Secret ",
                    secret_name.as_str(),
                    " not found; is HeadscaleInstance ready?",
                ),
            }
        },
        Lookup::Failed(e) => Connection::Failed(e),
    }
}

/// Whether a namespace is going away; `found` says whether it is marked for
/// deletion. One that is not there has gone.
pub fn namespace_is_deleting<E>(found: Lookup<bool, E>) -> (r: Result<bool, E>)
    ensures
        match found {
            Lookup::Found(marked) => r == Ok::<bool, E>(marked),
            Lookup::NotFound => r == Ok::<bool, E>(true),
            Lookup::Failed(e) => r == Err::<bool, E>(e),
        },
{
    match found {
        Lookup::Found(marked) => Ok(marked),
        Lookup::NotFound => Ok(true),
        Lookup::Failed(e) => Err(e),
    }
}

/// Bytes that are the UTF-8 of a text stand for that text, and other bytes for none.
pub proof fn encoded_text_is_read(s: Seq<char>, bytes: Seq<u8>)
    ensures
        text_of(utf8::encode_utf8(s)) == Some(s),
        text_of(bytes) matches Some(t) ==> utf8::encode_utf8(t) == bytes,
{
    broadcast use {utf8::encode_utf8_valid_utf8, utf8::encode_utf8_decode_utf8};

    if utf8::valid_utf8(bytes) {
        utf8::decode_utf8_encode_utf8(bytes);
    }
}

} // verus!
