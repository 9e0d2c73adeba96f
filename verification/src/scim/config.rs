//! The settings of the service.
use crate::scim::services::{ConfigV, KeyV, PolicyUserKey, ScimConfig};
use crate::text;
use vstd::prelude::*;

verus! {

/// The variables of the environment that the service reads.
pub struct Environment {
    pub policy_user_key: Option<String>,
    pub oidc_issuer: Option<String>,
    pub expire_nodes_on_change: Option<String>,
    pub headscale_url: Option<String>,
    pub headscale_api_key: Option<String>,
    pub scim_bearer_token: Option<String>,
    pub scim_external_id_file: Option<String>,
    pub scim_listen_addr: Option<String>,
}

/// The settings of the service.
pub struct Config {
    pub headscale_url: String,
    pub headscale_api_key: String,
    pub scim_token: String,
    pub external_id_file: String,
    pub listen_addr: String,
    pub scim_config: ScimConfig,
}

/// A text, or another one where it is missing.
pub open spec fn or(s: Option<Seq<char>>, default: Seq<char>) -> Seq<char> {
    match s {
        Some(s) => s,
        None => default,
    }
}

fn value_or(s: Option<String>, default: &str) -> (r: String)
    ensures
        r@ == or(s.deep_view(), default@),
{
    match s {
        Some(s) => s,
        None => default.to_owned(),
    }
}

/// A text without the slashes at its end.
pub open spec fn without_slashes(s: Seq<char>) -> Seq<char>
    decreases s.len(),
{
    if s.len() > 0 && s.last() == '/' {
        without_slashes(s.drop_last())
    } else {
        s
    }
}

/// Takes the slashes off the end of a text.
pub fn strip_slashes(s: &str) -> (r: &str)
    ensures
        r@ == without_slashes(s@),
{
    let chars: Vec<char> = text::chars_of(s);
    let mut n: usize = chars.len();
    assert(s@.subrange(0, n as int) =~= s@);
    while n > 0 && chars[n - 1] == '/'
        invariant
            n <= chars@.len(),
            chars@ == s@,
            without_slashes(s@.subrange(0, n as int)) == without_slashes(s@),
        ensures
            n <= chars@.len(),
            n > 0 ==> s@[n - 1] != '/',
            without_slashes(s@.subrange(0, n as int)) == without_slashes(s@),
        decreases n,
    {
        assert(s@.subrange(0, n as int).drop_last() =~= s@.subrange(0, n - 1));
        assert(s@.subrange(0, n as int).last() == s@[n - 1]);
        n -= 1;
    }
    assert(n > 0 ==> s@.subrange(0, n as int).last() == s@[n - 1]);
    s.substring_char(0, n)
}

/// A variable that must be set is not.
pub open spec fn missing(name: Seq<char>) -> Seq<char> {
    "missing required env var "@ + name
}

fn require(value: Option<String>, name: &str) -> (r: Result<String, String>)
    ensures
        match value {
            Some(value) => r == Ok::<String, String>(value),
            None => r matches Err(e) && e@ == missing(name@),
        },
{
    match value {
        Some(value) => Ok(value),
        None => Err(text::cat2("missing required env var ", name)),
    }
}

/// What stands for users, as the variables say; or why they say nothing.
pub open spec fn key_of(env: Environment) -> Result<KeyV, Seq<char>> {
    let word = or(env.policy_user_key.deep_view(), "email"@);
    if word == "email"@ {
        Ok(KeyV::Email)
    } else if word == "username"@ {
        Ok(KeyV::Username)
    } else if word == "external_id"@ {
        match env.oidc_issuer.deep_view() {
            Some(issuer) => Ok(KeyV::ExternalId { oidc_issuer: without_slashes(issuer) }),
            None => Err(missing("OIDC_ISSUER"@)),
        }
    } else {
        Err(
            "invalid POLICY_USER_KEY '"@ + word
                + "'; expected 'email', 'username', or 'external_id'"@,
        )
    }
}

/// What is wrong with the variables: the first thing that is.
pub open spec fn fault(env: Environment) -> Option<Seq<char>> {
    let expire = or(env.expire_nodes_on_change.deep_view(), "false"@);
    if key_of(env) is Err {
        Some(key_of(env)->Err_0)
    } else if expire != "true"@ && expire != "false"@ {
        Some("invalid EXPIRE_NODES_ON_CHANGE; expected 'true' or 'false'"@)
    } else if env.headscale_url is None {
        Some(missing("HEADSCALE_URL"@))
    } else if env.headscale_api_key is None {
        Some(missing("HEADSCALE_API_KEY"@))
    } else if env.scim_bearer_token is None {
        Some(missing("SCIM_BEARER_TOKEN"@))
    } else {
        None
    }
}

fn read_key(word: Option<String>, issuer: Option<String>) -> (r: Result<PolicyUserKey, String>)
    ensures
        forall|env: Environment|
            #![trigger key_of(env)]
            env.policy_user_key == word && env.oidc_issuer == issuer ==> match key_of(env) {
                Ok(key) => r matches Ok(found) && found.deep_view() == key,
                Err(why) => r matches Err(e) && e@ == why,
            },
{
    let word: String = value_or(word, "email");
    if text::same(word.as_str(), "email") {
        Ok(PolicyUserKey::Email)
    } else if text::same(word.as_str(), "username") {
        Ok(PolicyUserKey::Username)
    } else if text::same(word.as_str(), "external_id") {
        match require(issuer, "OIDC_ISSUER") {
            Ok(issuer) => Ok(
                PolicyUserKey::ExternalId {
                    oidc_issuer: strip_slashes(issuer.as_str()).to_owned(),
                },
            ),
            Err(e) => Err(e),
        }
    } else {
        Err(
            text::cat3(
                "invalid POLICY_USER_KEY '",
                word.as_str(),
                "'; expected 'email', 'username', or 'external_id'",
            ),
        )
    }
}

impl Config {
    /// Reads the settings from the variables of the environment.
    pub fn from_env(env: Environment) -> (r: Result<Self, String>)
        ensures
            match fault(env) {
                Some(why) => r matches Err(e) && e@ == why,
                None => r matches Ok(config) && {
                    &&& Some(config.headscale_url) == env.headscale_url
                    &&& Some(config.headscale_api_key) == env.headscale_api_key
                    &&& Some(config.scim_token) == env.scim_bearer_token
                    &&& config.external_id_file@ == or(
                        env.scim_external_id_file.deep_view(),
                        "/data/external-id-map.json"@,
                    )
                    &&& config.listen_addr@ == or(
                        env.scim_listen_addr.deep_view(),
                        "0.0.0.0:8081"@,
                    )
                    &&& config.scim_config.deep_view() == (ConfigV {
                        policy_user_key: key_of(env)->Ok_0,
                        expire_nodes_on_change: or(
                            env.expire_nodes_on_change.deep_view(),
                            "false"@,
                        ) == "true"@,
                    })
                },
            },
    {
        let ghost whole = env;
        proof {
            reveal_strlit("true");
            reveal_strlit("false");
            assert("true"@[0] == 't' && "false"@[0] == 'f');
        }
        let policy_user_key: PolicyUserKey = match read_key(env.policy_user_key, env.oidc_issuer) {
            Ok(key) => {
                assert(key_of(whole) is Ok);
                key
            },
            Err(e) => {
                assert(key_of(whole) is Err);
                return Err(e);
            },
        };
        let expire: String = value_or(env.expire_nodes_on_change, "false");
        let expire_nodes_on_change: bool = text::same(expire.as_str(), "true");
        if !expire_nodes_on_change && !text::same(expire.as_str(), "false") {
            return Err(
                "invalid EXPIRE_NODES_ON_CHANGE; expected 'true' or 'false'".to_owned(),
            );
        }
        let headscale_url: String = match require(env.headscale_url, "HEADSCALE_URL") {
            Ok(value) => value,
            Err(e) => {
                return Err(e);
            },
        };
        let headscale_api_key: String = match require(
            env.headscale_api_key,
            "HEADSCALE_API_KEY",
        ) {
            Ok(value) => value,
            Err(e) => {
                return Err(e);
            },
        };
        let scim_token: String = match require(env.scim_bearer_token, "SCIM_BEARER_TOKEN") {
            Ok(value) => value,
            Err(e) => {
                return Err(e);
            },
        };
        Ok(
            Config {
                headscale_url,
                headscale_api_key,
                scim_token,
                external_id_file: value_or(
                    env.scim_external_id_file,
                    "/data/external-id-map.json",
                ),
                listen_addr: value_or(env.scim_listen_addr, "0.0.0.0:8081"),
                scim_config: ScimConfig { policy_user_key, expire_nodes_on_change },
            },
        )
    }
}

// Laws.

/// Taking the slashes off the end of a text leaves a text that does not end with one, and
/// takes nothing but slashes.
pub proof fn only_slashes_at_the_end_go(s: Seq<char>)
    ensures
        without_slashes(s).is_prefix_of(s),
        without_slashes(s).len() > 0 ==> without_slashes(s).last() != '/',
        forall|i: int| without_slashes(s).len() <= i < s.len() ==> #[trigger] s[i] == '/',
    decreases s.len(),
{
    if s.len() > 0 && s.last() == '/' {
        only_slashes_at_the_end_go(s.drop_last());
        let left = without_slashes(s);
        assert(left =~= s.take(left.len() as int));
        assert forall|i: int| left.len() <= i < s.len() implies #[trigger] s[i] == '/' by {
            if i < s.len() - 1 {
                assert(s.drop_last()[i] == '/');
            }
        }
    } else {
        assert(s =~= s.take(s.len() as int));
    }
}

/// What stands for users is what the variable says: the address where it says nothing, and
/// the external id only where the issuer is known too. Any other word is a fault.
pub proof fn users_are_told_apart_as_set(env: Environment)
    ensures
        env.policy_user_key is None ==> key_of(env) == Ok::<KeyV, Seq<char>>(KeyV::Email),
        env.policy_user_key is Some ==> {
            let word = env.policy_user_key->0@;
            &&& word == "email"@ ==> key_of(env) == Ok::<KeyV, Seq<char>>(KeyV::Email)
            &&& word == "username"@ ==> key_of(env) == Ok::<KeyV, Seq<char>>(KeyV::Username)
            &&& word == "external_id"@ && env.oidc_issuer is Some ==> key_of(env) == Ok::<
                KeyV,
                Seq<char>,
            >(KeyV::ExternalId { oidc_issuer: without_slashes(env.oidc_issuer->0@) })
            &&& word == "external_id"@ && env.oidc_issuer is None ==> key_of(env) == Err::<
                KeyV,
                Seq<char>,
            >("missing required env var OIDC_ISSUER"@)
            &&& word != "email"@ && word != "username"@ && word != "external_id"@ ==> key_of(env)
                == Err::<KeyV, Seq<char>>(
                "invalid POLICY_USER_KEY '"@ + word
                    + "'; expected 'email', 'username', or 'external_id'"@,
            )
        },
{
    reveal_strlit("email");
    reveal_strlit("username");
    reveal_strlit("external_id");
    assert("email"@.len() == 5 && "username"@.len() == 8 && "external_id"@.len() == 11);
    reveal_strlit("missing required env var ");
    reveal_strlit("OIDC_ISSUER");
    reveal_strlit("missing required env var OIDC_ISSUER");
    assert("missing required env var "@ + "OIDC_ISSUER"@
        =~= "missing required env var OIDC_ISSUER"@);
}

/// The variables are at fault exactly where what stands for users cannot be told, where
/// whether nodes expire is neither `true` nor `false`, or where the address of headscale, its
/// API key or the bearer token is missing.
pub proof fn settings_must_be_complete(env: Environment)
    ensures
        fault(env) is Some <==> {
            ||| key_of(env) is Err
            ||| env.expire_nodes_on_change is Some && env.expire_nodes_on_change->0@ != "true"@
                && env.expire_nodes_on_change->0@ != "false"@
            ||| env.headscale_url is None
            ||| env.headscale_api_key is None
            ||| env.scim_bearer_token is None
        },
        or(None, "false"@) == "false"@,
        env.expire_nodes_on_change is Some ==> or(
            env.expire_nodes_on_change.deep_view(),
            "false"@,
        ) == env.expire_nodes_on_change->0@,
{
}

/// Of several faults the first one is told: what stands for users comes before whether nodes
/// expire, and then come the address of headscale, its API key and the bearer token.
pub proof fn first_fault_is_told(env: Environment)
    ensures
        ({
            let expire = env.expire_nodes_on_change;
            let is_a_word = expire is None || expire->0@ == "true"@ || expire->0@ == "false"@;
            let need = "missing required env var "@;
            &&& key_of(env) is Err ==> fault(env) == Some(key_of(env)->Err_0)
            &&& key_of(env) is Ok && !is_a_word ==> fault(env) == Some(
                "invalid EXPIRE_NODES_ON_CHANGE; expected 'true' or 'false'"@,
            )
            &&& key_of(env) is Ok && is_a_word && env.headscale_url is None ==> fault(env) == Some(
                need + "HEADSCALE_URL"@,
            )
            &&& key_of(env) is Ok && is_a_word && env.headscale_url is Some
                && env.headscale_api_key is None ==> fault(env) == Some(
                need + "HEADSCALE_API_KEY"@,
            )
            &&& key_of(env) is Ok && is_a_word && env.headscale_url is Some
                && env.headscale_api_key is Some && env.scim_bearer_token is None ==> fault(env)
                == Some(need + "SCIM_BEARER_TOKEN"@)
        }),
{
}

} // verus!
