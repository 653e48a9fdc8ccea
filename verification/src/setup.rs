//! Identifiers, the local token, the client configuration, and the small
//! decisions around saving a provider and its key.

use vstd::prelude::*;
use vstd::string::*;

use crate::models::CodexSetup;
use crate::text::{opt_chars, trim, trim_str};

verus! {

/// Whether `s` is a UUID in lowercase hyphenated form (8-4-4-4-12 hex digits).
pub open spec fn hyphenated_uuid(s: Seq<char>) -> bool {
    &&& s.len() == 36
    &&& forall|i: int|
        0 <= i < 36 ==> if i == 8 || i == 13 || i == 18 || i == 23 {
            #[trigger] s[i] == '-'
        } else {
            ('0' <= s[i] <= '9') || ('a' <= s[i] <= 'f')
        }
}

/// Whether `s` is a version 4 UUID in lowercase hyphenated form: the
/// version digit is `4` and the variant digit one of `8`, `9`, `a`, `b`.
pub open spec fn random_uuid(s: Seq<char>) -> bool {
    &&& hyphenated_uuid(s)
    &&& s[14] == '4'
    &&& (s[19] == '8' || s[19] == '9' || s[19] == 'a' || s[19] == 'b')
}

/// Makes a random identifier. Calls `uuid::Uuid::new_v4`, which sets the
/// version bits to 4 and the variant bits to `10`, and formats it with
/// `Display`, which the crate writes as lowercase hyphenated hex. The value
/// is random: nothing ties two calls together.
#[verifier::external_body]
fn new_uuid() -> (r: String)
    ensures
        random_uuid(r@),
{
    uuid::Uuid::new_v4().to_string()
}

/// A new random request id.
pub fn new_request_id() -> (r: String)
    ensures
        random_uuid(r@),
{
    new_uuid()
}

/// The local token made from a fresh identifier.
pub open spec fn token_from(fresh: Seq<char>) -> Seq<char> {
    "easyapi-"@ + fresh
}

/// Picks the local proxy token: the stored one if there is one and it is not
/// empty, else one made from `fresh`. The flag says whether the token is new
/// and must be stored.
pub fn choose_local_token(stored: Option<String>, fresh: &str) -> (r: (String, bool))
    ensures
        match stored {
            Some(t) => if t@.len() > 0 {
                r.0@ == t@ && !r.1
            } else {
                r.0@ == token_from(fresh@) && r.1
            },
            None => r.0@ == token_from(fresh@) && r.1,
        },
        r.0@ == picked_token(opt_chars(stored), fresh@),
{
    match stored {
        Some(t) => {
            if !t.as_str().is_empty() {
                return (t, false);
            }
        },
        None => {},
    }
    let mut token = "easyapi-".to_owned();
    token.append(fresh);
    (token, true)
}

/// The local proxy token: the stored one if it is not empty, else a new
/// random one (then the flag is set and the token must be stored).
pub fn local_token(stored: Option<String>) -> (r: (String, bool))
    ensures
        match stored {
            Some(t) => t@.len() > 0 ==> (r.0@ == t@ && !r.1),
            None => true,
        },
        r.1 ==> (r.0@.len() == 44 && r.0@.take(8) == "easyapi-"@ && random_uuid(
            r.0@.skip(8),
        )),
        r.1 <==> (stored is None || (stored matches Some(t) && t@.len() == 0)),
        r.0@.len() > 0,
{
    if let Some(t) = &stored {
        if !t.as_str().is_empty() {
            return choose_local_token(stored, "");
        }
    }
    let fresh = new_uuid();
    proof {
        reveal_strlit("easyapi-");
    }
    let r = choose_local_token(stored, fresh.as_str());
    assert(r.1 ==> r.0@.take(8) =~= "easyapi-"@);
    assert(r.1 ==> r.0@.skip(8) =~= fresh@);
    r
}

/// The token that a start picks, from the stored setting and a fresh
/// identifier: the stored one if it is not empty, else one made from the
/// identifier.
pub open spec fn picked_token(stored: Option<Seq<char>>, fresh: Seq<char>) -> Seq<char> {
    match stored {
        Some(t) => if t.len() > 0 {
            t
        } else {
            token_from(fresh)
        },
        None => token_from(fresh),
    }
}

/// The local token survives restarts: whatever a start picks is not empty,
/// so once stored it is picked again, unchanged and without a new one being
/// made, at every later start, whatever fresh identifier that start has.
pub proof fn local_token_persists(stored: Option<Seq<char>>, fresh: Seq<char>, later: Seq<char>)
    ensures
        picked_token(stored, fresh).len() > 0,
        picked_token(Some(picked_token(stored, fresh)), later) == picked_token(stored, fresh),
{
    reveal_strlit("easyapi-");
}

/// The id of a provider being saved: the one it came with, else a new one.
pub fn provider_id(requested: &Option<String>) -> (r: String)
    ensures
        requested matches Some(id) ==> r@ == id@,
        requested is None ==> random_uuid(r@),
{
    match requested {
        Some(id) => id.clone(),
        None => new_uuid(),
    }
}

/// Whether a submitted API key is missing or blank.
pub open spec fn key_missing(api_key: Option<Seq<char>>) -> bool {
    match api_key {
        Some(k) => trim(k).len() == 0,
        None => true,
    }
}

/// A new provider must come with an API key; an existing one keeps its key
/// when none is given.
pub fn check_new_provider_key(is_new: bool, api_key: &Option<String>) -> (r: Result<(), String>)
    ensures
        r is Err <==> (is_new && key_missing(opt_chars(*api_key))),
        r matches Err(e) ==> e@ == "新增 Provider 时必须填写 API Key"@,
{
    let missing = match api_key {
        Some(k) => {
            let t = trim_str(k.as_str());
            t.as_str().is_empty()
        },
        None => true,
    };
    if is_new && missing {
        Err("新增 Provider 时必须填写 API Key".to_owned())
    } else {
        Ok(())
    }
}

/// The API key to store for a saved provider: the submitted one, trimmed,
/// unless it is missing or blank.
pub fn api_key_to_store(api_key: &Option<String>) -> (r: Option<String>)
    ensures
        match opt_chars(*api_key) {
            Some(k) => if trim(k).len() > 0 {
                (r matches Some(x) && x@ == trim(k))
            } else {
                r is None
            },
            None => r is None,
        },
{
    match api_key {
        Some(k) => {
            let t = trim_str(k.as_str());
            if t.as_str().is_empty() {
                None
            } else {
                Some(t)
            }
        },
        None => None,
    }
}

/// The account under which a provider's API key is kept in the credential
/// store.
pub fn credential_user(provider_id: &str) -> (r: String)
    ensures
        r@ == "provider:"@ + provider_id@,
{
    let mut u = "provider:".to_owned();
    u.append(provider_id);
    u
}

/// The error text for a failed credential store operation: a fixed prefix
/// for the operation, then the store's own message.
pub fn credential_error(prefix: &str, detail: &str) -> (r: String)
    ensures
        r@ == prefix@ + detail@,
{
    let mut m = prefix.to_owned();
    m.append(detail);
    m
}

/// The first part of the client configuration, up to the listen address.
pub open spec fn config_head() -> Seq<char> {
    "model_provider = \"easyapi\"\n\n[model_providers.easyapi]\nname = \"EasyAPI Local Proxy\"\nbase_url = \"http://"@
}

/// The rest of the client configuration, after the listen address.
pub open spec fn config_tail() -> Seq<char> {
    "/v1\"\nenv_key = \"EASYAPI_LOCAL_TOKEN\"\nwire_api = \"responses\"\nsupports_websockets = false\nrequest_max_retries = 0\nstream_max_retries = 0\nstream_idle_timeout_ms = 300000\n"@
}

/// The client configuration and the command that stores the local token in
/// the user's environment.
pub fn get_codex_setup(listen_address: &str, local_token: &str) -> (r: CodexSetup)
    ensures
        r.config_toml@ == config_head() + listen_address@ + config_tail(),
        r.powershell_command@ == "[Environment]::SetEnvironmentVariable(\"EASYAPI_LOCAL_TOKEN\", \""@
            + local_token@ + "\", \"User\")"@,
        r.local_token@ == local_token@,
{
    let mut config = "model_provider = \"easyapi\"\n\n[model_providers.easyapi]\nname = \"EasyAPI Local Proxy\"\nbase_url = \"http://".to_owned();
    config.append(listen_address);
    config.append("/v1\"\nenv_key = \"EASYAPI_LOCAL_TOKEN\"\nwire_api = \"responses\"\nsupports_websockets = false\nrequest_max_retries = 0\nstream_max_retries = 0\nstream_idle_timeout_ms = 300000\n");
    let mut command = "[Environment]::SetEnvironmentVariable(\"EASYAPI_LOCAL_TOKEN\", \"".to_owned();
    command.append(local_token);
    command.append("\", \"User\")");
    CodexSetup { config_toml: config, powershell_command: command, local_token: local_token.to_owned() }
}

/// The row limit for listing request logs: the given limit capped at the
/// largest `i64`, or -1 (no limit) when none is given.
pub fn log_query_limit(limit: Option<usize>) -> (r: i64)
    ensures
        match limit {
            Some(l) => r == (if l > i64::MAX { i64::MAX as int } else { l as int }),
            None => r == -1,
        },
{
    match limit {
        Some(l) => {
            if l as u128 > 9223372036854775807u128 {
                9223372036854775807i64
            } else {
                l as i64
            }
        },
        None => -1,
    }
}


/// What storing a saved provider's API key comes to: the result to return,
/// and whether the provider must be removed again because it was new and its
/// key could not be stored.
pub fn after_key_store(is_new: bool, stored: Result<(), String>) -> (r: (Result<(), String>, bool))
    ensures
        r.0 == stored,
        r.1 == (is_new && stored is Err),
{
    let remove = is_new && stored.is_err();
    (stored, remove)
}

} // verus!
