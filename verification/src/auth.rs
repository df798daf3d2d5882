//! The computable parts of the login flow: request bodies for the token
//! endpoints, normalization of the redirect URL a login callback carries,
//! expiry bookkeeping, and extraction of the access token from a token
//! endpoint's response.
//!
//! The HTTP calls themselves, the local redirect server and the window
//! events live in the surrounding application.

use vstd::prelude::*;
use vstd::string::StrSliceExecFns;
use vstd::string::StringExecFns;
use crate::file_utils::{find_first_char, first_index_of, lemma_first_index_of_props, s_len};
use crate::model::ExpireInfo;

verus! {

/// The form body exchanging an authorization code for tokens.
pub open spec fn spec_authorization_code_body(
    client_id: Seq<char>,
    client_secret: Seq<char>,
    code: Seq<char>,
    redirect_uri: Seq<char>,
) -> Seq<char> {
    "client_id="@ + client_id + "&client_secret="@ + client_secret + "&code="@ + code
        + "&grant_type=authorization_code&redirect_uri="@ + redirect_uri
}

/// Builds the form body exchanging an authorization code for tokens.
pub fn build_authorization_code_body(
    client_id: &str,
    client_secret: &str,
    code: &str,
    redirect_uri: &str,
) -> (r: String)
    ensures
        r@ == spec_authorization_code_body(client_id@, client_secret@, code@, redirect_uri@),
{
    String::from_str("client_id=").concat(client_id).concat("&client_secret=").concat(
        client_secret,
    ).concat("&code=").concat(code).concat("&grant_type=authorization_code&redirect_uri=").concat(
        redirect_uri,
    )
}

/// The form body refreshing an access token.
pub open spec fn spec_refresh_token_body(
    client_id: Seq<char>,
    client_secret: Seq<char>,
    refresh_token: Seq<char>,
) -> Seq<char> {
    "client_id="@ + client_id + "&client_secret="@ + client_secret
        + "&grant_type=refresh_token&refresh_token="@ + refresh_token
}

/// Builds the form body refreshing an access token.
pub fn build_refresh_token_body(client_id: &str, client_secret: &str, refresh_token: &str) -> (r:
    String)
    ensures
        r@ == spec_refresh_token_body(client_id@, client_secret@, refresh_token@),
{
    String::from_str("client_id=").concat(client_id).concat("&client_secret=").concat(
        client_secret,
    ).concat("&grant_type=refresh_token&refresh_token=").concat(refresh_token)
}

/// The form body of a client-credentials token request.
pub open spec fn spec_client_credentials_body(
    client_id: Seq<char>,
    client_secret: Seq<char>,
) -> Seq<char> {
    "client_id="@ + client_id + "&client_secret="@ + client_secret
        + "&grant_type=client_credentials"@
}

/// Builds the form body of a client-credentials token request.
pub fn build_client_credentials_body(client_id: &str, client_secret: &str) -> (r: String)
    ensures
        r@ == spec_client_credentials_body(client_id@, client_secret@),
{
    String::from_str("client_id=").concat(client_id).concat("&client_secret=").concat(
        client_secret,
    ).concat("&grant_type=client_credentials")
}

/// A login callback URL stripped to the redirect URI that was registered:
/// everything from the first `?` on is dropped, then one trailing slash.
pub open spec fn spec_normalized_redirect(url: Seq<char>) -> Seq<char> {
    let base = if first_index_of(url, '?') >= 0 {
        url.take(first_index_of(url, '?'))
    } else {
        url
    };
    if base.len() > 0 && base.last() == '/' {
        base.drop_last()
    } else {
        base
    }
}

/// Strips the query and one trailing slash off a login callback URL.
pub fn normalize_redirect_url(url: &str) -> (r: String)
    ensures
        r@ == spec_normalized_redirect(url@),
{
    proof {
        lemma_first_index_of_props(url@, '?');
    }
    let n = s_len(url);
    let base: &str = match find_first_char(url, '?') {
        Some(i) => url.substring_char(0, i),
        None => url,
    };
    let m = s_len(base);
    if m > 0 && base.get_char(m - 1) == '/' {
        let r = base.substring_char(0, m - 1).to_owned();
        proof {
            assert(r@ =~= spec_normalized_redirect(url@));
        }
        r
    } else {
        let r = base.to_owned();
        proof {
            assert(r@ =~= spec_normalized_redirect(url@));
        }
        r
    }
}

/// The absolute expiry times of a fresh token pair, in epoch
/// milliseconds: the current time plus each lifetime given in seconds.
pub fn compute_expire_info(now_millis: u128, expires_in: i32, refresh_expires_in: i32) -> (r:
    ExpireInfo)
    requires
        expires_in >= 0,
        refresh_expires_in >= 0,
        now_millis + expires_in * 1000 <= u128::MAX,
        now_millis + refresh_expires_in * 1000 <= u128::MAX,
    ensures
        r.expires_at == now_millis + expires_in * 1000,
        r.refresh_expires_at == now_millis + refresh_expires_in * 1000,
{
    ExpireInfo {
        expires_at: now_millis + (expires_in as u128) * 1000,
        refresh_expires_at: now_millis + (refresh_expires_in as u128) * 1000,
    }
}

/// The string `access_token` field of a text parsed as a JSON object,
/// when the text is one and holds such a field: a function of the text
/// alone.
pub uninterp spec fn spec_access_token_of(body: Seq<char>) -> Option<Seq<char>>;

/// Relies on serde_json::from_str, serde_json::Value::get and
/// Value::as_str: parses the body and hands out its string
/// `access_token` field, or nothing when the body does not parse or
/// holds no such string field.
#[verifier::external_body]
fn extract_access_token(s: &str) -> (r: Option<String>)
    ensures
        match r {
            Some(t) => spec_access_token_of(s@) == Some(t@),
            None => spec_access_token_of(s@) is None,
        },
{
    match serde_json::from_str::<serde_json::Value>(s) {
        Ok(value) => match value.get("access_token") {
            Some(field) => match field.as_str() {
                Some(token) => Some(token.to_owned()),
                None => None,
            },
            None => None,
        },
        Err(_) => None,
    }
}

/// Pulls the access token out of a token endpoint's JSON response: the
/// body's `access_token` string field exactly when the body carries one,
/// and a fixed message otherwise.
pub fn parse_papi_token_response(response_body: &str) -> (r: Result<String, String>)
    ensures
        match r {
            Ok(t) => spec_access_token_of(response_body@) == Some(t@),
            Err(m) => spec_access_token_of(response_body@) is None && m@
                == "Kunne ikke tolke token-respons"@,
        },
{
    match extract_access_token(response_body) {
        Some(token) => Ok(token),
        None => Err(String::from_str("Kunne ikke tolke token-respons")),
    }
}

} // verus!
