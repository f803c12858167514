//! Exchanging the long-lived refresh credential for a short-lived access credential.
use vstd::prelude::*;
use crate::error::SyncError;

verus! {

/// The standard, padded base64 form of the UTF-8 bytes of `s`.
pub uninterp spec fn base64_of(s: Seq<char>) -> Seq<char>;

/// Relies on base64's `STANDARD` engine `encode`: the output depends on the input alone.
#[verifier::external_body]
fn base64_encode(s: &str) -> (r: String)
    ensures
        r@ == base64_of(s@),
{
    base64::Engine::encode(&base64::engine::general_purpose::STANDARD, s)
}

/// The three credentials the exchange needs.
#[derive(Debug)]
pub struct Credentials {
    pub client_id: String,
    pub client_secret: String,
    pub refresh_token: String,
}

/// The credentials, when none is missing; else which one is missing first.
pub fn credentials(
    client_id: Option<String>,
    client_secret: Option<String>,
    refresh_token: Option<String>,
) -> (r: Result<Credentials, SyncError>)
    ensures
        r is Ok <==> (client_id is Some && client_secret is Some && refresh_token is Some),
        r matches Ok(c) ==> (Some(c.client_id) == client_id && Some(c.client_secret)
            == client_secret && Some(c.refresh_token) == refresh_token),
        r matches Err(e) ==> e matches SyncError::Config { what },
{
    match (client_id, client_secret, refresh_token) {
        (Some(client_id), Some(client_secret), Some(refresh_token)) => Ok(
            Credentials { client_id, client_secret, refresh_token },
        ),
        (None, _, _) => Err(SyncError::Config { what: String::from_str("SPOTIFY_CLIENT_ID") }),
        (_, None, _) => Err(SyncError::Config { what: String::from_str("SPOTIFY_CLIENT_SECRET") }),
        (_, _, None) => Err(SyncError::Config { what: String::from_str("SPOTIFY_REFRESH_TOKEN") }),
    }
}

/// The HTTP basic authorization header value for a client id and secret.
pub open spec fn basic_authorization_spec(id: Seq<char>, secret: Seq<char>) -> Seq<char> {
    "Basic "@ + base64_of(id + ":"@ + secret)
}

/// The HTTP basic authorization header value for the client id and secret.
pub fn basic_authorization(c: &Credentials) -> (r: String)
    ensures
        r@ == basic_authorization_spec(c.client_id@, c.client_secret@),
{
    let mut pair = c.client_id.clone();
    pair.append(":");
    pair.append(c.client_secret.as_str());
    let mut r = String::from_str("Basic ");
    r.append(base64_encode(pair.as_str()).as_str());
    r
}

/// The access credential of an exchange reply; a reply without one is an authorization failure.
pub fn accept_token(status: u16, access_token: Option<String>) -> (r: Result<String, SyncError>)
    ensures
        match access_token {
            Some(t) => r == Ok::<String, SyncError>(t),
            None => r matches Err(SyncError::Auth { status: s, body }) && s == status,
        },
{
    match access_token {
        Some(t) => Ok(t),
        None => Err(SyncError::Auth { status, body: String::from_str("no access token in the reply") }),
    }
}

} // verus!
