//! OAuth2/OIDC data types and the PKCE/CSRF generator.
//!
//! An authorization attempt carries a freshly generated PKCE verifier and a
//! CSRF state token; the code challenge sent to the provider is the
//! base64url-encoded SHA-256 digest of the verifier, with the padding
//! character stripped.

use vstd::prelude::*;
use vstd::string::*;
use vstd::utf8::encode_utf8;

use base64ct::Encoding;
use sha2::Digest;

use crate::text::{chars_to_string, str_to_chars};

verus! {

pub const OAUTH_LOGIN_ENDPOINT: &'static str = "/auth/login";

pub const OAUTH_LOGOUT_ENDPOINT: &'static str = "/auth/logout";

pub const OAUTH_CALLBACK_ENDPOINT: &'static str = "/auth/callback";

// ---------------------------------------------------------------------------
// Data types
// ---------------------------------------------------------------------------

#[derive(Clone, Debug)]
pub struct Claims {
    pub sub: String,
    pub email: Option<String>,
}

#[derive(Clone, Debug)]
pub struct UserInfo {
    pub sub: String,
    pub name: String,
    pub given_name: Option<String>,
    pub family_name: Option<String>,
    pub preferred_username: Option<String>,
    pub picture: Option<String>,
    pub email: String,
    pub birthdate: Option<String>,
    pub locale: Option<String>,
}

#[derive(Clone, Debug)]
pub struct OpenIdConfiguration {
    pub jwks_uri: String,
    pub authorization_endpoint: String,
    pub end_session_endpoint: String,
    pub token_endpoint: String,
    pub userinfo_endpoint: String,
}

#[derive(Clone, Debug)]
pub struct AuthRedirectQuery {
    pub state: String,
    pub code: String,
}

#[derive(Clone, Debug)]
pub struct TokenExchangePayload {
    pub code: String,
    pub grant_type: String,
    pub client_id: String,
    pub client_secret: String,
    pub redirect_uri: String,
    pub code_verifier: String,
}

#[derive(Clone, Debug)]
pub struct RefreshPayload {
    pub grant_type: String,
    pub refresh_token: String,
    pub client_id: String,
    pub client_secret: String,
    pub redirect_uri: String,
}

#[derive(Clone, Debug)]
pub struct TokenResponse {
    pub access_token: String,
    pub refresh_token: Option<String>,
}

#[derive(Clone, Debug)]
pub struct AuthorizationParams {
    pub client_id: String,
    pub redirect_uri: String,
    pub state: String,
    pub audience: String,
    pub response_mode: String,
    pub response_type: String,
    pub scope: String,
    pub code_verifier: String,
    pub code_challenge: String,
    pub code_challenge_method: String,
}

#[derive(Clone, Debug)]
pub struct LoginAttempt {
    pub pkce: String,
    pub csrf: String,
}

impl From<AuthorizationParams> for LoginAttempt {
    fn from(params: AuthorizationParams) -> (r: Self) {
        LoginAttempt { pkce: params.code_verifier, csrf: params.state }
    }
}

impl vstd::std_specs::convert::FromSpecImpl<AuthorizationParams> for LoginAttempt {
    open spec fn obeys_from_spec() -> bool {
        true
    }

    open spec fn from_spec(params: AuthorizationParams) -> LoginAttempt {
        LoginAttempt { pkce: params.code_verifier, csrf: params.state }
    }
}

// ---------------------------------------------------------------------------
// Trusted calls: SHA-256, base64url, UUID
// ---------------------------------------------------------------------------

/// The SHA-256 digest, as a function of the input bytes alone.
pub uninterp spec fn sha256_of(bytes: Seq<u8>) -> Seq<u8>;

/// Relies on `sha2::Sha256::digest`: the digest depends on the input bytes
/// alone and is 32 bytes long.
#[verifier::external_body]
fn sha256(data: &[u8]) -> (r: Vec<u8>)
    ensures
        r@ == sha256_of(data@),
        r@.len() == 32,
{
    sha2::Sha256::digest(data).to_vec()
}

/// Padded url-safe base64 of a byte string, as a function of the bytes alone.
pub uninterp spec fn b64url_of(bytes: Seq<u8>) -> Seq<char>;

/// A character of the url-safe base64 alphabet (`=` is not one).
pub open spec fn is_b64url_char(c: char) -> bool {
    (65 <= c as u32 && c as u32 <= 90)  // A-Z
    || (97 <= c as u32 && c as u32 <= 122)  // a-z
    || (48 <= c as u32 && c as u32 <= 57)  // 0-9
    || c == '-' || c == '_'
}

/// How many `=` characters pad the encoding of `n` bytes.
pub open spec fn b64_pad_len(n: int) -> int {
    (3 - n % 3) % 3
}

/// Relies on `base64ct::Base64Url::encode_string`: padded url-safe base64,
/// `4 * ceil(n / 3)` characters, alphabet characters first and the padding
/// `=` characters last.
#[verifier::external_body]
fn b64url_encode(data: &Vec<u8>) -> (r: String)
    ensures
        r@ == b64url_of(data@),
        r@.len() == 4 * ((data@.len() + 2) / 3),
        forall|i: int|
            0 <= i < r@.len() - b64_pad_len(data@.len() as int) ==> is_b64url_char(r@[i]),
        forall|i: int| r@.len() - b64_pad_len(data@.len() as int) <= i < r@.len() ==> r@[i] == '=',
{
    base64ct::Base64Url::encode_string(data.as_slice())
}

/// Relies on `uuid::Uuid::new_v4` and its `Display` form: a random UUID
/// printed in the 36-character hyphenated format. The value is random;
/// nothing beyond its length is promised.
#[verifier::external_body]
fn uuid_v4_string() -> (r: String)
    ensures
        r@.len() == 36,
{
    uuid::Uuid::new_v4().to_string()
}

// ---------------------------------------------------------------------------
// PKCE challenge derivation
// ---------------------------------------------------------------------------

/// Drops a single trailing `=`, if present.
pub open spec fn strip_one_pad(s: Seq<char>) -> Seq<char> {
    if s.len() > 0 && s[s.len() - 1] == '=' {
        s.take(s.len() - 1)
    } else {
        s
    }
}

/// The code challenge belonging to a PKCE verifier: base64url of the SHA-256
/// digest of the verifier's UTF-8 bytes, with the padding stripped.
pub open spec fn challenge_of(verifier: Seq<char>) -> Seq<char> {
    strip_one_pad(b64url_of(sha256_of(encode_utf8(verifier))))
}

/// Derives the code challenge from a PKCE verifier.
pub fn compute_challenge(verifier: &str) -> (r: String)
    ensures
        r@ == challenge_of(verifier@),
        r@.len() == 43,
        forall|i: int| 0 <= i < r@.len() ==> is_b64url_char(r@[i]),
{
    let digest = sha256(verifier.as_bytes());
    let padded = b64url_encode(&digest);
    let mut chars = str_to_chars(padded.as_str());
    proof {
        // A 32-byte digest encodes to 44 characters, the last of which is the
        // single padding character.
        assert(b64_pad_len(32) == 1);
        assert(chars@.len() == 44);
        assert(chars@[43] == '=');
    }
    chars.pop();
    proof {
        assert(chars@ =~= strip_one_pad(padded@));
    }
    chars_to_string(&chars)
}

/// A fresh PKCE verifier: two independent random UUIDs joined by a hyphen,
/// well over the 128 bits of entropy an attempt needs.
fn generate_pkce() -> (r: String)
    ensures
        r@.len() == 73,
{
    let mut out = uuid_v4_string();
    proof {
        reveal_strlit("-");
    }
    out.append("-");
    let second = uuid_v4_string();
    out.append(second.as_str());
    out
}

// ---------------------------------------------------------------------------
// JWK set keys
// ---------------------------------------------------------------------------

/// What a JWK says it is for.
#[derive(Clone, Copy, Debug, PartialEq, Eq, Structural)]
pub enum KeyUse {
    Signature,
    Encryption,
    Other,
}

/// The part of a fetched JWK the key selection reads.
#[derive(Clone, Debug)]
pub struct JwkKey {
    pub public_key_use: Option<KeyUse>,
}

/// Whether a key is declared for signing.
pub fn is_sig_key(key: &JwkKey) -> (r: bool)
    ensures
        r <==> key.public_key_use == Some(KeyUse::Signature),
{
    match key.public_key_use {
        Some(KeyUse::Signature) => true,
        _ => false,
    }
}

/// The first signing key of a fetched JWK set, by index.
pub fn find_sig_key(keys: &Vec<JwkKey>) -> (r: Option<usize>)
    ensures
        r is Some ==> r->0 < keys@.len() && keys@[r->0 as int].public_key_use == Some(
            KeyUse::Signature,
        ) && forall|j: int|
            0 <= j < r->0 ==> keys@[j].public_key_use != Some(KeyUse::Signature),
        r is None ==> forall|j: int|
            0 <= j < keys@.len() ==> keys@[j].public_key_use != Some(KeyUse::Signature),
{
    let n = keys.len();
    let mut i: usize = 0;
    while i < n
        invariant
            i <= n,
            n == keys@.len(),
            forall|j: int| 0 <= j < i ==> keys@[j].public_key_use != Some(KeyUse::Signature),
        decreases n - i,
    {
        if is_sig_key(&keys[i]) {
            return Some(i);
        }
        i = i + 1;
    }
    None
}

impl AuthorizationParams {
    /// A fresh authorization attempt: generates the PKCE verifier and the
    /// CSRF state, derives the code challenge, and fixes the remaining
    /// protocol parameters.
    pub fn new(oauth_client_id: String, redirect_uri: String) -> (p: AuthorizationParams)
        ensures
            p.client_id == oauth_client_id,
            p.redirect_uri == redirect_uri,
            p.response_mode@ == "query"@,
            p.audience@ == "hyper-tarot"@,
            p.response_type@ == "code"@,
            p.scope@ == "offline_access openid email profile"@,
            p.code_challenge_method@ == "S256"@,
            p.code_challenge@ == challenge_of(p.code_verifier@),
            p.code_challenge@.len() == 43,
            forall|i: int| 0 <= i < p.code_challenge@.len() ==> is_b64url_char(p.code_challenge@[i]),
            p.code_verifier@.len() == 73,
            p.state@.len() == 36,
    {
        let pkce_verifier = generate_pkce();
        let pkce_challenge = compute_challenge(pkce_verifier.as_str());
        let csrf = uuid_v4_string();
        AuthorizationParams {
            client_id: oauth_client_id,
            redirect_uri,
            state: csrf,
            response_mode: String::from_str("query"),
            audience: String::from_str("hyper-tarot"),
            response_type: String::from_str("code"),
            scope: String::from_str("offline_access openid email profile"),
            code_verifier: pkce_verifier,
            code_challenge: pkce_challenge,
            code_challenge_method: String::from_str("S256"),
        }
    }
}

} // verus!
