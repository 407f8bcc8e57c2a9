//! Building the URLs of the login flow: the authorization redirect, the
//! callback redirect URI, the logout URL, and the discovery-document URL.

use vstd::prelude::*;
use vstd::string::*;

use crate::errors::AuthError;
use crate::oauth::AuthorizationParams;
use crate::state::AppConfig;
use crate::text::{chars_to_string, push_literal, str_to_chars, urlencode, urlencode_into};

verus! {

// ---------------------------------------------------------------------------
// Trusted call: URL validity
// ---------------------------------------------------------------------------

/// Whether a string parses as an absolute URL, as a function of the string
/// alone.
pub uninterp spec fn url_ok(s: Seq<char>) -> bool;

/// Relies on `url::Url::parse`: parsing is deterministic in the input
/// string.
#[verifier::external_body]
fn parse_url_ok(s: &str) -> (r: bool)
    ensures
        r == url_ok(s@),
{
    url::Url::parse(s).is_ok()
}

// ---------------------------------------------------------------------------
// The authorization query string
// ---------------------------------------------------------------------------

/// The serialized query of an authorization redirect: the fixed parameter
/// set, each value form-urlencoded, in declaration order. The PKCE verifier
/// is deliberately not part of it.
pub open spec fn auth_query_of(p: AuthorizationParams) -> Seq<char> {
    "client_id="@ + urlencode(p.client_id@)
        + "&redirect_uri="@ + urlencode(p.redirect_uri@)
        + "&state="@ + urlencode(p.state@)
        + "&audience="@ + urlencode(p.audience@)
        + "&response_mode="@ + urlencode(p.response_mode@)
        + "&response_type="@ + urlencode(p.response_type@)
        + "&scope="@ + urlencode(p.scope@)
        + "&code_challenge="@ + urlencode(p.code_challenge@)
        + "&code_challenge_method="@ + urlencode(p.code_challenge_method@)
}

fn auth_query(p: &AuthorizationParams) -> (q: Vec<char>)
    ensures
        q@ == auth_query_of(*p),
{
    let mut q: Vec<char> = Vec::new();
    push_literal(&mut q, "client_id=");
    urlencode_into(&mut q, p.client_id.as_str());
    push_literal(&mut q, "&redirect_uri=");
    urlencode_into(&mut q, p.redirect_uri.as_str());
    push_literal(&mut q, "&state=");
    urlencode_into(&mut q, p.state.as_str());
    push_literal(&mut q, "&audience=");
    urlencode_into(&mut q, p.audience.as_str());
    push_literal(&mut q, "&response_mode=");
    urlencode_into(&mut q, p.response_mode.as_str());
    push_literal(&mut q, "&response_type=");
    urlencode_into(&mut q, p.response_type.as_str());
    push_literal(&mut q, "&scope=");
    urlencode_into(&mut q, p.scope.as_str());
    push_literal(&mut q, "&code_challenge=");
    urlencode_into(&mut q, p.code_challenge.as_str());
    push_literal(&mut q, "&code_challenge_method=");
    urlencode_into(&mut q, p.code_challenge_method.as_str());
    assert(q@ =~= auth_query_of(*p));
    q
}

// ---------------------------------------------------------------------------
// The four URLs
// ---------------------------------------------------------------------------

/// The full authorization redirect URL: the provider's authorization
/// endpoint with the serialized parameter set as its query.
pub open spec fn auth_url_of(endpoint: Seq<char>, p: AuthorizationParams) -> Seq<char> {
    endpoint + seq!['?'] + auth_query_of(p)
}

/// Builds the authorization redirect URL, or rejects a provider
/// configuration whose authorization endpoint is not a valid absolute URL.
pub fn generate_auth_url(params: AuthorizationParams, config: &AppConfig) -> (r: Result<
    String,
    AuthError,
>)
    ensures
        r is Ok <==> url_ok(config.oauth.authorization_endpoint@),
        r is Ok ==> r->Ok_0@ == auth_url_of(config.oauth.authorization_endpoint@, params),
        r is Err ==> r->Err_0 == AuthError::Config,
{
    if !parse_url_ok(config.oauth.authorization_endpoint.as_str()) {
        return Err(AuthError::Config);
    }
    let mut out = str_to_chars(config.oauth.authorization_endpoint.as_str());
    out.push('?');
    let mut query = auth_query(&params);
    out.append(&mut query);
    assert(out@ =~= auth_url_of(config.oauth.authorization_endpoint@, params));
    Ok(chars_to_string(&out))
}

/// A string with a single trailing `/` removed, if one is there.
pub open spec fn strip_trailing_slash(s: Seq<char>) -> Seq<char> {
    if s.len() > 0 && s[s.len() - 1] == '/' {
        s.take(s.len() - 1)
    } else {
        s
    }
}

/// Index of the first `://`, or -1.
pub open spec fn find_scheme_sep(s: Seq<char>) -> int
    decreases s.len(),
{
    if s.len() < 3 {
        -1
    } else if s[0] == ':' && s[1] == '/' && s[2] == '/' {
        0
    } else {
        let r = find_scheme_sep(s.drop_first());
        if r == -1 {
            -1
        } else {
            r + 1
        }
    }
}

/// Index of the first `/`, or -1.
pub open spec fn find_slash(s: Seq<char>) -> int
    decreases s.len(),
{
    if s.len() == 0 {
        -1
    } else if s[0] == '/' {
        0
    } else {
        let r = find_slash(s.drop_first());
        if r == -1 {
            -1
        } else {
            r + 1
        }
    }
}

/// Where an absolute URL's path begins: at the first `/` after the `://`
/// separator. A URL without one — no path, or no recognizable scheme — has
/// its whole length here.
pub open spec fn path_start(s: Seq<char>) -> int {
    let sep = find_scheme_sep(s);
    if sep < 0 {
        s.len() as int
    } else {
        let rel = find_slash(s.skip(sep + 3));
        if rel < 0 {
            s.len() as int
        } else {
            sep + 3 + rel
        }
    }
}

/// A URL's scheme and authority, everything up to its path: what replacing
/// the path preserves.
pub open spec fn origin_of(s: Seq<char>) -> Seq<char> {
    s.take(path_start(s))
}

/// The redirect URI handed to the provider: the application's own base URL
/// with its path replaced by the fixed callback path; scheme, host and port
/// are kept. The base URL is expected to carry no query or fragment: one
/// that does loses it here together with the path.
pub open spec fn redirect_url_of(self_url: Seq<char>) -> Seq<char> {
    origin_of(self_url) + "/auth/callback"@
}

proof fn lemma_find_scheme_sep_is_first(s: Seq<char>, i: int)
    requires
        0 <= i,
        i + 3 <= s.len(),
        s[i] == ':' && s[i + 1] == '/' && s[i + 2] == '/',
        forall|j: int| 0 <= j < i ==> !(#[trigger] s[j] == ':' && s[j + 1] == '/' && s[j + 2] == '/'),
    ensures
        find_scheme_sep(s) == i,
    decreases i,
{
    if i > 0 {
        lemma_find_scheme_sep_is_first(s.drop_first(), i - 1);
    }
}

proof fn lemma_find_scheme_sep_none(s: Seq<char>)
    requires
        forall|j: int|
            0 <= j && j + 3 <= s.len() ==> !(#[trigger] s[j] == ':' && s[j + 1] == '/' && s[j + 2]
                == '/'),
    ensures
        find_scheme_sep(s) == -1,
    decreases s.len(),
{
    if s.len() >= 3 {
        lemma_find_scheme_sep_none(s.drop_first());
    }
}

proof fn lemma_find_slash_is_first(s: Seq<char>, i: int)
    requires
        0 <= i < s.len(),
        s[i] == '/',
        forall|j: int| 0 <= j < i ==> s[j] != '/',
    ensures
        find_slash(s) == i,
    decreases i,
{
    if i > 0 {
        lemma_find_slash_is_first(s.drop_first(), i - 1);
    }
}

proof fn lemma_find_slash_none(s: Seq<char>)
    requires
        forall|j: int| 0 <= j < s.len() ==> s[j] != '/',
    ensures
        find_slash(s) == -1,
    decreases s.len(),
{
    if s.len() > 0 {
        lemma_find_slash_none(s.drop_first());
    }
}

/// Where the configured base URL's `://` separator stands, if anywhere.
fn scan_scheme_sep(v: &Vec<char>) -> (r: Option<usize>)
    ensures
        r is Some ==> r->0 + 3 <= v@.len() && find_scheme_sep(v@) == r->0,
        r is None ==> find_scheme_sep(v@) == -1,
{
    let n = v.len();
    if n < 3 {
        proof {
            lemma_find_scheme_sep_none(v@);
        }
        return None;
    }
    let limit = n - 2;
    let mut i: usize = 0;
    while i < limit
        invariant
            i <= limit,
            limit == n - 2,
            3 <= n,
            n == v@.len(),
            forall|j: int|
                0 <= j < i ==> !(#[trigger] v@[j] == ':' && v@[j + 1] == '/' && v@[j + 2] == '/'),
        decreases limit - i,
    {
        if v[i] == ':' && v[i + 1] == '/' && v[i + 2] == '/' {
            proof {
                lemma_find_scheme_sep_is_first(v@, i as int);
            }
            return Some(i);
        }
        i = i + 1;
    }
    proof {
        lemma_find_scheme_sep_none(v@);
    }
    None
}

/// Where the configured base URL's path begins.
fn find_path_start(v: &Vec<char>) -> (r: usize)
    ensures
        r <= v@.len(),
        r == path_start(v@),
{
    let n = v.len();
    let p = match scan_scheme_sep(v) {
        None => {
            return n;
        },
        Some(p) => p,
    };
    let mut k: usize = p + 3;
    while k < n
        invariant
            p + 3 <= k <= n,
            n == v@.len(),
            find_scheme_sep(v@) == p,
            forall|j: int| p + 3 <= j < k ==> v@[j] != '/',
        decreases n - k,
    {
        if v[k] == '/' {
            proof {
                let t = v@.skip(p as int + 3);
                assert(forall|j: int|
                    0 <= j < k - (p + 3) ==> #[trigger] t[j] == v@[j + p + 3] && t[j] != '/');
                assert(t[k - (p + 3)] == '/');
                lemma_find_slash_is_first(t, k - (p + 3));
            }
            return k;
        }
        k = k + 1;
    }
    proof {
        let t = v@.skip(p as int + 3);
        assert(forall|j: int| 0 <= j < t.len() ==> #[trigger] t[j] == v@[j + p + 3] && t[j] != '/');
        lemma_find_slash_none(t);
    }
    n
}

/// Builds the callback redirect URI: the application's base URL with its
/// path replaced by the fixed callback path. The base URL is expected to
/// name only scheme, host, port and at most a path.
pub fn build_redirect_url(config: &AppConfig) -> (r: String)
    ensures
        r@ == redirect_url_of(config.self_url@),
{
    let chars = str_to_chars(config.self_url.as_str());
    let cut = find_path_start(&chars);
    let mut out: Vec<char> = Vec::new();
    let mut i: usize = 0;
    while i < cut
        invariant
            i <= cut <= chars@.len(),
            out@ == chars@.take(i as int),
        decreases cut - i,
    {
        out.push(chars[i]);
        assert(out@ =~= chars@.take(i as int + 1));
        i = i + 1;
    }
    push_literal(&mut out, "/auth/callback");
    assert(out@ =~= redirect_url_of(config.self_url@));
    chars_to_string(&out)
}

/// The logout URL: the provider's end-session endpoint with the client id
/// as its only query parameter.
pub open spec fn logout_url_of(endpoint: Seq<char>, client_id: Seq<char>) -> Seq<char> {
    endpoint + "?client_id="@ + urlencode(client_id)
}

/// Builds the end-session redirect. A provider configuration whose
/// end-session endpoint is not a valid URL yields the fixed failure text,
/// as a displayable value rather than an error.
pub fn generate_logout_url(config: &AppConfig) -> (r: String)
    ensures
        url_ok(config.oauth.end_session_endpoint@) ==> r@ == logout_url_of(
            config.oauth.end_session_endpoint@,
            config.oauth_client_id@,
        ),
        !url_ok(config.oauth.end_session_endpoint@) ==> r@ == "Failed to generate logout URL"@,
{
    if !parse_url_ok(config.oauth.end_session_endpoint.as_str()) {
        return String::from_str("Failed to generate logout URL");
    }
    let mut out = str_to_chars(config.oauth.end_session_endpoint.as_str());
    push_literal(&mut out, "?client_id=");
    urlencode_into(&mut out, config.oauth_client_id.as_str());
    assert(out@ =~= logout_url_of(config.oauth.end_session_endpoint@, config.oauth_client_id@));
    chars_to_string(&out)
}

/// The form-encoded body of the token exchange: the payload's fields in
/// declaration order, each value form-urlencoded.
pub open spec fn token_payload_query(p: crate::oauth::TokenExchangePayload) -> Seq<char> {
    "code="@ + urlencode(p.code@)
        + "&grant_type="@ + urlencode(p.grant_type@)
        + "&client_id="@ + urlencode(p.client_id@)
        + "&client_secret="@ + urlencode(p.client_secret@)
        + "&redirect_uri="@ + urlencode(p.redirect_uri@)
        + "&code_verifier="@ + urlencode(p.code_verifier@)
}

/// Serializes the token-exchange payload to the body of the POST against
/// the provider's token endpoint.
pub fn encode_token_payload(p: &crate::oauth::TokenExchangePayload) -> (s: String)
    ensures
        s@ == token_payload_query(*p),
{
    let mut out: Vec<char> = Vec::new();
    push_literal(&mut out, "code=");
    urlencode_into(&mut out, p.code.as_str());
    push_literal(&mut out, "&grant_type=");
    urlencode_into(&mut out, p.grant_type.as_str());
    push_literal(&mut out, "&client_id=");
    urlencode_into(&mut out, p.client_id.as_str());
    push_literal(&mut out, "&client_secret=");
    urlencode_into(&mut out, p.client_secret.as_str());
    push_literal(&mut out, "&redirect_uri=");
    urlencode_into(&mut out, p.redirect_uri.as_str());
    push_literal(&mut out, "&code_verifier=");
    urlencode_into(&mut out, p.code_verifier.as_str());
    assert(out@ =~= token_payload_query(*p));
    chars_to_string(&out)
}

/// The provider's discovery-document URL for a given issuer.
pub open spec fn discovery_url_of(issuer: Seq<char>) -> Seq<char> {
    strip_trailing_slash(issuer) + "/.well-known/openid-configuration"@
}

/// Builds the discovery-document URL from the configured issuer.
pub fn discovery_url(issuer: &str) -> (r: String)
    ensures
        r@ == discovery_url_of(issuer@),
{
    let mut out = str_to_chars(issuer);
    if out.len() > 0 {
        let last = out.len() - 1;
        if out[last] == '/' {
            out.pop();
        }
    }
    push_literal(&mut out, "/.well-known/openid-configuration");
    assert(out@ =~= discovery_url_of(issuer@));
    chars_to_string(&out)
}

} // verus!
