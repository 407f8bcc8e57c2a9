//! Login/callback orchestration: the state machine `Anonymous →
//! AwaitingCallback → Authenticated`, carried by the session's payload.
//!
//! `start_login` stores a fresh authorization attempt and yields the
//! redirect URL. `callback_begin` consumes the attempt — single use, on
//! every path — and validates the callback's CSRF state: only an exact
//! match yields the token-exchange payload; a mismatch is silently turned
//! into a redirect home, and the exchange is never reached. The surrounding
//! application performs the exchange and the userinfo call, and
//! `callback_complete` then resolves and stores the user.

use vstd::prelude::*;
use vstd::string::*;

use crate::errors::AuthError;
use crate::oauth::{
    challenge_of, AuthRedirectQuery, AuthorizationParams, LoginAttempt, TokenExchangePayload,
};
use crate::session::{SessionData, UserRecord};
use crate::state::AppConfig;
use crate::text::urlencode;
use crate::urls::{auth_query_of, build_redirect_url, generate_auth_url, redirect_url_of, url_ok};
use crate::users::{upsert_result, user_index, UserTable};

verus! {

/// The query belonging to a stored attempt: what `start_login` sends, as a
/// function of the configuration and the attempt's verifier and CSRF state.
pub open spec fn attempt_query(cfg: AppConfig, pkce: Seq<char>, csrf: Seq<char>) -> Seq<char> {
    "client_id="@ + urlencode(cfg.oauth_client_id@)
        + "&redirect_uri="@ + urlencode(redirect_url_of(cfg.self_url@))
        + "&state="@ + urlencode(csrf)
        + "&audience="@ + urlencode("hyper-tarot"@)
        + "&response_mode="@ + urlencode("query"@)
        + "&response_type="@ + urlencode("code"@)
        + "&scope="@ + urlencode("offline_access openid email profile"@)
        + "&code_challenge="@ + urlencode(challenge_of(pkce))
        + "&code_challenge_method="@ + urlencode("S256"@)
}

/// Every login redirect announces the PKCE method: the query of any stored
/// attempt ends with the literal `&code_challenge_method=S256` (and carries
/// the CSRF token as its `state` parameter, by the shape of
/// `attempt_query`).
pub proof fn lemma_auth_query_names_s256(cfg: AppConfig, pkce: Seq<char>, csrf: Seq<char>)
    ensures
        attempt_query(cfg, pkce, csrf).len() >= 27,
        attempt_query(cfg, pkce, csrf).subrange(
            attempt_query(cfg, pkce, csrf).len() - 27,
            attempt_query(cfg, pkce, csrf).len() as int,
        ) == "&code_challenge_method=S256"@,
{
    let q = attempt_query(cfg, pkce, csrf);
    reveal_strlit("S256");
    reveal_strlit("&code_challenge_method=");
    reveal_strlit("&code_challenge_method=S256");
    assert(forall|i: int| 0 <= i < "S256"@.len() ==> crate::text::is_unreserved_char("S256"@[i]))
        by {
        assert("S256"@[0] == 'S' && "S256"@[1] == '2' && "S256"@[2] == '5' && "S256"@[3] == '6');
    }
    crate::text::lemma_urlencode_unreserved("S256"@);
    assert("&code_challenge_method="@ + "S256"@ =~= "&code_challenge_method=S256"@);
    assert(q.subrange(q.len() - 27, q.len() as int) =~= "&code_challenge_method=S256"@);
}

/// Begins a login: generates the attempt, stores it in the session, and
/// builds the redirect to the provider. The attempt is stored even when the
/// authorization endpoint turns out malformed.
pub fn start_login(config: &AppConfig, session: &mut SessionData) -> (r: Result<String, AuthError>)
    ensures
        final(session).user == old(session).user,
        final(session).attempt is Some,
        r is Ok <==> url_ok(config.oauth.authorization_endpoint@),
        r is Err ==> r->Err_0 == AuthError::Config,
        r is Ok ==> r->Ok_0@ == config.oauth.authorization_endpoint@ + seq!['?'] + attempt_query(
            *config,
            final(session).attempt->0.pkce@,
            final(session).attempt->0.csrf@,
        ),
{
    let redirect_uri = build_redirect_url(config);
    let params = AuthorizationParams::new(config.oauth_client_id.clone(), redirect_uri);
    let attempt = LoginAttempt { pkce: params.code_verifier.clone(), csrf: params.state.clone() };
    session.attempt = Some(attempt);
    let result = generate_auth_url(params, config);
    proof {
        if url_ok(config.oauth.authorization_endpoint@) {
            assert(auth_query_of(params) == attempt_query(
                *config,
                final(session).attempt->0.pkce@,
                final(session).attempt->0.csrf@,
            ));
        }
    }
    result
}

/// What a callback leads to: no attempt in flight is a protocol error; a
/// CSRF mismatch is silently redirected home; a match hands the payload for
/// the token exchange on.
#[derive(Debug)]
pub enum CallbackOutcome {
    MissingAttempt,
    CsrfRejected,
    Exchange(TokenExchangePayload),
}

/// Builds the token-exchange payload for a validated callback.
pub fn from_redirect_to_token_payload(config: &AppConfig, value: AuthRedirectQuery, pkce: String)
    -> (p: TokenExchangePayload)
    ensures
        p.code == value.code,
        p.grant_type@ == "authorization_code"@,
        p.client_id@ == config.oauth_client_id@,
        p.client_secret@ == config.oauth_client_secret@,
        p.redirect_uri@ == redirect_url_of(config.self_url@),
        p.code_verifier == pkce,
{
    TokenExchangePayload {
        code: value.code,
        client_id: config.oauth_client_id.clone(),
        client_secret: config.oauth_client_secret.clone(),
        code_verifier: pkce,
        grant_type: String::from_str("authorization_code"),
        redirect_uri: build_redirect_url(config),
    }
}

/// Validates a callback against the stored attempt. The attempt is removed
/// from the session on every path — it is single use. The token exchange
/// can only be reached when the callback's `state` equals the stored CSRF
/// token exactly; on a mismatch no payload exists to exchange.
pub fn callback_begin(config: &AppConfig, session: &mut SessionData, query: &AuthRedirectQuery)
    -> (r: CallbackOutcome)
    ensures
        final(session).attempt is None,
        final(session).user == old(session).user,
        r is MissingAttempt <==> old(session).attempt is None,
        r is CsrfRejected <==> old(session).attempt is Some && old(session).attempt->0.csrf@
            != query.state@,
        r is Exchange <==> old(session).attempt is Some && old(session).attempt->0.csrf@
            == query.state@,
        r is Exchange ==> {
            &&& r->Exchange_0.code == query.code
            &&& r->Exchange_0.grant_type@ == "authorization_code"@
            &&& r->Exchange_0.client_id@ == config.oauth_client_id@
            &&& r->Exchange_0.client_secret@ == config.oauth_client_secret@
            &&& r->Exchange_0.redirect_uri@ == redirect_url_of(config.self_url@)
            &&& r->Exchange_0.code_verifier@ == old(session).attempt->0.pkce@
        },
{
    let attempt = match &session.attempt {
        None => {
            return CallbackOutcome::MissingAttempt;
        },
        Some(a) => LoginAttempt { pkce: a.pkce.clone(), csrf: a.csrf.clone() },
    };
    session.attempt = None;
    if query.state != attempt.csrf {
        return CallbackOutcome::CsrfRejected;
    }
    let value = AuthRedirectQuery { state: query.state.clone(), code: query.code.clone() };
    CallbackOutcome::Exchange(from_redirect_to_token_payload(config, value, attempt.pkce))
}

/// Finishes a successful login: resolves the user by subject — insert or
/// update, the subject staying unique — and stores the authenticated user
/// in the session.
pub fn callback_complete(
    session: &mut SessionData,
    users: &mut UserTable,
    info: &crate::oauth::UserInfo,
    now: i64,
) -> (u: UserRecord)
    requires
        old(users).wf(),
        old(users)@.next_id < u64::MAX,
    ensures
        final(users).wf(),
        final(users)@ == upsert_result(old(users)@, info.sub@, info.email@, info.name@, now),
        user_index(final(users)@.users, info.sub@) >= 0,
        u@ == final(users)@.users[user_index(final(users)@.users, info.sub@)],
        final(session).attempt == old(session).attempt,
        final(session).user is Some,
        final(session).user->0@ == u@,
{
    let u = users.upsert_user(info, now);
    session.user = Some(u.duplicate());
    u
}

/// Ends the session: the whole payload is cleared.
pub fn logout(session: &mut SessionData)
    ensures
        final(session).attempt is None,
        final(session).user is None,
{
    session.attempt = None;
    session.user = None;
}

/// The user a session is authenticated as, if any.
pub fn session_user(session: &SessionData) -> (r: Option<&UserRecord>)
    ensures
        match r {
            Some(u) => session.user is Some && *u == session.user->0,
            None => session.user is None,
        },
{
    match &session.user {
        Some(u) => Some(u),
        None => None,
    }
}

/// Whether a request may pass the login guard: only an authenticated
/// session may.
pub fn login_required(session: &SessionData) -> (allowed: bool)
    ensures
        allowed <==> session.user is Some,
{
    match &session.user {
        Some(_) => true,
        None => false,
    }
}

} // verus!
