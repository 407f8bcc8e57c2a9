use hyper_tarot::column::{is_value_set, maybe, ColumnValue};
use hyper_tarot::errors::AuthError;
use hyper_tarot::flow::{
    callback_begin, callback_complete, login_required, logout, session_user, start_login,
    CallbackOutcome,
};
use hyper_tarot::oauth::{AuthRedirectQuery, LoginAttempt, OpenIdConfiguration, UserInfo};
use hyper_tarot::session::SessionData;
use hyper_tarot::state::AppConfig;
use hyper_tarot::users::UserTable;

fn test_config() -> AppConfig {
    AppConfig {
        db_url: "postgres://localhost/app".to_string(),
        port: 8889,
        oauth: OpenIdConfiguration {
            jwks_uri: "https://idp.example/jwks".to_string(),
            authorization_endpoint: "https://idp.example/authorize".to_string(),
            end_session_endpoint: "https://idp.example/logout".to_string(),
            token_endpoint: "https://idp.example/token".to_string(),
            userinfo_endpoint: "https://idp.example/userinfo".to_string(),
        },
        oauth_client_id: "client123".to_string(),
        oauth_autodiscover_url: "https://idp.example".to_string(),
        oauth_client_secret: "SECRET-REDACTED".to_string(),
        self_url: "https://app.example".to_string(),
    }
}

fn userinfo(sub: &str, email: &str, name: &str) -> UserInfo {
    UserInfo {
        sub: sub.to_string(),
        name: name.to_string(),
        given_name: None,
        family_name: None,
        preferred_username: None,
        picture: None,
        email: email.to_string(),
        birthdate: None,
        locale: None,
    }
}

#[test]
fn upsert_twice_keeps_one_record_with_the_second_email() {
    let mut users = UserTable::new();
    assert!(!users.exhausted());
    let first = users.upsert_user(&userinfo("abc", "a@b.com", "A"), 1);
    let second = users.upsert_user(&userinfo("abc", "new@b.com", "A2"), 2);
    assert_eq!(users.len(), 1);
    assert_eq!(first.id, second.id);
    assert_eq!(second.email, "new@b.com");
    assert_eq!(second.display_name, "A2");
    assert_eq!(second.created_at, 1);
    assert_eq!(second.updated_at, 2);
    let stored = users.get_user_by_id(first.id).unwrap();
    assert_eq!(stored.email, "new@b.com");
}

#[test]
fn distinct_subjects_get_distinct_ids() {
    let mut users = UserTable::new();
    let a = users.upsert_user(&userinfo("abc", "a@b.com", "A"), 1);
    let b = users.upsert_user(&userinfo("xyz", "x@y.com", "X"), 1);
    assert_ne!(a.id, b.id);
    assert_eq!(users.len(), 2);
    assert!(users.get_user_by_id(a.id).is_some());
    assert!(users.get_user_by_id(a.id + b.id + 1).is_none());
}

#[test]
fn end_to_end_login_callback_scenario() {
    let config = test_config();
    let mut session = SessionData::empty();
    let mut users = UserTable::new();

    // login("client123"): the redirect names the PKCE method and the state.
    let url = start_login(&config, &mut session).unwrap();
    assert!(url.starts_with("https://idp.example/authorize?"));
    assert!(url.contains("code_challenge_method=S256"));
    assert!(url.contains("&state="));
    let attempt = session.attempt.clone().unwrap();
    assert!(url.contains(&format!("&state={}", attempt.csrf)));

    // The provider calls back with the matching state and a stub code.
    let query = AuthRedirectQuery { state: attempt.csrf.clone(), code: "stub-code".to_string() };
    let payload = match callback_begin(&config, &mut session, &query) {
        CallbackOutcome::Exchange(p) => p,
        _ => panic!("a matching state must proceed to the exchange"),
    };
    assert_eq!(payload.code, "stub-code");
    assert_eq!(payload.code_verifier, attempt.pkce);
    assert_eq!(payload.grant_type, "authorization_code");
    assert_eq!(payload.client_id, "client123");
    assert_eq!(payload.redirect_uri, "https://app.example/auth/callback");
    assert!(session.attempt.is_none());

    // Stub exchange and userinfo: {access_token: "tok"} resolves to
    // {sub: "abc", email: "a@b.com", name: "A"}.
    let user = callback_complete(&mut session, &mut users, &userinfo("abc", "a@b.com", "A"), 7);
    assert_eq!(user.subject, "abc");
    assert_eq!(users.len(), 1);
    let held = session_user(&session).expect("the session must hold the user");
    assert_eq!(held.subject, "abc");
    assert_eq!(held.email, "a@b.com");
    assert!(login_required(&session));
}

#[test]
fn csrf_mismatch_redirects_home_without_exchanging() {
    let config = test_config();
    let mut session = SessionData::empty();
    session.attempt = Some(LoginAttempt { pkce: "v".to_string(), csrf: "Y".to_string() });
    let query = AuthRedirectQuery { state: "X".to_string(), code: "c".to_string() };
    let mut exchange_calls: usize = 0;
    match callback_begin(&config, &mut session, &query) {
        CallbackOutcome::Exchange(_) => {
            exchange_calls += 1;
        },
        CallbackOutcome::CsrfRejected => {},
        CallbackOutcome::MissingAttempt => panic!("an attempt was stored"),
    }
    assert_eq!(exchange_calls, 0);
    // The attempt is single use: gone even after a rejected callback.
    assert!(session.attempt.is_none());
    assert!(session.user.is_none());
}

#[test]
fn callback_without_attempt_is_a_protocol_error() {
    let config = test_config();
    let mut session = SessionData::empty();
    let query = AuthRedirectQuery { state: "X".to_string(), code: "c".to_string() };
    assert!(matches!(
        callback_begin(&config, &mut session, &query),
        CallbackOutcome::MissingAttempt
    ));
}

#[test]
fn start_login_with_malformed_endpoint_is_a_config_error() {
    let mut config = test_config();
    config.oauth.authorization_endpoint = "not a url".to_string();
    let mut session = SessionData::empty();
    assert!(matches!(start_login(&config, &mut session), Err(AuthError::Config)));
    // The attempt was stored before the URL was built, as the handler does.
    assert!(session.attempt.is_some());
}

#[test]
fn logout_clears_the_session() {
    let config = test_config();
    let mut session = SessionData::empty();
    let mut users = UserTable::new();
    start_login(&config, &mut session).unwrap();
    let attempt = session.attempt.clone().unwrap();
    let query = AuthRedirectQuery { state: attempt.csrf, code: "c".to_string() };
    callback_begin(&config, &mut session, &query);
    callback_complete(&mut session, &mut users, &userinfo("abc", "a@b.com", "A"), 7);
    assert!(login_required(&session));
    logout(&mut session);
    assert!(session.user.is_none());
    assert!(session.attempt.is_none());
    assert!(!login_required(&session));
    assert!(session_user(&session).is_none());
}

#[test]
fn column_values() {
    assert!(is_value_set(&ColumnValue::Assigned(5)));
    assert!(is_value_set(&ColumnValue::Unchanged(5)));
    assert!(!is_value_set(&ColumnValue::<i32>::NotSet));
    assert_eq!(maybe(&ColumnValue::Assigned("x".to_string())), "x");
    assert_eq!(maybe(&ColumnValue::Unchanged("y".to_string())), "y");
    assert_eq!(maybe(&ColumnValue::NotSet), "");
}
