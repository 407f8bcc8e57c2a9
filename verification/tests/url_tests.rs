use hyper_tarot::errors::AuthError;
use hyper_tarot::oauth::{AuthorizationParams, OpenIdConfiguration};
use hyper_tarot::state::AppConfig;
use hyper_tarot::urls::{build_redirect_url, discovery_url, generate_auth_url, generate_logout_url};

fn test_config() -> AppConfig {
    AppConfig {
        db_url: "postgres://localhost/app".to_string(),
        port: 8889,
        oauth: OpenIdConfiguration {
            jwks_uri: "https://idp.example/jwks".to_string(),
            authorization_endpoint: "https://idp.example/authorize".to_string(),
            end_session_endpoint: "https://idp.example/logout".to_string(),
            token_endpoint: "https://idp.example/token".to_string(),
            userinfo_endpoint: "https://idp.example/userinfo".to_string(),
        },
        oauth_client_id: "client123".to_string(),
        oauth_autodiscover_url: "https://idp.example".to_string(),
        oauth_client_secret: "SECRET-REDACTED".to_string(),
        self_url: "https://app.example/".to_string(),
    }
}

fn fixed_params() -> AuthorizationParams {
    AuthorizationParams {
        client_id: "client123".to_string(),
        redirect_uri: "https://app.example/auth/callback".to_string(),
        state: "st-1".to_string(),
        audience: "hyper-tarot".to_string(),
        response_mode: "query".to_string(),
        response_type: "code".to_string(),
        scope: "offline_access openid email profile".to_string(),
        code_verifier: "v".to_string(),
        code_challenge: "CH".to_string(),
        code_challenge_method: "S256".to_string(),
    }
}

#[test]
fn auth_url_is_exactly_the_serialized_parameter_set() {
    let url = generate_auth_url(fixed_params(), &test_config()).unwrap();
    assert_eq!(
        url,
        "https://idp.example/authorize?client_id=client123\
         &redirect_uri=https%3A%2F%2Fapp.example%2Fauth%2Fcallback\
         &state=st-1&audience=hyper-tarot&response_mode=query&response_type=code\
         &scope=offline_access+openid+email+profile\
         &code_challenge=CH&code_challenge_method=S256"
    );
}

#[test]
fn auth_url_percent_encodes_parameter_values() {
    let mut params = fixed_params();
    params.state = "a&b=c %".to_string();
    let url = generate_auth_url(params, &test_config()).unwrap();
    assert!(url.contains("&state=a%26b%3Dc+%25&"));
}

#[test]
fn auth_url_encodes_multibyte_characters_as_utf8() {
    let mut params = fixed_params();
    params.state = "é€".to_string();
    let url = generate_auth_url(params, &test_config()).unwrap();
    // U+00E9 is C3 A9, U+20AC is E2 82 AC.
    assert!(url.contains("&state=%C3%A9%E2%82%AC&"));
}

#[test]
fn auth_url_rejects_malformed_endpoint() {
    let mut config = test_config();
    config.oauth.authorization_endpoint = "not a url".to_string();
    assert!(matches!(
        generate_auth_url(fixed_params(), &config),
        Err(AuthError::Config)
    ));
}

#[test]
fn redirect_url_replaces_the_path_with_the_callback_path() {
    let config = test_config();
    assert_eq!(build_redirect_url(&config), "https://app.example/auth/callback");
    let mut config = test_config();
    config.self_url = "https://app.example".to_string();
    assert_eq!(build_redirect_url(&config), "https://app.example/auth/callback");
    // An existing path is replaced, not extended.
    config.self_url = "https://app.example/some/path".to_string();
    assert_eq!(build_redirect_url(&config), "https://app.example/auth/callback");
    // Scheme, host and port are preserved.
    config.self_url = "https://app.example:8443/x".to_string();
    assert_eq!(build_redirect_url(&config), "https://app.example:8443/auth/callback");
}

#[test]
fn logout_url_carries_the_client_id() {
    let config = test_config();
    assert_eq!(
        generate_logout_url(&config),
        "https://idp.example/logout?client_id=client123"
    );
}

#[test]
fn logout_url_of_malformed_endpoint_is_the_failure_text() {
    let mut config = test_config();
    config.oauth.end_session_endpoint = "::nope::".to_string();
    assert_eq!(generate_logout_url(&config), "Failed to generate logout URL");
}

#[test]
fn discovery_url_trims_one_trailing_slash() {
    assert_eq!(
        discovery_url("https://idp.example/"),
        "https://idp.example/.well-known/openid-configuration"
    );
    assert_eq!(
        discovery_url("https://idp.example"),
        "https://idp.example/.well-known/openid-configuration"
    );
}

#[test]
fn token_payload_body_is_the_serialized_fields() {
    let payload = hyper_tarot::oauth::TokenExchangePayload {
        code: "the code".to_string(),
        grant_type: "authorization_code".to_string(),
        client_id: "client123".to_string(),
        client_secret: "s&s".to_string(),
        redirect_uri: "https://app.example/auth/callback".to_string(),
        code_verifier: "v_1-2.3".to_string(),
    };
    assert_eq!(
        hyper_tarot::urls::encode_token_payload(&payload),
        "code=the+code&grant_type=authorization_code&client_id=client123\
         &client_secret=s%26s\
         &redirect_uri=https%3A%2F%2Fapp.example%2Fauth%2Fcallback\
         &code_verifier=v_1-2.3"
    );
}
