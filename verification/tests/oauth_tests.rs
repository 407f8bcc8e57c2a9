use hyper_tarot::oauth::{
    compute_challenge, find_sig_key, is_sig_key, AuthorizationParams, JwkKey, KeyUse, LoginAttempt,
    OAUTH_CALLBACK_ENDPOINT, OAUTH_LOGIN_ENDPOINT, OAUTH_LOGOUT_ENDPOINT,
};

#[test]
fn challenge_matches_rfc7636_example() {
    // The verifier/challenge pair of RFC 7636, appendix B.
    let challenge = compute_challenge("dBjftJeZ4CVP-mB92K27uhbUJU1p1r_wW1gFWFOEjXk");
    assert_eq!(challenge, "E9Melhoa2OwvFrEMTJguCHaoeK1t8URWbuGJSstw-cM");
}

#[test]
fn challenge_of_empty_verifier() {
    // base64url(sha256("")) without its padding character.
    let challenge = compute_challenge("");
    assert_eq!(challenge, "47DEQpj8HBSa-_TImW-5JCeuQeRkm5NMpJWZG3hSuFU");
}

#[test]
fn challenge_has_no_padding() {
    let params = AuthorizationParams::new("client123".to_string(), "https://app/cb".to_string());
    assert!(!params.code_challenge.contains('='));
    assert_eq!(params.code_challenge.len(), 43);
}

#[test]
fn challenge_is_derived_from_verifier() {
    let params = AuthorizationParams::new("client123".to_string(), "https://app/cb".to_string());
    assert_eq!(params.code_challenge, compute_challenge(&params.code_verifier));
    // Anything but the SHA-256/base64url derivation would miss this.
    assert_ne!(params.code_challenge, params.code_verifier);
}

#[test]
fn authorization_params_fixed_fields() {
    let params = AuthorizationParams::new("client123".to_string(), "https://app/cb".to_string());
    assert_eq!(params.client_id, "client123");
    assert_eq!(params.redirect_uri, "https://app/cb");
    assert_eq!(params.response_mode, "query");
    assert_eq!(params.response_type, "code");
    assert_eq!(params.audience, "hyper-tarot");
    assert_eq!(params.scope, "offline_access openid email profile");
    assert_eq!(params.code_challenge_method, "S256");
    assert_eq!(params.state.len(), 36);
    assert_eq!(params.code_verifier.len(), 73);
}

#[test]
fn csrf_state_is_fresh_per_attempt() {
    let a = AuthorizationParams::new("c".to_string(), "https://app/cb".to_string());
    let b = AuthorizationParams::new("c".to_string(), "https://app/cb".to_string());
    assert_ne!(a.state, b.state);
    assert_ne!(a.code_verifier, b.code_verifier);
}

#[test]
fn login_attempt_from_params() {
    let params = AuthorizationParams::new("client123".to_string(), "https://app/cb".to_string());
    let attempt = LoginAttempt::from(params.clone());
    assert_eq!(attempt.pkce, params.code_verifier);
    assert_eq!(attempt.csrf, params.state);
}

#[test]
fn route_constants() {
    assert_eq!(OAUTH_LOGIN_ENDPOINT, "/auth/login");
    assert_eq!(OAUTH_LOGOUT_ENDPOINT, "/auth/logout");
    assert_eq!(OAUTH_CALLBACK_ENDPOINT, "/auth/callback");
}

#[test]
fn signature_key_selection() {
    let sig = JwkKey { public_key_use: Some(KeyUse::Signature) };
    let enc = JwkKey { public_key_use: Some(KeyUse::Encryption) };
    let none = JwkKey { public_key_use: None };
    assert!(is_sig_key(&sig));
    assert!(!is_sig_key(&enc));
    assert!(!is_sig_key(&none));
    let keys = vec![none.clone(), enc.clone(), sig.clone(), sig.clone()];
    assert_eq!(find_sig_key(&keys), Some(2));
    let keys = vec![none, enc];
    assert_eq!(find_sig_key(&keys), None);
    assert_eq!(find_sig_key(&Vec::new()), None);
}
