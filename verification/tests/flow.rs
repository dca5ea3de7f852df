use mcp_oauth_proxy::codes::{create_auth_code, derive_key, DownstreamTokens};
use mcp_oauth_proxy::config::{DownstreamConfig, Strategy};
use mcp_oauth_proxy::flow::{
    authorize, callback_failure_code, issue_chained_code, AuthorizeAction, AuthorizeError,
    AuthorizeRequest,
};
use mcp_oauth_proxy::state::{sign_proxy_state, verify_proxy_state, ProxyState, StateError};
use mcp_oauth_proxy::token::{compute_challenge, exchange_at, TokenError};

const VERIFIER: &str = "dBjftJeZ4CVP-mB92K27uhbUJU1p1r_wW1gFWFOEjXk";
const CHALLENGE: &str = "E9Melhoa2OwvFrEMTJguCHaoeK1t8URWbuGJSstw-cM";

fn gh_downstream() -> DownstreamConfig {
    DownstreamConfig {
        name: "gh".to_string(),
        display_name: "GitHub".to_string(),
        strategy: Strategy::ChainedOauth,
        downstream_url: "https://api.github.com/mcp".to_string(),
        auth_header_format: "Bearer".to_string(),
        scopes: String::new(),
        auth_hint: String::new(),
        oauth_authorize_url: "https://github.com/login/oauth/authorize".to_string(),
        oauth_token_url: "https://github.com/login/oauth/access_token".to_string(),
        oauth_client_id: "client-id-123".to_string(),
        oauth_client_secret: "client-secret-456".to_string(),
        oauth_scopes: String::new(),
        oauth_supports_refresh: true,
        oauth_token_accept: "application/json".to_string(),
    }
}

fn request() -> AuthorizeRequest {
    AuthorizeRequest {
        response_type: "code".to_string(),
        code_challenge: CHALLENGE.to_string(),
        code_challenge_method: "S256".to_string(),
        redirect_uri: "https://client.example/callback".to_string(),
        state: "client-state-xyz".to_string(),
    }
}

#[test]
fn test_compute_challenge_rfc_vector() {
    // the S256 example pair from the PKCE specification
    assert_eq!(compute_challenge(VERIFIER), CHALLENGE);
}

#[test]
fn test_pkce_binding() {
    let secret = vec![0x11u8; 32];
    let code = create_auth_code(
        DownstreamTokens::Passthrough {
            access_token: "tok".to_string(),
        },
        CHALLENGE,
        "https://client.example/callback",
        300,
        &secret,
    )
    .unwrap();
    // wrong verifier: invalid_grant
    let bad = exchange_at(
        "authorization_code",
        &code,
        "wrong-verifier",
        "https://client.example/callback",
        &secret,
        0,
    );
    assert_eq!(bad.unwrap_err(), TokenError::InvalidGrant);
    // right verifier: success
    let ok = exchange_at(
        "authorization_code",
        &code,
        VERIFIER,
        "https://client.example/callback",
        &secret,
        0,
    )
    .unwrap();
    assert_eq!(ok.access_token, "tok");
    assert_eq!(ok.token_type, "bearer");
}

#[test]
fn test_exchange_rejects_wrong_grant_type_and_redirect() {
    let secret = vec![0x11u8; 32];
    let code = create_auth_code(
        DownstreamTokens::Passthrough {
            access_token: "tok".to_string(),
        },
        CHALLENGE,
        "https://client.example/callback",
        300,
        &secret,
    )
    .unwrap();
    assert_eq!(
        exchange_at("refresh_token", &code, VERIFIER, "https://client.example/callback", &secret, 0)
            .unwrap_err(),
        TokenError::UnsupportedGrantType
    );
    assert_eq!(
        exchange_at("authorization_code", &code, VERIFIER, "https://evil.example/cb", &secret, 0)
            .unwrap_err(),
        TokenError::InvalidGrant
    );
}

#[test]
fn test_error_codes() {
    assert_eq!(TokenError::InvalidGrant.error_code(), "invalid_grant");
    assert_eq!(
        TokenError::UnsupportedGrantType.error_code(),
        "unsupported_grant_type"
    );
}

#[test]
fn test_callback_failure_codes() {
    assert_eq!(callback_failure_code(true), "server_error");
    assert_eq!(callback_failure_code(false), "access_denied");
}

#[test]
fn test_proxy_state_round_trip() {
    let secret = vec![0x22u8; 32];
    let key = derive_key(&secret);
    let st = ProxyState {
        downstream: "gh".to_string(),
        client_state: "s1".to_string(),
        pkce_challenge: CHALLENGE.to_string(),
        redirect_uri: "https://client.example/callback".to_string(),
        issued_at: 1000,
    };
    let token = sign_proxy_state(&st, &key).unwrap();
    let back = verify_proxy_state(&token, &key, 1100, 300).unwrap();
    assert_eq!(back.downstream, "gh");
    assert_eq!(back.client_state, "s1");
    assert_eq!(back.pkce_challenge, CHALLENGE);
    assert_eq!(back.redirect_uri, "https://client.example/callback");
    assert_eq!(back.issued_at, 1000);
}

#[test]
fn test_proxy_state_tamper_and_staleness() {
    let secret = vec![0x22u8; 32];
    let key = derive_key(&secret);
    let st = ProxyState {
        downstream: "gh".to_string(),
        client_state: "s1".to_string(),
        pkce_challenge: CHALLENGE.to_string(),
        redirect_uri: "https://client.example/callback".to_string(),
        issued_at: 1000,
    };
    let token = sign_proxy_state(&st, &key).unwrap();
    // flip one character
    let mut t = token.clone().into_bytes();
    let mid = t.len() / 2;
    t[mid] = if t[mid] == b'A' { b'B' } else { b'A' };
    let tampered = String::from_utf8(t).unwrap();
    assert!(verify_proxy_state(&tampered, &key, 1100, 300).is_err());
    // outside the freshness window
    assert_eq!(
        verify_proxy_state(&token, &key, 1401, 300).unwrap_err(),
        StateError::Stale
    );
    // echoed before it was issued
    assert_eq!(
        verify_proxy_state(&token, &key, 999, 300).unwrap_err(),
        StateError::Stale
    );
    // a different key rejects the signature
    let other = derive_key(&vec![0x33u8; 32]);
    assert_eq!(
        verify_proxy_state(&token, &other, 1100, 300).unwrap_err(),
        StateError::BadSignature
    );
}

#[test]
fn test_authorize_request_checks() {
    let downstreams = vec![gh_downstream()];
    let secret = vec![0x22u8; 32];
    let key = derive_key(&secret);
    let mut req = request();
    req.code_challenge_method = "plain".to_string();
    assert_eq!(
        authorize(&downstreams, "gh", &req, &key, 1000).unwrap_err(),
        AuthorizeError::UnsupportedChallengeMethod
    );
    assert_eq!(
        authorize(&downstreams, "nope", &request(), &key, 1000).unwrap_err(),
        AuthorizeError::UnknownDownstream
    );
    let mut req2 = request();
    req2.redirect_uri = String::new();
    assert_eq!(
        authorize(&downstreams, "gh", &req2, &key, 1000).unwrap_err(),
        AuthorizeError::MissingRedirectUri
    );
}

#[test]
fn test_end_to_end_chained_flow() {
    // downstream "gh" configured as chained OAuth
    let downstreams = vec![gh_downstream()];
    let secret = vec![0x44u8; 32];
    let key = derive_key(&secret);
    let now: u64 = 1_700_000_000;

    // client starts /authorize with a valid S256 challenge
    let action = authorize(&downstreams, "gh", &request(), &key, now).unwrap();
    let proxy_state = match action {
        AuthorizeAction::RedirectUpstream {
            authorize_url,
            client_id,
            proxy_state,
        } => {
            assert_eq!(authorize_url, "https://github.com/login/oauth/authorize");
            assert_eq!(client_id, "client-id-123");
            proxy_state
        }
        _ => panic!("expected a redirect to the upstream provider"),
    };

    // the provider echoes the state back at /callback; it verifies fresh
    let st = verify_proxy_state(&proxy_state, &key, now + 30, 300).unwrap();
    assert_eq!(st.downstream, "gh");
    assert_eq!(st.client_state, "client-state-xyz");

    // simulated upstream token exchange result
    let code = issue_chained_code(
        "gh-access".to_string(),
        Some("gh-refresh".to_string()),
        Some(28800),
        &st,
        300,
        &secret,
        now + 31,
    )
    .unwrap();

    // exchanging the code with the correct verifier returns exactly the
    // upstream fields
    let resp = exchange_at(
        "authorization_code",
        &code,
        VERIFIER,
        "https://client.example/callback",
        &secret,
        now + 60,
    )
    .unwrap();
    assert_eq!(resp.access_token, "gh-access");
    assert_eq!(resp.refresh_token, Some("gh-refresh".to_string()));
    assert_eq!(resp.expires_in, Some(28800));
    assert_eq!(resp.token_type, "bearer");

    // and with a wrong verifier it fails
    assert_eq!(
        exchange_at(
            "authorization_code",
            &code,
            "not-the-verifier",
            "https://client.example/callback",
            &secret,
            now + 60,
        )
        .unwrap_err(),
        TokenError::InvalidGrant
    );
}
