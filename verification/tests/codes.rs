use mcp_oauth_proxy::codes::{
    create_auth_code, create_auth_code_at, validate_auth_code, validate_auth_code_at,
    DownstreamTokens,
};
use mcp_oauth_proxy::json::serialize_payload;
use mcp_oauth_proxy::codes::AuthCodePayload;

fn test_secret() -> Vec<u8> {
    vec![0xAA; 32]
}

#[test]
fn test_round_trip_passthrough() {
    let secret = test_secret();
    let code = create_auth_code(
        DownstreamTokens::Passthrough {
            access_token: "my-api-key".to_string(),
        },
        "E9Melhoa2OwvFrEMTJguCHaoeK1t8URWbuGJSstw-cM",
        "http://localhost:9999/callback",
        300,
        &secret,
    )
    .unwrap();

    let grant = validate_auth_code(&code, &secret).unwrap();
    assert_eq!(grant.redirect_uri, "http://localhost:9999/callback");
    assert_eq!(
        grant.pkce_challenge,
        "E9Melhoa2OwvFrEMTJguCHaoeK1t8URWbuGJSstw-cM"
    );
    match grant.downstream_tokens {
        DownstreamTokens::Passthrough { access_token } => {
            assert_eq!(access_token, "my-api-key");
        }
        _ => panic!("expected Passthrough variant"),
    }
}

#[test]
fn test_round_trip_chained_oauth() {
    let secret = test_secret();
    let code = create_auth_code(
        DownstreamTokens::ChainedOAuth {
            access_token: "gh-access".to_string(),
            refresh_token: Some("gh-refresh".to_string()),
            expires_in: Some(28800),
        },
        "challenge123",
        "https://client.example/callback",
        300,
        &secret,
    )
    .unwrap();

    let grant = validate_auth_code(&code, &secret).unwrap();
    match grant.downstream_tokens {
        DownstreamTokens::ChainedOAuth {
            access_token,
            refresh_token,
            expires_in,
        } => {
            assert_eq!(access_token, "gh-access");
            assert_eq!(refresh_token.unwrap(), "gh-refresh");
            assert_eq!(expires_in.unwrap(), 28800);
        }
        _ => panic!("expected ChainedOAuth variant"),
    }
}

#[test]
fn test_wrong_secret_fails() {
    let secret = test_secret();
    let code = create_auth_code(
        DownstreamTokens::Passthrough {
            access_token: "token".to_string(),
        },
        "challenge",
        "http://localhost/cb",
        300,
        &secret,
    )
    .unwrap();

    let wrong_secret = vec![0xBB; 32];
    let result = validate_auth_code(&code, &wrong_secret);
    assert!(result.is_err());
    assert_eq!(
        result.unwrap_err(),
        "authorization code is invalid or tampered"
    );
}

#[test]
fn test_expired_code_fails() {
    let secret = test_secret();
    // Create with 0 TTL at a fixed clock reading - expired one second later
    let code = create_auth_code_at(
        DownstreamTokens::Passthrough {
            access_token: "token".to_string(),
        },
        "challenge",
        "http://localhost/cb",
        0,
        &secret,
        1_700_000_000,
    )
    .unwrap();

    let result = validate_auth_code_at(&code, &secret, 1_700_000_001);
    assert!(result.is_err());
    assert_eq!(result.unwrap_err(), "authorization code expired");

    // At the issue instant itself the code is still valid
    assert!(validate_auth_code_at(&code, &secret, 1_700_000_000).is_ok());
}

#[test]
fn test_tampered_code_fails() {
    let secret = test_secret();
    let code = create_auth_code(
        DownstreamTokens::Passthrough {
            access_token: "token".to_string(),
        },
        "challenge",
        "http://localhost/cb",
        300,
        &secret,
    )
    .unwrap();

    // Flip a character in the middle of the code
    let mut tampered = code.into_bytes();
    let mid = tampered.len() / 2;
    tampered[mid] = if tampered[mid] == b'A' { b'B' } else { b'A' };
    let tampered = String::from_utf8(tampered).unwrap();

    let result = validate_auth_code(&tampered, &secret);
    assert!(result.is_err());
}

#[test]
fn test_garbage_input_fails() {
    let secret = test_secret();
    assert!(validate_auth_code("not-a-valid-code", &secret).is_err());
    assert!(validate_auth_code("", &secret).is_err());
    assert!(validate_auth_code("AAAA", &secret).is_err());
}

#[test]
fn test_error_buckets_are_distinct() {
    let secret = test_secret();
    // base64url decoding failure
    assert_eq!(
        validate_auth_code_at("!!!", &secret, 0).unwrap_err(),
        "invalid authorization code encoding"
    );
    // decodes to fewer than 13 bytes
    assert_eq!(
        validate_auth_code_at("AAAA", &secret, 0).unwrap_err(),
        "authorization code too short"
    );
    // 13+ bytes but the tag cannot verify
    assert_eq!(
        validate_auth_code_at("AAAAAAAAAAAAAAAAAAAAAAAAAA", &secret, 0).unwrap_err(),
        "authorization code is invalid or tampered"
    );
}

#[test]
fn test_canonical_json_serialization() {
    // The plaintext is the compact JSON form, with string escapes and
    // optional fields omitted when absent.
    let p = AuthCodePayload {
        downstream_tokens: DownstreamTokens::Passthrough {
            access_token: "a\"b\nc".to_string(),
        },
        pkce_challenge: "x".to_string(),
        redirect_uri: "http://r".to_string(),
        exp: 5,
    };
    let bytes = serialize_payload(&p);
    let text = String::from_utf8(bytes).unwrap();
    assert_eq!(
        text,
        "{\"downstream_tokens\":{\"type\":\"passthrough\",\"access_token\":\"a\\\"b\\nc\"},\"pkce_challenge\":\"x\",\"redirect_uri\":\"http://r\",\"exp\":5}"
    );

    let q = AuthCodePayload {
        downstream_tokens: DownstreamTokens::ChainedOAuth {
            access_token: "at".to_string(),
            refresh_token: None,
            expires_in: Some(7),
        },
        pkce_challenge: "c".to_string(),
        redirect_uri: "u".to_string(),
        exp: 1234567890,
    };
    let qtext = String::from_utf8(serialize_payload(&q)).unwrap();
    assert_eq!(
        qtext,
        "{\"downstream_tokens\":{\"type\":\"chained_oauth\",\"access_token\":\"at\",\"expires_in\":7},\"pkce_challenge\":\"c\",\"redirect_uri\":\"u\",\"exp\":1234567890}"
    );
}

#[test]
fn test_unicode_envelope_round_trip() {
    let secret = test_secret();
    let code = create_auth_code(
        DownstreamTokens::Passthrough {
            access_token: "cl\u{e9} \u{1f510}\ttab".to_string(),
        },
        "ch\\al\"lenge",
        "https://example.com/cb?a=b&c=d",
        60,
        &secret,
    )
    .unwrap();
    let grant = validate_auth_code(&code, &secret).unwrap();
    assert_eq!(grant.pkce_challenge, "ch\\al\"lenge");
    assert_eq!(grant.redirect_uri, "https://example.com/cb?a=b&c=d");
    match grant.downstream_tokens {
        DownstreamTokens::Passthrough { access_token } => {
            assert_eq!(access_token, "cl\u{e9} \u{1f510}\ttab");
        }
        _ => panic!("expected Passthrough variant"),
    }
}
