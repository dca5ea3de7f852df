//! The token-exchange handler: consumes an authorization code plus a PKCE
//! verifier, validates everything, and maps the embedded tokens to a standard
//! token response.

use vstd::prelude::*;
use vstd::string::StringSliceAdditionalSpecFns;
use vstd::utf8::encode_utf8;
use crate::b64::{b64url_encode, b64url_of};
use crate::codes::{spec_validate_code, validate_auth_code_at, DownstreamTokens, TokensView};
use crate::crypto::{now_unix_seconds, sha256, sha256_of};
use crate::strutil::{ct_str_eq, str_eq};

verus! {

/// The OAuth token response shape.
#[derive(Debug)]
pub struct TokenResponse {
    pub access_token: String,
    pub token_type: String,
    pub refresh_token: Option<String>,
    pub expires_in: Option<u64>,
}

/// The mathematical shape of a token response.
pub struct TokenResponseView {
    pub access_token: Seq<char>,
    pub token_type: Seq<char>,
    pub refresh_token: Option<Seq<char>>,
    pub expires_in: Option<u64>,
}

impl View for TokenResponse {
    type V = TokenResponseView;

    open spec fn view(&self) -> TokenResponseView {
        TokenResponseView {
            access_token: self.access_token@,
            token_type: self.token_type@,
            refresh_token: match &self.refresh_token {
                Some(s) => Some(s@),
                None => None,
            },
            expires_in: self.expires_in,
        }
    }
}

/// How a failed exchange is reported to the client.
#[derive(Clone, Copy, Debug, PartialEq, Eq, Structural)]
pub enum TokenError {
    UnsupportedGrantType,
    InvalidGrant,
}

impl TokenError {
    /// The standard OAuth error code for this failure.
    pub fn error_code(&self) -> (r: String)
        ensures
            r@ == (match self {
                TokenError::UnsupportedGrantType => "unsupported_grant_type"@,
                TokenError::InvalidGrant => "invalid_grant"@,
            }),
    {
        match self {
            TokenError::UnsupportedGrantType => "unsupported_grant_type".to_owned(),
            TokenError::InvalidGrant => "invalid_grant".to_owned(),
        }
    }
}

/// The S256 challenge derived from a verifier: base64url, no padding, of the
/// SHA-256 of the verifier's bytes.
pub open spec fn spec_challenge_of(verifier: Seq<char>) -> Seq<char> {
    b64url_of(sha256_of(encode_utf8(verifier)))
}

/// Computes the S256 challenge of a PKCE verifier.
pub fn compute_challenge(verifier: &str) -> (r: String)
    ensures
        r@ == spec_challenge_of(verifier@),
{
    let digest = sha256(verifier.as_bytes());
    b64url_encode(digest.as_slice())
}

/// The token response owed for each strategy's embedded tokens.
pub open spec fn token_response_of(t: TokensView) -> TokenResponseView {
    match t {
        TokensView::Passthrough { access_token } => TokenResponseView {
            access_token,
            token_type: "bearer"@,
            refresh_token: None,
            expires_in: None,
        },
        TokensView::ChainedOAuth { access_token, refresh_token, expires_in } => TokenResponseView {
            access_token,
            token_type: "bearer"@,
            refresh_token,
            expires_in,
        },
    }
}

/// What the exchange yields at time `now`: the grant type must be
/// `authorization_code`; the code must validate; the verifier's S256
/// challenge and the caller's redirect URI must both match the values bound
/// inside the code, each mismatch failing with `invalid_grant`.
pub open spec fn spec_exchange(
    grant_type: Seq<char>,
    code: Seq<char>,
    verifier: Seq<char>,
    redirect_uri: Seq<char>,
    secret: Seq<u8>,
    now: u64,
) -> Result<TokenResponseView, TokenError> {
    if grant_type != "authorization_code"@ {
        Err(TokenError::UnsupportedGrantType)
    } else {
        match spec_validate_code(code, secret, now) {
            Err(_) => Err(TokenError::InvalidGrant),
            Ok(g) => if spec_challenge_of(verifier) != g.pkce_challenge {
                Err(TokenError::InvalidGrant)
            } else if redirect_uri != g.redirect_uri {
                Err(TokenError::InvalidGrant)
            } else {
                Ok(token_response_of(g.downstream_tokens))
            },
        }
    }
}

/// Exchanges an authorization code for the downstream credentials at clock
/// reading `now`. The PKCE comparison runs in constant time.
pub fn exchange_at(
    grant_type: &str,
    code: &str,
    code_verifier: &str,
    redirect_uri: &str,
    state_secret: &[u8],
    now: u64,
) -> (r: Result<TokenResponse, TokenError>)
    ensures
        match r {
            Ok(t) => spec_exchange(
                grant_type@,
                code@,
                code_verifier@,
                redirect_uri@,
                state_secret@,
                now,
            ) == Ok::<TokenResponseView, TokenError>(t@),
            Err(e) => spec_exchange(
                grant_type@,
                code@,
                code_verifier@,
                redirect_uri@,
                state_secret@,
                now,
            ) == Err::<TokenResponseView, TokenError>(e),
        },
{
    if !str_eq(grant_type, "authorization_code") {
        return Err(TokenError::UnsupportedGrantType);
    }
    let grant = match validate_auth_code_at(code, state_secret, now) {
        Err(_) => {
            return Err(TokenError::InvalidGrant);
        },
        Ok(g) => g,
    };
    let challenge = compute_challenge(code_verifier);
    if !ct_str_eq(challenge.as_str(), grant.pkce_challenge.as_str()) {
        return Err(TokenError::InvalidGrant);
    }
    if !str_eq(redirect_uri, grant.redirect_uri.as_str()) {
        return Err(TokenError::InvalidGrant);
    }
    match grant.downstream_tokens {
        DownstreamTokens::Passthrough { access_token } => Ok(
            TokenResponse {
                access_token,
                token_type: "bearer".to_owned(),
                refresh_token: None,
                expires_in: None,
            },
        ),
        DownstreamTokens::ChainedOAuth { access_token, refresh_token, expires_in } => Ok(
            TokenResponse {
                access_token,
                token_type: "bearer".to_owned(),
                refresh_token,
                expires_in,
            },
        ),
    }
}

/// Exchanges an authorization code for the downstream credentials against the
/// current wall clock; a clock failure is reported as `invalid_grant`.
pub fn exchange(
    grant_type: &str,
    code: &str,
    code_verifier: &str,
    redirect_uri: &str,
    state_secret: &[u8],
) -> (r: Result<TokenResponse, TokenError>)
    ensures
        match r {
            Ok(t) => exists|now: u64|
                #[trigger] spec_exchange(
                    grant_type@,
                    code@,
                    code_verifier@,
                    redirect_uri@,
                    state_secret@,
                    now,
                ) == Ok::<TokenResponseView, TokenError>(t@),
            Err(e) => e == TokenError::InvalidGrant || exists|now: u64|
                #[trigger] spec_exchange(
                    grant_type@,
                    code@,
                    code_verifier@,
                    redirect_uri@,
                    state_secret@,
                    now,
                ) == Err::<TokenResponseView, TokenError>(e),
        },
{
    match now_unix_seconds() {
        None => Err(TokenError::InvalidGrant),
        Some(now) => exchange_at(grant_type, code, code_verifier, redirect_uri, state_secret, now),
    }
}

} // verus!
