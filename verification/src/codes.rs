//! Stateless encrypted authorization codes.
//!
//! Instead of a server-side store, the authorization code itself is an
//! AES-256-GCM encrypted blob holding the downstream tokens, the PKCE
//! challenge, the redirect URI, and an expiry. On token exchange the proxy
//! decrypts the code, checks expiry, and returns the embedded grant.
//!
//! Wire format: base64url_nopad( nonce (12 bytes) || ciphertext and tag ),
//! where the plaintext is the JSON serialization of the payload.

use vstd::prelude::*;
use vstd::slice::slice_subrange;
use crate::b64::{b64url_dec, b64url_decode, b64url_encode, b64url_of, is_b64url_char};
use crate::crypto::{
    aes256gcm_decrypt, aes256gcm_encrypt, aes_gcm_dec, aes_gcm_enc, generate_nonce,
    now_unix_seconds, sha256, sha256_of,
};
use crate::json::{json_of_payload, lemma_parse_of_json, parse_payload, parse_payload_x,
    serialize_payload};

verus! {

/// Tokens embedded inside the encrypted authorization code.
#[derive(Debug, Clone)]
pub enum DownstreamTokens {
    Passthrough { access_token: String },
    ChainedOAuth {
        access_token: String,
        refresh_token: Option<String>,
        expires_in: Option<u64>,
    },
}

/// The mathematical shape of the embedded tokens.
pub enum TokensView {
    Passthrough { access_token: Seq<char> },
    ChainedOAuth {
        access_token: Seq<char>,
        refresh_token: Option<Seq<char>>,
        expires_in: Option<u64>,
    },
}

impl View for DownstreamTokens {
    type V = TokensView;

    open spec fn view(&self) -> TokensView {
        match self {
            DownstreamTokens::Passthrough { access_token } => TokensView::Passthrough {
                access_token: access_token@,
            },
            DownstreamTokens::ChainedOAuth { access_token, refresh_token, expires_in } => {
                TokensView::ChainedOAuth {
                    access_token: access_token@,
                    refresh_token: match refresh_token {
                        Some(s) => Some(s@),
                        None => None,
                    },
                    expires_in: *expires_in,
                }
            },
        }
    }
}

/// The plaintext payload encrypted inside the authorization code.
pub struct AuthCodePayload {
    pub downstream_tokens: DownstreamTokens,
    pub pkce_challenge: String,
    pub redirect_uri: String,
    pub exp: u64,
}

/// The mathematical shape of the payload.
pub struct PayloadView {
    pub downstream_tokens: TokensView,
    pub pkce_challenge: Seq<char>,
    pub redirect_uri: Seq<char>,
    pub exp: u64,
}

impl View for AuthCodePayload {
    type V = PayloadView;

    open spec fn view(&self) -> PayloadView {
        PayloadView {
            downstream_tokens: self.downstream_tokens@,
            pkce_challenge: self.pkce_challenge@,
            redirect_uri: self.redirect_uri@,
            exp: self.exp,
        }
    }
}

/// Result of decrypting and validating an authorization code.
#[derive(Debug)]
pub struct ValidatedGrant {
    pub downstream_tokens: DownstreamTokens,
    pub pkce_challenge: String,
    pub redirect_uri: String,
}

/// The mathematical shape of a validated grant.
pub struct GrantView {
    pub downstream_tokens: TokensView,
    pub pkce_challenge: Seq<char>,
    pub redirect_uri: Seq<char>,
}

impl View for ValidatedGrant {
    type V = GrantView;

    open spec fn view(&self) -> GrantView {
        GrantView {
            downstream_tokens: self.downstream_tokens@,
            pkce_challenge: self.pkce_challenge@,
            redirect_uri: self.redirect_uri@,
        }
    }
}

/// The grant carried by a payload: everything but the expiry.
pub open spec fn grant_of(p: PayloadView) -> GrantView {
    GrantView {
        downstream_tokens: p.downstream_tokens,
        pkce_challenge: p.pkce_challenge,
        redirect_uri: p.redirect_uri,
    }
}

/// The five coarse ways a code can fail validation; the client is never told
/// more than this.
#[derive(Clone, Copy, Debug, PartialEq, Eq, Structural)]
pub enum CodecError {
    Encoding,
    TooShort,
    Tampered,
    Corrupt,
    Expired,
}

/// The stable diagnostic for each failure bucket.
pub open spec fn codec_error_msg(e: CodecError) -> Seq<char> {
    match e {
        CodecError::Encoding => "invalid authorization code encoding"@,
        CodecError::TooShort => "authorization code too short"@,
        CodecError::Tampered => "authorization code is invalid or tampered"@,
        CodecError::Corrupt => "authorization code payload corrupt"@,
        CodecError::Expired => "authorization code expired"@,
    }
}

/// What validating a code at time `now` yields: base64url decoding, a length
/// floor of nonce plus one ciphertext byte, authenticated decryption under the
/// key derived from the secret, payload parsing, and the expiry comparison.
pub open spec fn spec_validate_code(code: Seq<char>, secret: Seq<u8>, now: u64) -> Result<
    GrantView,
    CodecError,
> {
    match b64url_dec(code) {
        None => Err(CodecError::Encoding),
        Some(blob) => if blob.len() < 13 {
            Err(CodecError::TooShort)
        } else {
            match aes_gcm_dec(sha256_of(secret), blob.take(12), blob.skip(12)) {
                None => Err(CodecError::Tampered),
                Some(pt) => match parse_payload(pt) {
                    None => Err(CodecError::Corrupt),
                    Some(p) => if now > p.exp {
                        Err(CodecError::Expired)
                    } else {
                        Ok(grant_of(p))
                    },
                },
            }
        },
    }
}

/// Derives the 256-bit AES key from the server's secret by hashing it, so any
/// validated secret becomes a uniform 32-byte key, the same on every instance
/// and across restarts.
pub fn derive_key(state_secret: &[u8]) -> (r: [u8; 32])
    ensures
        r@ == sha256_of(state_secret@),
{
    sha256(state_secret)
}

/// Decrypts and validates an authorization code against the clock reading
/// `now`, returning the embedded grant or one of the five stable errors.
pub fn validate_auth_code_at(code: &str, state_secret: &[u8], now: u64) -> (r: Result<
    ValidatedGrant,
    &'static str,
>)
    ensures
        match r {
            Ok(g) => spec_validate_code(code@, state_secret@, now) == Ok::<GrantView, CodecError>(
                g@,
            ),
            Err(m) => spec_validate_code(code@, state_secret@, now) matches Err(e) && m@
                == codec_error_msg(e),
        },
{
    let blob = match b64url_decode(code) {
        None => {
            return Err("invalid authorization code encoding");
        },
        Some(b) => b,
    };
    if blob.len() < 13 {
        return Err("authorization code too short");
    }
    let nonce = slice_subrange(blob.as_slice(), 0, 12);
    let ct = slice_subrange(blob.as_slice(), 12, blob.len());
    let key = derive_key(state_secret);
    proof {
        assert(nonce@ =~= blob@.take(12));
        assert(ct@ =~= blob@.skip(12));
    }
    let pt = match aes256gcm_decrypt(key.as_slice(), nonce, ct) {
        None => {
            return Err("authorization code is invalid or tampered");
        },
        Some(p) => p,
    };
    let payload = match parse_payload_x(pt.as_slice()) {
        None => {
            return Err("authorization code payload corrupt");
        },
        Some(p) => p,
    };
    if now > payload.exp {
        return Err("authorization code expired");
    }
    Ok(
        ValidatedGrant {
            downstream_tokens: payload.downstream_tokens,
            pkce_challenge: payload.pkce_challenge,
            redirect_uri: payload.redirect_uri,
        },
    )
}

/// Decrypts and validates an authorization code against the current wall
/// clock.
pub fn validate_auth_code(code: &str, state_secret: &[u8]) -> (r: Result<
    ValidatedGrant,
    &'static str,
>)
    ensures
        match r {
            Ok(g) => exists|now: u64|
                spec_validate_code(code@, state_secret@, now) == Ok::<GrantView, CodecError>(g@),
            Err(m) => m@ == "system time error"@ || exists|now: u64|
                #[trigger] spec_validate_code(code@, state_secret@, now) matches Err(e) && m@
                    == codec_error_msg(e),
        },
{
    match now_unix_seconds() {
        None => Err("system time error"),
        Some(now) => validate_auth_code_at(code, state_secret, now),
    }
}

/// The payload assembled by code creation.
pub open spec fn payload_view_of(t: TokensView, pk: Seq<char>, ru: Seq<char>, exp: u64)
    -> PayloadView {
    PayloadView { downstream_tokens: t, pkce_challenge: pk, redirect_uri: ru, exp: exp }
}

/// The code round-trips: validating it under the same secret at any time up
/// to its expiry returns exactly the grant it was created from.
pub open spec fn code_valid_until(code: Seq<char>, secret: Seq<u8>, g: GrantView, exp: u64)
    -> bool {
    forall|t: u64|
        t <= exp ==> spec_validate_code(code, secret, t) == Ok::<GrantView, CodecError>(g)
}

/// The code carries its own expiry: validating it under the same secret at
/// any time past the expiry fails as expired.
pub open spec fn code_expired_after(code: Seq<char>, secret: Seq<u8>, exp: u64) -> bool {
    forall|t: u64|
        t > exp ==> spec_validate_code(code, secret, t) == Err::<GrantView, CodecError>(
            CodecError::Expired,
        )
}

/// The code's wire format: base64url without padding (so every character is
/// query-parameter safe) of a fresh 12-byte nonce followed by the AES-256-GCM
/// ciphertext and tag of the payload's JSON bytes, under the key derived from
/// the secret, with no associated data.
pub open spec fn code_wire_format(code: Seq<char>, secret: Seq<u8>, p: PayloadView) -> bool {
    &&& exists|nonce: Seq<u8>|
        nonce.len() == 12 && code == b64url_of(
            nonce + #[trigger] aes_gcm_enc(sha256_of(secret), nonce, json_of_payload(p)),
        )
    &&& forall|i: int| 0 <= i < code.len() ==> is_b64url_char(#[trigger] code[i])
}

/// The largest payload the codec will encrypt; anything longer is refused.
pub const MAX_CODE_PLAINTEXT: usize = 0x0FFF_FFE0;

/// Creates an encrypted authorization code from the grant data, expiring
/// `ttl_seconds` after `now`. On success the code validates, under the same
/// secret, to exactly this grant at every time up to the expiry; it fails
/// exactly when the expiry does not fit a 64-bit timestamp or the payload is
/// over the size limit.
pub fn create_auth_code_at(
    downstream_tokens: DownstreamTokens,
    pkce_challenge: &str,
    redirect_uri: &str,
    ttl_seconds: u64,
    state_secret: &[u8],
    now: u64,
) -> (r: Result<String, String>)
    ensures
        r matches Ok(code) ==> now + ttl_seconds <= u64::MAX && code_valid_until(
            code@,
            state_secret@,
            GrantView {
                downstream_tokens: downstream_tokens@,
                pkce_challenge: pkce_challenge@,
                redirect_uri: redirect_uri@,
            },
            (now + ttl_seconds) as u64,
        ) && code_expired_after(code@, state_secret@, (now + ttl_seconds) as u64)
            && code_wire_format(
            code@,
            state_secret@,
            payload_view_of(
                downstream_tokens@,
                pkce_challenge@,
                redirect_uri@,
                (now + ttl_seconds) as u64,
            ),
        ),
        r is Err <==> (now + ttl_seconds > u64::MAX || json_of_payload(
            payload_view_of(
                downstream_tokens@,
                pkce_challenge@,
                redirect_uri@,
                (now + ttl_seconds) as u64,
            ),
        ).len() > MAX_CODE_PLAINTEXT),
        r matches Err(m) ==> (now + ttl_seconds > u64::MAX && m@
            == "authorization code expiry overflows"@) || (now + ttl_seconds <= u64::MAX && m@
            == "authorization code payload too large"@),
{
    if ttl_seconds > u64::MAX - now {
        return Err("authorization code expiry overflows".to_owned());
    }
    let exp = now + ttl_seconds;
    let ghost tokens_view = downstream_tokens@;
    let payload = AuthCodePayload {
        downstream_tokens,
        pkce_challenge: pkce_challenge.to_owned(),
        redirect_uri: redirect_uri.to_owned(),
        exp,
    };
    proof {
        assert(payload@ == payload_view_of(tokens_view, pkce_challenge@, redirect_uri@, exp));
    }
    let pt = serialize_payload(&payload);
    if pt.len() > MAX_CODE_PLAINTEXT {
        return Err("authorization code payload too large".to_owned());
    }
    let key = derive_key(state_secret);
    let nonce = generate_nonce();
    let ct = match aes256gcm_encrypt(key.as_slice(), nonce.as_slice(), pt.as_slice()) {
        Ok(c) => c,
        Err(()) => {
            proof {
                assert(false);
            }
            return Err("encryption failed".to_owned());
        },
    };
    let ghost nonce_view = nonce@;
    let ghost ct_view = ct@;
    let mut blob = nonce;
    let mut ct_moved = ct;
    blob.append(&mut ct_moved);
    let code = b64url_encode(blob.as_slice());
    proof {
        assert(blob@ =~= nonce_view + ct_view);
        assert(blob@.take(12) =~= nonce_view);
        assert(blob@.skip(12) =~= ct_view);
        lemma_parse_of_json(payload@);
        assert forall|t: u64| t <= exp implies spec_validate_code(code@, state_secret@, t)
            == Ok::<GrantView, CodecError>(
            GrantView {
                downstream_tokens: tokens_view,
                pkce_challenge: pkce_challenge@,
                redirect_uri: redirect_uri@,
            },
        ) by {
            assert(b64url_dec(code@) == Some(blob@));
            assert(blob@.len() >= 13);
            assert(aes_gcm_dec(sha256_of(state_secret@), blob@.take(12), blob@.skip(12)) == Some(
                pt@,
            ));
            assert(parse_payload(pt@) == Some(payload@));
        }
        assert forall|t: u64| t > exp implies spec_validate_code(code@, state_secret@, t)
            == Err::<GrantView, CodecError>(CodecError::Expired) by {
            assert(b64url_dec(code@) == Some(blob@));
            assert(blob@.len() >= 13);
            assert(aes_gcm_dec(sha256_of(state_secret@), blob@.take(12), blob@.skip(12)) == Some(
                pt@,
            ));
            assert(parse_payload(pt@) == Some(payload@));
        }
        assert(ct_view == aes_gcm_enc(sha256_of(state_secret@), nonce_view, json_of_payload(
            payload@,
        )));
        assert(code@ == b64url_of(nonce_view + ct_view));
    }
    Ok(code)
}

/// Creates an encrypted authorization code expiring `ttl_seconds` from now.
/// The returned string is safe as a URL query parameter (base64url, no
/// padding). On success there is an expiry of at least `ttl_seconds` up to
/// which the code validates to exactly this grant.
pub fn create_auth_code(
    downstream_tokens: DownstreamTokens,
    pkce_challenge: &str,
    redirect_uri: &str,
    ttl_seconds: u64,
    state_secret: &[u8],
) -> (r: Result<String, String>)
    ensures
        r matches Ok(code) ==> exists|exp: u64|
            #[trigger] code_valid_until(
                code@,
                state_secret@,
                GrantView {
                    downstream_tokens: downstream_tokens@,
                    pkce_challenge: pkce_challenge@,
                    redirect_uri: redirect_uri@,
                },
                exp,
            ) && code_expired_after(code@, state_secret@, exp) && code_wire_format(
                code@,
                state_secret@,
                payload_view_of(downstream_tokens@, pkce_challenge@, redirect_uri@, exp),
            ) && exp >= ttl_seconds,
        r matches Err(m) ==> m@ == "system time error"@ || m@
            == "authorization code expiry overflows"@ || m@
            == "authorization code payload too large"@,
{
    match now_unix_seconds() {
        None => Err("system time error".to_owned()),
        Some(now) => create_auth_code_at(
            downstream_tokens,
            pkce_challenge,
            redirect_uri,
            ttl_seconds,
            state_secret,
            now,
        ),
    }
}

} // verus!

