//! The authorization flow decisions: validating an authorization request,
//! branching on the downstream's strategy, signing the cross-redirect state,
//! and issuing the final code after the upstream exchange.

use vstd::prelude::*;
use crate::codes::{
    code_expired_after, code_valid_until, code_wire_format, create_auth_code_at,
    payload_view_of, DownstreamTokens, GrantView, TokensView, MAX_CODE_PLAINTEXT,
};
use crate::json::json_of_payload;
use crate::config::{DownstreamConfig, Strategy};
use crate::state::{sign_proxy_state, spec_verify_state, state_bytes, ProxyState, ProxyStateView,
    StateError, MAX_STATE_BYTES};
use crate::strutil::str_eq;

verus! {

/// The OAuth parameters of an authorization request.
pub struct AuthorizeRequest {
    pub response_type: String,
    pub code_challenge: String,
    pub code_challenge_method: String,
    pub redirect_uri: String,
    pub state: String,
}

/// The mathematical shape of an authorization request.
pub struct AuthorizeRequestView {
    pub response_type: Seq<char>,
    pub code_challenge: Seq<char>,
    pub code_challenge_method: Seq<char>,
    pub redirect_uri: Seq<char>,
    pub state: Seq<char>,
}

impl View for AuthorizeRequest {
    type V = AuthorizeRequestView;

    open spec fn view(&self) -> AuthorizeRequestView {
        AuthorizeRequestView {
            response_type: self.response_type@,
            code_challenge: self.code_challenge@,
            code_challenge_method: self.code_challenge_method@,
            redirect_uri: self.redirect_uri@,
            state: self.state@,
        }
    }
}

/// Why an authorization request is turned away.
#[derive(Clone, Copy, Debug, PartialEq, Eq, Structural)]
pub enum AuthorizeError {
    UnknownDownstream,
    UnsupportedResponseType,
    MissingRedirectUri,
    UnsupportedChallengeMethod,
    MissingChallenge,
    StateTooLarge,
}

/// What the orchestrator asks the transport layer to do next.
#[derive(Debug)]
pub enum AuthorizeAction {
    /// Passthrough: render the credential-capture step.
    CapturePage,
    /// Chained OAuth: redirect to the upstream provider, carrying the signed
    /// proxy state.
    RedirectUpstream { authorize_url: String, client_id: String, proxy_state: String },
}

/// The first request-level error, in check order: only `response_type=code`,
/// a present redirect URI, the S256 challenge method, and a present challenge
/// are accepted.
pub open spec fn authorize_err_of(rq: AuthorizeRequestView) -> Option<AuthorizeError> {
    if rq.response_type != "code"@ {
        Some(AuthorizeError::UnsupportedResponseType)
    } else if rq.redirect_uri.len() == 0 {
        Some(AuthorizeError::MissingRedirectUri)
    } else if rq.code_challenge_method != "S256"@ {
        Some(AuthorizeError::UnsupportedChallengeMethod)
    } else if rq.code_challenge.len() == 0 {
        Some(AuthorizeError::MissingChallenge)
    } else {
        None
    }
}

/// The state that must survive the hop to the upstream provider: the
/// downstream's name, the client's own state, challenge and redirect URI, and
/// the issue timestamp.
pub open spec fn expected_proxy_state(ds: DownstreamConfig, rq: AuthorizeRequestView, now: u64)
    -> ProxyStateView {
    ProxyStateView {
        downstream: ds.name@,
        client_state: rq.state,
        pkce_challenge: rq.code_challenge,
        redirect_uri: rq.redirect_uri,
        issued_at: now,
    }
}

/// Finds the downstream configured under `name`.
pub fn lookup_downstream<'a>(downstreams: &'a Vec<DownstreamConfig>, name: &str) -> (r: Option<
    &'a DownstreamConfig,
>)
    ensures
        match r {
            Some(ds) => ds.name@ == name@ && exists|i: int|
                0 <= i < downstreams@.len() && downstreams@[i] == *ds,
            None => forall|i: int|
                0 <= i < downstreams@.len() ==> #[trigger] downstreams@[i].name@ != name@,
        },
{
    let n = downstreams.len();
    let mut i: usize = 0;
    while i < n
        invariant
            n == downstreams@.len(),
            0 <= i <= n,
            forall|j: int| 0 <= j < i ==> #[trigger] downstreams@[j].name@ != name@,
        decreases n - i,
    {
        if str_eq(downstreams[i].name.as_str(), name) {
            return Some(&downstreams[i]);
        }
        i += 1;
    }
    None
}

/// What a successful authorization decision guarantees for the downstream it
/// was made against: a passthrough downstream gets the credential-capture
/// step; a chained-OAuth downstream gets a redirect to its own upstream
/// authorize URL with its own client id, carrying a signed state that
/// verifies back, within any window covering the elapsed time, to exactly
/// the client's own state, challenge and redirect URI, and is stale outside
/// every such window.
pub open spec fn authorize_action_ok(
    ds: DownstreamConfig,
    rq: AuthorizeRequestView,
    key: Seq<u8>,
    now: u64,
    action: AuthorizeAction,
) -> bool {
    match action {
        AuthorizeAction::CapturePage => ds.strategy == Strategy::Passthrough,
        AuthorizeAction::RedirectUpstream { authorize_url, client_id, proxy_state } => {
            &&& ds.strategy == Strategy::ChainedOauth
            &&& authorize_url@ == ds.oauth_authorize_url@
            &&& client_id@ == ds.oauth_client_id@
            &&& forall|t: u64, w: u64|
                now <= t && t - now <= w ==> spec_verify_state(proxy_state@, key, t, w)
                    == Ok::<ProxyStateView, StateError>(expected_proxy_state(ds, rq, now))
            &&& forall|t: u64, w: u64|
                !(now <= t && t - now <= w) ==> spec_verify_state(proxy_state@, key, t, w)
                    == Err::<ProxyStateView, StateError>(StateError::Stale)
        },
    }
}

/// Decides an authorization request against one downstream at clock reading
/// `now`: the request-level checks in order, then the strategy branch of
/// `authorize_action_ok`.
pub fn authorize_start(
    ds: &DownstreamConfig,
    req: &AuthorizeRequest,
    key: &[u8; 32],
    now: u64,
) -> (r: Result<AuthorizeAction, AuthorizeError>)
    ensures
        match r {
            Ok(action) => authorize_err_of(req@) is None && authorize_action_ok(
                *ds,
                req@,
                key@,
                now,
                action,
            ),
            Err(e) => match authorize_err_of(req@) {
                Some(first) => e == first,
                None => e == AuthorizeError::StateTooLarge && ds.strategy
                    == Strategy::ChainedOauth && state_bytes(
                    expected_proxy_state(*ds, req@, now),
                ).len() > MAX_STATE_BYTES,
            },
        },
{
    if !str_eq(req.response_type.as_str(), "code") {
        return Err(AuthorizeError::UnsupportedResponseType);
    }
    if req.redirect_uri.as_str().is_empty() {
        return Err(AuthorizeError::MissingRedirectUri);
    }
    if !str_eq(req.code_challenge_method.as_str(), "S256") {
        return Err(AuthorizeError::UnsupportedChallengeMethod);
    }
    if req.code_challenge.as_str().is_empty() {
        return Err(AuthorizeError::MissingChallenge);
    }
    match ds.strategy {
        Strategy::Passthrough => Ok(AuthorizeAction::CapturePage),
        Strategy::ChainedOauth => {
            let st = ProxyState {
                downstream: ds.name.clone(),
                client_state: req.state.clone(),
                pkce_challenge: req.code_challenge.clone(),
                redirect_uri: req.redirect_uri.clone(),
                issued_at: now,
            };
            proof {
                assert(st@ == expected_proxy_state(*ds, req@, now));
            }
            match sign_proxy_state(&st, key) {
                None => Err(AuthorizeError::StateTooLarge),
                Some(token) => Ok(
                    AuthorizeAction::RedirectUpstream {
                        authorize_url: ds.oauth_authorize_url.clone(),
                        client_id: ds.oauth_client_id.clone(),
                        proxy_state: token,
                    },
                ),
            }
        },
    }
}

/// Decides an authorization request against the whole registry: a name that
/// no downstream bears is turned away as unknown; otherwise the request is
/// decided for a downstream bearing the name, with `authorize_start`'s
/// guarantees in full.
pub fn authorize(
    downstreams: &Vec<DownstreamConfig>,
    name: &str,
    req: &AuthorizeRequest,
    key: &[u8; 32],
    now: u64,
) -> (r: Result<AuthorizeAction, AuthorizeError>)
    ensures
        match r {
            Ok(action) => authorize_err_of(req@) is None && exists|i: int|
                0 <= i < downstreams@.len() && (#[trigger] downstreams@[i]).name@ == name@
                    && authorize_action_ok(downstreams@[i], req@, key@, now, action),
            Err(e) => if e == AuthorizeError::UnknownDownstream {
                forall|i: int|
                    0 <= i < downstreams@.len() ==> (#[trigger] downstreams@[i]).name@ != name@
            } else {
                exists|i: int|
                    0 <= i < downstreams@.len() && (#[trigger] downstreams@[i]).name@ == name@ && (
                    match authorize_err_of(req@) {
                        Some(first) => e == first,
                        None => e == AuthorizeError::StateTooLarge && downstreams@[i].strategy
                            == Strategy::ChainedOauth && state_bytes(
                            expected_proxy_state(downstreams@[i], req@, now),
                        ).len() > MAX_STATE_BYTES,
                    })
            },
        },
{
    match lookup_downstream(downstreams, name) {
        None => Err(AuthorizeError::UnknownDownstream),
        Some(ds) => {
            let r2 = authorize_start(ds, req, key, now);
            proof {
                let i = choose|i: int|
                    0 <= i < downstreams@.len() && downstreams@[i] == *ds;
                assert((downstreams@[i]).name@ == name@);
                assert(r2 matches Ok(action) ==> authorize_action_ok(
                    downstreams@[i],
                    req@,
                    key@,
                    now,
                    action,
                ));
                assert(r2 matches Err(e) ==> e != AuthorizeError::UnknownDownstream);
            }
            r2
        },
    }
}

/// The embedded-tokens view built from an upstream token exchange result.
pub open spec fn chained_view(
    access_token: String,
    refresh_token: Option<String>,
    expires_in: Option<u64>,
) -> TokensView {
    TokensView::ChainedOAuth {
        access_token: access_token@,
        refresh_token: match refresh_token {
            Some(s) => Some(s@),
            None => None,
        },
        expires_in: expires_in,
    }
}

/// Builds the chained-OAuth authorization code after a verified callback and
/// upstream token exchange: the envelope embeds the upstream tokens together
/// with the original client's challenge and redirect URI taken from the
/// verified proxy state, never the proxy's own. It fails exactly when the
/// expiry does not fit a 64-bit timestamp or the payload is over the codec's
/// size limit.
pub fn issue_chained_code(
    access_token: String,
    refresh_token: Option<String>,
    expires_in: Option<u64>,
    st: &ProxyState,
    ttl_seconds: u64,
    state_secret: &[u8],
    now: u64,
) -> (r: Result<String, String>)
    ensures
        r matches Ok(code) ==> now + ttl_seconds <= u64::MAX && code_valid_until(
            code@,
            state_secret@,
            GrantView {
                downstream_tokens: chained_view(access_token, refresh_token, expires_in),
                pkce_challenge: st@.pkce_challenge,
                redirect_uri: st@.redirect_uri,
            },
            (now + ttl_seconds) as u64,
        ) && code_expired_after(code@, state_secret@, (now + ttl_seconds) as u64)
            && code_wire_format(
            code@,
            state_secret@,
            payload_view_of(
                chained_view(access_token, refresh_token, expires_in),
                st@.pkce_challenge,
                st@.redirect_uri,
                (now + ttl_seconds) as u64,
            ),
        ),
        r is Err <==> (now + ttl_seconds > u64::MAX || json_of_payload(
            payload_view_of(
                chained_view(access_token, refresh_token, expires_in),
                st@.pkce_challenge,
                st@.redirect_uri,
                (now + ttl_seconds) as u64,
            ),
        ).len() > MAX_CODE_PLAINTEXT),
{
    create_auth_code_at(
        DownstreamTokens::ChainedOAuth { access_token, refresh_token, expires_in },
        st.pkce_challenge.as_str(),
        st.redirect_uri.as_str(),
        ttl_seconds,
        state_secret,
        now,
    )
}

/// The OAuth error an aborted chained callback is reported with: a state
/// parameter that does not verify cannot be tied to any client authorization,
/// so it is refused as `access_denied`; once the state is good, any upstream
/// failure (network, timeout, non-2xx, malformed token response) is the
/// proxy's own failure, `server_error`.
pub fn callback_failure_code(state_verified: bool) -> (r: String)
    ensures
        r@ == if state_verified {
            "server_error"@
        } else {
            "access_denied"@
        },
{
    if state_verified {
        "server_error".to_owned()
    } else {
        "access_denied".to_owned()
    }
}

} // verus!
