//! Configuration model and its validation: server-level checks, per-downstream
//! checks keyed by credential strategy, and the environment-variable overrides.

use vstd::prelude::*;
use vstd::string::StringExecFns;
use crate::b64::{b64std_dec, b64std_decode};
use crate::json::{dec_digits, is_digit, lemma_dec_digits_shape, push_dec};
use crate::strutil::{
    ends_with_char, env_var_name_of, has_prefix, is_slug, is_valid_name, starts_with_str, str_eq,
};

verus! {

/// Top-level configuration.
pub struct Config {
    pub server: ServerConfig,
    pub downstreams: Vec<DownstreamConfig>,
}

/// Server-level configuration.
pub struct ServerConfig {
    pub host: String,
    pub port: u16,
    pub public_url: String,
    /// Secret used for HMAC-signing state parameters (chained OAuth) and for
    /// encrypting stateless authorization codes; must be base64 of >= 32 bytes.
    pub state_secret: String,
    /// TTL in seconds for encrypted authorization codes; the expiry is
    /// embedded inside each code, so no server-side storage is needed.
    pub auth_code_ttl: u64,
}

/// Authentication strategy for a downstream server.
#[derive(Clone, Copy, Debug, PartialEq, Eq, Structural)]
pub enum Strategy {
    Passthrough,
    ChainedOauth,
}

/// Configuration for a single downstream server.
pub struct DownstreamConfig {
    pub name: String,
    pub display_name: String,
    pub strategy: Strategy,
    pub downstream_url: String,
    pub auth_header_format: String,
    pub scopes: String,
    pub auth_hint: String,
    pub oauth_authorize_url: String,
    pub oauth_token_url: String,
    pub oauth_client_id: String,
    pub oauth_client_secret: String,
    pub oauth_scopes: String,
    pub oauth_supports_refresh: bool,
    pub oauth_token_accept: String,
}

/// Default listen host.
pub fn default_host() -> (r: String)
    ensures
        r@ == "0.0.0.0"@,
{
    "0.0.0.0".to_owned()
}

/// Default listen port.
pub fn default_port() -> (r: u16)
    ensures
        r == 8080,
{
    8080
}

/// Default TTL, in seconds, of an issued authorization code.
pub fn default_auth_code_ttl() -> (r: u64)
    ensures
        r == 300,
{
    300
}

/// Default authorization header scheme for a downstream.
pub fn default_auth_header_format() -> (r: String)
    ensures
        r@ == "Bearer"@,
{
    "Bearer".to_owned()
}

/// Default Accept header sent to an upstream token endpoint.
pub fn default_oauth_token_accept() -> (r: String)
    ensures
        r@ == "application/json"@,
{
    "application/json".to_owned()
}

/// A configuration error, in the order the checks run.
#[derive(Debug)]
pub enum ConfigError {
    PublicUrlMissing,
    PublicUrlTrailingSlash,
    PublicUrlScheme,
    StateSecretMissing,
    StateSecretNotBase64,
    StateSecretTooShort { got: usize },
    NoDownstreams,
    InvalidName { name: String },
    DuplicateName { name: String },
    DisplayNameMissing { name: String },
    DownstreamUrlMissing { name: String },
    DownstreamUrlScheme { name: String },
    MissingOauthFields {
        name: String,
        authorize_url: bool,
        token_url: bool,
        client_id: bool,
        client_secret: bool,
    },
    BadAuthHeaderFormat { name: String, format: String },
}

/// The mathematical shape of a configuration error.
pub enum ConfigErrorView {
    PublicUrlMissing,
    PublicUrlTrailingSlash,
    PublicUrlScheme,
    StateSecretMissing,
    StateSecretNotBase64,
    StateSecretTooShort { got: usize },
    NoDownstreams,
    InvalidName { name: Seq<char> },
    DuplicateName { name: Seq<char> },
    DisplayNameMissing { name: Seq<char> },
    DownstreamUrlMissing { name: Seq<char> },
    DownstreamUrlScheme { name: Seq<char> },
    MissingOauthFields {
        name: Seq<char>,
        authorize_url: bool,
        token_url: bool,
        client_id: bool,
        client_secret: bool,
    },
    BadAuthHeaderFormat { name: Seq<char>, format: Seq<char> },
}

impl View for ConfigError {
    type V = ConfigErrorView;

    open spec fn view(&self) -> ConfigErrorView {
        match self {
            ConfigError::PublicUrlMissing => ConfigErrorView::PublicUrlMissing,
            ConfigError::PublicUrlTrailingSlash => ConfigErrorView::PublicUrlTrailingSlash,
            ConfigError::PublicUrlScheme => ConfigErrorView::PublicUrlScheme,
            ConfigError::StateSecretMissing => ConfigErrorView::StateSecretMissing,
            ConfigError::StateSecretNotBase64 => ConfigErrorView::StateSecretNotBase64,
            ConfigError::StateSecretTooShort { got } => ConfigErrorView::StateSecretTooShort {
                got: *got,
            },
            ConfigError::NoDownstreams => ConfigErrorView::NoDownstreams,
            ConfigError::InvalidName { name } => ConfigErrorView::InvalidName { name: name@ },
            ConfigError::DuplicateName { name } => ConfigErrorView::DuplicateName { name: name@ },
            ConfigError::DisplayNameMissing { name } => ConfigErrorView::DisplayNameMissing {
                name: name@,
            },
            ConfigError::DownstreamUrlMissing { name } => ConfigErrorView::DownstreamUrlMissing {
                name: name@,
            },
            ConfigError::DownstreamUrlScheme { name } => ConfigErrorView::DownstreamUrlScheme {
                name: name@,
            },
            ConfigError::MissingOauthFields {
                name,
                authorize_url,
                token_url,
                client_id,
                client_secret,
            } => ConfigErrorView::MissingOauthFields {
                name: name@,
                authorize_url: *authorize_url,
                token_url: *token_url,
                client_id: *client_id,
                client_secret: *client_secret,
            },
            ConfigError::BadAuthHeaderFormat { name, format } => {
                ConfigErrorView::BadAuthHeaderFormat { name: name@, format: format@ }
            },
        }
    }
}

/// A downstream or public URL must carry an HTTP or HTTPS scheme.
pub open spec fn url_scheme_ok(u: Seq<char>) -> bool {
    has_prefix(u, "http://"@) || has_prefix(u, "https://"@)
}

/// The allow-list for the authorization header scheme, plus any custom X- header.
pub open spec fn header_format_ok(f: Seq<char>) -> bool {
    ||| f == "Bearer"@
    ||| f == "token"@
    ||| f == "Basic"@
    ||| f == "X-API-Key"@
    ||| has_prefix(f, "X-"@)
}

/// The first server-level configuration error, if any, in check order.
pub open spec fn spec_server_check(s: ServerConfig) -> Option<ConfigErrorView> {
    if s.public_url@.len() == 0 {
        Some(ConfigErrorView::PublicUrlMissing)
    } else if s.public_url@[s.public_url@.len() - 1] == '/' {
        Some(ConfigErrorView::PublicUrlTrailingSlash)
    } else if !url_scheme_ok(s.public_url@) {
        Some(ConfigErrorView::PublicUrlScheme)
    } else if s.state_secret@.len() == 0 {
        Some(ConfigErrorView::StateSecretMissing)
    } else {
        match b64std_dec(s.state_secret@) {
            None => Some(ConfigErrorView::StateSecretNotBase64),
            Some(b) => if b.len() < 32 {
                Some(ConfigErrorView::StateSecretTooShort { got: b.len() as usize })
            } else {
                None
            },
        }
    }
}

/// A valid server configuration earns a warning when the public URL is plain
/// HTTP, which is tolerated for local development only.
pub open spec fn spec_server_warns(s: ServerConfig) -> bool {
    has_prefix(s.public_url@, "http://"@)
}

/// Checks the server block. `Ok(true)` means valid but the public URL uses
/// `http://`, which the caller should surface as a warning.
pub fn validate_server(server: &ServerConfig) -> (r: Result<bool, ConfigError>)
    ensures
        match r {
            Ok(warn) => spec_server_check(*server) is None && warn == spec_server_warns(*server),
            Err(e) => spec_server_check(*server) == Some(e@),
        },
{
    if server.public_url.as_str().is_empty() {
        return Err(ConfigError::PublicUrlMissing);
    }
    if ends_with_char(server.public_url.as_str(), '/') {
        return Err(ConfigError::PublicUrlTrailingSlash);
    }
    let is_http = starts_with_str(server.public_url.as_str(), "http://");
    if !is_http && !starts_with_str(server.public_url.as_str(), "https://") {
        return Err(ConfigError::PublicUrlScheme);
    }
    if server.state_secret.as_str().is_empty() {
        return Err(ConfigError::StateSecretMissing);
    }
    match b64std_decode(server.state_secret.as_str()) {
        None => Err(ConfigError::StateSecretNotBase64),
        Some(bytes) => {
            if bytes.len() < 32 {
                Err(ConfigError::StateSecretTooShort { got: bytes.len() })
            } else {
                Ok(is_http)
            }
        },
    }
}

/// Whether an earlier downstream (index below `i`) already uses name `n`.
pub open spec fn name_seen(l: Seq<DownstreamConfig>, i: int, n: Seq<char>) -> bool {
    exists|j: int| 0 <= j < i && #[trigger] l[j].name@ == n
}

/// The error, if any, for the downstream at index `i`, in check order.
pub open spec fn ds_check(l: Seq<DownstreamConfig>, i: int) -> Option<ConfigErrorView> {
    let ds = l[i];
    if !is_slug(ds.name@) {
        Some(ConfigErrorView::InvalidName { name: ds.name@ })
    } else if name_seen(l, i, ds.name@) {
        Some(ConfigErrorView::DuplicateName { name: ds.name@ })
    } else if ds.display_name@.len() == 0 {
        Some(ConfigErrorView::DisplayNameMissing { name: ds.name@ })
    } else if ds.downstream_url@.len() == 0 {
        Some(ConfigErrorView::DownstreamUrlMissing { name: ds.name@ })
    } else if !url_scheme_ok(ds.downstream_url@) {
        Some(ConfigErrorView::DownstreamUrlScheme { name: ds.name@ })
    } else if ds.strategy == Strategy::ChainedOauth && (ds.oauth_authorize_url@.len() == 0
        || ds.oauth_token_url@.len() == 0 || ds.oauth_client_id@.len() == 0
        || ds.oauth_client_secret@.len() == 0) {
        Some(ConfigErrorView::MissingOauthFields {
            name: ds.name@,
            authorize_url: ds.oauth_authorize_url@.len() == 0,
            token_url: ds.oauth_token_url@.len() == 0,
            client_id: ds.oauth_client_id@.len() == 0,
            client_secret: ds.oauth_client_secret@.len() == 0,
        })
    } else if !header_format_ok(ds.auth_header_format@) {
        Some(ConfigErrorView::BadAuthHeaderFormat {
            name: ds.name@,
            format: ds.auth_header_format@,
        })
    } else {
        None
    }
}

/// The first downstream error at index `i` or beyond.
pub open spec fn ds_check_from(l: Seq<DownstreamConfig>, i: int) -> Option<ConfigErrorView>
    decreases l.len() - i,
{
    if i < 0 || i >= l.len() {
        None
    } else {
        match ds_check(l, i) {
            Some(e) => Some(e),
            None => ds_check_from(l, i + 1),
        }
    }
}

/// The first error over the whole downstream list; an empty list is an error.
pub open spec fn spec_downstreams_check(l: Seq<DownstreamConfig>) -> Option<ConfigErrorView> {
    if l.len() == 0 {
        Some(ConfigErrorView::NoDownstreams)
    } else {
        ds_check_from(l, 0)
    }
}

/// Checks every downstream in order: slug name, uniqueness, required fields,
/// URL scheme, the strategy's mandatory OAuth fields (all missing ones
/// reported together), and the authorization header allow-list.
pub fn validate_downstreams(downstreams: &Vec<DownstreamConfig>) -> (r: Result<(), ConfigError>)
    ensures
        match r {
            Ok(()) => spec_downstreams_check(downstreams@) is None,
            Err(e) => spec_downstreams_check(downstreams@) == Some(e@),
        },
{
    let n = downstreams.len();
    if n == 0 {
        return Err(ConfigError::NoDownstreams);
    }
    let ghost l = downstreams@;
    let mut i: usize = 0;
    while i < n
        invariant
            n == l.len(),
            l == downstreams@,
            0 <= i <= n,
            ds_check_from(l, 0) == ds_check_from(l, i as int),
        decreases n - i,
    {
        let ds = &downstreams[i];
        if !is_valid_name(ds.name.as_str()) {
            return Err(ConfigError::InvalidName { name: ds.name.clone() });
        }
        let mut dup = false;
        let mut j: usize = 0;
        while j < i
            invariant
                l == downstreams@,
                0 <= j <= i <= n == l.len(),
                ds == l[i as int],
                dup == exists|k: int| 0 <= k < j && #[trigger] l[k].name@ == ds.name@,
            decreases i - j,
        {
            if str_eq(downstreams[j].name.as_str(), ds.name.as_str()) {
                dup = true;
            }
            j += 1;
        }
        if dup {
            proof {
                assert(name_seen(l, i as int, ds.name@));
            }
            return Err(ConfigError::DuplicateName { name: ds.name.clone() });
        }
        proof {
            assert(!name_seen(l, i as int, ds.name@));
        }
        if ds.display_name.as_str().is_empty() {
            return Err(ConfigError::DisplayNameMissing { name: ds.name.clone() });
        }
        if ds.downstream_url.as_str().is_empty() {
            return Err(ConfigError::DownstreamUrlMissing { name: ds.name.clone() });
        }
        if !starts_with_str(ds.downstream_url.as_str(), "http://") && !starts_with_str(
            ds.downstream_url.as_str(),
            "https://",
        ) {
            return Err(ConfigError::DownstreamUrlScheme { name: ds.name.clone() });
        }
        if ds.strategy == Strategy::ChainedOauth {
            let m_auth = ds.oauth_authorize_url.as_str().is_empty();
            let m_token = ds.oauth_token_url.as_str().is_empty();
            let m_id = ds.oauth_client_id.as_str().is_empty();
            let m_secret = ds.oauth_client_secret.as_str().is_empty();
            if m_auth || m_token || m_id || m_secret {
                return Err(ConfigError::MissingOauthFields {
                    name: ds.name.clone(),
                    authorize_url: m_auth,
                    token_url: m_token,
                    client_id: m_id,
                    client_secret: m_secret,
                });
            }
        }
        if !(str_eq(ds.auth_header_format.as_str(), "Bearer") || str_eq(
            ds.auth_header_format.as_str(),
            "token",
        ) || str_eq(ds.auth_header_format.as_str(), "Basic") || str_eq(
            ds.auth_header_format.as_str(),
            "X-API-Key",
        ) || starts_with_str(ds.auth_header_format.as_str(), "X-")) {
            return Err(ConfigError::BadAuthHeaderFormat {
                name: ds.name.clone(),
                format: ds.auth_header_format.clone(),
            });
        }
        proof {
            assert(ds_check(l, i as int) is None);
        }
        i += 1;
    }
    Ok(())
}

/// Checks the whole configuration; the error carries its diagnostic message.
/// A warning (plain-HTTP public URL) is not an error and is dropped here;
/// callers that want it use `validate_server` directly.
pub fn validate(config: &Config) -> (r: Result<(), String>)
    ensures
        r is Ok <==> (spec_server_check(config.server) is None && spec_downstreams_check(
            config.downstreams@,
        ) is None),
        r matches Err(m) ==> match spec_server_check(config.server) {
            Some(e) => m@ == config_error_msg(e),
            None => spec_downstreams_check(config.downstreams@) matches Some(e) && m@
                == config_error_msg(e),
        },
{
    match validate_server(&config.server) {
        Err(e) => Err(e.message()),
        Ok(_) => match validate_downstreams(&config.downstreams) {
            Err(e) => Err(e.message()),
            Ok(()) => Ok(()),
        },
    }
}

/// Replaces the server secret when an override value is present.
pub fn apply_state_secret_override(server: &mut ServerConfig, value: Option<String>)
    ensures
        match value {
            Some(v) => *final(server) == ServerConfig { state_secret: v, ..*old(server) },
            None => *final(server) == *old(server),
        },
{
    if let Some(v) = value {
        server.state_secret = v;
    }
}

/// Replaces one downstream's OAuth client secret when an override value is
/// present; the override's environment variable is named by `env_var_name`.
pub fn apply_client_secret_override(ds: &mut DownstreamConfig, value: Option<String>)
    ensures
        match value {
            Some(v) => *final(ds) == DownstreamConfig { oauth_client_secret: v, ..*old(ds) },
            None => *final(ds) == *old(ds),
        },
{
    if let Some(v) = value {
        ds.oauth_client_secret = v;
    }
}

/// The characters of a run of ASCII bytes.
pub open spec fn ascii_chars(b: Seq<u8>) -> Seq<char> {
    Seq::new(b.len(), |i: int| b[i] as char)
}

/// The decimal digits of `n`, as characters.
pub open spec fn dec_chars(n: u64) -> Seq<char> {
    ascii_chars(dec_digits(n))
}

/// The comma-separated list of the missing chained-OAuth fields, in field
/// order.
pub open spec fn missing_fields_list(a: bool, t: bool, c: bool, s: bool) -> Seq<char> {
    (if a {
        "oauth_authorize_url"@
    } else {
        Seq::<char>::empty()
    }) + (if t {
        (if a {
            ", "@
        } else {
            Seq::<char>::empty()
        }) + "oauth_token_url"@
    } else {
        Seq::<char>::empty()
    }) + (if c {
        (if a || t {
            ", "@
        } else {
            Seq::<char>::empty()
        }) + "oauth_client_id"@
    } else {
        Seq::<char>::empty()
    }) + (if s {
        (if a || t || c {
            ", "@
        } else {
            Seq::<char>::empty()
        }) + "oauth_client_secret"@
    } else {
        Seq::<char>::empty()
    })
}

/// The diagnostic text owed for each configuration error: the fixed sentences
/// of the server checks (the too-short error carrying the decoded byte
/// count), and the per-downstream sentences naming the downstream, with every
/// missing chained-OAuth field listed in one error.
pub open spec fn config_error_msg(e: ConfigErrorView) -> Seq<char> {
    match e {
        ConfigErrorView::PublicUrlMissing => "server.public_url is required"@,
        ConfigErrorView::PublicUrlTrailingSlash => {
            "server.public_url must not have a trailing slash"@
        },
        ConfigErrorView::PublicUrlScheme => {
            "server.public_url must start with https:// (or http:// for local dev)"@
        },
        ConfigErrorView::StateSecretMissing => "server.state_secret is required"@,
        ConfigErrorView::StateSecretNotBase64 => "server.state_secret is not valid base64"@,
        ConfigErrorView::StateSecretTooShort { got } => {
            "server.state_secret must be at least 32 bytes when base64-decoded (got "@ + dec_chars(
                got as u64,
            ) + " bytes). Generate with: openssl rand -base64 32"@
        },
        ConfigErrorView::NoDownstreams => "At least one [[downstream]] entry is required"@,
        ConfigErrorView::InvalidName { name } => {
            "downstream '"@ + name
                + "': name must match ^[a-z0-9-]+$ (lowercase alphanumeric and hyphens only)"@
        },
        ConfigErrorView::DuplicateName { name } => {
            "downstream '"@ + name + "': duplicate name - each downstream must have a unique name"@
        },
        ConfigErrorView::DisplayNameMissing { name } => {
            "downstream '"@ + name + "': display_name is required"@
        },
        ConfigErrorView::DownstreamUrlMissing { name } => {
            "downstream '"@ + name + "': downstream_url is required"@
        },
        ConfigErrorView::DownstreamUrlScheme { name } => {
            "downstream '"@ + name + "': downstream_url must be a valid HTTP(S) URL"@
        },
        ConfigErrorView::MissingOauthFields {
            name,
            authorize_url,
            token_url,
            client_id,
            client_secret,
        } => {
            "downstream '"@ + name + "': chained_oauth strategy requires: "@ + missing_fields_list(
                authorize_url,
                token_url,
                client_id,
                client_secret,
            )
        },
        ConfigErrorView::BadAuthHeaderFormat { name, format } => {
            "downstream '"@ + name + "': auth_header_format '"@ + format
                + "' is not recognized. Use one of: Bearer, token, Basic, X-API-Key, or a custom X-* header"@
        },
    }
}

impl ConfigError {
    /// A human-readable diagnostic for this error: exactly the text that
    /// `config_error_msg` owes it.
    pub fn message(&self) -> (r: String)
        ensures
            r@ == config_error_msg(self@),
    {
        match self {
            ConfigError::PublicUrlMissing => "server.public_url is required".to_owned(),
            ConfigError::PublicUrlTrailingSlash => {
                "server.public_url must not have a trailing slash".to_owned()
            },
            ConfigError::PublicUrlScheme => {
                "server.public_url must start with https:// (or http:// for local dev)".to_owned()
            },
            ConfigError::StateSecretMissing => "server.state_secret is required".to_owned(),
            ConfigError::StateSecretNotBase64 => {
                "server.state_secret is not valid base64".to_owned()
            },
            ConfigError::StateSecretTooShort { got } => {
                let mut m =
                    "server.state_secret must be at least 32 bytes when base64-decoded (got "
                    .to_owned();
                m.append(dec_str(*got).as_str());
                m.append(" bytes). Generate with: openssl rand -base64 32");
                proof {
                    assert(m@ =~= config_error_msg(self@));
                }
                m
            },
            ConfigError::NoDownstreams => {
                "At least one [[downstream]] entry is required".to_owned()
            },
            ConfigError::InvalidName { name } => {
                let mut m = "downstream '".to_owned();
                m.append(name.as_str());
                m.append(
                    "': name must match ^[a-z0-9-]+$ (lowercase alphanumeric and hyphens only)",
                );
                proof {
                    assert(m@ =~= config_error_msg(self@));
                }
                m
            },
            ConfigError::DuplicateName { name } => {
                let mut m = "downstream '".to_owned();
                m.append(name.as_str());
                m.append("': duplicate name - each downstream must have a unique name");
                proof {
                    assert(m@ =~= config_error_msg(self@));
                }
                m
            },
            ConfigError::DisplayNameMissing { name } => {
                let mut m = "downstream '".to_owned();
                m.append(name.as_str());
                m.append("': display_name is required");
                proof {
                    assert(m@ =~= config_error_msg(self@));
                }
                m
            },
            ConfigError::DownstreamUrlMissing { name } => {
                let mut m = "downstream '".to_owned();
                m.append(name.as_str());
                m.append("': downstream_url is required");
                proof {
                    assert(m@ =~= config_error_msg(self@));
                }
                m
            },
            ConfigError::DownstreamUrlScheme { name } => {
                let mut m = "downstream '".to_owned();
                m.append(name.as_str());
                m.append("': downstream_url must be a valid HTTP(S) URL");
                proof {
                    assert(m@ =~= config_error_msg(self@));
                }
                m
            },
            ConfigError::MissingOauthFields {
                name,
                authorize_url,
                token_url,
                client_id,
                client_secret,
            } => {
                let mut m = "downstream '".to_owned();
                m.append(name.as_str());
                m.append("': chained_oauth strategy requires: ");
                if *authorize_url {
                    m.append("oauth_authorize_url");
                }
                if *token_url {
                    if *authorize_url {
                        m.append(", ");
                    }
                    m.append("oauth_token_url");
                }
                if *client_id {
                    if *authorize_url || *token_url {
                        m.append(", ");
                    }
                    m.append("oauth_client_id");
                }
                if *client_secret {
                    if *authorize_url || *token_url || *client_id {
                        m.append(", ");
                    }
                    m.append("oauth_client_secret");
                }
                proof {
                    assert(m@ =~= config_error_msg(self@));
                }
                m
            },
            ConfigError::BadAuthHeaderFormat { name, format } => {
                let mut m = "downstream '".to_owned();
                m.append(name.as_str());
                m.append("': auth_header_format '");
                m.append(format.as_str());
                m.append(
                    "' is not recognized. Use one of: Bearer, token, Basic, X-API-Key, or a custom X-* header",
                );
                proof {
                    assert(m@ =~= config_error_msg(self@));
                }
                m
            },
        }
    }
}

/// The decimal digits of `n`, as a string.
fn dec_str(n: usize) -> (r: String)
    ensures
        r@ == dec_chars(n as u64),
{
    let mut digits: Vec<u8> = Vec::new();
    push_dec(&mut digits, n as u64);
    proof {
        lemma_dec_digits_shape(n as u64);
    }
    let len = digits.len();
    let mut s = String::new();
    let mut i: usize = 0;
    while i < len
        invariant
            digits@ == dec_digits(n as u64),
            len == digits@.len(),
            0 <= i <= len,
            forall|k: int| 0 <= k < digits@.len() ==> is_digit(#[trigger] digits@[k]),
            s@ == ascii_chars(digits@).take(i as int),
        decreases len - i,
    {
        let c = byte_to_char(digits[i]);
        crate::strutil::push_char(&mut s, c);
        proof {
            assert(ascii_chars(digits@).take(i + 1) =~= ascii_chars(digits@).take(i as int).push(
                digits@[i as int] as char,
            ));
        }
        i += 1;
    }
    proof {
        assert(ascii_chars(digits@).take(len as int) =~= ascii_chars(digits@));
    }
    s
}

/// The character with the code point of an ASCII byte.
fn byte_to_char(b: u8) -> (c: char)
    requires
        b < 128,
    ensures
        c == (b as char),
{
    b as char
}

} // verus!
