use mcp_oauth_proxy::config::{
    default_auth_code_ttl, default_auth_header_format, default_host, default_oauth_token_accept,
    default_port, validate, validate_downstreams, validate_server, Config,
    DownstreamConfig, ServerConfig, Strategy,
};
use mcp_oauth_proxy::strutil::{env_var_name, is_valid_name};

fn ds(name: &str) -> DownstreamConfig {
    DownstreamConfig {
        name: name.to_string(),
        display_name: "Test".to_string(),
        strategy: Strategy::Passthrough,
        downstream_url: "https://example.com".to_string(),
        auth_header_format: "Bearer".to_string(),
        scopes: String::new(),
        auth_hint: String::new(),
        oauth_authorize_url: String::new(),
        oauth_token_url: String::new(),
        oauth_client_id: String::new(),
        oauth_client_secret: String::new(),
        oauth_scopes: String::new(),
        oauth_supports_refresh: false,
        oauth_token_accept: "application/json".to_string(),
    }
}

fn server(public_url: &str, secret: &str) -> ServerConfig {
    ServerConfig {
        host: default_host(),
        port: default_port(),
        public_url: public_url.to_string(),
        state_secret: secret.to_string(),
        auth_code_ttl: default_auth_code_ttl(),
    }
}

// base64 of 32 zero bytes
const GOOD_SECRET: &str = "AAAAAAAAAAAAAAAAAAAAAAAAAAAAAAAAAAAAAAAAAAA=";

#[test]
fn test_invalid_name_format() {
    let ds = vec![DownstreamConfig {
        name: "INVALID_NAME".to_string(),
        display_name: "Test".to_string(),
        strategy: Strategy::Passthrough,
        downstream_url: "https://example.com".to_string(),
        auth_header_format: "Bearer".to_string(),
        scopes: String::new(),
        auth_hint: String::new(),
        oauth_authorize_url: String::new(),
        oauth_token_url: String::new(),
        oauth_client_id: String::new(),
        oauth_client_secret: String::new(),
        oauth_scopes: String::new(),
        oauth_supports_refresh: false,
        oauth_token_accept: "application/json".to_string(),
    }];
    let result = validate_downstreams(&ds);
    assert!(result.is_err());
    assert!(result.unwrap_err().message().contains("must match"));
}

#[test]
fn test_duplicate_name_rejected() {
    let list = vec![ds("same"), ds("same")];
    let err = validate_downstreams(&list).unwrap_err();
    assert!(err.message().contains("duplicate name"));
}

#[test]
fn test_empty_downstreams_rejected() {
    let list: Vec<DownstreamConfig> = Vec::new();
    let err = validate_downstreams(&list).unwrap_err();
    assert!(err.message().contains("At least one"));
}

#[test]
fn test_chained_missing_fields_all_listed() {
    let mut d = ds("gh");
    d.strategy = Strategy::ChainedOauth;
    d.oauth_authorize_url = "https://github.com/login/oauth/authorize".to_string();
    d.oauth_client_secret = "s".to_string();
    let list = vec![d];
    let msg = validate_downstreams(&list).unwrap_err().message();
    // both missing fields are listed in one error
    assert!(msg.contains("oauth_token_url"));
    assert!(msg.contains("oauth_client_id"));
    assert!(!msg.contains("oauth_authorize_url"));
}

#[test]
fn test_missing_fields_message_exact() {
    let mut d = ds("gh");
    d.strategy = Strategy::ChainedOauth;
    d.oauth_authorize_url = "https://github.com/login/oauth/authorize".to_string();
    d.oauth_client_secret = "s".to_string();
    let msg = validate_downstreams(&vec![d]).unwrap_err().message();
    assert_eq!(
        msg,
        "downstream 'gh': chained_oauth strategy requires: oauth_token_url, oauth_client_id"
    );
}

#[test]
fn test_secret_too_short_message_exact() {
    let s = server("https://proxy.example.com", "AAAA");
    assert_eq!(
        validate_server(&s).unwrap_err().message(),
        "server.state_secret must be at least 32 bytes when base64-decoded (got 3 bytes). Generate with: openssl rand -base64 32"
    );
}

#[test]
fn test_header_format_allow_list() {
    let mut d = ds("a");
    d.auth_header_format = "X-Custom-Header".to_string();
    assert!(validate_downstreams(&vec![d]).is_ok());
    let mut d2 = ds("b");
    d2.auth_header_format = "Token".to_string();
    assert!(validate_downstreams(&vec![d2]).is_err());
}

#[test]
fn test_downstream_url_scheme_checked() {
    let mut d = ds("a");
    d.downstream_url = "ftp://example.com".to_string();
    let msg = validate_downstreams(&vec![d]).unwrap_err().message();
    assert!(msg.contains("HTTP(S)"));
}

#[test]
fn test_http_public_url_warns() {
    let s = server("http://localhost:8080", GOOD_SECRET);
    assert_eq!(validate_server(&s).unwrap(), true);
    let s2 = server("https://proxy.example.com", GOOD_SECRET);
    assert_eq!(validate_server(&s2).unwrap(), false);
}

#[test]
fn test_ftp_public_url_rejected() {
    let s = server("ftp://proxy.example.com", GOOD_SECRET);
    assert!(validate_server(&s).is_err());
}

#[test]
fn test_trailing_slash_rejected() {
    let s = server("https://proxy.example.com/", GOOD_SECRET);
    let msg = validate_server(&s).unwrap_err().message();
    assert!(msg.contains("trailing slash"));
}

#[test]
fn test_secret_too_short() {
    // "AAAA" decodes to 3 bytes
    let s = server("https://proxy.example.com", "AAAA");
    let msg = validate_server(&s).unwrap_err().message();
    assert!(msg.contains("got 3 bytes"));
}

#[test]
fn test_secret_not_base64() {
    let s = server("https://proxy.example.com", "!!! not base64 !!!");
    let msg = validate_server(&s).unwrap_err().message();
    assert!(msg.contains("not valid base64"));
}

#[test]
fn test_validate_whole_config() {
    let cfg = Config {
        server: server("https://proxy.example.com", GOOD_SECRET),
        downstreams: vec![ds("one"), ds("two")],
    };
    assert!(validate(&cfg).is_ok());
    let bad = Config {
        server: server("", GOOD_SECRET),
        downstreams: vec![ds("one")],
    };
    assert_eq!(validate(&bad).unwrap_err(), "server.public_url is required");
}

#[test]
fn test_slug_names() {
    assert!(is_valid_name("abc-123"));
    assert!(is_valid_name("a"));
    assert!(!is_valid_name(""));
    assert!(!is_valid_name("ABC"));
    assert!(!is_valid_name("a_b"));
    assert!(!is_valid_name("caf\u{e9}"));
}

#[test]
fn test_env_var_name_mapping() {
    assert_eq!(env_var_name("my-api"), "MCP_PROXY_MY_API_CLIENT_SECRET");
    assert_eq!(env_var_name("gh"), "MCP_PROXY_GH_CLIENT_SECRET");
}

#[test]
fn test_defaults() {
    assert_eq!(default_host(), "0.0.0.0");
    assert_eq!(default_port(), 8080);
    assert_eq!(default_auth_code_ttl(), 300);
    assert_eq!(default_auth_header_format(), "Bearer");
    assert_eq!(default_oauth_token_accept(), "application/json");
}

#[test]
fn test_error_order_is_first_failure() {
    // the name check fires before the display-name check
    let mut d = ds("BAD NAME");
    d.display_name = String::new();
    let msg = validate_downstreams(&vec![d]).unwrap_err().message();
    assert!(msg.contains("must match"));
    // with a good name, the display-name check fires
    let mut d2 = ds("good");
    d2.display_name = String::new();
    let msg2 = validate_downstreams(&vec![d2]).unwrap_err().message();
    assert!(msg2.contains("display_name is required"));
}
