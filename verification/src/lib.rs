//! A stateless OAuth 2.1 authorization relay: configuration validation for
//! downstream targets, an AEAD-encrypted authorization-code codec, an
//! HMAC-signed cross-redirect state parameter, the authorization flow
//! decisions, and the token-exchange handler.
//!
//! All grant state is encrypted into the authorization code itself, so no
//! server-side session store is needed; expiry is carried inside each code.

pub mod b64;
pub mod codes;
pub mod config;
pub mod crypto;
pub mod flow;
pub mod json;
pub mod state;
pub mod strutil;
pub mod token;
