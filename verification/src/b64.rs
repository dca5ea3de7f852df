//! Trusted boundary to the base64 crate: names for what its engines return,
//! and the wrappers that call them.

use vstd::prelude::*;

verus! {

/// What decoding with the standard alphabet (padded) returns for a string,
/// if the string decodes at all.
pub uninterp spec fn b64std_dec(s: Seq<char>) -> Option<Seq<u8>>;

/// What decoding with the URL-safe alphabet, no padding, returns for a string,
/// if the string decodes at all.
pub uninterp spec fn b64url_dec(s: Seq<char>) -> Option<Seq<u8>>;

/// What encoding bytes with the URL-safe alphabet, no padding, looks like.
pub uninterp spec fn b64url_of(b: Seq<u8>) -> Seq<char>;

/// A character of the URL-safe base64 alphabet; no padding character is
/// included, so a string of these is safe in a URL query parameter.
pub open spec fn is_b64url_char(c: char) -> bool {
    ||| ('A' <= c && c <= 'Z')
    ||| ('a' <= c && c <= 'z')
    ||| ('0' <= c && c <= '9')
    ||| c == '-'
    ||| c == '_'
}

/// Relies on base64's STANDARD engine: decodes padded standard-alphabet
/// base64, or reports that the input is not valid base64; four input
/// characters never carry more than three bytes.
#[verifier::external_body]
pub(crate) fn b64std_decode(s: &str) -> (r: Option<Vec<u8>>)
    ensures
        match r {
            Some(v) => b64std_dec(s@) == Some(v@) && v@.len() * 4 <= s@.len() * 3,
            None => b64std_dec(s@) is None,
        },
{
    base64::Engine::decode(&base64::engine::general_purpose::STANDARD, s).ok()
}

/// Relies on base64's URL_SAFE_NO_PAD engine: encodes with the URL-safe
/// alphabet without padding, so every output character is URL-safe and there
/// is no `=`; decoding the result with the same engine returns the input
/// bytes.
#[verifier::external_body]
pub(crate) fn b64url_encode(b: &[u8]) -> (r: String)
    requires
        b@.len() <= 0x1000_0000,
    ensures
        r@ == b64url_of(b@),
        b64url_dec(r@) == Some(b@),
        forall|i: int| 0 <= i < r@.len() ==> is_b64url_char(#[trigger] r@[i]),
{
    base64::Engine::encode(&base64::engine::general_purpose::URL_SAFE_NO_PAD, b)
}

/// Relies on base64's URL_SAFE_NO_PAD engine: decodes URL-safe unpadded
/// base64, or reports that the input is not valid base64; four input
/// characters never carry more than three bytes.
#[verifier::external_body]
pub(crate) fn b64url_decode(s: &str) -> (r: Option<Vec<u8>>)
    ensures
        match r {
            Some(v) => b64url_dec(s@) == Some(v@) && v@.len() * 4 <= s@.len() * 3,
            None => b64url_dec(s@) is None,
        },
{
    base64::Engine::decode(&base64::engine::general_purpose::URL_SAFE_NO_PAD, s).ok()
}

} // verus!
