//! The HMAC-signed state parameter that survives the redirect hop to an
//! upstream provider: it carries the downstream name, the client's original
//! state, PKCE challenge and redirect URI, and a freshness timestamp. The
//! signature is HMAC-SHA256 under the key derived from the server secret;
//! verification checks the tag in constant time, then the freshness window.

use vstd::prelude::*;
use vstd::slice::{slice_subrange, slice_to_vec};
use vstd::string::StringSliceAdditionalSpecFns;
use vstd::utf8::{decode_utf8, encode_utf8, valid_utf8};
use crate::b64::{b64url_dec, b64url_decode, b64url_encode};
use crate::crypto::{sha256, sha256_of};
use crate::json::{dec_digits, is_digit, lemma_parse_u64_dec, parse_u64, parse_u64_x, push_dec,
    string_from_utf8};
use crate::strutil::ct_bytes_eq;

verus! {

/// One 64-byte HMAC pad: the key (32 bytes) xored with the pad byte, then the
/// pad byte alone up to the block size.
pub open spec fn xor_pad(key: Seq<u8>, p: u8) -> Seq<u8> {
    Seq::new(64, |i: int| if i < key.len() { (key[i] ^ p) as u8 } else { p })
}

/// HMAC-SHA256 of a message under a 32-byte key, written out over the digest.
pub open spec fn hmac_sha256_of(key: Seq<u8>, msg: Seq<u8>) -> Seq<u8> {
    sha256_of(xor_pad(key, 0x5c) + sha256_of(xor_pad(key, 0x36) + msg))
}

/// Computes HMAC-SHA256 of `msg` under a 32-byte key.
pub fn hmac_sha256(key: &[u8; 32], msg: &[u8]) -> (r: Vec<u8>)
    ensures
        r@ == hmac_sha256_of(key@, msg@),
        r@.len() == 32,
{
    let mut inner: Vec<u8> = Vec::new();
    let mut i: usize = 0;
    while i < 64
        invariant
            0 <= i <= 64,
            key@.len() == 32,
            inner@ == xor_pad(key@, 0x36).take(i as int),
        decreases 64 - i,
    {
        let b: u8 = if i < 32 {
            key[i] ^ 0x36
        } else {
            0x36
        };
        inner.push(b);
        proof {
            assert(xor_pad(key@, 0x36).take(i + 1) =~= xor_pad(key@, 0x36).take(i as int).push(
                xor_pad(key@, 0x36)[i as int],
            ));
        }
        i += 1;
    }
    proof {
        assert(xor_pad(key@, 0x36).take(64) =~= xor_pad(key@, 0x36));
    }
    inner.extend_from_slice(msg);
    proof {
        assert(inner@ =~= xor_pad(key@, 0x36) + msg@);
    }
    let inner_digest = sha256(inner.as_slice());
    let mut outer: Vec<u8> = Vec::new();
    let mut j: usize = 0;
    while j < 64
        invariant
            0 <= j <= 64,
            key@.len() == 32,
            outer@ == xor_pad(key@, 0x5c).take(j as int),
        decreases 64 - j,
    {
        let b: u8 = if j < 32 {
            key[j] ^ 0x5c
        } else {
            0x5c
        };
        outer.push(b);
        proof {
            assert(xor_pad(key@, 0x5c).take(j + 1) =~= xor_pad(key@, 0x5c).take(j as int).push(
                xor_pad(key@, 0x5c)[j as int],
            ));
        }
        j += 1;
    }
    proof {
        assert(xor_pad(key@, 0x5c).take(64) =~= xor_pad(key@, 0x5c));
    }
    outer.extend_from_slice(inner_digest.as_slice());
    proof {
        assert(outer@ =~= xor_pad(key@, 0x5c) + sha256_of(xor_pad(key@, 0x36) + msg@));
    }
    let tag = sha256(outer.as_slice());
    let r = slice_to_vec(tag.as_slice());
    proof {
        assert(r@ =~= hmac_sha256_of(key@, msg@));
    }
    r
}

/// The state carried through the redirect to the upstream provider.
#[derive(Debug)]
pub struct ProxyState {
    pub downstream: String,
    pub client_state: String,
    pub pkce_challenge: String,
    pub redirect_uri: String,
    pub issued_at: u64,
}

/// The mathematical shape of the proxy state.
pub struct ProxyStateView {
    pub downstream: Seq<char>,
    pub client_state: Seq<char>,
    pub pkce_challenge: Seq<char>,
    pub redirect_uri: Seq<char>,
    pub issued_at: u64,
}

impl View for ProxyState {
    type V = ProxyStateView;

    open spec fn view(&self) -> ProxyStateView {
        ProxyStateView {
            downstream: self.downstream@,
            client_state: self.client_state@,
            pkce_challenge: self.pkce_challenge@,
            redirect_uri: self.redirect_uri@,
            issued_at: self.issued_at,
        }
    }
}

/// One length-prefixed field: the byte length in decimal, a colon, the UTF-8
/// bytes.
pub open spec fn fld_bytes(s: Seq<char>) -> Seq<u8> {
    dec_digits(encode_utf8(s).len() as u64) + seq![58u8] + encode_utf8(s)
}

/// The signed message: the timestamp in decimal, a colon, then the four
/// length-prefixed fields.
pub open spec fn state_bytes(v: ProxyStateView) -> Seq<u8> {
    dec_digits(v.issued_at) + seq![58u8] + fld_bytes(v.downstream) + fld_bytes(v.client_state)
        + fld_bytes(v.pkce_challenge) + fld_bytes(v.redirect_uri)
}

/// Parses one length-prefixed field.
pub open spec fn parse_fld(b: Seq<u8>) -> Option<(Seq<char>, Seq<u8>)> {
    match parse_u64(b) {
        None => None,
        Some((n, r)) => if r.len() > 0 && r[0] == 58 {
            let r2 = r.drop_first();
            if n <= r2.len() && valid_utf8(r2.take(n as int)) {
                Some((decode_utf8(r2.take(n as int)), r2.skip(n as int)))
            } else {
                None
            }
        } else {
            None
        },
    }
}

/// Parses the signed message back into the state; the input must be consumed
/// exactly.
pub open spec fn parse_state_bytes(b: Seq<u8>) -> Option<ProxyStateView> {
    match parse_u64(b) {
        None => None,
        Some((ts, r)) => if r.len() > 0 && r[0] == 58 {
            match parse_fld(r.drop_first()) {
                None => None,
                Some((dn, r1)) => match parse_fld(r1) {
                    None => None,
                    Some((cs, r2)) => match parse_fld(r2) {
                        None => None,
                        Some((pk, r3)) => match parse_fld(r3) {
                            None => None,
                            Some((ru, r4)) => if r4.len() == 0 {
                                Some(
                                    ProxyStateView {
                                        downstream: dn,
                                        client_state: cs,
                                        pkce_challenge: pk,
                                        redirect_uri: ru,
                                        issued_at: ts,
                                    },
                                )
                            } else {
                                None
                            },
                        },
                    },
                },
            }
        } else {
            None
        },
    }
}

/// Parsing inverts the field encoding.
proof fn lemma_parse_fld(s: Seq<char>, rest: Seq<u8>)
    requires
        encode_utf8(s).len() <= u64::MAX,
    ensures
        parse_fld(fld_bytes(s) + rest) == Some((s, rest)),
{
    broadcast use vstd::utf8::encode_utf8_valid_utf8, vstd::utf8::encode_utf8_decode_utf8;

    let enc = encode_utf8(s);
    let n = enc.len() as u64;
    let b = fld_bytes(s) + rest;
    let r = seq![58u8] + enc + rest;
    assert(b =~= dec_digits(n) + r);
    assert(!is_digit(r[0]));
    lemma_parse_u64_dec(n, r);
    assert(r.drop_first() =~= enc + rest);
    assert((enc + rest).take(n as int) =~= enc);
    assert((enc + rest).skip(n as int) =~= rest);
}

/// Parsing inverts the state encoding.
proof fn lemma_parse_state(v: ProxyStateView)
    requires
        encode_utf8(v.downstream).len() <= u64::MAX,
        encode_utf8(v.client_state).len() <= u64::MAX,
        encode_utf8(v.pkce_challenge).len() <= u64::MAX,
        encode_utf8(v.redirect_uri).len() <= u64::MAX,
    ensures
        parse_state_bytes(state_bytes(v)) == Some(v),
{
    let b = state_bytes(v);
    let r1 = fld_bytes(v.client_state) + (fld_bytes(v.pkce_challenge) + (fld_bytes(v.redirect_uri)
        + Seq::<u8>::empty()));
    let r0 = fld_bytes(v.downstream) + r1;
    let r = seq![58u8] + r0;
    assert(b =~= dec_digits(v.issued_at) + r);
    assert(!is_digit(r[0]));
    lemma_parse_u64_dec(v.issued_at, r);
    assert(r.drop_first() =~= r0);
    lemma_parse_fld(v.downstream, r1);
    assert(r1 =~= fld_bytes(v.client_state) + (fld_bytes(v.pkce_challenge) + (fld_bytes(
        v.redirect_uri,
    ) + Seq::<u8>::empty())));
    lemma_parse_fld(v.client_state, fld_bytes(v.pkce_challenge) + (fld_bytes(v.redirect_uri)
        + Seq::<u8>::empty()));
    lemma_parse_fld(v.pkce_challenge, fld_bytes(v.redirect_uri) + Seq::<u8>::empty());
    lemma_parse_fld(v.redirect_uri, Seq::<u8>::empty());
}

/// How verification of a state token can fail.
#[derive(Clone, Copy, Debug, PartialEq, Eq, Structural)]
pub enum StateError {
    Encoding,
    TooShort,
    BadSignature,
    Corrupt,
    Stale,
}

/// What verifying a state token at time `now` with freshness window `max_age`
/// yields: base64url decoding, the 32-byte tag split off the end, the HMAC
/// comparison, the message parse, and the freshness check.
pub open spec fn spec_verify_state(token: Seq<char>, key: Seq<u8>, now: u64, max_age: u64)
    -> Result<ProxyStateView, StateError> {
    match b64url_dec(token) {
        None => Err(StateError::Encoding),
        Some(raw) => if raw.len() < 32 {
            Err(StateError::TooShort)
        } else {
            let msg = raw.take(raw.len() - 32);
            let tag = raw.skip(raw.len() - 32);
            if tag != hmac_sha256_of(key, msg) {
                Err(StateError::BadSignature)
            } else {
                match parse_state_bytes(msg) {
                    None => Err(StateError::Corrupt),
                    Some(st) => if st.issued_at <= now && now - st.issued_at <= max_age {
                        Ok(st)
                    } else {
                        Err(StateError::Stale)
                    },
                }
            }
        },
    }
}

/// Appends one length-prefixed field.
fn push_fld(out: &mut Vec<u8>, s: &str)
    ensures
        final(out)@ == old(out)@ + fld_bytes(s@),
{
    let b = s.as_bytes();
    push_dec(out, b.len() as u64);
    out.push(58);
    out.extend_from_slice(b);
    proof {
        assert(out@ =~= old(out)@ + fld_bytes(s@));
    }
}

/// Serializes the state into the message that gets signed.
fn state_to_bytes(st: &ProxyState) -> (r: Vec<u8>)
    ensures
        r@ == state_bytes(st@),
{
    let mut out: Vec<u8> = Vec::new();
    push_dec(&mut out, st.issued_at);
    out.push(58);
    push_fld(&mut out, st.downstream.as_str());
    push_fld(&mut out, st.client_state.as_str());
    push_fld(&mut out, st.pkce_challenge.as_str());
    push_fld(&mut out, st.redirect_uri.as_str());
    proof {
        assert(out@ =~= state_bytes(st@));
    }
    out
}

/// The largest signed message; longer states are refused.
pub const MAX_STATE_BYTES: usize = 0x0FFF_0000;

/// Signs the proxy state under the 32-byte key. On success the token
/// verifies, under the same key, to exactly this state at every time from its
/// issue timestamp through any window covering the elapsed time; it fails
/// exactly when the encoded state is over the size limit.
pub fn sign_proxy_state(state: &ProxyState, key: &[u8; 32]) -> (r: Option<String>)
    ensures
        r matches Some(token) ==> (forall|t: u64, w: u64|
            state@.issued_at <= t && t - state@.issued_at <= w ==> spec_verify_state(
                token@,
                key@,
                t,
                w,
            ) == Ok::<ProxyStateView, StateError>(state@)) && (forall|t: u64, w: u64|
            !(state@.issued_at <= t && t - state@.issued_at <= w) ==> spec_verify_state(
                token@,
                key@,
                t,
                w,
            ) == Err::<ProxyStateView, StateError>(StateError::Stale)),
        r is None <==> state_bytes(state@).len() > MAX_STATE_BYTES,
{
    let msg = state_to_bytes(state);
    if msg.len() > MAX_STATE_BYTES {
        return None;
    }
    let tag = hmac_sha256(key, msg.as_slice());
    let ghost msg_view = msg@;
    let ghost tag_view = tag@;
    let mut blob = msg;
    let mut tag_moved = tag;
    blob.append(&mut tag_moved);
    let token = b64url_encode(blob.as_slice());
    proof {
        assert(blob@ =~= msg_view + tag_view);
        assert(blob@.len() >= 32);
        assert(blob@.take(blob@.len() - 32) =~= msg_view);
        assert(blob@.skip(blob@.len() - 32) =~= tag_view);
        assert(encode_utf8(state@.downstream).len() <= state_bytes(state@).len());
        assert(encode_utf8(state@.client_state).len() <= state_bytes(state@).len());
        assert(encode_utf8(state@.pkce_challenge).len() <= state_bytes(state@).len());
        assert(encode_utf8(state@.redirect_uri).len() <= state_bytes(state@).len());
        lemma_parse_state(state@);
    }
    Some(token)
}

/// Parses one length-prefixed field at position `i`.
fn parse_fld_x(v: &[u8], i: usize) -> (r: Option<(String, usize)>)
    requires
        i <= v@.len(),
    ensures
        match r {
            Some(p) => p.1 <= v@.len() && parse_fld(v@.skip(i as int)) == Some(
                (p.0@, v@.skip(p.1 as int)),
            ),
            None => parse_fld(v@.skip(i as int)) is None,
        },
{
    let (n, j) = match parse_u64_x(v, i) {
        None => {
            return None;
        },
        Some(p) => p,
    };
    if j == v.len() {
        proof {
            assert(v@.skip(j as int).len() == 0);
        }
        return None;
    }
    proof {
        assert(v@.skip(j as int)[0] == v@[j as int]);
    }
    if v[j] != 58 {
        return None;
    }
    let start = j + 1;
    proof {
        assert(v@.skip(j as int).drop_first() =~= v@.skip(start as int));
        assert(v@.skip(start as int).len() == v@.len() - start);
    }
    if n > (v.len() - start) as u64 {
        return None;
    }
    let nn = n as usize;
    let content = slice_subrange(v, start, start + nn);
    proof {
        assert(content@ =~= v@.skip(start as int).take(n as int));
        assert(v@.skip(start as int).skip(n as int) =~= v@.skip((start + nn) as int));
    }
    match string_from_utf8(slice_to_vec(content)) {
        None => None,
        Some(s) => Some((s, start + nn)),
    }
}

/// Verifies a signed state token at clock reading `now`, accepting it only
/// within `max_age` seconds of its issue timestamp. The tag comparison runs
/// in constant time.
pub fn verify_proxy_state(token: &str, key: &[u8; 32], now: u64, max_age: u64) -> (r: Result<
    ProxyState,
    StateError,
>)
    ensures
        match r {
            Ok(st) => spec_verify_state(token@, key@, now, max_age) == Ok::<
                ProxyStateView,
                StateError,
            >(st@),
            Err(e) => spec_verify_state(token@, key@, now, max_age) == Err::<
                ProxyStateView,
                StateError,
            >(e),
        },
{
    let raw = match b64url_decode(token) {
        None => {
            return Err(StateError::Encoding);
        },
        Some(b) => b,
    };
    if raw.len() < 32 {
        return Err(StateError::TooShort);
    }
    let split = raw.len() - 32;
    let msg = slice_subrange(raw.as_slice(), 0, split);
    let tag = slice_subrange(raw.as_slice(), split, raw.len());
    proof {
        assert(msg@ =~= raw@.take(raw@.len() - 32));
        assert(tag@ =~= raw@.skip(raw@.len() - 32));
    }
    let expected = hmac_sha256(key, msg);
    if !ct_bytes_eq(tag, expected.as_slice()) {
        return Err(StateError::BadSignature);
    }
    let ghost m = msg@;
    proof {
        assert(msg@.skip(0) =~= msg@);
    }
    let (ts, j0) = match parse_u64_x(msg, 0) {
        None => {
            return Err(StateError::Corrupt);
        },
        Some(p) => p,
    };
    if j0 == msg.len() {
        proof {
            assert(m.skip(j0 as int).len() == 0);
        }
        return Err(StateError::Corrupt);
    }
    proof {
        assert(m.skip(j0 as int)[0] == m[j0 as int]);
    }
    if msg[j0] != 58 {
        return Err(StateError::Corrupt);
    }
    proof {
        assert(m.skip(j0 as int).drop_first() =~= m.skip(j0 + 1));
    }
    let (dn, j1) = match parse_fld_x(msg, j0 + 1) {
        None => {
            return Err(StateError::Corrupt);
        },
        Some(p) => p,
    };
    let (cs, j2) = match parse_fld_x(msg, j1) {
        None => {
            return Err(StateError::Corrupt);
        },
        Some(p) => p,
    };
    let (pk, j3) = match parse_fld_x(msg, j2) {
        None => {
            return Err(StateError::Corrupt);
        },
        Some(p) => p,
    };
    let (ru, j4) = match parse_fld_x(msg, j3) {
        None => {
            return Err(StateError::Corrupt);
        },
        Some(p) => p,
    };
    if j4 != msg.len() {
        proof {
            assert(m.skip(j4 as int).len() == m.len() - j4);
        }
        return Err(StateError::Corrupt);
    }
    proof {
        assert(m.skip(j4 as int).len() == 0);
    }
    if !(ts <= now && now - ts <= max_age) {
        return Err(StateError::Stale);
    }
    Ok(
        ProxyState {
            downstream: dn,
            client_state: cs,
            pkce_challenge: pk,
            redirect_uri: ru,
            issued_at: ts,
        },
    )
}

} // verus!
