//! The canonical JSON form of the authorization-code payload: a verified
//! serializer and a verified parser of the compact encoding, with a proof
//! that parsing inverts serialization.
//!
//! The encoding matches the common compact JSON form: object fields in
//! declaration order, no whitespace, string contents escaped with `\"`,
//! `\\`, the short control escapes, and `\u00XX` for other control bytes;
//! optional fields are omitted when absent.
//!
//! The parser accepts exactly this canonical form (fields in order, no
//! whitespace). That is sound here because the plaintext it reads is
//! authenticated: only payloads produced under the same secret, and hence by
//! this serializer or a compact-JSON equivalent, ever reach it.

use vstd::prelude::*;
use vstd::string::StrSliceExecFns;
use vstd::string::StringSliceAdditionalSpecFns;
use vstd::utf8::{decode_utf8, encode_utf8, valid_utf8};
use crate::codes::{AuthCodePayload, DownstreamTokens, PayloadView, TokensView};

verus! {

broadcast use vstd::utf8::encode_utf8_valid_utf8, vstd::utf8::encode_utf8_decode_utf8;

/// The bytes of an ASCII literal (each character's code point, truncated).
pub open spec fn lit(s: Seq<char>) -> Seq<u8> {
    Seq::new(s.len(), |i: int| s[i] as u8)
}

/// A hex digit in lowercase.
pub open spec fn hex_digit(n: u8) -> u8 {
    if n < 10 {
        (48 + n) as u8
    } else {
        (87 + n) as u8
    }
}

/// How one byte of string content is escaped.
pub open spec fn esc(b: u8) -> Seq<u8> {
    if b == 34 {
        seq![92u8, 34u8]
    } else if b == 92 {
        seq![92u8, 92u8]
    } else if b == 8 {
        seq![92u8, 98u8]
    } else if b == 9 {
        seq![92u8, 116u8]
    } else if b == 10 {
        seq![92u8, 110u8]
    } else if b == 12 {
        seq![92u8, 102u8]
    } else if b == 13 {
        seq![92u8, 114u8]
    } else if b < 32 {
        seq![92u8, 117u8, 48u8, 48u8, hex_digit((b / 16) as u8), hex_digit((b % 16) as u8)]
    } else {
        seq![b]
    }
}

/// Escaped string content, byte for byte.
pub open spec fn escape(s: Seq<u8>) -> Seq<u8>
    decreases s.len(),
{
    if s.len() == 0 {
        Seq::empty()
    } else {
        esc(s[0]) + escape(s.drop_first())
    }
}

/// A string value's content and closing quote; the opening quote belongs to
/// the literal before it.
pub open spec fn json_str(s: Seq<char>) -> Seq<u8> {
    escape(encode_utf8(s)) + seq![34u8]
}

/// The decimal digits of a number.
pub open spec fn dec_digits(n: u64) -> Seq<u8>
    decreases n,
{
    if n < 10 {
        seq![(48 + n) as u8]
    } else {
        dec_digits(n / 10) + seq![(48 + n % 10) as u8]
    }
}

/// The serialized form of the embedded tokens.
pub open spec fn json_of_tokens(t: TokensView) -> Seq<u8> {
    match t {
        TokensView::Passthrough { access_token } => lit(
            "{\"type\":\"passthrough\",\"access_token\":\""@,
        ) + json_str(access_token) + seq![125u8],
        TokensView::ChainedOAuth { access_token, refresh_token, expires_in } => lit(
            "{\"type\":\"chained_oauth\",\"access_token\":\""@,
        ) + json_str(access_token) + (match refresh_token {
            Some(r) => lit(",\"refresh_token\":\""@) + json_str(r),
            None => Seq::empty(),
        }) + (match expires_in {
            Some(n) => lit(",\"expires_in\":"@) + dec_digits(n),
            None => Seq::empty(),
        }) + seq![125u8],
    }
}

/// The serialized form of the whole payload.
pub open spec fn json_of_payload(p: PayloadView) -> Seq<u8> {
    lit("{\"downstream_tokens\":"@) + json_of_tokens(p.downstream_tokens) + lit(
        ",\"pkce_challenge\":\""@,
    ) + json_str(p.pkce_challenge) + lit(",\"redirect_uri\":\""@) + json_str(p.redirect_uri) + lit(
        ",\"exp\":"@,
    ) + dec_digits(p.exp) + seq![125u8]
}

/// An ASCII decimal digit.
pub open spec fn is_digit(b: u8) -> bool {
    48 <= b && b <= 57
}

/// The value of a lowercase hex digit.
pub open spec fn unhex(b: u8) -> Option<u8> {
    if 48 <= b && b <= 57 {
        Some(((b - 48) as u8))
    } else if 97 <= b && b <= 102 {
        Some(((b - 87) as u8))
    } else {
        None
    }
}

/// Consumes an exact literal from the front of the input.
pub open spec fn eat_lit(b: Seq<u8>, l: Seq<u8>) -> Option<Seq<u8>> {
    if l.len() <= b.len() && b.take(l.len() as int) == l {
        Some(b.skip(l.len() as int))
    } else {
        None
    }
}

/// Consumes one exact byte from the front of the input.
pub open spec fn eat_byte(b: Seq<u8>, x: u8) -> Option<Seq<u8>> {
    if b.len() > 0 && b[0] == x {
        Some(b.drop_first())
    } else {
        None
    }
}

/// Prepends one unescaped byte to a scan result.
pub open spec fn cons_scan(x: u8, r: Option<(Seq<u8>, Seq<u8>)>) -> Option<(Seq<u8>, Seq<u8>)> {
    match r {
        Some(p) => Some((seq![x] + p.0, p.1)),
        None => None,
    }
}

/// Scans escaped string content up to and over the closing quote, returning
/// the unescaped content and the input after the quote.
pub open spec fn scan_str(b: Seq<u8>) -> Option<(Seq<u8>, Seq<u8>)>
    decreases b.len(),
{
    if b.len() == 0 {
        None
    } else if b[0] == 34 {
        Some((Seq::empty(), b.drop_first()))
    } else if b[0] == 92 {
        if b.len() < 2 {
            None
        } else {
            let e = b[1];
            if e == 34 || e == 92 {
                cons_scan(e, scan_str(b.skip(2)))
            } else if e == 98 {
                cons_scan(8, scan_str(b.skip(2)))
            } else if e == 116 {
                cons_scan(9, scan_str(b.skip(2)))
            } else if e == 110 {
                cons_scan(10, scan_str(b.skip(2)))
            } else if e == 102 {
                cons_scan(12, scan_str(b.skip(2)))
            } else if e == 114 {
                cons_scan(13, scan_str(b.skip(2)))
            } else if e == 117 {
                if b.len() < 6 {
                    None
                } else if b[2] == 48 && b[3] == 48 {
                    match (unhex(b[4]), unhex(b[5])) {
                        (Some(h1), Some(h2)) => cons_scan(
                            (16 * h1 + h2) as u8,
                            scan_str(b.skip(6)),
                        ),
                        _ => None,
                    }
                } else {
                    None
                }
            } else {
                None
            }
        }
    } else if b[0] < 32 {
        None
    } else {
        cons_scan(b[0], scan_str(b.drop_first()))
    }
}

/// A scanned string decoded from UTF-8, or nothing when the content is not
/// valid UTF-8.
pub open spec fn parse_string_field(b: Seq<u8>) -> Option<(Seq<char>, Seq<u8>)> {
    match scan_str(b) {
        None => None,
        Some((content, rest)) => if valid_utf8(content) {
            Some((decode_utf8(content), rest))
        } else {
            None
        },
    }
}

/// Greedily accumulates decimal digits.
pub open spec fn scan_digits(b: Seq<u8>, acc: nat) -> (nat, Seq<u8>)
    decreases b.len(),
{
    if b.len() > 0 && is_digit(b[0]) {
        scan_digits(b.drop_first(), (acc * 10 + (b[0] - 48)) as nat)
    } else {
        (acc, b)
    }
}

/// A decimal number that fits in 64 bits.
pub open spec fn parse_u64(b: Seq<u8>) -> Option<(u64, Seq<u8>)> {
    if b.len() > 0 && is_digit(b[0]) {
        let (n, rest) = scan_digits(b, 0);
        if n <= u64::MAX {
            Some((n as u64, rest))
        } else {
            None
        }
    } else {
        None
    }
}

/// The embedded-tokens object: a tagged union of the two strategies.
pub open spec fn parse_tokens(b: Seq<u8>) -> Option<(TokensView, Seq<u8>)> {
    match eat_lit(b, lit("{\"type\":\"passthrough\",\"access_token\":\""@)) {
        Some(b1) => match parse_string_field(b1) {
            Some((at, b2)) => match eat_byte(b2, 125) {
                Some(b3) => Some((TokensView::Passthrough { access_token: at }, b3)),
                None => None,
            },
            None => None,
        },
        None => match eat_lit(b, lit("{\"type\":\"chained_oauth\",\"access_token\":\""@)) {
            Some(b1) => match parse_string_field(b1) {
                Some((at, b2)) => parse_chained_tail(at, b2),
                None => None,
            },
            None => None,
        },
    }
}

/// After the access token of a chained-OAuth object: an optional refresh token.
pub open spec fn parse_chained_tail(at: Seq<char>, b: Seq<u8>) -> Option<(TokensView, Seq<u8>)> {
    match eat_lit(b, lit(",\"refresh_token\":\""@)) {
        Some(r) => match parse_string_field(r) {
            Some((rt, b1)) => parse_chained_tail2(at, Some(rt), b1),
            None => None,
        },
        None => parse_chained_tail2(at, None, b),
    }
}

/// Then an optional expiry, and the closing brace.
pub open spec fn parse_chained_tail2(
    at: Seq<char>,
    rt: Option<Seq<char>>,
    b: Seq<u8>,
) -> Option<(TokensView, Seq<u8>)> {
    match eat_lit(b, lit(",\"expires_in\":"@)) {
        Some(r) => match parse_u64(r) {
            Some((n, b1)) => match eat_byte(b1, 125) {
                Some(b2) => Some(
                    (
                        TokensView::ChainedOAuth {
                            access_token: at,
                            refresh_token: rt,
                            expires_in: Some(n),
                        },
                        b2,
                    ),
                ),
                None => None,
            },
            None => None,
        },
        None => match eat_byte(b, 125) {
            Some(b1) => Some(
                (
                    TokensView::ChainedOAuth {
                        access_token: at,
                        refresh_token: rt,
                        expires_in: None,
                    },
                    b1,
                ),
            ),
            None => None,
        },
    }
}

/// The whole payload document; the input must be consumed exactly.
pub open spec fn parse_payload(b: Seq<u8>) -> Option<PayloadView> {
    match eat_lit(b, lit("{\"downstream_tokens\":"@)) {
        Some(b1) => match parse_tokens(b1) {
            Some((t, b2)) => match eat_lit(b2, lit(",\"pkce_challenge\":\""@)) {
                Some(b3) => match parse_string_field(b3) {
                    Some((pk, b4)) => match eat_lit(b4, lit(",\"redirect_uri\":\""@)) {
                        Some(b5) => match parse_string_field(b5) {
                            Some((ru, b6)) => match eat_lit(b6, lit(",\"exp\":"@)) {
                                Some(b7) => match parse_u64(b7) {
                                    Some((e, b8)) => match eat_byte(b8, 125) {
                                        Some(b9) => if b9.len() == 0 {
                                            Some(
                                                PayloadView {
                                                    downstream_tokens: t,
                                                    pkce_challenge: pk,
                                                    redirect_uri: ru,
                                                    exp: e,
                                                },
                                            )
                                        } else {
                                            None
                                        },
                                        None => None,
                                    },
                                    None => None,
                                },
                                None => None,
                            },
                            None => None,
                        },
                        None => None,
                    },
                    None => None,
                },
                None => None,
            },
            None => None,
        },
        None => None,
    }
}

/// The optional expiry field and the closing brace of a chained-OAuth object.
pub open spec fn tail2_bytes(ei: Option<u64>) -> Seq<u8> {
    (match ei {
        Some(n) => lit(",\"expires_in\":"@) + dec_digits(n),
        None => Seq::<u8>::empty(),
    }) + seq![125u8]
}

/// Everything after the access token of a chained-OAuth object.
pub open spec fn chained_tail_bytes(rt: Option<Seq<char>>, ei: Option<u64>) -> Seq<u8> {
    (match rt {
        Some(r) => lit(",\"refresh_token\":\""@) + json_str(r),
        None => Seq::<u8>::empty(),
    }) + tail2_bytes(ei)
}

/// Escaping distributes over concatenation.
pub proof fn lemma_escape_concat(a: Seq<u8>, b: Seq<u8>)
    ensures
        escape(a + b) == escape(a) + escape(b),
    decreases a.len(),
{
    if a.len() == 0 {
        assert(a + b =~= b);
        assert(escape(a) + escape(b) =~= escape(b));
    } else {
        assert((a + b)[0] == a[0]);
        assert((a + b).drop_first() =~= a.drop_first() + b);
        lemma_escape_concat(a.drop_first(), b);
        assert(esc(a[0]) + (escape(a.drop_first()) + escape(b)) =~= (esc(a[0]) + escape(
            a.drop_first(),
        )) + escape(b));
    }
}

/// Scanning the escaped form of `s`, then the closing quote, recovers `s`
/// exactly and stops right after the quote.
pub proof fn lemma_scan_escape(s: Seq<u8>, rest: Seq<u8>)
    ensures
        scan_str(escape(s) + seq![34u8] + rest) == Some((s, rest)),
    decreases s.len(),
{
    let b = escape(s) + seq![34u8] + rest;
    if s.len() == 0 {
        assert(b =~= seq![34u8] + rest);
        assert(b[0] == 34);
        assert(b.drop_first() =~= rest);
        assert(s =~= Seq::<u8>::empty());
    } else {
        let x = s[0];
        let s1 = s.drop_first();
        let tail = escape(s1) + seq![34u8] + rest;
        lemma_scan_escape(s1, rest);
        assert(escape(s) == esc(x) + escape(s1));
        assert(b =~= esc(x) + tail);
        assert(seq![x] + s1 =~= s);
        if x == 34 || x == 92 {
            assert(b[0] == 92 && b[1] == x);
            assert(b.skip(2) =~= tail);
            assert(scan_str(b) == cons_scan(x, scan_str(tail)));
        } else if x == 8 || x == 9 || x == 10 || x == 12 || x == 13 {
            assert(b[0] == 92);
            assert(b.skip(2) =~= tail);
            assert(scan_str(b) == cons_scan(x, scan_str(tail)));
        } else if x < 32 {
            let h1 = (x / 16) as u8;
            let h2 = (x % 16) as u8;
            assert(b[0] == 92 && b[1] == 117 && b[2] == 48 && b[3] == 48);
            assert(b[4] == hex_digit(h1) && b[5] == hex_digit(h2));
            assert(b.len() >= 6);
            assert(unhex(hex_digit(h1)) == Some(h1));
            assert(unhex(hex_digit(h2)) == Some(h2));
            assert((16 * h1 + h2) as u8 == x);
            assert(b.skip(6) =~= tail);
            assert(scan_str(b) == cons_scan(x, scan_str(tail)));
        } else {
            assert(b[0] == x);
            assert(b.drop_first() =~= tail);
            assert(scan_str(b) == cons_scan(x, scan_str(tail)));
        }
    }
}

/// Powers of ten.
pub open spec fn pow10(k: nat) -> nat
    decreases k,
{
    if k == 0 {
        1
    } else {
        10 * pow10((k - 1) as nat)
    }
}

/// Decimal digit strings are non-empty and hold digits only.
pub proof fn lemma_dec_digits_shape(n: u64)
    ensures
        dec_digits(n).len() >= 1,
        forall|i: int| 0 <= i < dec_digits(n).len() ==> is_digit(#[trigger] dec_digits(n)[i]),
    decreases n,
{
    if n < 10 {
    } else {
        lemma_dec_digits_shape(n / 10);
        assert forall|i: int| 0 <= i < dec_digits(n).len() implies is_digit(
            #[trigger] dec_digits(n)[i],
        ) by {
            if i < dec_digits(n / 10).len() {
                assert(dec_digits(n)[i] == dec_digits(n / 10)[i]);
            } else {
                assert(dec_digits(n)[i] == (48 + n % 10) as u8);
            }
        }
    }
}

/// Scanning the digits of `n` scales the accumulator and adds `n`, then
/// continues into the rest of the input.
pub proof fn lemma_scan_dec(n: u64, acc: nat, rest: Seq<u8>)
    ensures
        scan_digits(dec_digits(n) + rest, acc) == scan_digits(
            rest,
            (acc * pow10(dec_digits(n).len() as nat) + n) as nat,
        ),
    decreases n,
{
    let b = dec_digits(n) + rest;
    if n < 10 {
        assert(b[0] == (48 + n) as u8);
        assert(b.drop_first() =~= rest);
        assert(dec_digits(n).len() == 1);
        assert(pow10(1) == 10 * pow10(0));
        assert(scan_digits(b, acc) == scan_digits(rest, (acc * 10 + n) as nat));
    } else {
        let h = n / 10;
        let d = n % 10;
        let l = dec_digits(h).len() as nat;
        let b2 = seq![(48 + d) as u8] + rest;
        assert(b =~= dec_digits(h) + b2);
        lemma_scan_dec(h, acc, b2);
        let acc1: nat = (acc * pow10(l) + h) as nat;
        assert(b2[0] == (48 + d) as u8);
        assert(b2.drop_first() =~= rest);
        assert(scan_digits(b2, acc1) == scan_digits(rest, (acc1 * 10 + d) as nat));
        assert(dec_digits(n).len() == l + 1);
        assert(pow10((l + 1) as nat) == 10 * pow10(l));
        assert(n == 10 * h + d);
        assert(acc1 * 10 + d == acc * (10 * pow10(l)) + n) by (nonlinear_arith)
            requires
                acc1 == acc * pow10(l) + h,
                n == 10 * h + d,
        ;
    }
}

/// The accumulator never shrinks while scanning digits.
pub proof fn lemma_scan_digits_ge(b: Seq<u8>, acc: nat)
    ensures
        scan_digits(b, acc).0 >= acc,
    decreases b.len(),
{
    if b.len() > 0 && is_digit(b[0]) {
        let acc2: nat = (acc * 10 + (b[0] - 48)) as nat;
        lemma_scan_digits_ge(b.drop_first(), acc2);
        assert(acc2 >= acc) by (nonlinear_arith)
            requires
                acc2 == acc * 10 + (b[0] - 48),
                b[0] >= 48,
        ;
    }
}

/// Parsing the decimal form of `n` returns `n` and stops at the first
/// non-digit.
pub proof fn lemma_parse_u64_dec(n: u64, rest: Seq<u8>)
    requires
        rest.len() == 0 || !is_digit(rest[0]),
    ensures
        parse_u64(dec_digits(n) + rest) == Some((n, rest)),
{
    let b = dec_digits(n) + rest;
    lemma_dec_digits_shape(n);
    assert(b[0] == dec_digits(n)[0]);
    lemma_scan_dec(n, 0, rest);
    assert((0 * pow10(dec_digits(n).len() as nat) + n) as nat == n as nat);
    assert(scan_digits(rest, n as nat) == (n as nat, rest));
}

/// Consuming a literal that the input starts with.
pub proof fn lemma_eat_lit_prefix(l: Seq<u8>, rest: Seq<u8>)
    ensures
        eat_lit(l + rest, l) == Some(rest),
{
    assert((l + rest).take(l.len() as int) =~= l);
    assert((l + rest).skip(l.len() as int) =~= rest);
}

/// A literal that differs from the input at one index does not match.
pub proof fn lemma_eat_lit_mismatch(b: Seq<u8>, l: Seq<u8>, k: int)
    requires
        0 <= k < l.len(),
        k < b.len(),
        b[k] != l[k],
    ensures
        eat_lit(b, l) is None,
{
    if l.len() <= b.len() && b.take(l.len() as int) == l {
        assert(b.take(l.len() as int)[k] == b[k]);
        assert(false);
    }
}

/// Parsing inverts serialization for the optional chained fields.
proof fn lemma_parse_chained_tail2(at: Seq<char>, rt: Option<Seq<char>>, ei: Option<u64>, rest: Seq<
    u8,
>)
    ensures
        parse_chained_tail2(at, rt, tail2_bytes(ei) + rest) == Some(
            (
                TokensView::ChainedOAuth { access_token: at, refresh_token: rt, expires_in: ei },
                rest,
            ),
        ),
{
    reveal_strlit(",\"expires_in\":");
    let le = lit(",\"expires_in\":"@);
    let b = tail2_bytes(ei) + rest;
    match ei {
        Some(n) => {
            let r1 = dec_digits(n) + (seq![125u8] + rest);
            assert(b =~= le + r1);
            lemma_eat_lit_prefix(le, r1);
            assert((seq![125u8] + rest)[0] == 125);
            lemma_parse_u64_dec(n, seq![125u8] + rest);
            assert((seq![125u8] + rest).drop_first() =~= rest);
        },
        None => {
            assert(b =~= seq![125u8] + rest);
            assert(b[0] == 125);
            assert((",\"expires_in\":"@)[0] == ',');
            assert(le[0] == 44);
            lemma_eat_lit_mismatch(b, le, 0);
            assert(b.drop_first() =~= rest);
        },
    }
}

/// Parsing inverts serialization for the tail of a chained-OAuth object.
proof fn lemma_parse_chained_tail(at: Seq<char>, rt: Option<Seq<char>>, ei: Option<u64>, rest: Seq<
    u8,
>)
    ensures
        parse_chained_tail(at, chained_tail_bytes(rt, ei) + rest) == Some(
            (
                TokensView::ChainedOAuth { access_token: at, refresh_token: rt, expires_in: ei },
                rest,
            ),
        ),
{
    reveal_strlit(",\"refresh_token\":\"");
    reveal_strlit(",\"expires_in\":");
    let lr = lit(",\"refresh_token\":\""@);
    let le = lit(",\"expires_in\":"@);
    let b = chained_tail_bytes(rt, ei) + rest;
    match rt {
        Some(r) => {
            let enc = encode_utf8(r);
            let after = tail2_bytes(ei) + rest;
            assert(b =~= lr + (escape(enc) + seq![34u8] + after));
            lemma_eat_lit_prefix(lr, escape(enc) + seq![34u8] + after);
            lemma_scan_escape(enc, after);
            assert(valid_utf8(enc));
            assert(decode_utf8(enc) == r);
            lemma_parse_chained_tail2(at, rt, ei, rest);
        },
        None => {
            assert(b =~= tail2_bytes(ei) + rest);
            match ei {
                Some(n) => {
                    assert(b[2] == le[2]);
                    assert((",\"refresh_token\":\""@)[2] == 'r');
                    assert((",\"expires_in\":"@)[2] == 'e');
                    assert(lr[2] == 114 && le[2] == 101);
                    lemma_eat_lit_mismatch(b, lr, 2);
                },
                None => {
                    assert(b[0] == 125);
                    assert((",\"refresh_token\":\""@)[0] == ',');
                    assert(lr[0] == 44);
                    lemma_eat_lit_mismatch(b, lr, 0);
                },
            }
            lemma_parse_chained_tail2(at, rt, ei, rest);
        },
    }
}

/// Parsing inverts serialization for the embedded-tokens object.
pub proof fn lemma_parse_tokens_of_json(t: TokensView, rest: Seq<u8>)
    ensures
        parse_tokens(json_of_tokens(t) + rest) == Some((t, rest)),
{
    reveal_strlit("{\"type\":\"passthrough\",\"access_token\":\"");
    reveal_strlit("{\"type\":\"chained_oauth\",\"access_token\":\"");
    let lp = lit("{\"type\":\"passthrough\",\"access_token\":\""@);
    let lc = lit("{\"type\":\"chained_oauth\",\"access_token\":\""@);
    let b = json_of_tokens(t) + rest;
    match t {
        TokensView::Passthrough { access_token } => {
            let enc = encode_utf8(access_token);
            let after = seq![125u8] + rest;
            assert(b =~= lp + (escape(enc) + seq![34u8] + after));
            lemma_eat_lit_prefix(lp, escape(enc) + seq![34u8] + after);
            lemma_scan_escape(enc, after);
            assert(valid_utf8(enc));
            assert(decode_utf8(enc) == access_token);
            assert(after[0] == 125);
            assert(after.drop_first() =~= rest);
        },
        TokensView::ChainedOAuth { access_token, refresh_token, expires_in } => {
            let enc = encode_utf8(access_token);
            let after = chained_tail_bytes(refresh_token, expires_in) + rest;
            assert(b =~= lc + (escape(enc) + seq![34u8] + after));
            assert(("{\"type\":\"passthrough\",\"access_token\":\""@)[9] == 'p');
            assert(("{\"type\":\"chained_oauth\",\"access_token\":\""@)[9] == 'c');
            assert(lp[9] == 112);
            assert(b[9] == lc[9]);
            assert(lc[9] == 99);
            lemma_eat_lit_mismatch(b, lp, 9);
            lemma_eat_lit_prefix(lc, escape(enc) + seq![34u8] + after);
            lemma_scan_escape(enc, after);
            assert(valid_utf8(enc));
            assert(decode_utf8(enc) == access_token);
            lemma_parse_chained_tail(access_token, refresh_token, expires_in, rest);
        },
    }
}

/// Parsing inverts serialization for the whole payload document.
pub proof fn lemma_parse_of_json(p: PayloadView)
    ensures
        parse_payload(json_of_payload(p)) == Some(p),
{
    let l0 = lit("{\"downstream_tokens\":"@);
    let l1 = lit(",\"pkce_challenge\":\""@);
    let l2 = lit(",\"redirect_uri\":\""@);
    let l3 = lit(",\"exp\":"@);
    let enc1 = encode_utf8(p.pkce_challenge);
    let enc2 = encode_utf8(p.redirect_uri);
    let r8: Seq<u8> = seq![125u8];
    let r7 = dec_digits(p.exp) + r8;
    let r6 = l3 + r7;
    let r5 = escape(enc2) + seq![34u8] + r6;
    let r4 = l2 + r5;
    let r3 = escape(enc1) + seq![34u8] + r4;
    let r2 = l1 + r3;
    let r1 = json_of_tokens(p.downstream_tokens) + r2;
    let b = json_of_payload(p);
    assert(b =~= l0 + r1);
    lemma_eat_lit_prefix(l0, r1);
    lemma_parse_tokens_of_json(p.downstream_tokens, r2);
    lemma_eat_lit_prefix(l1, r3);
    lemma_scan_escape(enc1, r4);
    assert(valid_utf8(enc1));
    assert(decode_utf8(enc1) == p.pkce_challenge);
    lemma_eat_lit_prefix(l2, r5);
    lemma_scan_escape(enc2, r6);
    assert(valid_utf8(enc2));
    assert(decode_utf8(enc2) == p.redirect_uri);
    lemma_eat_lit_prefix(l3, r7);
    assert(r8[0] == 125);
    lemma_parse_u64_dec(p.exp, r8);
    assert(r8.drop_first() =~= Seq::<u8>::empty());
    assert(parse_payload(b) == Some(
        PayloadView {
            downstream_tokens: p.downstream_tokens,
            pkce_challenge: p.pkce_challenge,
            redirect_uri: p.redirect_uri,
            exp: p.exp,
        },
    ));
}

/// Relies on String::from_utf8: the returned string's bytes are exactly the
/// input, and the conversion fails exactly on invalid UTF-8.
#[verifier::external_body]
pub(crate) fn string_from_utf8(v: Vec<u8>) -> (r: Option<String>)
    ensures
        match r {
            Some(s) => valid_utf8(v@) && s@ == decode_utf8(v@),
            None => !valid_utf8(v@),
        },
{
    String::from_utf8(v).ok()
}

/// Appends the bytes of an ASCII literal.
fn push_lit(out: &mut Vec<u8>, s: &str)
    ensures
        final(out)@ == old(out)@ + lit(s@),
{
    let n = s.unicode_len();
    let mut i: usize = 0;
    while i < n
        invariant
            n == s@.len(),
            0 <= i <= n,
            out@ == old(out)@ + lit(s@).take(i as int),
        decreases n - i,
    {
        let c = s.get_char(i);
        let cb: u8 = #[verifier::truncate] (c as u8);
        out.push(cb);
        proof {
            assert(lit(s@).take(i + 1) =~= lit(s@).take(i as int).push(s@[i as int] as u8));
            assert(out@ =~= old(out)@ + lit(s@).take(i + 1));
        }
        i += 1;
    }
    proof {
        assert(lit(s@).take(n as int) =~= lit(s@));
    }
}

/// Appends the escaped content bytes of a string value.
fn push_escaped(out: &mut Vec<u8>, s: &str)
    ensures
        final(out)@ == old(out)@ + escape(s.spec_bytes()),
{
    let b = s.as_bytes();
    let n = b.len();
    let mut i: usize = 0;
    while i < n
        invariant
            n == b@.len(),
            b@ == s.spec_bytes(),
            0 <= i <= n,
            out@ == old(out)@ + escape(b@.take(i as int)),
        decreases n - i,
    {
        let x = b[i];
        let ghost pre = out@;
        if x == 34 {
            out.push(92);
            out.push(34);
        } else if x == 92 {
            out.push(92);
            out.push(92);
        } else if x == 8 {
            out.push(92);
            out.push(98);
        } else if x == 9 {
            out.push(92);
            out.push(116);
        } else if x == 10 {
            out.push(92);
            out.push(110);
        } else if x == 12 {
            out.push(92);
            out.push(102);
        } else if x == 13 {
            out.push(92);
            out.push(114);
        } else if x < 32 {
            let h1 = x / 16;
            let h2 = x % 16;
            let d1: u8 = if h1 < 10 {
                48 + h1
            } else {
                87 + h1
            };
            let d2: u8 = if h2 < 10 {
                48 + h2
            } else {
                87 + h2
            };
            out.push(92);
            out.push(117);
            out.push(48);
            out.push(48);
            out.push(d1);
            out.push(d2);
            proof {
                assert(d1 == hex_digit((x / 16) as u8));
                assert(d2 == hex_digit((x % 16) as u8));
            }
        } else {
            out.push(x);
        }
        proof {
            assert(out@ =~= pre + esc(x));
            lemma_escape_concat(b@.take(i as int), seq![x]);
            assert(b@.take(i + 1) =~= b@.take(i as int) + seq![x]);
            assert(seq![x].drop_first() =~= Seq::<u8>::empty());
            assert(escape(Seq::<u8>::empty()) =~= Seq::<u8>::empty());
            assert(escape(seq![x]) == esc(x) + escape(seq![x].drop_first()));
            assert(escape(seq![x]) =~= esc(x));
            assert(out@ =~= old(out)@ + escape(b@.take(i + 1)));
        }
        i += 1;
    }
    proof {
        assert(b@.take(n as int) =~= b@);
    }
}

/// Appends the decimal digits of `n`.
pub(crate) fn push_dec(out: &mut Vec<u8>, n: u64)
    ensures
        final(out)@ == old(out)@ + dec_digits(n),
    decreases n,
{
    if n >= 10 {
        push_dec(out, n / 10);
    }
    let d: u8 = 48 + ((n % 10) as u8);
    out.push(d);
    proof {
        if n < 10 {
            assert(dec_digits(n) =~= seq![(48 + n) as u8]);
            assert(out@ =~= old(out)@ + dec_digits(n));
        } else {
            assert(dec_digits(n) == dec_digits(n / 10) + seq![(48 + n % 10) as u8]);
            assert(out@ =~= old(out)@ + dec_digits(n));
        }
    }
}

/// Serializes the payload into its canonical JSON bytes.
pub fn serialize_payload(p: &AuthCodePayload) -> (r: Vec<u8>)
    ensures
        r@ == json_of_payload(p@),
{
    let mut out: Vec<u8> = Vec::new();
    push_lit(&mut out, "{\"downstream_tokens\":");
    match &p.downstream_tokens {
        DownstreamTokens::Passthrough { access_token } => {
            push_lit(&mut out, "{\"type\":\"passthrough\",\"access_token\":\"");
            push_escaped(&mut out, access_token.as_str());
            out.push(34);
            out.push(125);
        },
        DownstreamTokens::ChainedOAuth { access_token, refresh_token, expires_in } => {
            push_lit(&mut out, "{\"type\":\"chained_oauth\",\"access_token\":\"");
            push_escaped(&mut out, access_token.as_str());
            out.push(34);
            if let Some(rt) = refresh_token {
                push_lit(&mut out, ",\"refresh_token\":\"");
                push_escaped(&mut out, rt.as_str());
                out.push(34);
            }
            if let Some(ei) = expires_in {
                push_lit(&mut out, ",\"expires_in\":");
                push_dec(&mut out, *ei);
            }
            out.push(125);
        },
    }
    proof {
        assert(out@ =~= lit("{\"downstream_tokens\":"@) + json_of_tokens(p@.downstream_tokens));
    }
    push_lit(&mut out, ",\"pkce_challenge\":\"");
    push_escaped(&mut out, p.pkce_challenge.as_str());
    out.push(34);
    push_lit(&mut out, ",\"redirect_uri\":\"");
    push_escaped(&mut out, p.redirect_uri.as_str());
    out.push(34);
    push_lit(&mut out, ",\"exp\":");
    push_dec(&mut out, p.exp);
    out.push(125);
    proof {
        assert(out@ =~= json_of_payload(p@));
    }
    out
}

/// The value of a lowercase hex digit, decided.
fn unhex_x(b: u8) -> (r: Option<u8>)
    ensures
        r == unhex(b),
{
    if 48 <= b && b <= 57 {
        Some(b - 48)
    } else if 97 <= b && b <= 102 {
        Some(b - 87)
    } else {
        None
    }
}

/// Consumes the literal `s` at position `i`, returning the position after it.
fn eat_lit_x(v: &[u8], i: usize, s: &str) -> (r: Option<usize>)
    requires
        i <= v@.len(),
    ensures
        match r {
            Some(j) => i <= j <= v@.len() && eat_lit(v@.skip(i as int), lit(s@)) == Some(
                v@.skip(j as int),
            ),
            None => eat_lit(v@.skip(i as int), lit(s@)) is None,
        },
{
    let n = s.unicode_len();
    if v.len() - i < n {
        proof {
            assert(v@.skip(i as int).len() == v@.len() - i);
            assert(lit(s@).len() == s@.len());
        }
        return None;
    }
    let mut k: usize = 0;
    while k < n
        invariant
            i + n <= v@.len() <= usize::MAX,
            n == s@.len(),
            0 <= k <= n,
            forall|t: int| 0 <= t < k ==> v@[i + t] == lit(s@)[t],
        decreases n - k,
    {
        let c = s.get_char(k);
        let cb: u8 = #[verifier::truncate] (c as u8);
        if v[i + k] != cb {
            proof {
                let b = v@.skip(i as int);
                assert(b[k as int] == v@[i + k]);
                assert(lit(s@)[k as int] == cb);
                lemma_eat_lit_mismatch(b, lit(s@), k as int);
            }
            return None;
        }
        k += 1;
    }
    proof {
        let b = v@.skip(i as int);
        assert(b.take(n as int) =~= lit(s@));
        assert(b.skip(n as int) =~= v@.skip(i + n));
    }
    Some(i + n)
}

/// Prepending already-scanned content to a scan result.
pub open spec fn glue(prefix: Seq<u8>, r: Option<(Seq<u8>, Seq<u8>)>) -> Option<(Seq<u8>, Seq<u8>)> {
    match r {
        Some(p) => Some((prefix + p.0, p.1)),
        None => None,
    }
}

proof fn lemma_glue_cons(o: Seq<u8>, x: u8, r: Option<(Seq<u8>, Seq<u8>)>)
    ensures
        glue(o, cons_scan(x, r)) == glue(o.push(x), r),
{
    match r {
        Some(p) => {
            assert(o + (seq![x] + p.0) =~= o.push(x) + p.0);
        },
        None => {},
    }
}

/// Scans a string value's content from position `i` up to and over the
/// closing quote.
fn scan_str_x(v: &[u8], i: usize) -> (r: Option<(Vec<u8>, usize)>)
    requires
        i <= v@.len(),
    ensures
        match r {
            Some(p) => p.1 <= v@.len() && scan_str(v@.skip(i as int)) == Some(
                (p.0@, v@.skip(p.1 as int)),
            ),
            None => scan_str(v@.skip(i as int)) is None,
        },
{
    let n = v.len();
    let mut out: Vec<u8> = Vec::new();
    let mut cur: usize = i;
    loop
        invariant
            i <= cur <= n,
            n == v@.len(),
            scan_str(v@.skip(i as int)) == glue(out@, scan_str(v@.skip(cur as int))),
        decreases n - cur,
    {
        if cur == n {
            proof {
                assert(v@.skip(cur as int).len() == 0);
            }
            return None;
        }
        let x = v[cur];
        proof {
            assert(v@.skip(cur as int)[0] == x);
        }
        if x == 34 {
            proof {
                assert(v@.skip(cur as int).drop_first() =~= v@.skip(cur + 1));
                assert(out@ + Seq::<u8>::empty() =~= out@);
            }
            return Some((out, cur + 1));
        } else if x == 92 {
            if n - cur < 2 {
                return None;
            }
            let e = v[cur + 1];
            proof {
                assert(v@.skip(cur as int)[1] == e);
            }
            let m: u8;
            let step: usize;
            if e == 34 || e == 92 {
                m = e;
                step = 2;
            } else if e == 98 {
                m = 8;
                step = 2;
            } else if e == 116 {
                m = 9;
                step = 2;
            } else if e == 110 {
                m = 10;
                step = 2;
            } else if e == 102 {
                m = 12;
                step = 2;
            } else if e == 114 {
                m = 13;
                step = 2;
            } else if e == 117 {
                if n - cur < 6 {
                    return None;
                }
                proof {
                    assert(v@.skip(cur as int)[2] == v@[cur + 2]);
                    assert(v@.skip(cur as int)[3] == v@[cur + 3]);
                    assert(v@.skip(cur as int)[4] == v@[cur + 4]);
                    assert(v@.skip(cur as int)[5] == v@[cur + 5]);
                }
                if !(v[cur + 2] == 48 && v[cur + 3] == 48) {
                    return None;
                }
                let h1 = match unhex_x(v[cur + 4]) {
                    Some(h) => h,
                    None => {
                        return None;
                    },
                };
                let h2 = match unhex_x(v[cur + 5]) {
                    Some(h) => h,
                    None => {
                        return None;
                    },
                };
                m = 16 * h1 + h2;
                step = 6;
            } else {
                return None;
            }
            proof {
                assert(scan_str(v@.skip(cur as int)) == cons_scan(
                    m,
                    scan_str(v@.skip(cur as int).skip(step as int)),
                ));
                assert(v@.skip(cur as int).skip(step as int) =~= v@.skip(cur + step));
                lemma_glue_cons(out@, m, scan_str(v@.skip(cur + step)));
            }
            out.push(m);
            cur = cur + step;
        } else if x < 32 {
            return None;
        } else {
            proof {
                assert(scan_str(v@.skip(cur as int)) == cons_scan(
                    x,
                    scan_str(v@.skip(cur as int).drop_first()),
                ));
                assert(v@.skip(cur as int).drop_first() =~= v@.skip(cur + 1));
                lemma_glue_cons(out@, x, scan_str(v@.skip(cur + 1)));
            }
            out.push(x);
            cur = cur + 1;
        }
    }
}

/// Scans a string value and decodes it from UTF-8.
fn parse_string_field_x(v: &[u8], i: usize) -> (r: Option<(String, usize)>)
    requires
        i <= v@.len(),
    ensures
        match r {
            Some(p) => p.1 <= v@.len() && parse_string_field(v@.skip(i as int)) == Some(
                (p.0@, v@.skip(p.1 as int)),
            ),
            None => parse_string_field(v@.skip(i as int)) is None,
        },
{
    match scan_str_x(v, i) {
        None => None,
        Some((content, j)) => {
            let ghost cv = content@;
            match string_from_utf8(content) {
                None => None,
                Some(s) => Some((s, j)),
            }
        },
    }
}

/// Parses a decimal number that must fit in 64 bits.
pub(crate) fn parse_u64_x(v: &[u8], i: usize) -> (r: Option<(u64, usize)>)
    requires
        i <= v@.len(),
    ensures
        match r {
            Some(p) => p.1 <= v@.len() && parse_u64(v@.skip(i as int)) == Some(
                (p.0, v@.skip(p.1 as int)),
            ),
            None => parse_u64(v@.skip(i as int)) is None,
        },
{
    let n = v.len();
    if i == n {
        return None;
    }
    proof {
        assert(v@.skip(i as int)[0] == v@[i as int]);
    }
    if !(48 <= v[i] && v[i] <= 57) {
        return None;
    }
    let mut acc: u64 = 0;
    let mut cur: usize = i;
    loop
        invariant
            i <= cur <= n,
            n == v@.len(),
            i < n,
            is_digit(v@[i as int]),
            scan_digits(v@.skip(i as int), 0) == scan_digits(v@.skip(cur as int), acc as nat),
        decreases n - cur,
    {
        if cur == n {
            proof {
                assert(v@.skip(cur as int).len() == 0);
                assert(scan_digits(v@.skip(cur as int), acc as nat) == (
                    acc as nat,
                    v@.skip(cur as int),
                ));
            }
            return Some((acc, cur));
        }
        let d = v[cur];
        proof {
            assert(v@.skip(cur as int)[0] == d);
        }
        if !(48 <= d && d <= 57) {
            proof {
                assert(scan_digits(v@.skip(cur as int), acc as nat) == (
                    acc as nat,
                    v@.skip(cur as int),
                ));
            }
            return Some((acc, cur));
        }
        let dv = d - 48;
        proof {
            assert(v@.skip(cur as int).drop_first() =~= v@.skip(cur + 1));
            assert(scan_digits(v@.skip(cur as int), acc as nat) == scan_digits(
                v@.skip(cur + 1),
                (acc * 10 + dv) as nat,
            ));
        }
        if acc > (u64::MAX - (dv as u64)) / 10 {
            proof {
                let next: nat = (acc * 10 + dv) as nat;
                assert(next > u64::MAX) by (nonlinear_arith)
                    requires
                        next == acc * 10 + dv,
                        acc > (u64::MAX - dv) / 10,
                        0 <= dv <= 9,
                        acc >= 0,
                ;
                lemma_scan_digits_ge(v@.skip(cur + 1), next);
            }
            return None;
        }
        acc = acc * 10 + (dv as u64);
        cur = cur + 1;
    }
}

/// Parses the embedded-tokens object at position `i`.
fn parse_tokens_x(v: &[u8], i: usize) -> (r: Option<(DownstreamTokens, usize)>)
    requires
        i <= v@.len(),
    ensures
        match r {
            Some(p) => p.1 <= v@.len() && parse_tokens(v@.skip(i as int)) == Some(
                (p.0@, v@.skip(p.1 as int)),
            ),
            None => parse_tokens(v@.skip(i as int)) is None,
        },
{
    match eat_lit_x(v, i, "{\"type\":\"passthrough\",\"access_token\":\"") {
        Some(j1) => match parse_string_field_x(v, j1) {
            Some((at, j2)) => {
                if j2 < v.len() && v[j2] == 125 {
                    proof {
                        assert(v@.skip(j2 as int)[0] == 125);
                        assert(v@.skip(j2 as int).drop_first() =~= v@.skip(j2 + 1));
                    }
                    Some((DownstreamTokens::Passthrough { access_token: at }, j2 + 1))
                } else {
                    proof {
                        if j2 < v@.len() {
                            assert(v@.skip(j2 as int)[0] == v@[j2 as int]);
                        } else {
                            assert(v@.skip(j2 as int).len() == 0);
                        }
                    }
                    None
                }
            },
            None => None,
        },
        None => match eat_lit_x(v, i, "{\"type\":\"chained_oauth\",\"access_token\":\"") {
            Some(j1) => match parse_string_field_x(v, j1) {
                Some((at, j2)) => {
                    let (rt, j3): (Option<String>, usize) = match eat_lit_x(
                        v,
                        j2,
                        ",\"refresh_token\":\"",
                    ) {
                        Some(k) => match parse_string_field_x(v, k) {
                            Some((r, k2)) => (Some(r), k2),
                            None => {
                                return None;
                            },
                        },
                        None => (None, j2),
                    };
                    let (ei, j4): (Option<u64>, usize) = match eat_lit_x(
                        v,
                        j3,
                        ",\"expires_in\":",
                    ) {
                        Some(k) => match parse_u64_x(v, k) {
                            Some((nv, k2)) => (Some(nv), k2),
                            None => {
                                return None;
                            },
                        },
                        None => (None, j3),
                    };
                    if j4 < v.len() && v[j4] == 125 {
                        proof {
                            assert(v@.skip(j4 as int)[0] == 125);
                            assert(v@.skip(j4 as int).drop_first() =~= v@.skip(j4 + 1));
                        }
                        Some(
                            (
                                DownstreamTokens::ChainedOAuth {
                                    access_token: at,
                                    refresh_token: rt,
                                    expires_in: ei,
                                },
                                j4 + 1,
                            ),
                        )
                    } else {
                        proof {
                            if j4 < v@.len() {
                                assert(v@.skip(j4 as int)[0] == v@[j4 as int]);
                            } else {
                                assert(v@.skip(j4 as int).len() == 0);
                            }
                        }
                        None
                    }
                },
                None => None,
            },
            None => None,
        },
    }
}

/// Parses the whole payload document; the input must be consumed exactly.
pub fn parse_payload_x(v: &[u8]) -> (r: Option<AuthCodePayload>)
    ensures
        match r {
            Some(p) => parse_payload(v@) == Some(p@),
            None => parse_payload(v@) is None,
        },
{
    proof {
        assert(v@.skip(0) =~= v@);
    }
    match eat_lit_x(v, 0, "{\"downstream_tokens\":") {
        None => None,
        Some(j1) => match parse_tokens_x(v, j1) {
            None => None,
            Some((t, j2)) => match eat_lit_x(v, j2, ",\"pkce_challenge\":\"") {
                None => None,
                Some(j3) => match parse_string_field_x(v, j3) {
                    None => None,
                    Some((pk, j4)) => match eat_lit_x(v, j4, ",\"redirect_uri\":\"") {
                        None => None,
                        Some(j5) => match parse_string_field_x(v, j5) {
                            None => None,
                            Some((ru, j6)) => match eat_lit_x(v, j6, ",\"exp\":") {
                                None => None,
                                Some(j7) => match parse_u64_x(v, j7) {
                                    None => None,
                                    Some((e, j8)) => {
                                        if j8 < v.len() && v[j8] == 125 && j8 + 1 == v.len() {
                                            proof {
                                                assert(v@.skip(j8 as int)[0] == 125);
                                                assert(v@.skip(j8 as int).drop_first() =~= v@.skip(
                                                    j8 + 1,
                                                ));
                                                assert(v@.skip(j8 + 1).len() == 0);
                                            }
                                            Some(
                                                AuthCodePayload {
                                                    downstream_tokens: t,
                                                    pkce_challenge: pk,
                                                    redirect_uri: ru,
                                                    exp: e,
                                                },
                                            )
                                        } else {
                                            proof {
                                                if j8 < v@.len() {
                                                    assert(v@.skip(j8 as int)[0] == v@[j8 as int]);
                                                    if v@[j8 as int] == 125 {
                                                        assert(v@.skip(j8 as int).drop_first()
                                                            =~= v@.skip(j8 + 1));
                                                        assert(v@.skip(j8 + 1).len() == v@.len()
                                                            - j8 - 1);
                                                    }
                                                } else {
                                                    assert(v@.skip(j8 as int).len() == 0);
                                                }
                                            }
                                            None
                                        }
                                    },
                                },
                            },
                        },
                    },
                },
            },
        },
    }
}

} // verus!
