//! Verified string utilities: slug validation, prefix/suffix tests, string
//! equality (plain and constant-time), and the environment-variable name for a
//! downstream's client-secret override.

use vstd::prelude::*;
use vstd::string::StrSliceExecFns;
use vstd::string::StringSliceAdditionalSpecFns;

verus! {

/// Characters allowed in a downstream name: lowercase ASCII letters, digits, hyphen.
pub open spec fn is_slug_char(c: char) -> bool {
    ('a' <= c && c <= 'z') || ('0' <= c && c <= '9') || c == '-'
}

/// A valid downstream name: non-empty and made of slug characters only.
pub open spec fn is_slug(s: Seq<char>) -> bool {
    s.len() > 0 && forall|i: int| 0 <= i < s.len() ==> is_slug_char(#[trigger] s[i])
}

/// Checks a downstream name against the slug rule.
pub fn is_valid_name(s: &str) -> (r: bool)
    ensures
        r == is_slug(s@),
{
    broadcast use vstd::string::is_ascii_spec_bytes;

    if !s.is_ascii() {
        proof {
            assert(!vstd::string::is_ascii(s));
            if is_slug(s@) {
                assert forall|i: int|
                    0 <= i < s@.len() implies '\0' <= #[trigger] s@[i] <= '\u{7f}' by {
                    assert(is_slug_char(s@[i]));
                }
                assert(vstd::string::is_ascii(s));
                assert(false);
            }
        }
        return false;
    }
    let n = s.unicode_len();
    if n == 0 {
        return false;
    }
    let mut i: usize = 0;
    while i < n
        invariant
            vstd::string::is_ascii(s),
            n == s@.len(),
            0 <= i <= n,
            forall|j: int| 0 <= j < i ==> is_slug_char(#[trigger] s@[j]),
        decreases n - i,
    {
        let c = s.get_ascii(i);
        if !((97 <= c && c <= 122) || (48 <= c && c <= 57) || c == 45) {
            proof {
                assert(s@[i as int] as u8 == c);
                assert(!is_slug_char(s@[i as int]));
            }
            return false;
        }
        proof {
            assert(s@[i as int] as u8 == c);
            assert('\0' <= s@[i as int] <= '\u{7f}');
            assert(is_slug_char(s@[i as int]));
        }
        i += 1;
    }
    true
}

/// String equality, decided through the UTF-8 bytes of both sides.
pub fn str_eq(a: &str, b: &str) -> (r: bool)
    ensures
        r == (a@ == b@),
{
    broadcast use vstd::utf8::encode_utf8_decode_utf8;

    let ab = a.as_bytes();
    let bb = b.as_bytes();
    if ab.len() != bb.len() {
        return false;
    }
    let n = ab.len();
    let mut i: usize = 0;
    while i < n
        invariant
            n == ab@.len() == bb@.len(),
            ab@ == a.spec_bytes(),
            bb@ == b.spec_bytes(),
            0 <= i <= n,
            forall|j: int| 0 <= j < i ==> ab@[j] == bb@[j],
        decreases n - i,
    {
        if ab[i] != bb[i] {
            return false;
        }
        i += 1;
    }
    proof {
        assert(a.spec_bytes() =~= b.spec_bytes());
        assert(vstd::utf8::decode_utf8(a.spec_bytes()) == a@);
    }
    true
}

/// `p` is a prefix of `s`, as character sequences.
pub open spec fn has_prefix(s: Seq<char>, p: Seq<char>) -> bool {
    p.len() <= s.len() && s.subrange(0, p.len() as int) == p
}

/// Tests whether `s` starts with `p`.
pub fn starts_with_str(s: &str, p: &str) -> (r: bool)
    ensures
        r == has_prefix(s@, p@),
{
    let n = p.unicode_len();
    if s.unicode_len() < n {
        return false;
    }
    let head = s.substring_char(0, n);
    str_eq(head, p)
}

/// Tests whether the last character of `s` is `c`.
pub fn ends_with_char(s: &str, c: char) -> (r: bool)
    ensures
        r == (s@.len() > 0 && s@[s@.len() - 1] == c),
{
    let n = s.unicode_len();
    if n == 0 {
        false
    } else {
        s.get_char(n - 1) == c
    }
}

/// Byte-slice equality that examines every byte of equal-length inputs, so the
/// running time does not reveal the position of the first difference.
pub fn ct_bytes_eq(a: &[u8], b: &[u8]) -> (r: bool)
    ensures
        r == (a@ == b@),
{
    if a.len() != b.len() {
        proof {
            assert(a@ != b@);
        }
        return false;
    }
    let n = a.len();
    let mut diff: u8 = 0;
    let mut i: usize = 0;
    while i < n
        invariant
            n == a@.len() == b@.len(),
            0 <= i <= n,
            (diff == 0) <==> (forall|j: int| 0 <= j < i ==> a@[j] == b@[j]),
        decreases n - i,
    {
        let x = a[i] ^ b[i];
        proof {
            let ai = a@[i as int];
            let bi = b@[i as int];
            assert((ai ^ bi) == 0 <==> ai == bi) by (bit_vector);
            assert((diff | (ai ^ bi)) == 0 <==> diff == 0 && (ai ^ bi) == 0) by (bit_vector);
        }
        diff = diff | x;
        i += 1;
    }
    proof {
        if diff == 0 {
            assert(a@ =~= b@);
        }
    }
    diff == 0
}

/// String equality in constant time over the UTF-8 bytes.
pub fn ct_str_eq(a: &str, b: &str) -> (r: bool)
    ensures
        r == (a@ == b@),
{
    broadcast use vstd::utf8::encode_utf8_decode_utf8;

    let r = ct_bytes_eq(a.as_bytes(), b.as_bytes());
    proof {
        if a.spec_bytes() == b.spec_bytes() {
            assert(vstd::utf8::decode_utf8(a.spec_bytes()) == a@);
        }
    }
    r
}

/// How one character of a downstream name is mapped when building the name of
/// its client-secret override variable: ASCII lowercase is upshifted and a
/// hyphen becomes an underscore.
pub open spec fn env_upper_char(c: char) -> char {
    if 'a' <= c && c <= 'z' {
        (((c as u8) - 0x20) as char)
    } else if c == '-' {
        '_'
    } else {
        c
    }
}

/// The environment variable that overrides a downstream's client secret.
pub open spec fn env_var_name_of(name: Seq<char>) -> Seq<char> {
    "MCP_PROXY_"@ + name.map_values(|c: char| env_upper_char(c)) + "_CLIENT_SECRET"@
}

/// Relies on String::push: appends one character to the string.
#[verifier::external_body]
pub(crate) fn push_char(s: &mut String, c: char)
    ensures
        final(s)@ == old(s)@.push(c),
{
    s.push(c);
}

/// Builds the name of the environment variable that overrides the client
/// secret of the downstream called `name`.
pub fn env_var_name(name: &str) -> (r: String)
    ensures
        r@ == env_var_name_of(name@),
{
    let mut out = "MCP_PROXY_".to_owned();
    let n = name.unicode_len();
    let mut i: usize = 0;
    while i < n
        invariant
            n == name@.len(),
            0 <= i <= n,
            out@ == "MCP_PROXY_"@ + name@.subrange(0, i as int).map_values(
                |c: char| env_upper_char(c),
            ),
        decreases n - i,
    {
        let c = name.get_char(i);
        let m: char = if c >= 'a' && c <= 'z' {
            (((c as u8) - 0x20) as char)
        } else if c == '-' {
            '_'
        } else {
            c
        };
        push_char(&mut out, m);
        proof {
            assert(name@.subrange(0, i + 1).map_values(|c: char| env_upper_char(c)) =~= name@
                .subrange(0, i as int).map_values(|c: char| env_upper_char(c)).push(
                env_upper_char(name@[i as int]),
            ));
        }
        i += 1;
    }
    proof {
        assert(name@.subrange(0, n as int) =~= name@);
    }
    let mut res = out;
    res.append("_CLIENT_SECRET");
    res
}

} // verus!
