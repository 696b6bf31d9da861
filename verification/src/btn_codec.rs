//! Encodings of the BTN protocol: Base64, query strings, gzip and hashed identifiers.

use vstd::arithmetic::div_mod::lemma_fundamental_div_mod_converse;
use vstd::prelude::*;
use crate::banlist::hex_digits;
use crate::i18n::{lowercase, to_lowercase};
use crate::text::{chars_of, digit, digit_char, is_whitespace, push_text, string_of};

verus! {

// ---------------------------------------------------------------------- Base64
/// The Base64 digit of a value below 64.
pub open spec fn b64_char(v: int) -> char {
    if v < 26 {
        (65 + v) as u8 as char
    } else if v < 52 {
        (97 + v - 26) as u8 as char
    } else if v < 62 {
        (48 + v - 52) as u8 as char
    } else if v == 62 {
        '+'
    } else {
        '/'
    }
}

/// The value of a Base64 digit.
pub open spec fn b64_value(c: char) -> Option<int> {
    if 'A' <= c <= 'Z' {
        Some(c as int - 65)
    } else if 'a' <= c <= 'z' {
        Some(c as int - 97 + 26)
    } else if '0' <= c <= '9' {
        Some(c as int - 48 + 52)
    } else if c == '+' {
        Some(62)
    } else if c == '/' {
        Some(63)
    } else {
        None
    }
}

/// The four characters for one to three bytes.
#[verifier::opaque]
pub open spec fn b64_group(b: Seq<u8>) -> Seq<char> {
    let b0 = b[0] as int;
    let b1 = if b.len() > 1 {
        b[1] as int
    } else {
        0
    };
    let b2 = if b.len() > 2 {
        b[2] as int
    } else {
        0
    };
    seq![
        b64_char(b0 / 4),
        b64_char((b0 % 4) * 16 + b1 / 16),
        if b.len() > 1 {
            b64_char((b1 % 16) * 4 + b2 / 64)
        } else {
            '='
        },
        if b.len() > 2 {
            b64_char(b2 % 64)
        } else {
            '='
        },
    ]
}

/// The Base64 form of bytes.
pub open spec fn b64(b: Seq<u8>) -> Seq<char>
    decreases b.len(),
{
    if b.len() == 0 {
        Seq::empty()
    } else if b.len() <= 3 {
        b64_group(b)
    } else {
        b64_group(b.take(3)) + b64(b.skip(3))
    }
}

fn encode_digit(v: u32) -> (c: char)
    requires
        v < 64,
    ensures
        c == b64_char(v as int),
{
    let n = v as u8;
    if n < 26 {
        (65 + n) as char
    } else if n < 52 {
        (97 + (n - 26)) as char
    } else if n < 62 {
        (48 + (n - 52)) as char
    } else if n == 62 {
        '+'
    } else {
        '/'
    }
}

/// Writes bytes in Base64, padded with `=`.
pub fn base64_encode(input: &[u8]) -> (out: String)
    ensures
        out@ == b64(input@),
{
    let mut out: Vec<char> = Vec::new();
    let mut i: usize = 0;
    assert(input@.skip(0) =~= input@);
    assert(out@ + b64(input@) =~= b64(input@));
    while i < input.len()
        invariant
            i <= input.len(),
            b64(input@) == out@ + b64(input@.skip(i as int)),
        decreases input.len() - i,
    {
        let ghost before = out@;
        let ghost rest = input@.skip(i as int);
        let left: usize = input.len() - i;
        let b0 = input[i] as u32;
        let b1: u32 = if left > 1 {
            input[i + 1] as u32
        } else {
            0
        };
        let b2: u32 = if left > 2 {
            input[i + 2] as u32
        } else {
            0
        };
        out.push(encode_digit(b0 / 4));
        out.push(encode_digit((b0 % 4) * 16 + b1 / 16));
        out.push(
            if left > 1 {
                encode_digit((b1 % 16) * 4 + b2 / 64)
            } else {
                '='
            },
        );
        out.push(
            if left > 2 {
                encode_digit(b2 % 64)
            } else {
                '='
            },
        );
        proof {
            reveal(b64_group);
            if left > 3 {
                let first = rest.take(3);
                assert(first[0] == rest[0] && first[1] == rest[1] && first[2] == rest[2]);
                assert(out@ =~= before + b64_group(first));
                assert(rest.skip(3) =~= input@.skip(i + 3));
                assert(before + (b64_group(first) + b64(rest.skip(3))) =~= out@ + b64(
                    rest.skip(3),
                ));
            } else {
                assert(out@ =~= before + b64_group(rest));
            }
        }
        if left > 3 {
            i += 3;
        } else {
            i = input.len();
            assert(input@.skip(i as int) =~= Seq::empty());
            assert(out@ + Seq::<char>::empty() =~= out@);
        }
    }
    assert(input@.skip(i as int) =~= Seq::empty());
    assert(out@ + Seq::<char>::empty() =~= out@);
    string_of(out.as_slice())
}

/// ASCII white space, which Base64 text may hold anywhere.
pub open spec fn b64_space(c: char) -> bool {
    c == ' ' || c == '\t' || c == '\n' || c == '\u{c}' || c == '\r'
}

/// The text without its ASCII white space.
pub open spec fn b64_squeezed(s: Seq<char>) -> Seq<char>
    decreases s.len(),
{
    if s.len() == 0 {
        s
    } else {
        let rest = b64_squeezed(s.drop_last());
        if b64_space(s.last()) {
            rest
        } else {
            rest.push(s.last())
        }
    }
}

/// The value of a digit, where padding counts as zero.
pub open spec fn b64_weight(c: char) -> int {
    match b64_value(c) {
        Some(v) => v,
        None => 0,
    }
}

/// The bytes of four characters: one less for each padding at the end.
#[verifier::opaque]
pub open spec fn b64_bytes(c: Seq<char>) -> Seq<u8> {
    let group = b64_weight(c[0]) * 262144 + b64_weight(c[1]) * 4096 + b64_weight(c[2]) * 64
        + b64_weight(c[3]);
    if c[2] == '=' {
        seq![(group / 65536) as u8]
    } else if c[3] == '=' {
        seq![(group / 65536) as u8, ((group / 256) % 256) as u8]
    } else {
        seq![(group / 65536) as u8, ((group / 256) % 256) as u8, (group % 256) as u8]
    }
}

/// Whether a character may stand in Base64 text: a digit or padding.
pub open spec fn b64_valid(c: char) -> bool {
    b64_value(c) is Some || c == '='
}

/// The bytes of groups of four characters.
pub open spec fn b64_decoded(c: Seq<char>) -> Seq<u8>
    decreases c.len(),
{
    if c.len() < 4 {
        Seq::empty()
    } else {
        b64_bytes(c.take(4)) + b64_decoded(c.skip(4))
    }
}

/// Whether characters are whole groups of four digits, where padding may stand for the last digit
/// or for the last two.
pub open spec fn b64_formed(c: Seq<char>) -> bool {
    &&& c.len() % 4 == 0
    &&& forall|i: int| 0 <= i < c.len() - 2 ==> b64_value(#[trigger] c[i]) is Some
    &&& c.len() > 0 ==> b64_valid(c.last())
    &&& c.len() > 0 ==> b64_value(c[c.len() - 2]) is Some || (c[c.len() - 2] == '=' && c.last()
        == '=')
}

/// The bytes that a Base64 text spells, white space aside.
pub open spec fn b64_bytes_of(s: Seq<char>) -> Option<Seq<u8>> {
    let c = b64_squeezed(s);
    if b64_formed(c) {
        Some(b64_decoded(c))
    } else {
        None
    }
}

fn decode_digit(c: char) -> (r: Option<u32>)
    ensures
        match r {
            Some(v) => b64_value(c) == Some(v as int) && v < 64,
            None => b64_value(c) is None,
        },
{
    if 'A' <= c && c <= 'Z' {
        Some(c as u32 - 65)
    } else if 'a' <= c && c <= 'z' {
        Some(c as u32 - 97 + 26)
    } else if '0' <= c && c <= '9' {
        Some(c as u32 - 48 + 52)
    } else if c == '+' {
        Some(62)
    } else if c == '/' {
        Some(63)
    } else {
        None
    }
}

/// The weight of a character, where padding counts as zero.
fn decode_weight(c: char) -> (weight: u32)
    ensures
        weight == b64_weight(c),
        weight < 64,
{
    match decode_digit(c) {
        Some(v) => v,
        None => 0,
    }
}

/// Whether characters are whole groups of digits, with padding only at the end.
fn formed(value: &[char]) -> (yes: bool)
    ensures
        yes == b64_formed(value@),
{
    if value.len() % 4 != 0 {
        return false;
    }
    if value.len() == 0 {
        return true;
    }
    let mut i: usize = 0;
    while i < value.len() - 2
        invariant
            i <= value.len() - 2,
            forall|k: int| 0 <= k < i ==> b64_value(#[trigger] value@[k]) is Some,
        decreases value.len() - i,
    {
        if decode_digit(value[i]).is_none() {
            return false;
        }
        i += 1;
    }
    let last = value[value.len() - 1];
    let before = value[value.len() - 2];
    (last == '=' || decode_digit(last).is_some()) && (decode_digit(before).is_some() || (before
        == '=' && last == '='))
}

fn squeeze(chars: &[char]) -> (out: Vec<char>)
    ensures
        out@ == b64_squeezed(chars@),
{
    let mut out: Vec<char> = Vec::new();
    let mut i: usize = 0;
    assert(chars@.take(0) =~= Seq::empty());
    while i < chars.len()
        invariant
            i <= chars.len(),
            out@ == b64_squeezed(chars@.take(i as int)),
        decreases chars.len() - i,
    {
        let c = chars[i];
        assert(chars@.take(i + 1).drop_last() =~= chars@.take(i as int));
        if !(c == ' ' || c == '\t' || c == '\n' || c == '\u{c}' || c == '\r') {
            out.push(c);
        }
        i += 1;
    }
    assert(chars@.take(i as int) =~= chars@);
    out
}

/// Appends the bytes of four characters.
fn decode_group(out: &mut Vec<u8>, c0: char, c1: char, c2: char, c3: char)
    ensures
        final(out)@ == old(out)@ + b64_bytes(seq![c0, c1, c2, c3]),
{
    let ghost before = out@;
    let ghost c = seq![c0, c1, c2, c3];
    let group: u32 = decode_weight(c0) * 262144 + decode_weight(c1) * 4096 + decode_weight(c2) * 64
        + decode_weight(c3);
    out.push((group / 65536) as u8);
    if c2 != '=' {
        out.push(((group / 256) % 256) as u8);
        if c3 != '=' {
            out.push((group % 256) as u8);
        }
    }
    proof {
        reveal(b64_bytes);
    }
    assert(out@ =~= before + b64_bytes(c));
}

/// Reads Base64 text; `None` unless it is well formed, white space aside.
pub fn base64_decode(input: &str) -> (r: Option<Vec<u8>>)
    ensures
        match r {
            Some(v) => b64_bytes_of(input@) == Some(v@),
            None => b64_bytes_of(input@) is None,
        },
{
    let chars = chars_of(input);
    let value = squeeze(chars.as_slice());
    if !formed(value.as_slice()) {
        return None;
    }
    let mut out: Vec<u8> = Vec::new();
    let mut i: usize = 0;
    assert(value@.skip(0) =~= value@);
    assert(out@ + b64_decoded(value@) =~= b64_decoded(value@));
    while i < value.len()
        invariant
            i <= value.len(),
            i % 4 == 0,
            value.len() % 4 == 0,
            b64_decoded(value@) == out@ + b64_decoded(value@.skip(i as int)),
        decreases value.len() - i,
    {
        let ghost before = out@;
        let ghost rest = value@.skip(i as int);
        decode_group(&mut out, value[i], value[i + 1], value[i + 2], value[i + 3]);
        proof {
            assert(rest.take(4) =~= seq![
                value@[i as int],
                value@[i + 1],
                value@[i + 2],
                value@[i + 3],
            ]);
            assert(rest.skip(4) =~= value@.skip(i + 4));
            assert(before + (b64_bytes(rest.take(4)) + b64_decoded(rest.skip(4))) =~= out@
                + b64_decoded(rest.skip(4)));
        }
        i += 4;
    }
    assert(value@.skip(i as int) =~= Seq::empty());
    assert(out@ + Seq::<u8>::empty() =~= out@);
    Some(out)
}

proof fn lemma_b64_char(v: int)
    requires
        0 <= v < 64,
    ensures
        b64_value(b64_char(v)) == Some(v),
        b64_char(v) != '=',
        !b64_space(b64_char(v)),
{
}

proof fn lemma_b64_sum(q0: int, r0: int, q1: int, r1: int, q2: int, r2: int)
    ensures
        q0 * 262144 + (r0 * 16 + q1) * 4096 + (r1 * 4 + q2) * 64 + r2 == (4 * q0 + r0) * 65536 + (16
            * q1 + r1) * 256 + (64 * q2 + r2),
{
}

proof fn lemma_b64_split(b0: int, b1: int, b2: int)
    requires
        0 <= b0 < 256,
        0 <= b1 < 256,
        0 <= b2 < 256,
    ensures
        (b0 * 65536 + b1 * 256 + b2) / 65536 == b0,
        ((b0 * 65536 + b1 * 256 + b2) / 256) % 256 == b1,
        (b0 * 65536 + b1 * 256 + b2) % 256 == b2,
{
    let x = b0 * 65536 + b1 * 256 + b2;
    lemma_fundamental_div_mod_converse(x, 65536, b0, b1 * 256 + b2);
    lemma_fundamental_div_mod_converse(x, 256, b0 * 256 + b1, b2);
    lemma_fundamental_div_mod_converse(b0 * 256 + b1, 256, b0, b1);
}

proof fn lemma_b64_weights(b0: int, b1: int, b2: int)
    requires
        0 <= b0 < 256,
        0 <= b1 < 256,
        0 <= b2 < 256,
    ensures
        0 <= b0 / 4 < 64,
        0 <= (b0 % 4) * 16 + b1 / 16 < 64,
        0 <= (b1 % 16) * 4 + b2 / 64 < 64,
        0 <= b2 % 64 < 64,
        (b0 / 4) * 262144 + ((b0 % 4) * 16 + b1 / 16) * 4096 + ((b1 % 16) * 4 + b2 / 64) * 64 + b2
            % 64 == b0 * 65536 + b1 * 256 + b2,
{
    lemma_b64_sum(b0 / 4, b0 % 4, b1 / 16, b1 % 16, b2 / 64, b2 % 64);
    assert(4 * (b0 / 4) + b0 % 4 == b0);
    assert(16 * (b1 / 16) + b1 % 16 == b1);
    assert(64 * (b2 / 64) + b2 % 64 == b2);
}

proof fn lemma_b64_group(b: Seq<u8>)
    requires
        1 <= b.len() <= 3,
    ensures
        b64_bytes(b64_group(b)) == b,
        b64_group(b).len() == 4,
        b64_formed(b64_group(b)),
        b.len() == 3 ==> forall|i: int|
            0 <= i < 4 ==> b64_value(#[trigger] b64_group(b)[i]) is Some,
        forall|i: int| 0 <= i < 4 ==> !b64_space(#[trigger] b64_group(b)[i]),
{
    reveal(b64_bytes);
    reveal(b64_group);
    let b0 = b[0] as int;
    let b1 = if b.len() > 1 {
        b[1] as int
    } else {
        0
    };
    let b2 = if b.len() > 2 {
        b[2] as int
    } else {
        0
    };
    lemma_b64_weights(b0, b1, b2);
    lemma_b64_split(b0, b1, b2);
    let w0 = b0 / 4;
    let w1 = (b0 % 4) * 16 + b1 / 16;
    let w2 = (b1 % 16) * 4 + b2 / 64;
    let w3 = b2 % 64;
    lemma_b64_char(w0);
    lemma_b64_char(w1);
    lemma_b64_char(w2);
    lemma_b64_char(w3);
    let g = b64_group(b);
    assert(g[0] == b64_char(w0));
    assert(g[1] == b64_char(w1));
    if b.len() == 1 {
        assert(g[2] == '=' && g[3] == '=');
        assert(w2 == 0 && w3 == 0);
    } else if b.len() == 2 {
        assert(g[2] == b64_char(w2) && g[3] == '=');
        assert(w3 == 0);
    } else {
        assert(g[2] == b64_char(w2) && g[3] == b64_char(w3));
    }
    assert(b64_weight(g[0]) == w0);
    assert(b64_weight(g[1]) == w1);
    assert(b64_weight(g[2]) == w2);
    assert(b64_weight(g[3]) == w3);
    assert(b64_bytes(g) =~= b);
}

proof fn lemma_b64_squeezed(s: Seq<char>)
    requires
        forall|i: int| 0 <= i < s.len() ==> !b64_space(#[trigger] s[i]),
    ensures
        b64_squeezed(s) == s,
    decreases s.len(),
{
    if s.len() > 0 {
        lemma_b64_squeezed(s.drop_last());
        assert(s.drop_last().push(s.last()) =~= s);
    }
}

proof fn lemma_b64(b: Seq<u8>)
    ensures
        b64_formed(b64(b)),
        b.len() > 0 ==> b64(b).len() > 0,
        forall|i: int| 0 <= i < b64(b).len() ==> !b64_space(#[trigger] b64(b)[i]),
        b64_decoded(b64(b)) == b,
    decreases b.len(),
{
    if b.len() == 0 {
        assert(b64_decoded(b64(b)) =~= b);
    } else if b.len() <= 3 {
        lemma_b64_group(b);
        let g = b64_group(b);
        assert(g.take(4) =~= g);
        assert(g.skip(4) =~= Seq::empty());
        assert(b64_decoded(g.skip(4)) =~= Seq::empty());
        assert(b64_decoded(g) =~= b);
    } else {
        let first = b.take(3);
        lemma_b64_group(first);
        lemma_b64(b.skip(3));
        let g = b64_group(first);
        let t = b64(b.skip(3));
        let all = g + t;
        assert(all.take(4) =~= g);
        assert(all.skip(4) =~= t);
        assert forall|i: int| 0 <= i < all.len() implies !b64_space(#[trigger] all[i]) by {
            if i < 4 {
                assert(all[i] == g[i]);
            } else {
                assert(all[i] == t[i - 4]);
            }
        }
        assert forall|i: int| 0 <= i < all.len() - 2 implies b64_value(#[trigger] all[i]) is Some by {
            if i < 4 {
                assert(all[i] == g[i]);
            } else {
                assert(all[i] == t[i - 4]);
            }
        }
        assert(all.last() == t.last() && all[all.len() - 2] == t[t.len() - 2]);
        assert(first + b.skip(3) =~= b);
    }
}

/// Decoding what was encoded gives the bytes back.
pub proof fn base64_round_trips(b: Seq<u8>)
    ensures
        b64_bytes_of(b64(b)) == Some(b),
{
    lemma_b64(b);
    lemma_b64_squeezed(b64(b));
}

// ---------------------------------------------------------------- query strings
/// Whether a byte stands for itself in a query string.
pub open spec fn query_plain(b: u8) -> bool {
    ||| 97 <= b <= 122
    ||| 65 <= b <= 90
    ||| 48 <= b <= 57
    ||| b == 45
    ||| b == 95
    ||| b == 46
    ||| b == 42
}

/// The hexadecimal digit of a value below 16, in upper case.
pub open spec fn upper_digit(d: int) -> char {
    if d < 10 {
        (48 + d) as u8 as char
    } else {
        (65 + d - 10) as u8 as char
    }
}

/// One byte in a query string: letters, digits and `-_.*` as they are, a space as `+`, any other
/// byte as `%` and two hexadecimal digits.
pub open spec fn query_byte(b: u8) -> Seq<char> {
    if query_plain(b) {
        seq![b as char]
    } else if b == 32 {
        seq!['+']
    } else {
        seq!['%', upper_digit(b as int / 16), upper_digit(b as int % 16)]
    }
}

/// Bytes in a query string.
pub open spec fn query_bytes(b: Seq<u8>) -> Seq<char>
    decreases b.len(),
{
    if b.len() == 0 {
        Seq::empty()
    } else {
        query_bytes(b.drop_last()) + query_byte(b.last())
    }
}

fn to_upper_digit(d: u8) -> (c: char)
    requires
        d < 16,
    ensures
        c == upper_digit(d as int),
{
    if d < 10 {
        (48 + d) as char
    } else {
        (65 + (d - 10)) as char
    }
}

/// Encodes a text for a query string, byte by byte of its UTF-8 form.
pub fn url_encode_query(input: &str) -> (out: String)
    ensures
        out@ == query_bytes(vstd::utf8::encode_utf8(input@)),
{
    let bytes = input.as_bytes();
    let mut out: Vec<char> = Vec::new();
    let mut i: usize = 0;
    assert(bytes@.take(0) =~= Seq::empty());
    while i < bytes.len()
        invariant
            i <= bytes.len(),
            out@ == query_bytes(bytes@.take(i as int)),
        decreases bytes.len() - i,
    {
        let ghost before = out@;
        let b = bytes[i];
        assert(bytes@.take(i + 1).drop_last() =~= bytes@.take(i as int));
        if (97 <= b && b <= 122) || (65 <= b && b <= 90) || (48 <= b && b <= 57) || b == 45 || b
            == 95 || b == 46 || b == 42 {
            out.push(b as char);
        } else if b == 32 {
            out.push('+');
        } else {
            out.push('%');
            out.push(to_upper_digit(b / 16));
            out.push(to_upper_digit(b % 16));
        }
        assert(out@ =~= before + query_byte(b));
        i += 1;
    }
    assert(bytes@.take(i as int) =~= bytes@);
    string_of(out.as_slice())
}

/// An encoded text holds none of the characters that structure a query string.
pub proof fn encoded_query_is_inert(b: Seq<u8>)
    ensures
        !query_bytes(b).contains('&'),
        !query_bytes(b).contains('='),
        !query_bytes(b).contains('?'),
        !query_bytes(b).contains('#'),
        !query_bytes(b).contains(' '),
    decreases b.len(),
{
    if b.len() > 0 {
        encoded_query_is_inert(b.drop_last());
        let head = query_bytes(b.drop_last());
        let tail = query_byte(b.last());
        assert forall|c: char| #[trigger] query_bytes(b).contains(c) implies head.contains(c)
            || tail.contains(c) by {
            let i = choose|i: int| 0 <= i < query_bytes(b).len() && query_bytes(b)[i] == c;
            if i < head.len() {
                assert(head[i] == c);
            } else {
                assert(tail[i - head.len()] == c);
            }
        }
    }
}

/// A pair of a query string: `?` before the first, `&` before any other.
pub open spec fn with_param(url: Seq<char>, key: Seq<char>, value: Seq<char>) -> Seq<char> {
    url + (if url.contains('?') {
        "&"@
    } else {
        "?"@
    }) + key + "="@ + value
}

/// Appends a pair to the query string of a URL; the value is encoded already.
pub fn append_param(url: &str, key: &str, value: &str) -> (out: String)
    ensures
        out@ == with_param(url@, key@, value@),
{
    let mut out = chars_of(url);
    if crate::text::contains_char(url, '?') {
        push_text(&mut out, "&");
    } else {
        push_text(&mut out, "?");
    }
    push_text(&mut out, key);
    push_text(&mut out, "=");
    push_text(&mut out, value);
    string_of(out.as_slice())
}

/// The URL with the first `n` pairs appended in turn.
pub open spec fn with_params(url: Seq<char>, params: Seq<(&str, &str)>, n: int) -> Seq<char>
    decreases n,
{
    if n <= 0 || n > params.len() {
        url
    } else {
        with_param(with_params(url, params, n - 1), params[n - 1].0@, params[n - 1].1@)
    }
}

/// Appends pairs to the query string of a URL; the values are encoded already.
pub fn append_url(endpoint: &str, params: &[(&str, &str)]) -> (url: String)
    ensures
        url@ == with_params(endpoint@, params@, params.len() as int),
{
    let mut url = endpoint.to_string();
    let mut i: usize = 0;
    while i < params.len()
        invariant
            i <= params.len(),
            url@ == with_params(endpoint@, params@, i as int),
        decreases params.len() - i,
    {
        url = append_param(url.as_str(), params[i].0, params[i].1);
        i += 1;
    }
    url
}

// -------------------------------------------------------------- outside digests
/// The gzip form of bytes.
pub uninterp spec fn gzip(payload: Seq<u8>) -> Option<Seq<u8>>;

/// Compresses bytes with `flate2::write::GzEncoder` at the default level, into memory. The result
/// depends on the bytes alone; the header carries no time and no system.
#[verifier::external_body]
pub fn gzip_bytes(payload: &[u8]) -> (r: Option<Vec<u8>>)
    ensures
        match r {
            Some(out) => gzip(payload@) == Some(out@),
            None => gzip(payload@) is None,
        },
{
    let mut encoder = flate2::write::GzEncoder::new(Vec::new(), flate2::Compression::default());
    std::io::Write::write_all(&mut encoder, payload).ok()?;
    encoder.finish().ok()
}

/// The SHA-256 digest of bytes.
pub uninterp spec fn sha256(data: Seq<u8>) -> Seq<u8>;

/// `sha2::Sha256::digest`: the 32 bytes of the SHA-256 digest, which depend on the bytes alone.
#[verifier::external_body]
pub(crate) fn sha256_digest(data: &[u8]) -> (out: Vec<u8>)
    ensures
        out@ == sha256(data@),
        out.len() == 32,
{
    <sha2::Sha256 as sha2::Digest>::digest(data).to_vec()
}

/// The SHA-512 digest of bytes.
pub uninterp spec fn sha512(data: Seq<u8>) -> Seq<u8>;

/// `sha2::Sha512::digest`: the 64 bytes of the SHA-512 digest, which depend on the bytes alone.
#[verifier::external_body]
pub(crate) fn sha512_digest(data: &[u8]) -> (out: Vec<u8>)
    ensures
        out@ == sha512(data@),
        out.len() == 64,
{
    <sha2::Sha512 as sha2::Digest>::digest(data).to_vec()
}

/// The CRC-32 checksum of bytes.
pub uninterp spec fn crc32(data: Seq<u8>) -> u32;

/// `crc32fast::hash`: the CRC-32 (IEEE) checksum, which depends on the bytes alone.
#[verifier::external_body]
pub(crate) fn crc32_of(data: &[u8]) -> (sum: u32)
    ensures
        sum == crc32(data@),
{
    crc32fast::hash(data)
}

// ------------------------------------------------------------------ identifiers
/// ASCII characters as bytes.
pub open spec fn ascii_bytes(s: Seq<char>) -> Seq<u8> {
    Seq::new(s.len(), |i: int| s[i] as u8)
}

/// Bytes as pairs of hexadecimal digits.
pub open spec fn hex_text(b: Seq<u8>) -> Seq<char>
    decreases b.len(),
{
    if b.len() == 0 {
        Seq::empty()
    } else {
        hex_text(b.drop_last()) + hex_digits(b.last() as nat, 2)
    }
}

/// The identifier under which a torrent is reported: the digest of its hash in lower case, salted
/// with the hash's own checksum.
pub open spec fn hashed_identifier(hash: Seq<char>) -> Seq<char> {
    salted_identifier(vstd::utf8::encode_utf8(lowercase(hash)))
}

/// The digest of bytes followed by their checksum in eight hexadecimal digits.
pub open spec fn salted_identifier(plain: Seq<u8>) -> Seq<char> {
    hex_text(sha256(plain + ascii_bytes(hex_digits(crc32(plain) as nat, 8))))
}

fn push_hex_bytes(out: &mut Vec<u8>, v: u32, n: u8)
    ensures
        final(out)@ == old(out)@ + ascii_bytes(hex_digits(v as nat, n as nat)),
    decreases n,
{
    let ghost before = out@;
    if n > 0 {
        push_hex_bytes(out, v / 16, n - 1);
        let c = digit((v % 16) as u8);
        out.push(c as u8);
    }
    assert(out@ =~= before + ascii_bytes(hex_digits(v as nat, n as nat)));
}

/// The digest of bytes followed by their checksum, in hexadecimal.
pub fn salted_identifier_of(plain: &[u8]) -> (id: String)
    ensures
        id@ == salted_identifier(plain@),
        salted_digest(plain@, id@),
{
    proof {
        lemma_salted(plain@);
    }
    let mut data: Vec<u8> = Vec::new();
    let mut i: usize = 0;
    while i < plain.len()
        invariant
            i <= plain.len(),
            data@ == plain@.take(i as int),
        decreases plain.len() - i,
    {
        data.push(plain[i]);
        i += 1;
    }
    assert(plain@.take(i as int) =~= plain@);
    let sum = crc32_of(plain);
    push_hex_bytes(&mut data, sum, 8);
    let digest = sha256_digest(data.as_slice());
    let mut out: Vec<char> = Vec::new();
    let mut k: usize = 0;
    assert(digest@.take(0) =~= Seq::empty());
    while k < digest.len()
        invariant
            k <= digest.len(),
            out@ == hex_text(digest@.take(k as int)),
        decreases digest.len() - k,
    {
        let ghost before = out@;
        let b = digest[k];
        assert(digest@.take(k + 1).drop_last() =~= digest@.take(k as int));
        out.push(digit(b / 16));
        out.push(digit(b % 16));
        proof {
            reveal_with_fuel(hex_digits, 3);
            assert((b as nat / 16) % 16 == b as nat / 16);
            assert(hex_digits(b as nat, 2) =~= seq![
                digit_char((b / 16) as int),
                digit_char((b % 16) as int),
            ]);
            assert(out@ =~= before + hex_digits(b as nat, 2));
        }
        k += 1;
    }
    assert(digest@.take(k as int) =~= digest@);
    string_of(out.as_slice())
}

/// The identifier under which a torrent is reported; the case of its hash does not matter.
pub fn get_hashed_identifier(torrent_info_hash: &str) -> (id: String)
    ensures
        id@ == hashed_identifier(torrent_info_hash@),
        salted_digest(vstd::utf8::encode_utf8(lowercase(torrent_info_hash@)), id@),
{
    proof {
        identifier_is_a_salted_digest(torrent_info_hash@);
    }
    let handled = to_lowercase(torrent_info_hash);
    salted_identifier_of(handled.as_str().as_bytes())
}

/// Hashes that are equal in lower case have the same identifier.
pub proof fn identifier_ignores_case(a: Seq<char>, b: Seq<char>)
    requires
        lowercase(a) == lowercase(b),
    ensures
        hashed_identifier(a) == hashed_identifier(b),
{
}

/// The byte of a hexadecimal digit in lower case.
pub open spec fn hex_byte(d: int) -> int {
    if d < 10 {
        0x30 + d
    } else {
        0x61 + (d - 10)
    }
}

proof fn lemma_hex_step(v: nat, n: nat)
    requires
        n > 0,
    ensures
        hex_digits(v, n).len() == n,
        hex_digits(v, n) == hex_digits(v / 16, (n - 1) as nat).push(digit_char((v % 16) as int)),
        digit_char((v % 16) as int) as int == hex_byte((v % 16) as int),
    decreases n,
{
    if n > 1 {
        lemma_hex_step(v / 16, (n - 1) as nat);
    } else {
        assert(hex_digits(v / 16, 0).len() == 0);
    }
}

proof fn lemma_hex_digits(v: nat)
    ensures
        hex_digits(v, 8).len() == 8,
        hex_digits(v, 8)[0] as int == hex_byte((v / 0x1000_0000) as int % 16),
        hex_digits(v, 8)[1] as int == hex_byte((v / 0x100_0000) as int % 16),
        hex_digits(v, 8)[2] as int == hex_byte((v / 0x10_0000) as int % 16),
        hex_digits(v, 8)[3] as int == hex_byte((v / 0x1_0000) as int % 16),
        hex_digits(v, 8)[4] as int == hex_byte((v / 0x1000) as int % 16),
        hex_digits(v, 8)[5] as int == hex_byte((v / 0x100) as int % 16),
        hex_digits(v, 8)[6] as int == hex_byte((v / 0x10) as int % 16),
        hex_digits(v, 8)[7] as int == hex_byte(v as int % 16),
{
    lemma_hex_step(v, 8);
    lemma_hex_step(v / 0x10, 7);
    assert((v / 0x10) / 16 == v / 0x100);
    lemma_hex_step(v / 0x100, 6);
    assert((v / 0x100) / 16 == v / 0x1000);
    lemma_hex_step(v / 0x1000, 5);
    assert((v / 0x1000) / 16 == v / 0x10000);
    lemma_hex_step(v / 0x10000, 4);
    assert((v / 0x10000) / 16 == v / 0x100000);
    lemma_hex_step(v / 0x100000, 3);
    assert((v / 0x100000) / 16 == v / 0x1000000);
    lemma_hex_step(v / 0x1000000, 2);
    assert((v / 0x1000000) / 16 == v / 0x10000000);
    lemma_hex_step(v / 0x10000000, 1);
}

proof fn lemma_hex_text(b: Seq<u8>)
    ensures
        hex_text(b).len() == 2 * b.len(),
        forall|i: int|
            0 <= i < b.len() ==> hex_text(b)[2 * i] as int == hex_byte(#[trigger] b[i] as int / 16),
        forall|i: int|
            0 <= i < b.len() ==> hex_text(b)[2 * i + 1] as int == hex_byte(
                #[trigger] b[i] as int % 16,
            ),
    decreases b.len(),
{
    if b.len() > 0 {
        lemma_hex_text(b.drop_last());
        let v = b.last() as nat;
        reveal_with_fuel(hex_digits, 3);
        assert((v / 16) % 16 == v / 16);
        assert(hex_digits(v, 2) =~= seq![
            digit_char((v / 16) as int),
            digit_char((v % 16) as int),
        ]);
        assert forall|i: int| 0 <= i < b.len() implies hex_text(b)[2 * i] as int == hex_byte(
            #[trigger] b[i] as int / 16,
        ) && hex_text(b)[2 * i + 1] as int == hex_byte(b[i] as int % 16) by {
            if i < b.len() - 1 {
                assert(b.drop_last()[i] == b[i]);
            }
        }
    }
}

/// Bytes in hexadecimal: two digits for each, the higher first.
pub proof fn hexadecimal_spells_each_byte(b: Seq<u8>, i: int)
    requires
        0 <= i < b.len(),
    ensures
        hex_text(b).len() == 2 * b.len(),
        hex_text(b)[2 * i] as int == hex_byte(b[i] as int / 16),
        hex_text(b)[2 * i + 1] as int == hex_byte(b[i] as int % 16),
{
    lemma_hex_text(b);
    assert(b[i] == b[i]);
}

/// Whether eight bytes spell a number in hexadecimal.
pub open spec fn spells_checksum(b: Seq<u8>, v: int) -> bool {
    &&& b.len() == 8
    &&& b[0] == hex_byte((v / 0x1000_0000) % 16)
    &&& b[1] == hex_byte((v / 0x100_0000) % 16)
    &&& b[2] == hex_byte((v / 0x10_0000) % 16)
    &&& b[3] == hex_byte((v / 0x1_0000) % 16)
    &&& b[4] == hex_byte((v / 0x1000) % 16)
    &&& b[5] == hex_byte((v / 0x100) % 16)
    &&& b[6] == hex_byte((v / 0x10) % 16)
    &&& b[7] == hex_byte(v % 16)
}

/// Whether a text is the SHA-256 digest, in hexadecimal, of bytes followed by eight more that spell
/// their CRC-32.
pub open spec fn salted_digest(plain: Seq<u8>, id: Seq<char>) -> bool {
    exists|data: Seq<u8>|
        {
            &&& data.len() == plain.len() + 8
            &&& data.take(plain.len() as int) == plain
            &&& spells_checksum(data.skip(plain.len() as int), crc32(plain) as int)
            &&& id == hex_text(#[trigger] sha256(data))
        }
}

/// The identifier of a hash is the digest of just its bytes in lower case and eight more, which spell
/// their checksum in hexadecimal.
pub proof fn identifier_is_a_salted_digest(hash: Seq<char>)
    ensures
        salted_digest(vstd::utf8::encode_utf8(lowercase(hash)), hashed_identifier(hash)),
{
    lemma_salted(vstd::utf8::encode_utf8(lowercase(hash)));
}

proof fn lemma_salted(plain: Seq<u8>)
    ensures
        salted_digest(plain, salted_identifier(plain)),
{
    let sum = crc32(plain) as nat;
    let salt = ascii_bytes(hex_digits(sum, 8));
    let data = plain + salt;
    lemma_hex_digits(sum);
    assert(data.take(plain.len() as int) =~= plain);
    assert(data.skip(plain.len() as int) =~= salt);
    assert(spells_checksum(salt, sum as int));
    assert(salted_identifier(plain) == hex_text(sha256(data)));
}

// ------------------------------------------------------------------ laws of the codings
/// A character of base 64 by its place in the alphabet.
pub open spec fn sixty_four(v: int) -> char {
    "ABCDEFGHIJKLMNOPQRSTUVWXYZabcdefghijklmnopqrstuvwxyz0123456789+/"@[v]
}

proof fn lemma_sixty_four(v: int)
    requires
        0 <= v < 64,
    ensures
        b64_char(v) == sixty_four(v),
{
    reveal_strlit("ABCDEFGHIJKLMNOPQRSTUVWXYZabcdefghijklmnopqrstuvwxyz0123456789+/");
}

/// Three bytes are written as four characters of the alphabet, which hold their 24 bits in turn; one
/// or two bytes at the end are filled up with zeros and marked by equals signs.
pub proof fn groups_are_written_in_the_alphabet(a: u8, b: u8, c: u8, rest: Seq<u8>)
    ensures
        exists|v: int, w: int, x: int, y: int| {
            &&& 0 <= v < 64 && 0 <= w < 64 && 0 <= x < 64 && 0 <= y < 64
            &&& v * 0x4_0000 + w * 0x1000 + x * 0x40 + y == a * 0x1_0000 + b * 0x100 + c
            &&& b64(seq![a, b, c] + rest) == #[trigger] four_of(v, w, x, y) + b64(rest)
        },
        exists|v: int, w: int, x: int| {
            &&& 0 <= v < 64 && 0 <= w < 64 && 0 <= x < 64
            &&& v * 0x1000 + w * 0x40 + x == (a * 0x100 + b) * 4
            &&& b64(seq![a, b]) == #[trigger] three_of(v, w, x)
        },
        exists|v: int, w: int| {
            &&& 0 <= v < 64 && 0 <= w < 64
            &&& v * 0x40 + w == a * 16
            &&& b64(seq![a]) == #[trigger] two_of(v, w)
        },
{
    let (i, j, k) = (a as int, b as int, c as int);
    let v = i / 4;
    let w = (i % 4) * 16 + j / 16;
    let x = (j % 16) * 4 + k / 64;
    let y = k % 64;
    lemma_sixty_four(v);
    lemma_sixty_four(w);
    lemma_sixty_four(x);
    lemma_sixty_four(y);
    let three = seq![a, b, c];
    let all = three + rest;
    reveal(b64_group);
    let g = b64_group(three);
    assert(three.len() == 3 && three[0] == a && three[1] == b && three[2] == c);
    assert(g[0] == sixty_four(v));
    assert(g[1] == sixty_four(w));
    assert(g[2] == sixty_four(x));
    assert(g[3] == sixty_four(y));
    assert(g =~= four_of(v, w, x, y));
    assert(all.take(3) =~= three);
    assert(all.skip(3) =~= rest);
    if rest.len() == 0 {
        assert(all =~= three);
        assert(b64(rest) =~= Seq::<char>::empty());
        assert(four_of(v, w, x, y) + b64(rest) =~= four_of(v, w, x, y));
    }
    assert(b64(all) == four_of(v, w, x, y) + b64(rest));
    assert(v * 0x4_0000 + w * 0x1000 + x * 0x40 + y == i * 0x1_0000 + j * 0x100 + k);
    lemma_sixty_four((j % 16) * 4);
    let two = seq![a, b];
    let h = b64_group(two);
    assert(two.len() == 2 && two[0] == a && two[1] == b);
    assert(h[1] == sixty_four(w));
    assert(h[2] == sixty_four((j % 16) * 4));
    assert(h =~= three_of(v, w, (j % 16) * 4));
    assert(b64(two) == three_of(v, w, (j % 16) * 4));
    assert(v * 0x1000 + w * 0x40 + (j % 16) * 4 == (i * 0x100 + j) * 4);
    lemma_sixty_four((i % 4) * 16);
    assert(b64(seq![a]) =~= two_of(v, (i % 4) * 16));
    assert(v * 0x40 + (i % 4) * 16 == i * 16);
}

/// Four characters of the alphabet.
pub open spec fn four_of(v: int, w: int, x: int, y: int) -> Seq<char> {
    seq![sixty_four(v), sixty_four(w), sixty_four(x), sixty_four(y)]
}

/// Three characters of the alphabet and an equals sign.
pub open spec fn three_of(v: int, w: int, x: int) -> Seq<char> {
    seq![sixty_four(v), sixty_four(w), sixty_four(x), '=']
}

/// Two characters of the alphabet and two equals signs.
pub open spec fn two_of(v: int, w: int) -> Seq<char> {
    seq![sixty_four(v), sixty_four(w), '=', '=']
}

/// White space within a text of base 64 does not count.
pub proof fn spaces_do_not_count(a: Seq<char>, c: char, b: Seq<char>)
    requires
        c == ' ' || c == '\t' || c == '\n' || c == '\r' || c as int == 12,
    ensures
        b64_squeezed(a + seq![c] + b) == b64_squeezed(a + b),
        b64_bytes_of(a + seq![c] + b) == b64_bytes_of(a + b),
    decreases b.len(),
{
    if b.len() == 0 {
        assert((a + seq![c] + b).drop_last() =~= a);
        assert(a + b =~= a);
    } else {
        spaces_do_not_count(a, c, b.drop_last());
        assert((a + seq![c] + b).drop_last() =~= a + seq![c] + b.drop_last());
        assert((a + b).drop_last() =~= a + b.drop_last());
        assert((a + b).last() == b.last() && (a + seq![c] + b).last() == b.last());
    }
}

/// In a query the letters, the digits, `-`, `_`, `.` and `*` stand for themselves and `+` for a
/// space; every other byte is a percent sign and its two hexadecimal digits in upper case.
pub proof fn queries_are_written_byte_by_byte(s: Seq<u8>, b: u8)
    ensures
        ({
            let plain = ('a' as int <= b <= 'z' as int) || ('A' as int <= b <= 'Z' as int) || (
            '0' as int <= b <= '9' as int) || b == '-' as int || b == '_' as int || b == '.' as int
                || b == '*' as int;
            &&& plain ==> query_bytes(s.push(b)) == query_bytes(s).push(b as char)
            &&& b == ' ' as int ==> query_bytes(s.push(b)) == query_bytes(s).push('+')
            &&& !plain && b != ' ' as int ==> query_bytes(s.push(b)) == query_bytes(s) + seq![
                '%',
                "0123456789ABCDEF"@[b as int / 16],
                "0123456789ABCDEF"@[b as int % 16],
            ]
        }),
        query_bytes(Seq::empty()).len() == 0,
{
    reveal_strlit("0123456789ABCDEF");
    assert(s.push(b).drop_last() =~= s);
}

/// The first parameter of an address stands behind a question mark and each further one behind an
/// ampersand.
pub proof fn parameters_are_joined(
    url: Seq<char>,
    key: Seq<char>,
    value: Seq<char>,
    other: Seq<char>,
    more: Seq<char>,
)
    requires
        !url.contains('?'),
    ensures
        with_param(url, key, value) == url + "?"@ + key + "="@ + value,
        with_param(with_param(url, key, value), other, more) == url + "?"@ + key + "="@ + value
            + "&"@ + other + "="@ + more,
{
    reveal_strlit("?");
    let one = with_param(url, key, value);
    assert(one[url.len() as int] == '?');
    assert(one.contains('?'));
}

/// Parameters are added in their order.
pub proof fn parameters_keep_their_order(url: Seq<char>, params: Seq<(&str, &str)>, n: int)
    requires
        0 <= n < params.len(),
    ensures
        with_params(url, params, 0) == url,
        with_params(url, params, n + 1) == with_param(
            with_params(url, params, n),
            params[n].0@,
            params[n].1@,
        ),
{
}

} // verus!
