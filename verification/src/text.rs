//! Text as sequences of characters: conversion, trimming, ASCII case and decimal numbers.

use vstd::prelude::*;

verus! {

/// `String::push` appends one character to the end of the text.
pub assume_specification[ String::push ](s: &mut String, c: char)
    ensures
        final(s)@ == old(s)@.push(c),
;

/// The characters of a string slice.
pub fn chars_of(s: &str) -> (out: Vec<char>)
    ensures
        out@ == s@,
{
    let mut out: Vec<char> = Vec::new();
    for c in iter: s.chars()
        invariant
            out@ == iter.seq().take(iter.index() as int),
            iter.seq() == s@,
    {
        out.push(c);
    }
    out
}

/// The string made of the given characters.
pub fn string_of(chars: &[char]) -> (out: String)
    ensures
        out@ == chars@,
{
    let mut out = String::new();
    let mut i: usize = 0;
    while i < chars.len()
        invariant
            i <= chars.len(),
            out@ == chars@.take(i as int),
        decreases chars.len() - i,
    {
        out.push(chars[i]);
        i += 1;
    }
    assert(chars@.take(i as int) =~= chars@);
    out
}

/// The string made of the characters at positions `from` up to `to`.
pub fn substring_of(chars: &[char], from: usize, to: usize) -> (out: String)
    requires
        from <= to <= chars.len(),
    ensures
        out@ == chars@.subrange(from as int, to as int),
{
    let mut out = String::new();
    let mut i: usize = from;
    while i < to
        invariant
            from <= i <= to <= chars.len(),
            out@ == chars@.subrange(from as int, i as int),
        decreases to - i,
    {
        out.push(chars[i]);
        i += 1;
    }
    out
}

/// Appends a string slice to a character buffer.
pub fn push_text(out: &mut Vec<char>, s: &str)
    ensures
        final(out)@ == old(out)@ + s@,
{
    let ghost start = out@;
    for c in iter: s.chars()
        invariant
            out@ == start + iter.seq().take(iter.index() as int),
            iter.seq() == s@,
    {
        out.push(c);
    }
}

/// Appends the characters at positions `from` up to `to` to a character buffer.
pub fn push_range(out: &mut Vec<char>, chars: &[char], from: usize, to: usize)
    requires
        from <= to <= chars.len(),
    ensures
        final(out)@ == old(out)@ + chars@.subrange(from as int, to as int),
{
    let ghost start = out@;
    let mut i: usize = from;
    while i < to
        invariant
            from <= i <= to <= chars.len(),
            out@ == start + chars@.subrange(from as int, i as int),
        decreases to - i,
    {
        out.push(chars[i]);
        i += 1;
    }
}

/// Whether a character buffer spells the given text.
pub fn spells(chars: &[char], s: &str) -> (same: bool)
    ensures
        same == (chars@ == s@),
{
    let other = chars_of(s);
    if chars.len() != other.len() {
        return false;
    }
    let mut i: usize = 0;
    while i < chars.len()
        invariant
            i <= chars.len(),
            chars.len() == other.len(),
            other@ == s@,
            forall|k: int| 0 <= k < i ==> chars@[k] == other@[k],
        decreases chars.len() - i,
    {
        if chars[i] != other[i] {
            return false;
        }
        i += 1;
    }
    assert(chars@ =~= s@);
    true
}

/// Whether two string slices hold the same characters.
pub fn str_eq(a: &str, b: &str) -> (same: bool)
    ensures
        same == (a@ == b@),
{
    let left = chars_of(a);
    spells(left.as_slice(), b)
}

// ---------------------------------------------------------------- white space
/// The characters with Unicode's `White_Space` property.
pub open spec fn is_ws(c: char) -> bool {
    ||| '\u{9}' <= c <= '\u{d}'
    ||| c == ' '
    ||| c == '\u{85}'
    ||| c == '\u{a0}'
    ||| c == '\u{1680}'
    ||| '\u{2000}' <= c <= '\u{200a}'
    ||| c == '\u{2028}'
    ||| c == '\u{2029}'
    ||| c == '\u{202f}'
    ||| c == '\u{205f}'
    ||| c == '\u{3000}'
}

/// Whether the character has Unicode's `White_Space` property.
pub fn is_whitespace(c: char) -> (yes: bool)
    ensures
        yes == is_ws(c),
{
    ('\u{9}' <= c && c <= '\u{d}') || c == ' ' || c == '\u{85}' || c == '\u{a0}' || c == '\u{1680}'
        || ('\u{2000}' <= c && c <= '\u{200a}') || c == '\u{2028}' || c == '\u{2029}' || c
        == '\u{202f}' || c == '\u{205f}' || c == '\u{3000}'
}

/// The first position at or after `i` that holds no white space (or the end).
pub open spec fn ws_end(s: Seq<char>, i: int) -> int
    decreases s.len() - i,
{
    if 0 <= i < s.len() && is_ws(s[i]) {
        ws_end(s, i + 1)
    } else {
        i
    }
}

pub proof fn lemma_ws_end(s: Seq<char>, i: int)
    requires
        0 <= i <= s.len(),
    ensures
        i <= ws_end(s, i) <= s.len(),
        forall|k: int| i <= k < ws_end(s, i) ==> is_ws(#[trigger] s[k]),
        ws_end(s, i) < s.len() ==> !is_ws(s[ws_end(s, i)]),
    decreases s.len() - i,
{
    if i < s.len() && is_ws(s[i]) {
        lemma_ws_end(s, i + 1);
    }
}

/// Skips white space from position `i` on.
pub fn skip_whitespace(chars: &[char], i: usize) -> (end: usize)
    requires
        i <= chars.len(),
    ensures
        end == ws_end(chars@, i as int),
        i <= end <= chars.len(),
{
    let mut end: usize = i;
    while end < chars.len() && is_whitespace(chars[end])
        invariant
            i <= end <= chars.len(),
            ws_end(chars@, i as int) == ws_end(chars@, end as int),
        decreases chars.len() - end,
    {
        end += 1;
    }
    end
}

/// The text without its leading white space.
pub open spec fn trim_start_of(s: Seq<char>) -> Seq<char> {
    s.skip(ws_end(s, 0))
}

/// The text without its trailing white space.
pub open spec fn trim_end_of(s: Seq<char>) -> Seq<char>
    decreases s.len(),
{
    if s.len() > 0 && is_ws(s.last()) {
        trim_end_of(s.drop_last())
    } else {
        s
    }
}

/// The text without leading and trailing white space.
pub open spec fn trim_of(s: Seq<char>) -> Seq<char> {
    trim_end_of(trim_start_of(s))
}

/// `(from, to)` delimit the text without leading and trailing white space.
pub fn trim_bounds(chars: &[char]) -> (r: (usize, usize))
    ensures
        r.0 <= r.1 <= chars.len(),
        chars@.subrange(r.0 as int, r.1 as int) == trim_of(chars@),
{
    let from = skip_whitespace(chars, 0);
    let mut to: usize = chars.len();
    assert(chars@.subrange(from as int, to as int) =~= trim_start_of(chars@)) by {
        lemma_ws_end(chars@, 0);
    }
    while to > from && is_whitespace(chars[to - 1])
        invariant
            from <= to <= chars.len(),
            trim_end_of(chars@.subrange(from as int, to as int)) == trim_of(chars@),
        decreases to,
    {
        assert(chars@.subrange(from as int, to as int).drop_last() =~= chars@.subrange(
            from as int,
            to - 1,
        ));
        to -= 1;
    }
    (from, to)
}

/// The characters without leading and trailing white space.
pub fn trim_chars(chars: &[char]) -> (out: Vec<char>)
    ensures
        out@ == trim_of(chars@),
{
    let (from, to) = trim_bounds(chars);
    let mut out: Vec<char> = Vec::new();
    push_range(&mut out, chars, from, to);
    assert(out@ =~= trim_of(chars@));
    out
}

/// The text without leading and trailing white space.
pub fn trim(s: &str) -> (out: String)
    ensures
        out@ == trim_of(s@),
{
    let chars = chars_of(s);
    let (from, to) = trim_bounds(chars.as_slice());
    substring_of(chars.as_slice(), from, to)
}

/// Whether the text is empty or all white space.
pub open spec fn blank(s: Seq<char>) -> bool {
    forall|i: int| 0 <= i < s.len() ==> is_ws(#[trigger] s[i])
}

/// Whether the text is empty or all white space.
pub fn is_blank_text(s: &str) -> (yes: bool)
    ensures
        yes == blank(s@),
{
    let chars = chars_of(s);
    let end = skip_whitespace(chars.as_slice(), 0);
    proof {
        lemma_ws_end(s@, 0);
    }
    end == chars.len()
}

// ------------------------------------------------------------------ ASCII case
/// The ASCII lower-case letter for an ASCII upper-case letter; any other character itself.
pub open spec fn ascii_lower(c: char) -> char {
    if 'A' <= c <= 'Z' {
        ((c as u8) + 32) as u8 as char
    } else {
        c
    }
}

/// The ASCII upper-case letter for an ASCII lower-case letter; any other character itself.
pub open spec fn ascii_upper(c: char) -> char {
    if 'a' <= c <= 'z' {
        ((c as u8) - 32) as u8 as char
    } else {
        c
    }
}

/// ASCII lower case of one character.
pub fn to_ascii_lower(c: char) -> (r: char)
    ensures
        r == ascii_lower(c),
{
    if 'A' <= c && c <= 'Z' {
        ((c as u8) + 32) as char
    } else {
        c
    }
}

/// ASCII upper case of one character.
pub fn to_ascii_upper(c: char) -> (r: char)
    ensures
        r == ascii_upper(c),
{
    if 'a' <= c && c <= 'z' {
        ((c as u8) - 32) as char
    } else {
        c
    }
}

/// The text with its ASCII letters in lower case.
pub open spec fn ascii_lower_of(s: Seq<char>) -> Seq<char> {
    Seq::new(s.len(), |i: int| ascii_lower(s[i]))
}

/// The text with its ASCII letters in upper case.
pub open spec fn ascii_upper_of(s: Seq<char>) -> Seq<char> {
    Seq::new(s.len(), |i: int| ascii_upper(s[i]))
}

/// Whether two texts are equal up to the case of their ASCII letters.
pub fn eq_ignore_ascii_case(a: &[char], b: &[char]) -> (same: bool)
    ensures
        same == (ascii_lower_of(a@) == ascii_lower_of(b@)),
{
    if a.len() != b.len() {
        assert(ascii_lower_of(a@).len() != ascii_lower_of(b@).len());
        return false;
    }
    let mut i: usize = 0;
    while i < a.len()
        invariant
            i <= a.len(),
            a.len() == b.len(),
            forall|k: int| 0 <= k < i ==> ascii_lower(a@[k]) == ascii_lower(#[trigger] b@[k]),
        decreases a.len() - i,
    {
        if to_ascii_lower(a[i]) != to_ascii_lower(b[i]) {
            assert(ascii_lower_of(a@)[i as int] != ascii_lower_of(b@)[i as int]);
            return false;
        }
        i += 1;
    }
    assert(ascii_lower_of(a@) =~= ascii_lower_of(b@));
    true
}

// -------------------------------------------------------------------- numbers
/// Whether every character is an ASCII decimal digit.
pub open spec fn all_digits(s: Seq<char>) -> bool {
    forall|i: int| 0 <= i < s.len() ==> '0' <= #[trigger] s[i] <= '9'
}

/// The number that decimal digits spell.
pub open spec fn digits_value(s: Seq<char>) -> int
    decreases s.len(),
{
    if s.len() == 0 {
        0
    } else {
        digits_value(s.drop_last()) * 10 + (s.last() as int - '0' as int)
    }
}

/// The number that a text of digits with an optional `+` spells, as Rust reads unsigned numbers.
pub open spec fn nat_of_text(s: Seq<char>) -> Option<int> {
    let body = if s.len() > 1 && s[0] == '+' {
        s.skip(1)
    } else {
        s
    };
    if body.len() > 0 && all_digits(body) {
        Some(digits_value(body))
    } else {
        None
    }
}

/// The number that a text of digits with an optional sign spells, as Rust reads signed numbers.
pub open spec fn int_of_text(s: Seq<char>) -> Option<int> {
    if s.len() > 1 && s[0] == '-' {
        if all_digits(s.skip(1)) {
            Some(-digits_value(s.skip(1)))
        } else {
            None
        }
    } else {
        nat_of_text(s)
    }
}

proof fn lemma_digits_value_grows(s: Seq<char>, i: int)
    requires
        all_digits(s),
        0 <= i <= s.len(),
    ensures
        0 <= digits_value(s.take(i)) <= digits_value(s),
    decreases s.len(),
{
    if i < s.len() {
        let t = s.drop_last();
        assert(all_digits(t));
        assert(t.take(i) =~= s.take(i));
        lemma_digits_value_grows(t, i);
        assert('0' <= s.last() <= '9');
    } else {
        assert(s.take(i) =~= s);
        if s.len() > 0 {
            let t = s.drop_last();
            assert(all_digits(t));
            lemma_digits_value_grows(t, t.len() as int);
            assert(t.take(t.len() as int) =~= t);
            assert('0' <= s.last() <= '9');
        }
    }
}

proof fn lemma_nat_of_text(s: Seq<char>)
    ensures
        nat_of_text(s) matches Some(v) ==> v >= 0,
{
    let body = if s.len() > 1 && s[0] == '+' {
        s.skip(1)
    } else {
        s
    };
    if all_digits(body) {
        lemma_digits_value_grows(body, 0);
    }
}

/// Reads decimal digits: `None` if a character is no digit, else the value, or `u64::MAX` with the
/// flag set where the value does not fit.
fn read_digits(chars: &[char], from: usize) -> (r: Option<(u64, bool)>)
    requires
        from <= chars.len(),
    ensures
        (r is Some) == all_digits(chars@.skip(from as int)),
        r matches Some((value, over)) ==> if over {
            digits_value(chars@.skip(from as int)) > u64::MAX
        } else {
            value == digits_value(chars@.skip(from as int))
        },
{
    let ghost body = chars@.skip(from as int);
    let mut value: u64 = 0;
    let mut over = false;
    let mut i: usize = from;
    assert(body.take(0).len() == 0);
    while i < chars.len()
        invariant
            from <= i <= chars.len(),
            body == chars@.skip(from as int),
            all_digits(body.take(i - from)),
            !over ==> value == digits_value(body.take(i - from)),
            over ==> digits_value(body.take(i - from)) > u64::MAX,
        decreases chars.len() - i,
    {
        let c = chars[i];
        if c < '0' || c > '9' {
            assert(body[i - from] == c);
            return None;
        }
        let d: u64 = (c as u8 - '0' as u8) as u64;
        let ghost next = body.take(i - from + 1);
        assert(next.drop_last() =~= body.take(i - from));
        assert(next.last() == c);
        assert(all_digits(next)) by {
            assert forall|k: int| 0 <= k < next.len() implies '0' <= #[trigger] next[k] <= '9' by {
                if k < i - from {
                    assert(next[k] == body.take(i - from)[k]);
                }
            }
        }
        if !over {
            if value > (u64::MAX - d) / 10 {
                over = true;
            } else {
                value = value * 10 + d;
            }
        }
        i += 1;
    }
    assert(body.take(i - from) =~= body);
    Some((value, over))
}

/// Reads a signed 64-bit number, as `i64`'s `FromStr` does.
pub fn parse_i64(chars: &[char]) -> (r: Option<i64>)
    ensures
        r == match int_of_text(chars@) {
            Some(v) => if i64::MIN <= v <= i64::MAX {
                Some(v as i64)
            } else {
                None
            },
            None => None,
        },
{
    let negative = chars.len() > 1 && chars[0] == '-';
    let signed = negative || (chars.len() > 1 && chars[0] == '+');
    let from: usize = if signed {
        1
    } else {
        0
    };
    if from == chars.len() {
        return None;
    }
    assert(chars@.skip(0) =~= chars@);
    match read_digits(chars, from) {
        None => None,
        Some((value, over)) => {
            proof {
                let body = chars@.skip(from as int);
                lemma_digits_value_grows(body, 0);
            }
            if over {
                None
            } else if negative {
                if value <= 9223372036854775807 {
                    Some(-(value as i64))
                } else if value == 9223372036854775808 {
                    Some(i64::MIN)
                } else {
                    None
                }
            } else if value <= 9223372036854775807 {
                Some(value as i64)
            } else {
                None
            }
        },
    }
}

/// Reads an unsigned 64-bit number, as `u64`'s `FromStr` does.
pub fn parse_u64(chars: &[char]) -> (r: Option<u64>)
    ensures
        r == match nat_of_text(chars@) {
            Some(v) => if v <= u64::MAX {
                Some(v as u64)
            } else {
                None
            },
            None => None,
        },
{
    let from: usize = if chars.len() > 1 && chars[0] == '+' {
        1
    } else {
        0
    };
    if from == chars.len() {
        return None;
    }
    assert(chars@.skip(0) =~= chars@);
    match read_digits(chars, from) {
        None => None,
        Some((value, over)) => {
            proof {
                lemma_digits_value_grows(chars@.skip(from as int), 0);
            }
            if over {
                None
            } else {
                Some(value)
            }
        },
    }
}

/// Reads a port number, as `u16`'s `FromStr` does.
pub fn parse_u16(chars: &[char]) -> (r: Option<u16>)
    ensures
        r == match nat_of_text(chars@) {
            Some(v) => if v <= u16::MAX {
                Some(v as u16)
            } else {
                None
            },
            None => None,
        },
{
    proof {
        lemma_nat_of_text(chars@);
    }
    match parse_u64(chars) {
        Some(v) => if v <= 65535 {
            Some(v as u16)
        } else {
            None
        },
        None => None,
    }
}

/// The character for a decimal or hexadecimal digit in lower case.
pub open spec fn digit_char(d: int) -> char {
    if d < 10 {
        ('0' as int + d) as u8 as char
    } else {
        ('a' as int + d - 10) as u8 as char
    }
}

/// The decimal spelling of a natural number, without leading zeros.
pub open spec fn decimal(n: nat) -> Seq<char>
    decreases n,
{
    if n < 10 {
        seq![digit_char(n as int)]
    } else {
        decimal(n / 10).push(digit_char((n % 10) as int))
    }
}

/// The decimal spelling of an integer.
pub open spec fn decimal_int(n: int) -> Seq<char> {
    if n < 0 {
        seq!['-'] + decimal((-n) as nat)
    } else {
        decimal(n as nat)
    }
}

/// The digit character of a value below 16.
pub fn digit(d: u8) -> (c: char)
    requires
        d < 16,
    ensures
        c == digit_char(d as int),
{
    if d < 10 {
        (48 + d) as char
    } else {
        (97 + (d - 10)) as char
    }
}

/// The decimal spelling of a natural number.
pub fn decimal_chars(n: u64) -> (out: Vec<char>)
    ensures
        out@ == decimal(n as nat),
    decreases n,
{
    if n < 10 {
        let mut out: Vec<char> = Vec::new();
        out.push(digit(n as u8));
        assert(out@ =~= decimal(n as nat));
        out
    } else {
        let mut out = decimal_chars(n / 10);
        out.push(digit((n % 10) as u8));
        out
    }
}

/// The decimal spelling of a natural number.
pub fn u64_text(n: u64) -> (out: String)
    ensures
        out@ == decimal(n as nat),
{
    let chars = decimal_chars(n);
    string_of(chars.as_slice())
}

/// The decimal spelling of an integer.
pub fn i64_text(n: i64) -> (out: String)
    ensures
        out@ == decimal_int(n as int),
{
    if n >= 0 {
        return u64_text(n as u64);
    }
    let magnitude: u64 = if n == i64::MIN {
        9223372036854775808
    } else {
        (-n) as u64
    };
    let digits = decimal_chars(magnitude);
    let mut out: Vec<char> = Vec::new();
    out.push('-');
    push_range(&mut out, digits.as_slice(), 0, digits.len());
    assert(out@ =~= decimal_int(n as int));
    string_of(out.as_slice())
}

pub proof fn lemma_decimal_digits(n: nat)
    ensures
        decimal(n).len() > 0,
        all_digits(decimal(n)),
        digits_value(decimal(n)) == n,
        decimal(n)[0] == '0' ==> n == 0,
    decreases n,
{
    if n < 10 {
        let s = seq![digit_char(n as int)];
        assert(s.drop_last() =~= Seq::<char>::empty());
        assert(digits_value(s) == n) by {
            reveal_with_fuel(digits_value, 2);
        }
    } else {
        lemma_decimal_digits(n / 10);
        let s = decimal(n);
        assert(s.drop_last() =~= decimal(n / 10));
        assert(s[0] == decimal(n / 10)[0]);
    }
}

/// Reading back a written number gives the number.
pub proof fn decimal_round_trips(n: int)
    ensures
        int_of_text(decimal_int(n)) == Some(n),
        n >= 0 ==> nat_of_text(decimal_int(n)) == Some(n),
{
    if n < 0 {
        lemma_decimal_digits((-n) as nat);
        assert(decimal_int(n).skip(1) =~= decimal((-n) as nat));
    } else {
        lemma_decimal_digits(n as nat);
        assert('0' <= decimal(n as nat)[0] <= '9');
    }
}

// ------------------------------------------------------------------ searching
/// The first position at or after `i` that holds `c`.
pub open spec fn find_from(s: Seq<char>, c: char, i: int) -> Option<int>
    decreases s.len() - i,
{
    if i < 0 || i >= s.len() {
        None
    } else if s[i] == c {
        Some(i)
    } else {
        find_from(s, c, i + 1)
    }
}

/// The last position before `end` that holds `c`.
pub open spec fn rfind_before(s: Seq<char>, c: char, end: int) -> Option<int>
    decreases end,
{
    if end <= 0 || end > s.len() {
        None
    } else if s[end - 1] == c {
        Some(end - 1)
    } else {
        rfind_before(s, c, end - 1)
    }
}

/// What a found position is.
pub proof fn lemma_find_from(s: Seq<char>, c: char, i: int)
    requires
        0 <= i,
    ensures
        match find_from(s, c, i) {
            Some(j) => i <= j < s.len() && s[j] == c && forall|k: int|
                i <= k < j ==> #[trigger] s[k] != c,
            None => forall|k: int| i <= k < s.len() ==> #[trigger] s[k] != c,
        },
    decreases s.len() - i,
{
    if i < s.len() && s[i] != c {
        lemma_find_from(s, c, i + 1);
    }
}

/// Finds the first position at or after `i` that holds `c`.
pub fn find_char(chars: &[char], c: char, i: usize) -> (r: Option<usize>)
    requires
        i <= chars.len(),
    ensures
        match r {
            Some(j) => find_from(chars@, c, i as int) == Some(j as int) && i <= j < chars.len(),
            None => find_from(chars@, c, i as int) is None,
        },
{
    let mut j: usize = i;
    while j < chars.len()
        invariant
            i <= j <= chars.len(),
            find_from(chars@, c, i as int) == find_from(chars@, c, j as int),
        decreases chars.len() - j,
    {
        if chars[j] == c {
            return Some(j);
        }
        j += 1;
    }
    None
}

/// Finds the last position that holds `c`.
pub fn rfind_char(chars: &[char], c: char) -> (r: Option<usize>)
    ensures
        match r {
            Some(j) => rfind_before(chars@, c, chars.len() as int) == Some(j as int) && j
                < chars.len(),
            None => rfind_before(chars@, c, chars.len() as int) is None,
        },
{
    let mut end: usize = chars.len();
    while end > 0
        invariant
            end <= chars.len(),
            rfind_before(chars@, c, chars.len() as int) == rfind_before(chars@, c, end as int),
        decreases end,
    {
        if chars[end - 1] == c {
            return Some(end - 1);
        }
        end -= 1;
    }
    None
}

/// Whether the text holds `c`.
pub fn contains_char(s: &str, c: char) -> (yes: bool)
    ensures
        yes == s@.contains(c),
{
    let chars = chars_of(s);
    proof {
        lemma_find_from(s@, c, 0);
    }
    find_char(chars.as_slice(), c, 0).is_some()
}

/// Whether every character from `from` on is an ASCII decimal digit.
pub fn digits_from(chars: &[char], from: usize) -> (yes: bool)
    requires
        from <= chars.len(),
    ensures
        yes == all_digits(chars@.skip(from as int)),
{
    let mut i: usize = from;
    while i < chars.len()
        invariant
            from <= i <= chars.len(),
            forall|k: int| from <= k < i ==> '0' <= #[trigger] chars@[k] <= '9',
        decreases chars.len() - i,
    {
        if chars[i] < '0' || chars[i] > '9' {
            assert(chars@.skip(from as int)[i - from] == chars@[i as int]);
            return false;
        }
        i += 1;
    }
    assert forall|k: int| 0 <= k < chars@.skip(from as int).len() implies '0'
        <= #[trigger] chars@.skip(from as int)[k] <= '9' by {
        assert(chars@.skip(from as int)[k] == chars@[from + k]);
    }
    true
}

// ---------------------------------------------------------------------- order
/// Whether `a` from position `i` on comes before `b` from there on, or is equal, character by
/// character.
pub open spec fn le_from(a: Seq<char>, b: Seq<char>, i: int) -> bool
    decreases a.len() - i,
{
    if i < 0 || i >= a.len() {
        true
    } else if i >= b.len() {
        false
    } else if a[i] == b[i] {
        le_from(a, b, i + 1)
    } else {
        a[i] < b[i]
    }
}

/// The dictionary order of texts.
pub open spec fn text_le(a: Seq<char>, b: Seq<char>) -> bool {
    le_from(a, b, 0)
}

proof fn lemma_le_from_antisymmetric(a: Seq<char>, b: Seq<char>, i: int)
    requires
        0 <= i <= a.len(),
        i <= b.len(),
        le_from(a, b, i),
        le_from(b, a, i),
    ensures
        a.len() == b.len(),
        forall|k: int| i <= k < a.len() ==> a[k] == #[trigger] b[k],
    decreases a.len() - i,
{
    if i < a.len() && i < b.len() {
        lemma_le_from_antisymmetric(a, b, i + 1);
    }
}

proof fn lemma_le_from_transitive(a: Seq<char>, b: Seq<char>, c: Seq<char>, i: int)
    requires
        0 <= i <= a.len(),
        i <= b.len(),
        i <= c.len(),
        le_from(a, b, i),
        le_from(b, c, i),
    ensures
        le_from(a, c, i),
    decreases a.len() - i,
{
    if i < a.len() && i < b.len() && i < c.len() && a[i] == b[i] && b[i] == c[i] {
        lemma_le_from_transitive(a, b, c, i + 1);
    }
}

proof fn lemma_le_from_total(a: Seq<char>, b: Seq<char>, i: int)
    requires
        0 <= i <= a.len(),
        i <= b.len(),
    ensures
        le_from(a, b, i) || le_from(b, a, i),
    decreases a.len() - i,
{
    if i < a.len() && i < b.len() && a[i] == b[i] {
        lemma_le_from_total(a, b, i + 1);
    }
}

/// The dictionary order is a total order.
pub proof fn text_order_is_total(a: Seq<char>, b: Seq<char>, c: Seq<char>)
    ensures
        text_le(a, a),
        text_le(a, b) || text_le(b, a),
        text_le(a, b) && text_le(b, a) ==> a == b,
        text_le(a, b) && text_le(b, c) ==> text_le(a, c),
{
    lemma_le_from_total(a, a, 0);
    lemma_le_from_total(a, b, 0);
    if text_le(a, b) && text_le(b, a) {
        lemma_le_from_antisymmetric(a, b, 0);
        assert(a =~= b);
    }
    if text_le(a, b) && text_le(b, c) {
        lemma_le_from_transitive(a, b, c, 0);
    }
}

/// Whether `a` comes before `b` in dictionary order, or is equal.
pub fn text_before(a: &str, b: &str) -> (yes: bool)
    ensures
        yes == text_le(a@, b@),
{
    let left = chars_of(a);
    let right = chars_of(b);
    let mut i: usize = 0;
    while i < left.len()
        invariant
            i <= left.len(),
            left@ == a@,
            right@ == b@,
            text_le(a@, b@) == le_from(a@, b@, i as int),
        decreases left.len() - i,
    {
        if i >= right.len() {
            return false;
        }
        if left[i] != right[i] {
            return left[i] < right[i];
        }
        i += 1;
    }
    true
}

/// A copy of an optional text.
pub fn clone_opt(o: &Option<String>) -> (r: Option<String>)
    ensures
        r == *o,
{
    match o {
        Some(s) => Some(s.clone()),
        None => None,
    }
}

/// The view of an optional text.
pub open spec fn opt_view(o: Option<String>) -> Option<Seq<char>> {
    match o {
        Some(s) => Some(s@),
        None => None,
    }
}

/// The views of several texts.
pub open spec fn texts(v: Seq<String>) -> Seq<Seq<char>> {
    Seq::new(v.len(), |i: int| v[i]@)
}

/// Concatenates two texts.
pub fn concat2(a: &str, b: &str) -> (out: String)
    ensures
        out@ == a@ + b@,
{
    let mut out: Vec<char> = Vec::new();
    push_text(&mut out, a);
    push_text(&mut out, b);
    assert(out@ =~= a@ + b@);
    string_of(out.as_slice())
}

/// Concatenates three texts.
pub fn concat3(a: &str, b: &str, c: &str) -> (out: String)
    ensures
        out@ == a@ + b@ + c@,
{
    let mut out: Vec<char> = Vec::new();
    push_text(&mut out, a);
    push_text(&mut out, b);
    push_text(&mut out, c);
    assert(out@ =~= a@ + b@ + c@);
    string_of(out.as_slice())
}

// ------------------------------------------------------------------ laws of texts
proof fn lemma_ws_end_at(s: Seq<char>, i: int, k: int)
    requires
        0 <= i <= k <= s.len(),
        forall|j: int| i <= j < k ==> is_ws(#[trigger] s[j]),
        k < s.len() ==> !is_ws(s[k]),
    ensures
        ws_end(s, i) == k,
    decreases k - i,
{
    if i < k {
        lemma_ws_end_at(s, i + 1, k);
    }
}

proof fn lemma_trim_end_at(s: Seq<char>, post: Seq<char>)
    requires
        blank(post),
        s.len() > 0 ==> !is_ws(s.last()),
    ensures
        trim_end_of(s + post) == s,
    decreases post.len(),
{
    if post.len() == 0 {
        assert(s + post =~= s);
    } else {
        assert((s + post).last() == post[post.len() - 1]);
        assert((s + post).drop_last() =~= s + post.drop_last());
        lemma_trim_end_at(s, post.drop_last());
    }
}

/// Trimming takes the white space at both ends and nothing else.
pub proof fn trimming_takes_the_white_space_around(pre: Seq<char>, s: Seq<char>, post: Seq<char>)
    requires
        blank(pre),
        blank(post),
        s.len() > 0,
        !is_ws(s[0]),
        !is_ws(s.last()),
    ensures
        trim_of(pre + s + post) == s,
        trim_start_of(pre + s + post) == s + post,
        trim_of(pre) == Seq::<char>::empty(),
{
    let t = pre + s + post;
    assert forall|j: int| 0 <= j < pre.len() implies is_ws(#[trigger] t[j]) by {
        assert(t[j] == pre[j]);
    }
    assert(t[pre.len() as int] == s[0]);
    lemma_ws_end_at(t, 0, pre.len() as int);
    assert(t.skip(pre.len() as int) =~= s + post);
    lemma_trim_end_at(s, post);
    lemma_ws_end_at(pre, 0, pre.len() as int);
    assert(pre.skip(pre.len() as int) =~= Seq::<char>::empty());
}

/// Changing the case of a letter keeps its place in the alphabet, and nothing but the letters of
/// ASCII changes.
pub proof fn letters_keep_their_place(c: char)
    ensures
        'A' <= c <= 'Z' ==> ascii_lower(c) as int - 'a' as int == c as int - 'A' as int,
        'a' <= c <= 'z' ==> ascii_upper(c) as int - 'A' as int == c as int - 'a' as int,
        !('A' <= c <= 'Z') ==> ascii_lower(c) == c,
        !('a' <= c <= 'z') ==> ascii_upper(c) == c,
{
}

/// One more decimal place is one more digit at the end.
pub proof fn numbers_are_written_place_by_place(n: nat, d: nat)
    requires
        d < 10,
    ensures
        n > 0 ==> decimal(10 * n + d) == decimal(n).push(('0' as int + d) as char),
        decimal(d) == seq![('0' as int + d) as char],
        decimal_int(-(n as int)) == if n == 0 {
            decimal(n)
        } else {
            seq!['-'] + decimal(n)
        },
{
    assert((10 * n + d) / 10 == n);
    assert((10 * n + d) % 10 == d);
}

/// A text that spells a number spells it place by place, with at most one sign in front.
pub proof fn digits_are_read_place_by_place(s: Seq<char>, c: char)
    requires
        all_digits(s),
        '0' <= c <= '9',
    ensures
        s.len() > 0 ==> {
            &&& nat_of_text(s) matches Some(n) && nat_of_text(s.push(c)) == Some(
                10 * n + (c as int - '0' as int),
            )
            &&& nat_of_text(seq!['+'] + s) == nat_of_text(s)
            &&& int_of_text(s) == nat_of_text(s)
            &&& nat_of_text(s) matches Some(n) && int_of_text(seq!['-'] + s) == Some(-n)
            &&& nat_of_text(seq!['-'] + s) is None
        },
        nat_of_text(seq![c]) == Some(c as int - '0' as int),
        int_of_text(seq!['+']) is None,
        int_of_text(seq!['-']) is None,
        int_of_text(Seq::empty()) is None,
{
    let t = s.push(c);
    assert(t.drop_last() =~= s);
    assert(all_digits(t));
    if s.len() > 0 {
        assert('0' <= s[0] <= '9');
        assert((seq!['+'] + s).skip(1) =~= s);
        assert((seq!['-'] + s).skip(1) =~= s);
        assert((seq!['-'] + s)[0] == '-');
        assert(s.push(c)[0] == s[0]);
    }
    let one = seq![c];
    assert(one.drop_last() =~= Seq::<char>::empty());
    assert(digits_value(one) == c as int - '0' as int) by {
        reveal_with_fuel(digits_value, 2);
    }
    assert(seq!['+'][0] == '+');
    assert(!all_digits(seq!['+'])) by {
        assert(seq!['+'][0] == '+');
    }
    assert(!all_digits(seq!['-'])) by {
        assert(seq!['-'][0] == '-');
    }
}

/// Texts are ordered by the first character that differs; a text stands before what continues it.
pub proof fn texts_are_ordered_by_the_first_difference(p: Seq<char>, a: char, b: char, s: Seq<char>, t: Seq<char>)
    ensures
        a != b ==> text_le(p.push(a) + s, p.push(b) + t) == (a < b),
        text_le(p, p + s),
        s.len() > 0 ==> !text_le(p + s, p),
{
    lemma_le_skips(p, p.push(a) + s, p.push(b) + t, 0);
    lemma_le_skips(p, p, p + s, 0);
    lemma_le_skips(p, p + s, p, 0);
}

proof fn lemma_le_skips(p: Seq<char>, a: Seq<char>, b: Seq<char>, i: int)
    requires
        0 <= i <= p.len() <= a.len(),
        p.len() <= b.len(),
        forall|k: int| 0 <= k < p.len() ==> #[trigger] a[k] == p[k],
        forall|k: int| 0 <= k < p.len() ==> #[trigger] b[k] == p[k],
    ensures
        le_from(a, b, i) == le_from(a, b, p.len() as int),
    decreases p.len() - i,
{
    if i < p.len() {
        lemma_le_skips(p, a, b, i + 1);
        assert(a[i] == p[i] && b[i] == p[i]);
    }
}

pub proof fn lemma_untouched(s: Seq<char>)
    requires
        s.len() > 0,
        !is_ws(s[0]),
        !is_ws(s.last()),
    ensures
        trim_of(s) == s,
{
    let none = Seq::<char>::empty();
    trimming_takes_the_white_space_around(none, s, none);
    assert(none + s + none =~= s);
}

/// A text in two parts is found apart again at the character between them.
pub proof fn parts_are_found_apart(a: Seq<char>, c: char, b: Seq<char>)
    requires
        forall|i: int| 0 <= i < a.len() ==> #[trigger] a[i] != c,
    ensures
        ({
            let s = a + seq![c] + b;
            &&& find_from(s, c, 0) == Some(a.len() as int)
            &&& s.take(a.len() as int) == a
            &&& s.skip(1int + a.len()) == b
            &&& s.subrange(1int + a.len(), s.len() as int) == b
            &&& (forall|i: int| 0 <= i < b.len() ==> #[trigger] b[i] != c) ==> find_from(
                s,
                c,
                1int + a.len(),
            ) is None
        }),
        find_from(a, c, 0) is None,
{
    let s = a + seq![c] + b;
    let n = a.len() as int;
    assert(s[n] == c);
    assert forall|i: int| 0 <= i < n implies #[trigger] s[i] != c by {
        assert(s[i] == a[i]);
    }
    lemma_find_from(s, c, 0);
    lemma_find_from(s, c, n + 1);
    lemma_find_from(a, c, 0);
    assert(s.take(n) =~= a);
    assert(s.skip(n + 1) =~= b);
    assert(s.subrange(n + 1, s.len() as int) =~= b);
    if forall|i: int| 0 <= i < b.len() ==> #[trigger] b[i] != c {
        assert forall|i: int| n < i < s.len() implies #[trigger] s[i] != c by {
            assert(s[i] == b[i - n - 1]);
        }
    }
}

pub proof fn lemma_decimal_plain(n: nat)
    ensures
        trim_of(decimal(n)) == decimal(n),
        decimal(n).len() > 0,
        !is_ws(decimal(n).last()),
        nat_of_text(decimal(n)) == Some(n as int),
        forall|i: int| 0 <= i < decimal(n).len() ==> #[trigger] decimal(n)[i] != ':',
{
    let p = decimal(n);
    lemma_decimal_digits(n);
    decimal_round_trips(n as int);
    assert('0' <= p[0] <= '9' && '0' <= p[p.len() - 1] <= '9');
    lemma_untouched(p);
}

} // verus!
