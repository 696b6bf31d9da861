//! The few JSON texts that the BTN client writes and reads on its own.

use vstd::prelude::*;
use crate::text::digit_char;

verus! {

/// How a character is written in a JSON string: quotes, backslashes and control characters are
/// escaped, the rest stands as it is.
pub open spec fn json_escaped(c: char) -> Seq<char> {
    if c == '"' || c == '\\' {
        seq!['\\', c]
    } else if c == '\n' {
        seq!['\\', 'n']
    } else if c == '\r' {
        seq!['\\', 'r']
    } else if c == '\t' {
        seq!['\\', 't']
    } else if c == '\u{8}' {
        seq!['\\', 'b']
    } else if c == '\u{c}' {
        seq!['\\', 'f']
    } else if (c as int) < 0x20 {
        seq!['\\', 'u', '0', '0', digit_char(c as int / 16), digit_char(c as int % 16)]
    } else {
        seq![c]
    }
}

/// A text between the quotes of a JSON string.
pub open spec fn json_characters(s: Seq<char>) -> Seq<char>
    decreases s.len(),
{
    if s.len() == 0 {
        s
    } else {
        json_characters(s.drop_last()) + json_escaped(s.last())
    }
}

/// A text as a JSON string.
pub open spec fn json_string(s: Seq<char>) -> Seq<char> {
    seq!['"'] + json_characters(s) + seq!['"']
}

/// `serde_json::to_string` of a text: the JSON string with its quotes and escapes.
#[verifier::external_body]
fn write_json_string(s: &str) -> (out: String)
    ensures
        out@ == json_string(s@),
{
    serde_json::to_string(s).unwrap_or_default()
}

/// What a JSON document holds at a pointer: `None` if the document cannot be read, `Some(None)` if
/// there is no string there.
pub uninterp spec fn json_text_at(document: Seq<char>, pointer: Seq<char>) -> Option<
    Option<Seq<char>>,
>;

/// Reads a document with `serde_json::from_str` and looks up the string at a pointer with
/// `serde_json::Value::pointer`. The result depends on the two texts alone.
#[verifier::external_body]
pub(crate) fn read_json_text(document: &str, pointer: &str) -> (r: Option<Option<String>>)
    ensures
        match r {
            None => json_text_at(document@, pointer@) is None,
            Some(None) => json_text_at(document@, pointer@) == Some(None::<Seq<char>>),
            Some(Some(text)) => json_text_at(document@, pointer@) == Some(Some(text@)),
        },
{
    let value = serde_json::from_str::<serde_json::Value>(document).ok()?;
    Some(value.pointer(pointer).and_then(|v| v.as_str()).map(|s| s.to_string()))
}

/// The body of a heartbeat for an interface address.
pub open spec fn heartbeat_text(ifaddr: Seq<char>) -> Seq<char> {
    "{\"ifaddr\":"@ + json_string(ifaddr) + "}"@
}

/// The body of a heartbeat for an interface address.
pub fn heartbeat_body(ifaddr: &str) -> (out: String)
    ensures
        out@ == heartbeat_text(ifaddr@),
{
    let value = write_json_string(ifaddr);
    crate::text::concat3("{\"ifaddr\":", value.as_str(), "}")
}

// ------------------------------------------------------------------ laws of JSON texts
/// A JSON string is written character by character: the quote and the backslash have a backslash in
/// front, the control characters are written by their letters or numbers, and the rest as it is.
pub proof fn strings_are_written_character_by_character(s: Seq<char>, c: char)
    ensures
        c == '"' ==> json_characters(s.push(c)) == json_characters(s) + seq!['\\', '"'],
        c == '\\' ==> json_characters(s.push(c)) == json_characters(s) + seq!['\\', '\\'],
        c == '\n' ==> json_characters(s.push(c)) == json_characters(s) + seq!['\\', 'n'],
        c == '\r' ==> json_characters(s.push(c)) == json_characters(s) + seq!['\\', 'r'],
        c == '\t' ==> json_characters(s.push(c)) == json_characters(s) + seq!['\\', 't'],
        c as int == 8 ==> json_characters(s.push(c)) == json_characters(s) + seq!['\\', 'b'],
        c as int == 12 ==> json_characters(s.push(c)) == json_characters(s) + seq!['\\', 'f'],
        (c as int) < 32 && c as int != 8 && c as int != 9 && c as int != 10 && c as int != 12
            && c as int != 13 ==> json_characters(s.push(c)) == json_characters(s) + seq![
            '\\',
            'u',
            '0',
            '0',
            "0123456789abcdef"@[c as int / 16],
            "0123456789abcdef"@[c as int % 16],
        ],
        c as int >= 32 && c != '"' && c != '\\' ==> json_characters(s.push(c)) == json_characters(
            s,
        ).push(c),
        json_string(s) == seq!['"'] + json_characters(s) + seq!['"'],
        json_characters(Seq::empty()).len() == 0,
{
    reveal_strlit("0123456789abcdef");
    assert(s.push(c).drop_last() =~= s);
}

} // verus!
