//! AviatorScript front end: reads a script's metadata header and rewrites AviatorScript source into
//! rhai source.
//!
//! The rewriting is lexical and aware of strings and comments:
//! - `#` line comments become `//` comments, block comments stay;
//! - quoted strings become double-quoted strings;
//! - `string.*` built-ins become rhai string methods, `toLowerCase`, `isBlank` and their like
//!   become methods or registered functions;
//! - `seq.map(k1, v1, ..)` and `seq.list(..)` become array literals, which keep insertion order;
//! - a bare assignment `x = ..` becomes `let x = ..`;
//! - `nil` becomes `()`.
//!
//! Whatever cannot be rewritten, such as a conditional `a ? b : c`, a match `=~` or `string.split`,
//! is reported as an error with its reason.

use vstd::prelude::*;
use crate::text::{blank, chars_of, decimal, is_ws, lemma_ws_end, push_range, push_text, skip_whitespace, spells, string_of, trim_bounds, trim_chars, trim_end_of, trim_of, trim_start_of, u64_text, ws_end};

verus! {

/// Longest time a script may run, in milliseconds.
pub const MAX_SCRIPT_EXECUTE_MS: i64 = 1500;

// ------------------------------------------------------------------- lexical runs
/// `_` or an ASCII letter.
pub open spec fn ident_start(c: char) -> bool {
    'a' <= c <= 'z' || 'A' <= c <= 'Z' || c == '_'
}

/// `_`, an ASCII letter or an ASCII digit.
pub open spec fn ident_char(c: char) -> bool {
    ident_start(c) || '0' <= c <= '9'
}

/// The end of the run of `#` that starts at `i`.
pub open spec fn hash_end(s: Seq<char>, i: int) -> int
    decreases s.len() - i,
{
    if 0 <= i < s.len() && s[i] == '#' {
        hash_end(s, i + 1)
    } else {
        i
    }
}

/// The position of the first line feed at or after `i` (or the end).
pub open spec fn line_end(s: Seq<char>, i: int) -> int
    decreases s.len() - i,
{
    if 0 <= i < s.len() && s[i] != '\n' {
        line_end(s, i + 1)
    } else {
        i
    }
}

/// The end of the run of identifier characters that starts at `i`.
pub open spec fn ident_end(s: Seq<char>, i: int) -> int
    decreases s.len() - i,
{
    if 0 <= i < s.len() && ident_char(s[i]) {
        ident_end(s, i + 1)
    } else {
        i
    }
}

/// The position of the first `*/` at or after `i`.
pub open spec fn block_close(s: Seq<char>, i: int) -> Option<int>
    decreases s.len() - i,
{
    if i < 0 || i + 1 >= s.len() {
        None
    } else if s[i] == '*' && s[i + 1] == '/' {
        Some(i)
    } else {
        block_close(s, i + 1)
    }
}

proof fn lemma_hash_end(s: Seq<char>, i: int)
    requires
        0 <= i <= s.len(),
    ensures
        i <= hash_end(s, i) <= s.len(),
    decreases s.len() - i,
{
    if i < s.len() && s[i] == '#' {
        lemma_hash_end(s, i + 1);
    }
}

pub proof fn lemma_line_end(s: Seq<char>, i: int)
    requires
        0 <= i <= s.len(),
    ensures
        i <= line_end(s, i) <= s.len(),
    decreases s.len() - i,
{
    if i < s.len() && s[i] != '\n' {
        lemma_line_end(s, i + 1);
    }
}

proof fn lemma_ident_end(s: Seq<char>, i: int)
    requires
        0 <= i <= s.len(),
    ensures
        i <= ident_end(s, i) <= s.len(),
    decreases s.len() - i,
{
    if i < s.len() && ident_char(s[i]) {
        lemma_ident_end(s, i + 1);
    }
}

proof fn lemma_block_close(s: Seq<char>, i: int)
    requires
        0 <= i,
    ensures
        block_close(s, i) matches Some(j) ==> i <= j && j + 1 < s.len(),
    decreases s.len() - i,
{
    if i + 1 < s.len() && !(s[i] == '*' && s[i + 1] == '/') {
        lemma_block_close(s, i + 1);
    }
}

fn is_ident_start(c: char) -> (yes: bool)
    ensures
        yes == ident_start(c),
{
    ('a' <= c && c <= 'z') || ('A' <= c && c <= 'Z') || c == '_'
}

fn is_ident_char(c: char) -> (yes: bool)
    ensures
        yes == ident_char(c),
{
    is_ident_start(c) || ('0' <= c && c <= '9')
}

fn skip_hashes(chars: &[char], i: usize) -> (end: usize)
    requires
        i <= chars.len(),
    ensures
        end == hash_end(chars@, i as int),
        i <= end <= chars.len(),
{
    let mut end: usize = i;
    while end < chars.len() && chars[end] == '#'
        invariant
            i <= end <= chars.len(),
            hash_end(chars@, i as int) == hash_end(chars@, end as int),
        decreases chars.len() - end,
    {
        end += 1;
    }
    end
}

fn skip_line(chars: &[char], i: usize) -> (end: usize)
    requires
        i <= chars.len(),
    ensures
        end == line_end(chars@, i as int),
        i <= end <= chars.len(),
{
    let mut end: usize = i;
    while end < chars.len() && chars[end] != '\n'
        invariant
            i <= end <= chars.len(),
            line_end(chars@, i as int) == line_end(chars@, end as int),
        decreases chars.len() - end,
    {
        end += 1;
    }
    end
}

fn skip_ident(chars: &[char], i: usize) -> (end: usize)
    requires
        i <= chars.len(),
    ensures
        end == ident_end(chars@, i as int),
        i <= end <= chars.len(),
{
    let mut end: usize = i;
    while end < chars.len() && is_ident_char(chars[end])
        invariant
            i <= end <= chars.len(),
            ident_end(chars@, i as int) == ident_end(chars@, end as int),
        decreases chars.len() - end,
    {
        end += 1;
    }
    end
}

fn find_block_close(chars: &[char], i: usize) -> (r: Option<usize>)
    requires
        i <= chars.len(),
    ensures
        match r {
            Some(j) => block_close(chars@, i as int) == Some(j as int) && i <= j && j + 1
                < chars.len(),
            None => block_close(chars@, i as int) is None,
        },
{
    let mut j: usize = i;
    while j < chars.len() && j + 1 < chars.len()
        invariant
            i <= j <= chars.len(),
            block_close(chars@, i as int) == block_close(chars@, j as int),
        decreases chars.len() - j,
    {
        if chars[j] == '*' && chars[j + 1] == '/' {
            return Some(j);
        }
        j += 1;
    }
    None
}

// ---------------------------------------------------------------- string literals
/// How the pair of a backslash and `c` is written in a double-quoted rhai string.
pub open spec fn escape(c: char) -> Seq<char> {
    if c == '\'' {
        seq!['\'']
    } else if c == '"' {
        seq!['\\', '"']
    } else {
        seq!['\\', c]
    }
}

/// A translated piece of text and the position behind it, or the reason there is none.
pub type Piece = Result<(Seq<char>, int), Seq<char>>;

/// The piece with `head` in front of its text.
pub open spec fn prepend(head: Seq<char>, piece: Piece) -> Piece {
    match piece {
        Ok((text, end)) => Ok((head + text, end)),
        Err(e) => Err(e),
    }
}

/// The rest of a string literal from position `i` on, closing quote included, as a double-quoted
/// rhai string has it.
pub open spec fn literal_rest(s: Seq<char>, i: int, quote: char) -> Piece
    decreases s.len() - i,
{
    if i < 0 || i >= s.len() {
        Err("字符串未闭合"@)
    } else if s[i] == '\\' && i + 1 < s.len() {
        prepend(escape(s[i + 1]), literal_rest(s, i + 2, quote))
    } else if s[i] == quote {
        Ok((seq!['"'], i + 1))
    } else if s[i] == '"' && quote == '\'' {
        prepend(seq!['\\', '"'], literal_rest(s, i + 1, quote))
    } else if s[i] == '\n' {
        Err("字符串未闭合（行尾）"@)
    } else {
        prepend(seq![s[i]], literal_rest(s, i + 1, quote))
    }
}

/// The string literal that opens at `start`, as a double-quoted rhai string.
pub open spec fn literal_at(s: Seq<char>, start: int) -> Piece {
    prepend(seq!['"'], literal_rest(s, start + 1, s[start]))
}

proof fn lemma_literal_rest(s: Seq<char>, i: int, quote: char)
    requires
        0 <= i,
    ensures
        literal_rest(s, i, quote) matches Ok((text, end)) ==> i < end <= s.len() && text.len() > 0,
    decreases s.len() - i,
{
    if i < s.len() {
        if s[i] == '\\' && i + 1 < s.len() {
            lemma_literal_rest(s, i + 2, quote);
        } else if s[i] != quote && s[i] != '\n' || (s[i] == '"' && quote == '\'') {
            lemma_literal_rest(s, i + 1, quote);
        }
    }
}

pub proof fn lemma_literal_at(s: Seq<char>, start: int)
    requires
        0 <= start,
    ensures
        literal_at(s, start) matches Ok((text, end)) ==> start + 1 < end <= s.len(),
{
    lemma_literal_rest(s, start + 1, s[start]);
}

proof fn lemma_prepend_prepend(a: Seq<char>, b: Seq<char>, piece: Piece)
    ensures
        prepend(a, prepend(b, piece)) == prepend(a + b, piece),
{
    match piece {
        Ok((text, end)) => {
            assert(a + (b + text) =~= (a + b) + text);
        },
        Err(e) => {},
    }
}

/// Reads the string literal that opens at `start`: its translation and the position behind it.
fn read_string(chars: &[char], start: usize) -> (r: Result<(Vec<char>, usize), String>)
    requires
        start < chars.len(),
    ensures
        match literal_at(chars@, start as int) {
            Ok((text, end)) => r matches Ok((t, e)) && t@ == text && e == end && start < e
                <= chars.len(),
            Err(message) => r matches Err(m) && m@ == message,
        },
{
    let quote = chars[start];
    let mut out: Vec<char> = Vec::new();
    out.push('"');
    let mut i: usize = start + 1;
    assert(out@ =~= seq!['"']);
    while i < chars.len()
        invariant
            start < i <= chars.len(),
            start < chars.len(),
            quote == chars@[start as int],
            literal_at(chars@, start as int) == prepend(
                out@,
                literal_rest(chars@, i as int, quote),
            ),
        decreases chars.len() - i,
    {
        let c = chars[i];
        let ghost before = out@;
        if c == '\\' && i + 1 < chars.len() {
            let next = chars[i + 1];
            if next == '\'' {
                out.push('\'');
            } else if next == '"' {
                out.push('\\');
                out.push('"');
            } else {
                out.push('\\');
                out.push(next);
            }
            proof {
                assert(out@ =~= before + escape(next));
                lemma_prepend_prepend(
                    before,
                    escape(next),
                    literal_rest(chars@, i + 2, quote),
                );
            }
            i += 2;
            continue;
        }
        if c == quote {
            out.push('"');
            assert(out@ =~= before + seq!['"']);
            return Ok((out, i + 1));
        }
        if c == '"' && quote == '\'' {
            out.push('\\');
            out.push('"');
            proof {
                assert(out@ =~= before + seq!['\\', '"']);
                lemma_prepend_prepend(
                    before,
                    seq!['\\', '"'],
                    literal_rest(chars@, i + 1, quote),
                );
            }
            i += 1;
            continue;
        }
        if c == '\n' {
            return Err("字符串未闭合（行尾）".to_string());
        }
        out.push(c);
        proof {
            assert(out@ =~= before + seq![c]);
            lemma_prepend_prepend(before, seq![c], literal_rest(chars@, i + 1, quote));
        }
        i += 1;
    }
    Err("字符串未闭合".to_string())
}

// ------------------------------------------------------------------ call arguments
/// The position of the `)` that brings the depth of open parentheses back to zero, from position
/// `i` at the given depth; strings and `#` comments are skipped.
pub open spec fn paren_close(s: Seq<char>, i: int, depth: int) -> Result<int, Seq<char>>
    decreases s.len() - i,
{
    if i < 0 || i >= s.len() {
        Err("括号未闭合"@)
    } else if s[i] == '\'' || s[i] == '"' {
        proof {
            lemma_literal_at(s, i);
        }
        match literal_at(s, i) {
            Ok((text, end)) => paren_close(s, end, depth),
            Err(e) => Err(e),
        }
    } else if s[i] == '#' {
        proof {
            lemma_line_end(s, i + 1);
        }
        paren_close(s, line_end(s, i), depth)
    } else if s[i] == '(' {
        paren_close(s, i + 1, depth + 1)
    } else if s[i] == ')' {
        if depth == 1 {
            Ok(i)
        } else {
            paren_close(s, i + 1, depth - 1)
        }
    } else {
        paren_close(s, i + 1, depth)
    }
}

proof fn lemma_paren_close(s: Seq<char>, i: int, depth: int)
    requires
        0 <= i,
    ensures
        paren_close(s, i, depth) matches Ok(j) ==> i <= j < s.len() && s[j] == ')',
    decreases s.len() - i,
{
    if i < s.len() {
        if s[i] == '\'' || s[i] == '"' {
            lemma_literal_at(s, i);
            if let Ok((text, end)) = literal_at(s, i) {
                lemma_paren_close(s, end, depth);
            }
        } else if s[i] == '#' {
            lemma_line_end(s, i + 1);
            lemma_paren_close(s, line_end(s, i), depth);
        } else if s[i] == '(' {
            lemma_paren_close(s, i + 1, depth + 1);
        } else if s[i] == ')' {
            if depth != 1 {
                lemma_paren_close(s, i + 1, depth - 1);
            }
        } else {
            lemma_paren_close(s, i + 1, depth);
        }
    }
}

/// The position of the `)` that matches the `(` at `open`.
fn find_matching_paren(chars: &[char], open: usize) -> (r: Result<usize, String>)
    requires
        open < chars.len(),
        chars@[open as int] == '(',
    ensures
        match paren_close(chars@, open as int, 0) {
            Ok(close) => r matches Ok(c) && c == close && open < c < chars.len(),
            Err(message) => r matches Err(m) && m@ == message,
        },
{
    let mut depth: usize = 1;
    let mut i: usize = open + 1;
    while i < chars.len()
        invariant
            open < i <= chars.len(),
            1 <= depth <= i,
            paren_close(chars@, open as int, 0) == paren_close(chars@, i as int, depth as int),
        decreases chars.len() - i,
    {
        let c = chars[i];
        if c == '\'' || c == '"' {
            match read_string(chars, i) {
                Ok((text, end)) => {
                    i = end;
                },
                Err(e) => {
                    return Err(e);
                },
            }
        } else if c == '#' {
            proof {
                lemma_line_end(chars@, i + 1);
            }
            i = skip_line(chars, i);
        } else if c == '(' {
            depth += 1;
            i += 1;
        } else if c == ')' {
            if depth == 1 {
                return Ok(i);
            }
            depth -= 1;
            i += 1;
        } else {
            i += 1;
        }
    }
    Err("括号未闭合".to_string())
}

/// The nonblank arguments between `start` and `close`, as ranges: the text is cut at each comma
/// outside brackets, strings and `#` comments. `i` is how far the text has been read, `start` where
/// the current argument begins, `depth` how many brackets are open.
pub open spec fn args_from(s: Seq<char>, i: int, close: int, start: int, depth: int) -> Seq<
    (int, int),
>
    decreases s.len() - i,
{
    if i < 0 || i >= close || close > s.len() {
        if start < close {
            nonblank_range(s, start, close)
        } else {
            Seq::empty()
        }
    } else if s[i] == '\'' || s[i] == '"' {
        proof {
            lemma_literal_at(s, i);
        }
        match literal_at(s, i) {
            Ok((text, end)) => args_from(s, end, close, start, depth),
            Err(e) => args_from(s, i + 1, close, start, depth),
        }
    } else if s[i] == '#' {
        proof {
            lemma_line_end(s, i + 1);
        }
        args_from(s, line_end(s, i), close, start, depth)
    } else if s[i] == '(' || s[i] == '[' || s[i] == '{' {
        args_from(s, i + 1, close, start, depth + 1)
    } else if s[i] == ')' || s[i] == ']' || s[i] == '}' {
        args_from(s, i + 1, close, start, depth - 1)
    } else if s[i] == ',' && depth == 0 {
        nonblank_range(s, start, i) + args_from(s, i + 1, close, i + 1, depth)
    } else {
        args_from(s, i + 1, close, start, depth)
    }
}

/// The range as the only element, unless its text is blank.
pub open spec fn nonblank_range(s: Seq<char>, from: int, to: int) -> Seq<(int, int)> {
    if blank(s.subrange(from, to)) {
        Seq::empty()
    } else {
        seq![(from, to)]
    }
}

/// The nonblank arguments of the call whose parentheses stand at `open` and `close`.
pub open spec fn args_of(s: Seq<char>, open: int, close: int) -> Seq<(int, int)> {
    args_from(s, open + 1, close, open + 1, 0)
}

/// Ranges as pairs of integers.
pub open spec fn ranges(args: Seq<(usize, usize)>) -> Seq<(int, int)> {
    Seq::new(args.len(), |k: int| (args[k].0 as int, args[k].1 as int))
}

/// Whether every range lies inside the text without covering all of it.
pub open spec fn proper_ranges(args: Seq<(usize, usize)>, len: int) -> bool {
    forall|k: int|
        0 <= k < args.len() ==> {
            &&& (#[trigger] args[k]).0 <= args[k].1
            &&& args[k].1 < len
        }
}

fn push_nonblank(args: &mut Vec<(usize, usize)>, chars: &[char], from: usize, to: usize)
    requires
        from <= to < chars.len(),
        proper_ranges(old(args)@, chars.len() as int),
    ensures
        proper_ranges(final(args)@, chars.len() as int),
        ranges(final(args)@) == ranges(old(args)@) + nonblank_range(
            chars@,
            from as int,
            to as int,
        ),
{
    let ghost before = args@;
    let end = skip_whitespace(chars, from);
    proof {
        lemma_ws_end(chars@, from as int);
    }
    if end < to {
        assert(chars@.subrange(from as int, to as int)[end - from] == chars@[end as int]);
        args.push((from, to));
        assert(ranges(args@) =~= ranges(before) + nonblank_range(chars@, from as int, to as int));
    } else {
        assert(blank(chars@.subrange(from as int, to as int)));
        assert(ranges(args@) =~= ranges(before) + nonblank_range(chars@, from as int, to as int));
    }
}

/// Cuts the arguments of the call whose parentheses stand at `open` and `close`.
fn split_args(chars: &[char], open: usize, close: usize) -> (args: Vec<(usize, usize)>)
    requires
        open < close < chars.len(),
    ensures
        ranges(args@) == args_of(chars@, open as int, close as int),
        proper_ranges(args@, chars.len() as int),
{
    let mut args: Vec<(usize, usize)> = Vec::new();
    let mut depth: i128 = 0;
    let mut start: usize = open + 1;
    let mut i: usize = open + 1;
    assert(ranges(args@) =~= Seq::empty());
    assert(ranges(args@) + args_of(chars@, open as int, close as int) =~= args_of(
        chars@,
        open as int,
        close as int,
    ));
    while i < close
        invariant
            open < start <= i,
            start <= close < chars.len(),
            i <= chars.len(),
            -i <= depth <= i,
            proper_ranges(args@, chars.len() as int),
            args_of(chars@, open as int, close as int) == ranges(args@) + args_from(
                chars@,
                i as int,
                close as int,
                start as int,
                depth as int,
            ),
        decreases chars.len() - i,
    {
        let c = chars[i];
        if c == '\'' || c == '"' {
            match read_string(chars, i) {
                Ok((text, end)) => {
                    i = end;
                },
                Err(_) => {
                    i += 1;
                },
            }
        } else if c == '#' {
            proof {
                lemma_line_end(chars@, i + 1);
            }
            i = skip_line(chars, i);
        } else if c == '(' || c == '[' || c == '{' {
            depth += 1;
            i += 1;
        } else if c == ')' || c == ']' || c == '}' {
            depth -= 1;
            i += 1;
        } else if c == ',' && depth == 0 {
            proof {
                let done = ranges(args@);
                let cut = nonblank_range(chars@, start as int, i as int);
                let rest = args_from(chars@, i + 1, close as int, i + 1, 0);
                assert((done + cut) + rest =~= done + (cut + rest));
            }
            push_nonblank(&mut args, chars, start, i);
            start = i + 1;
            i += 1;
        } else {
            i += 1;
        }
    }
    if start < close {
        push_nonblank(&mut args, chars, start, close);
    }
    args
}

// ---------------------------------------------------------------------- words
/// Words of both languages that are never calls.
pub open spec fn keyword(s: Seq<char>) -> bool {
    ||| s == "if"@
    ||| s == "else"@
    ||| s == "for"@
    ||| s == "while"@
    ||| s == "return"@
    ||| s == "let"@
    ||| s == "in"@
    ||| s == "true"@
    ||| s == "false"@
    ||| s == "break"@
    ||| s == "continue"@
    ||| s == "loop"@
    ||| s == "do"@
    ||| s == "switch"@
    ||| s == "fn"@
    ||| s == "throw"@
    ||| s == "try"@
    ||| s == "catch"@
}

fn is_keyword(ident: &[char]) -> (yes: bool)
    ensures
        yes == keyword(ident@),
{
    spells(ident, "if") || spells(ident, "else") || spells(ident, "for") || spells(ident, "while")
        || spells(ident, "return") || spells(ident, "let") || spells(ident, "in") || spells(
        ident,
        "true",
    ) || spells(ident, "false") || spells(ident, "break") || spells(ident, "continue") || spells(
        ident,
        "loop",
    ) || spells(ident, "do") || spells(ident, "switch") || spells(ident, "fn") || spells(
        ident,
        "throw",
    ) || spells(ident, "try") || spells(ident, "catch")
}

/// The built-in functions that stand in no namespace.
#[derive(Clone, Copy, PartialEq, Eq, Structural)]
pub enum Builtin {
    IsBlank,
    IsNotBlank,
    ToLower,
    ToUpper,
    ToStr,
    ToDouble,
    ToLong,
    ToInt,
}

/// The built-in function of a name.
pub open spec fn builtin(name: Seq<char>) -> Option<Builtin> {
    if name == "isBlank"@ {
        Some(Builtin::IsBlank)
    } else if name == "isNotBlank"@ {
        Some(Builtin::IsNotBlank)
    } else if name == "toLowerCase"@ {
        Some(Builtin::ToLower)
    } else if name == "toUpperCase"@ {
        Some(Builtin::ToUpper)
    } else if name == "toString"@ || name == "str"@ {
        Some(Builtin::ToStr)
    } else if name == "double"@ {
        Some(Builtin::ToDouble)
    } else if name == "long"@ {
        Some(Builtin::ToLong)
    } else if name == "int"@ {
        Some(Builtin::ToInt)
    } else {
        None
    }
}

fn builtin_kind(ident: &[char]) -> (kind: Option<Builtin>)
    ensures
        kind == builtin(ident@),
{
    if spells(ident, "isBlank") {
        Some(Builtin::IsBlank)
    } else if spells(ident, "isNotBlank") {
        Some(Builtin::IsNotBlank)
    } else if spells(ident, "toLowerCase") {
        Some(Builtin::ToLower)
    } else if spells(ident, "toUpperCase") {
        Some(Builtin::ToUpper)
    } else if spells(ident, "toString") || spells(ident, "str") {
        Some(Builtin::ToStr)
    } else if spells(ident, "double") {
        Some(Builtin::ToDouble)
    } else if spells(ident, "long") {
        Some(Builtin::ToLong)
    } else if spells(ident, "int") {
        Some(Builtin::ToInt)
    } else {
        None
    }
}

/// Whether the text, trailing white space aside, ends in the word `let`.
pub open spec fn ends_with_let(out: Seq<char>) -> bool {
    let t = trim_end_of(out);
    let n = t.len() as int;
    &&& n >= 3
    &&& t[n - 3] == 'l' && t[n - 2] == 'e' && t[n - 1] == 't'
    &&& n == 3 || !ident_char(t[n - 4])
}

fn output_ends_with_let_keyword(out: &[char]) -> (yes: bool)
    ensures
        yes == ends_with_let(out@),
{
    let mut n: usize = out.len();
    assert(out@.take(n as int) =~= out@);
    while n > 0 && crate::text::is_whitespace(out[n - 1])
        invariant
            n <= out.len(),
            trim_end_of(out@) == trim_end_of(out@.take(n as int)),
        decreases n,
    {
        assert(out@.take(n as int).drop_last() =~= out@.take(n - 1));
        n -= 1;
    }
    assert(trim_end_of(out@) == out@.take(n as int));
    n >= 3 && out[n - 3] == 'l' && out[n - 2] == 'e' && out[n - 1] == 't' && (n == 3
        || !is_ident_char(out[n - 4]))
}

// -------------------------------------------------------------------- lexemes
/// What stands at a position of the source.
pub enum Lexeme {
    /// Something that cannot be read, with the reason.
    Fail { message: Seq<char> },
    /// Something rewritten on its own as `text`; reading goes on at `next`.
    Text { text: Seq<char>, next: int },
    /// A call `ns.method(..)` with its parentheses.
    Namespaced { ns: Seq<char>, method: Seq<char>, open: int, close: int },
    /// A call of a built-in function with its parentheses.
    BuiltinCall { kind: Builtin, open: int, close: int },
    /// The start `name =` of an assignment; its value starts at `next`.
    Assign { name: Seq<char>, next: int },
}

/// Why a conditional is refused.
pub const NO_CONDITIONAL: &'static str = "暂不支持的 Aviator 语法: 三元运算（请改写为 rhai 等价写法）";

/// Why a match is refused.
pub const NO_MATCH: &'static str = "暂不支持的 Aviator 语法: 正则匹配（请改写为 rhai 等价写法）";

/// Whether `=~` stands at position `i`.
pub open spec fn match_at(s: Seq<char>, i: int) -> bool {
    0 <= i && i + 1 < s.len() && s[i] == '=' && s[i + 1] == '~'
}

/// What stands at position `i`, where a word starts.
pub open spec fn word_lexeme(s: Seq<char>, i: int) -> Lexeme {
    let e = ident_end(s, i);
    let name = s.subrange(i, e);
    let j = ws_end(s, e);
    if (name == "string"@ || name == "seq"@) && j < s.len() && s[j] == '.' {
        let m = ident_end(s, j + 1);
        let k = ws_end(s, m);
        if k < s.len() && s[k] == '(' {
            match paren_close(s, k, 0) {
                Ok(close) => Lexeme::Namespaced {
                    ns: name,
                    method: s.subrange(j + 1, m),
                    open: k,
                    close,
                },
                Err(message) => Lexeme::Fail { message },
            }
        } else {
            Lexeme::Text { text: name + "."@, next: j + 1 }
        }
    } else if j < s.len() && s[j] == '(' && !keyword(name) {
        match builtin(name) {
            Some(kind) => match paren_close(s, j, 0) {
                Ok(close) => Lexeme::BuiltinCall { kind, open: j, close },
                Err(message) => Lexeme::Fail { message },
            },
            None => Lexeme::Text { text: name + "("@, next: j + 1 },
        }
    } else if match_at(s, j) {
        Lexeme::Fail { message: NO_MATCH@ }
    } else if j < s.len() && s[j] == '=' && (j + 1 >= s.len() || s[j + 1] != '=') {
        Lexeme::Assign { name, next: ws_end(s, j + 1) }
    } else if name == "nil"@ {
        Lexeme::Text { text: "()"@, next: e }
    } else {
        Lexeme::Text { text: name + s.subrange(e, j), next: j }
    }
}

/// What stands at position `i`.
pub open spec fn lexeme(s: Seq<char>, i: int) -> Lexeme {
    if s[i] == '#' {
        let body = hash_end(s, i);
        Lexeme::Text { text: "//"@ + s.subrange(body, line_end(s, body)), next: line_end(s, body) }
    } else if s[i] == '/' && i + 1 < s.len() && s[i + 1] == '*' {
        match block_close(s, i + 2) {
            Some(j) => Lexeme::Text { text: s.subrange(i, j + 2), next: j + 2 },
            None => Lexeme::Fail { message: "块注释未闭合"@ },
        }
    } else if s[i] == '\'' || s[i] == '"' {
        match literal_at(s, i) {
            Ok((text, next)) => Lexeme::Text { text, next },
            Err(message) => Lexeme::Fail { message },
        }
    } else if ident_start(s[i]) {
        word_lexeme(s, i)
    } else if s[i] == '?' {
        if i + 1 < s.len() && (s[i + 1] == '?' || s[i + 1] == '.') {
            Lexeme::Text { text: seq![s[i], s[i + 1]], next: i + 2 }
        } else {
            Lexeme::Fail { message: NO_CONDITIONAL@ }
        }
    } else if match_at(s, i) {
        Lexeme::Fail { message: NO_MATCH@ }
    } else {
        Lexeme::Text { text: seq![s[i]], next: i + 1 }
    }
}

/// Where reading goes on behind a lexeme.
pub open spec fn lexeme_next(lex: Lexeme) -> int {
    match lex {
        Lexeme::Fail { message } => 0,
        Lexeme::Text { text, next } => next,
        Lexeme::Namespaced { ns, method, open, close } => close + 1,
        Lexeme::BuiltinCall { kind, open, close } => close + 1,
        Lexeme::Assign { name, next } => next,
    }
}

pub proof fn lemma_word_lexeme(s: Seq<char>, i: int)
    requires
        0 <= i < s.len(),
        ident_start(s[i]),
    ensures
        word_lexeme(s, i) is Fail || i < lexeme_next(word_lexeme(s, i)) <= s.len(),
{
    lemma_ident_end(s, i + 1);
    let e = ident_end(s, i);
    lemma_ws_end(s, e);
    let j = ws_end(s, e);
    if j < s.len() {
        lemma_ident_end(s, j + 1);
        let m = ident_end(s, j + 1);
        lemma_ws_end(s, m);
        lemma_paren_close(s, ws_end(s, m), 0);
        lemma_paren_close(s, j, 0);
        lemma_ws_end(s, j + 1);
    }
}

/// Every lexeme takes at least one character and stays within the source.
pub proof fn lemma_lexeme(s: Seq<char>, i: int)
    requires
        0 <= i < s.len(),
    ensures
        lexeme(s, i) is Fail || i < lexeme_next(lexeme(s, i)) <= s.len(),
{
    lemma_hash_end(s, i);
    if s[i] == '#' {
        lemma_hash_end(s, i + 1);
    }
    lemma_line_end(s, hash_end(s, i));
    lemma_block_close(s, i + 2);
    lemma_literal_at(s, i);
    if ident_start(s[i]) {
        lemma_word_lexeme(s, i);
    }
}

// ----------------------------------------------------------------- translation
/// A translated text, or the reason there is none.
pub type Outcome = Result<Seq<char>, Seq<char>>;

/// The message for a call with a wrong number of arguments.
pub open spec fn count_message(name: Seq<char>, expected: nat, got: nat) -> Seq<char> {
    name + " 需要 "@ + decimal(expected) + " 个参数，实际 "@ + decimal(got)
}

/// The name of a built-in function in messages.
pub open spec fn builtin_name(kind: Builtin) -> Seq<char> {
    match kind {
        Builtin::IsBlank => "isBlank"@,
        Builtin::IsNotBlank => "isNotBlank"@,
        Builtin::ToLower => "toLowerCase"@,
        Builtin::ToUpper => "toUpperCase"@,
        Builtin::ToStr => "toString"@,
        Builtin::ToDouble => "double"@,
        Builtin::ToLong => "long"@,
        Builtin::ToInt => "int"@,
    }
}

/// The rhai call of a built-in function on the translated argument `a`.
pub open spec fn builtin_text(kind: Builtin, a: Seq<char>) -> Seq<char> {
    match kind {
        Builtin::IsBlank => "is_blank("@ + a + ")"@,
        Builtin::IsNotBlank => "is_not_blank("@ + a + ")"@,
        Builtin::ToLower => "("@ + a + ").to_lower()"@,
        Builtin::ToUpper => "("@ + a + ").to_upper()"@,
        Builtin::ToStr => "("@ + a + ").to_string()"@,
        Builtin::ToDouble => "av_double("@ + a + ")"@,
        Builtin::ToLong => "av_long("@ + a + ")"@,
        Builtin::ToInt => "av_long("@ + a + ")"@,
    }
}

/// The translation of the argument in the given range, without outer white space.
pub open spec fn arg_text(s: Seq<char>, range: (int, int)) -> Outcome
    decreases s.len(), 0int, 0int,
{
    if 0 <= range.0 <= range.1 < s.len() {
        match translate(s.subrange(range.0, range.1), 0, Seq::empty()) {
            Ok(text) => Ok(trim_of(text)),
            Err(e) => Err(e),
        }
    } else {
        Err(Seq::empty())
    }
}

/// The translations of the arguments from the `k`-th on, with `, ` between them.
pub open spec fn joined_args(s: Seq<char>, args: Seq<(int, int)>, k: int) -> Outcome
    decreases s.len(), 1int, args.len() - k,
{
    if k < 0 || k >= args.len() {
        Ok(Seq::empty())
    } else {
        match arg_text(s, args[k]) {
            Err(e) => Err(e),
            Ok(text) => if k + 1 == args.len() {
                Ok(text)
            } else {
                match joined_args(s, args, k + 1) {
                    Err(e) => Err(e),
                    Ok(rest) => Ok(text + ", "@ + rest),
                }
            },
        }
    }
}

/// The call as a method of its first argument: `(a0).method(a1, ..)`.
pub open spec fn method_call(
    s: Seq<char>,
    args: Seq<(int, int)>,
    method: Seq<char>,
    total: nat,
) -> Outcome
    decreases s.len(), 2int, 0int,
{
    if args.len() != total {
        Err(count_message(method, total, args.len()))
    } else {
        match arg_text(s, args[0]) {
            Err(e) => Err(e),
            Ok(receiver) => match joined_args(s, args, 1) {
                Err(e) => Err(e),
                Ok(rest) => Ok("("@ + receiver + ")."@ + method + "("@ + rest + ")"@),
            },
        }
    }
}

/// The translation of `string.substring`: rhai counts the length where Aviator gives the end.
pub open spec fn substring_call(s: Seq<char>, args: Seq<(int, int)>) -> Outcome
    decreases s.len(), 2int, 0int,
{
    if args.len() != 2 && args.len() != 3 {
        Err("string.substring 需要 2 或 3 个参数"@)
    } else {
        match arg_text(s, args[0]) {
            Err(e) => Err(e),
            Ok(text) => match arg_text(s, args[1]) {
                Err(e) => Err(e),
                Ok(begin) => if args.len() == 2 {
                    Ok("("@ + text + ").sub_string("@ + begin + ")"@)
                } else {
                    match arg_text(s, args[2]) {
                        Err(e) => Err(e),
                        Ok(end) => Ok(
                            "("@ + text + ").sub_string("@ + begin + ", ("@ + end + ")-("@ + begin
                                + "))"@,
                        ),
                    }
                },
            },
        }
    }
}

/// The translation of the call `ns.method(..)`.
pub open spec fn namespaced_call(
    s: Seq<char>,
    ns: Seq<char>,
    method: Seq<char>,
    args: Seq<(int, int)>,
) -> Outcome
    decreases s.len(), 3int, 0int,
{
    if ns == "string"@ && method == "contains"@ {
        method_call(s, args, "contains"@, 2)
    } else if ns == "string"@ && method == "startsWith"@ {
        method_call(s, args, "starts_with"@, 2)
    } else if ns == "string"@ && method == "endsWith"@ {
        method_call(s, args, "ends_with"@, 2)
    } else if ns == "string"@ && method == "indexOf"@ {
        method_call(s, args, "index_of"@, 2)
    } else if ns == "string"@ && method == "trim"@ {
        method_call(s, args, "trim"@, 1)
    } else if ns == "string"@ && method == "length"@ {
        method_call(s, args, "len"@, 1)
    } else if ns == "string"@ && method == "substring"@ {
        substring_call(s, args)
    } else if ns == "seq"@ && (method == "map"@ || method == "list"@) {
        match joined_args(s, args, 0) {
            Err(e) => Err(e),
            Ok(items) => Ok("["@ + items + "]"@),
        }
    } else if ns == "seq"@ && method == "keys"@ {
        if args.len() != 1 {
            Err(count_message("seq.keys"@, 1, args.len()))
        } else {
            match arg_text(s, args[0]) {
                Err(e) => Err(e),
                Ok(a) => Ok("av_keys("@ + a + ")"@),
            }
        }
    } else if ns == "seq"@ && method == "get"@ {
        if args.len() != 2 {
            Err(count_message("seq.get"@, 2, args.len()))
        } else {
            match joined_args(s, args, 0) {
                Err(e) => Err(e),
                Ok(both) => Ok("av_get("@ + both + ")"@),
            }
        }
    } else {
        Err("暂不支持的 Aviator 内建: "@ + ns + "."@ + method + "（请改写为 rhai 等价写法）"@)
    }
}

/// The translation of a call of a built-in function.
pub open spec fn builtin_call(s: Seq<char>, kind: Builtin, args: Seq<(int, int)>) -> Outcome
    decreases s.len(), 3int, 0int,
{
    if args.len() == 0 {
        Err("内建函数缺少参数"@)
    } else {
        match arg_text(s, args[0]) {
            Err(e) => Err(e),
            Ok(a) => if args.len() != 1 {
                Err(count_message(builtin_name(kind), 1, args.len()))
            } else {
                Ok(builtin_text(kind, a))
            },
        }
    }
}

/// What a lexeme adds to the output so far.
pub open spec fn emitted(s: Seq<char>, lex: Lexeme, out: Seq<char>) -> Outcome
    decreases s.len(), 4int, 0int,
{
    match lex {
        Lexeme::Fail { message } => Err(message),
        Lexeme::Text { text, next } => Ok(text),
        Lexeme::Namespaced { ns, method, open, close } => namespaced_call(
            s,
            ns,
            method,
            args_of(s, open, close),
        ),
        Lexeme::BuiltinCall { kind, open, close } => builtin_call(
            s,
            kind,
            args_of(s, open, close),
        ),
        Lexeme::Assign { name, next } => Ok(
            (if ends_with_let(out) {
                Seq::empty()
            } else {
                "let "@
            }) + name + " = "@,
        ),
    }
}

/// The translation of the source from position `i` on, behind the output so far.
pub open spec fn translate(s: Seq<char>, i: int, out: Seq<char>) -> Outcome
    decreases s.len(), 5int, s.len() - i,
{
    if i < 0 || i >= s.len() {
        Ok(out)
    } else {
        proof {
            lemma_lexeme(s, i);
        }
        match lexeme(s, i) {
            Lexeme::Fail { message } => Err(message),
            lex => match emitted(s, lex, out) {
                Err(e) => Err(e),
                Ok(text) => translate(s, lexeme_next(lex), out + text),
            },
        }
    }
}

/// The translation of a whole script.
pub open spec fn transpiled(source: Seq<char>) -> Outcome {
    translate(source, 0, Seq::empty())
}

/// Whether an executable result is the given outcome.
pub open spec fn is_outcome(r: Result<Vec<char>, String>, outcome: Outcome) -> bool {
    match outcome {
        Ok(text) => r matches Ok(t) && t@ == text,
        Err(message) => r matches Err(m) && m@ == message,
    }
}

/// Whether `out` grew by the text of the outcome, or its error was reported.
pub open spec fn is_appended(
    r: Result<(), String>,
    before: Seq<char>,
    after: Seq<char>,
    outcome: Outcome,
) -> bool {
    match outcome {
        Ok(text) => r is Ok && after == before + text,
        Err(message) => r matches Err(m) && m@ == message,
    }
}

fn count_error(name: &str, expected: usize, got: usize) -> (message: String)
    ensures
        message@ == count_message(name@, expected as nat, got as nat),
{
    let mut out: Vec<char> = Vec::new();
    push_text(&mut out, name);
    push_text(&mut out, " 需要 ");
    let e = u64_text(expected as u64);
    push_text(&mut out, e.as_str());
    push_text(&mut out, " 个参数，实际 ");
    let g = u64_text(got as u64);
    push_text(&mut out, g.as_str());
    assert(out@ =~= count_message(name@, expected as nat, got as nat));
    string_of(out.as_slice())
}

/// Checks the number of arguments of a call.
fn require_arg_count(name: &str, args: &[(usize, usize)], expected: usize) -> (r: Result<
    (),
    String,
>)
    ensures
        if args.len() == expected {
            r is Ok
        } else {
            r matches Err(m) && m@ == count_message(name@, expected as nat, args.len() as nat)
        },
{
    if args.len() != expected {
        return Err(count_error(name, expected, args.len()));
    }
    Ok(())
}

/// Translates the argument in the given range.
fn transpile_arg(chars: &[char], range: (usize, usize)) -> (r: Result<Vec<char>, String>)
    requires
        range.0 <= range.1 < chars.len(),
    ensures
        is_outcome(r, arg_text(chars@, (range.0 as int, range.1 as int))),
    decreases chars.len(), 0int, 0int,
{
    let mut raw: Vec<char> = Vec::new();
    push_range(&mut raw, chars, range.0, range.1);
    assert(raw@ =~= chars@.subrange(range.0 as int, range.1 as int));
    match transpile_chars(raw.as_slice()) {
        Ok(text) => Ok(trim_chars(text.as_slice())),
        Err(e) => Err(e),
    }
}

/// Translates the arguments from the `k`-th on and joins them with `, `.
fn join_args(chars: &[char], args: &[(usize, usize)], k: usize) -> (r: Result<Vec<char>, String>)
    requires
        proper_ranges(args@, chars.len() as int),
        k <= args.len(),
    ensures
        is_outcome(r, joined_args(chars@, ranges(args@), k as int)),
    decreases chars.len(), 1int, args.len() - k,
{
    if k >= args.len() {
        let out: Vec<char> = Vec::new();
        assert(out@ =~= Seq::empty());
        return Ok(out);
    }
    match transpile_arg(chars, args[k]) {
        Err(e) => Err(e),
        Ok(text) => {
            if k + 1 == args.len() {
                return Ok(text);
            }
            match join_args(chars, args, k + 1) {
                Err(e) => Err(e),
                Ok(rest) => {
                    let mut out = text;
                    push_text(&mut out, ", ");
                    push_range(&mut out, rest.as_slice(), 0, rest.len());
                    assert(rest@.subrange(0, rest.len() as int) =~= rest@);
                    Ok(out)
                },
            }
        },
    }
}

/// Appends a buffer to another.
fn push_chars(out: &mut Vec<char>, more: &Vec<char>)
    ensures
        final(out)@ == old(out)@ + more@,
{
    push_range(out, more.as_slice(), 0, more.len());
    assert(more@.subrange(0, more.len() as int) =~= more@);
}

/// Appends `(a0).method(a1, ..)` for a call with exactly `total_args` arguments.
fn emit_method_call(
    out: &mut Vec<char>,
    chars: &[char],
    args: &[(usize, usize)],
    method: &str,
    total_args: usize,
) -> (r: Result<(), String>)
    requires
        proper_ranges(args@, chars.len() as int),
        total_args >= 1,
    ensures
        is_appended(
            r,
            old(out)@,
            final(out)@,
            method_call(chars@, ranges(args@), method@, total_args as nat),
        ),
    decreases chars.len(), 2int, 0int,
{
    match require_arg_count(method, args, total_args) {
        Err(e) => {
            return Err(e);
        },
        Ok(_) => {},
    }
    let receiver = match transpile_arg(chars, args[0]) {
        Err(e) => {
            return Err(e);
        },
        Ok(text) => text,
    };
    let rest = match join_args(chars, args, 1) {
        Err(e) => {
            return Err(e);
        },
        Ok(text) => text,
    };
    let mut text = chars_of("(");
    push_chars(&mut text, &receiver);
    push_text(&mut text, ").");
    push_text(&mut text, method);
    push_text(&mut text, "(");
    push_chars(&mut text, &rest);
    push_text(&mut text, ")");
    push_chars(out, &text);
    Ok(())
}

/// Appends the rewritten `string.substring`.
fn emit_substring(out: &mut Vec<char>, chars: &[char], args: &[(usize, usize)]) -> (r: Result<
    (),
    String,
>)
    requires
        proper_ranges(args@, chars.len() as int),
    ensures
        is_appended(r, old(out)@, final(out)@, substring_call(chars@, ranges(args@))),
    decreases chars.len(), 2int, 0int,
{
    if args.len() != 2 && args.len() != 3 {
        return Err("string.substring 需要 2 或 3 个参数".to_string());
    }
    let a0 = match transpile_arg(chars, args[0]) {
        Err(e) => {
            return Err(e);
        },
        Ok(text) => text,
    };
    let a1 = match transpile_arg(chars, args[1]) {
        Err(e) => {
            return Err(e);
        },
        Ok(text) => text,
    };
    if args.len() == 2 {
        let mut text = chars_of("(");
        push_chars(&mut text, &a0);
        push_text(&mut text, ").sub_string(");
        push_chars(&mut text, &a1);
        push_text(&mut text, ")");
        push_chars(out, &text);
        return Ok(());
    }
    let a2 = match transpile_arg(chars, args[2]) {
        Err(e) => {
            return Err(e);
        },
        Ok(text) => text,
    };
    let mut text = chars_of("(");
    push_chars(&mut text, &a0);
    push_text(&mut text, ").sub_string(");
    push_chars(&mut text, &a1);
    push_text(&mut text, ", (");
    push_chars(&mut text, &a2);
    push_text(&mut text, ")-(");
    push_chars(&mut text, &a1);
    push_text(&mut text, "))");
    push_chars(out, &text);
    Ok(())
}

/// Appends `head`, the joined arguments and `tail`.
fn emit_wrapped(
    out: &mut Vec<char>,
    chars: &[char],
    args: &[(usize, usize)],
    head: &str,
    tail: &str,
) -> (r: Result<(), String>)
    requires
        proper_ranges(args@, chars.len() as int),
    ensures
        match joined_args(chars@, ranges(args@), 0) {
            Ok(items) => r is Ok && final(out)@ == old(out)@ + (head@ + items + tail@),
            Err(message) => r matches Err(m) && m@ == message,
        },
    decreases chars.len(), 2int, 0int,
{
    let ghost before = out@;
    match join_args(chars, args, 0) {
        Err(e) => Err(e),
        Ok(items) => {
            push_text(out, head);
            push_chars(out, &items);
            push_text(out, tail);
            assert(out@ =~= before + (head@ + items@ + tail@));
            Ok(())
        },
    }
}

/// Appends the rewritten call `ns.method(..)`.
fn emit_namespaced_call(
    out: &mut Vec<char>,
    chars: &[char],
    ns: &[char],
    method: &[char],
    args: &[(usize, usize)],
) -> (r: Result<(), String>)
    requires
        proper_ranges(args@, chars.len() as int),
    ensures
        is_appended(
            r,
            old(out)@,
            final(out)@,
            namespaced_call(chars@, ns@, method@, ranges(args@)),
        ),
    decreases chars.len(), 3int, 0int,
{
    let string_ns = spells(ns, "string");
    let seq_ns = spells(ns, "seq");
    if string_ns && spells(method, "contains") {
        emit_method_call(out, chars, args, "contains", 2)
    } else if string_ns && spells(method, "startsWith") {
        emit_method_call(out, chars, args, "starts_with", 2)
    } else if string_ns && spells(method, "endsWith") {
        emit_method_call(out, chars, args, "ends_with", 2)
    } else if string_ns && spells(method, "indexOf") {
        emit_method_call(out, chars, args, "index_of", 2)
    } else if string_ns && spells(method, "trim") {
        emit_method_call(out, chars, args, "trim", 1)
    } else if string_ns && spells(method, "length") {
        emit_method_call(out, chars, args, "len", 1)
    } else if string_ns && spells(method, "substring") {
        emit_substring(out, chars, args)
    } else if seq_ns && (spells(method, "map") || spells(method, "list")) {
        emit_wrapped(out, chars, args, "[", "]")
    } else if seq_ns && spells(method, "keys") {
        match require_arg_count("seq.keys", args, 1) {
            Err(e) => Err(e),
            Ok(_) => emit_wrapped(out, chars, args, "av_keys(", ")"),
        }
    } else if seq_ns && spells(method, "get") {
        match require_arg_count("seq.get", args, 2) {
            Err(e) => Err(e),
            Ok(_) => emit_wrapped(out, chars, args, "av_get(", ")"),
        }
    } else {
        let mut message: Vec<char> = Vec::new();
        push_text(&mut message, "暂不支持的 Aviator 内建: ");
        push_range(&mut message, ns, 0, ns.len());
        push_text(&mut message, ".");
        push_range(&mut message, method, 0, method.len());
        push_text(&mut message, "（请改写为 rhai 等价写法）");
        proof {
            assert(ns@.subrange(0, ns.len() as int) =~= ns@);
            assert(method@.subrange(0, method.len() as int) =~= method@);
            assert(message@ =~= "暂不支持的 Aviator 内建: "@ + ns@ + "."@ + method@
                + "（请改写为 rhai 等价写法）"@);
        }
        Err(string_of(message.as_slice()))
    }
}

fn builtin_label(kind: Builtin) -> (name: &'static str)
    ensures
        name@ == builtin_name(kind),
{
    match kind {
        Builtin::IsBlank => "isBlank",
        Builtin::IsNotBlank => "isNotBlank",
        Builtin::ToLower => "toLowerCase",
        Builtin::ToUpper => "toUpperCase",
        Builtin::ToStr => "toString",
        Builtin::ToDouble => "double",
        Builtin::ToLong => "long",
        Builtin::ToInt => "int",
    }
}

/// Appends the rewritten call of a built-in function.
fn emit_builtin_call(
    out: &mut Vec<char>,
    chars: &[char],
    kind: Builtin,
    args: &[(usize, usize)],
) -> (r: Result<(), String>)
    requires
        proper_ranges(args@, chars.len() as int),
    ensures
        is_appended(r, old(out)@, final(out)@, builtin_call(chars@, kind, ranges(args@))),
    decreases chars.len(), 3int, 0int,
{
    let ghost before = out@;
    if args.len() == 0 {
        return Err("内建函数缺少参数".to_string());
    }
    let a0 = match transpile_arg(chars, args[0]) {
        Err(e) => {
            return Err(e);
        },
        Ok(text) => text,
    };
    match require_arg_count(builtin_label(kind), args, 1) {
        Err(e) => {
            return Err(e);
        },
        Ok(_) => {},
    }
    let (head, tail) = match kind {
        Builtin::IsBlank => ("is_blank(", ")"),
        Builtin::IsNotBlank => ("is_not_blank(", ")"),
        Builtin::ToLower => ("(", ").to_lower()"),
        Builtin::ToUpper => ("(", ").to_upper()"),
        Builtin::ToStr => ("(", ").to_string()"),
        Builtin::ToDouble => ("av_double(", ")"),
        Builtin::ToLong => ("av_long(", ")"),
        Builtin::ToInt => ("av_long(", ")"),
    };
    push_text(out, head);
    push_chars(out, &a0);
    push_text(out, tail);
    assert(out@ =~= before + (head@ + a0@ + tail@));
    Ok(())
}

/// Whether the output grew by what the lexeme emits and reading goes on behind it.
pub open spec fn is_step(
    r: Result<usize, String>,
    s: Seq<char>,
    i: int,
    before: Seq<char>,
    after: Seq<char>,
) -> bool {
    match emitted(s, lexeme(s, i), before) {
        Ok(text) => r matches Ok(next) && next == lexeme_next(lexeme(s, i)) && after == before
            + text,
        Err(message) => r matches Err(m) && m@ == message,
    }
}

/// Rewrites the word at `i` and what belongs to it.
fn transpile_word(out: &mut Vec<char>, chars: &[char], i: usize) -> (r: Result<usize, String>)
    requires
        i < chars.len(),
        ident_start(chars@[i as int]),
    ensures
        is_step(r, chars@, i as int, old(out)@, final(out)@),
    decreases chars.len(), 4int, 0int,
{
    let ghost before = out@;
    let ghost s = chars@;
    let n = chars.len();
    let e = skip_ident(chars, i);
    let mut ident: Vec<char> = Vec::new();
    push_range(&mut ident, chars, i, e);
    assert(ident@ =~= s.subrange(i as int, e as int));
    let j = skip_whitespace(chars, e);
    if (spells(ident.as_slice(), "string") || spells(ident.as_slice(), "seq")) && j < n && chars[j]
        == '.' {
        let m = skip_ident(chars, j + 1);
        let k = skip_whitespace(chars, m);
        if k < n && chars[k] == '(' {
            let mut method: Vec<char> = Vec::new();
            push_range(&mut method, chars, j + 1, m);
            assert(method@ =~= s.subrange(j + 1, m as int));
            let close = match find_matching_paren(chars, k) {
                Err(message) => {
                    return Err(message);
                },
                Ok(close) => close,
            };
            let args = split_args(chars, k, close);
            return match emit_namespaced_call(
                out,
                chars,
                ident.as_slice(),
                method.as_slice(),
                args.as_slice(),
            ) {
                Err(message) => Err(message),
                Ok(_) => Ok(close + 1),
            };
        }
        push_chars(out, &ident);
        push_text(out, ".");
        assert(out@ =~= before + (ident@ + "."@));
        return Ok(j + 1);
    }
    if j < n && chars[j] == '(' && !is_keyword(ident.as_slice()) {
        if let Some(kind) = builtin_kind(ident.as_slice()) {
            let close = match find_matching_paren(chars, j) {
                Err(message) => {
                    return Err(message);
                },
                Ok(close) => close,
            };
            let args = split_args(chars, j, close);
            return match emit_builtin_call(out, chars, kind, args.as_slice()) {
                Err(message) => Err(message),
                Ok(_) => Ok(close + 1),
            };
        }
        push_chars(out, &ident);
        push_text(out, "(");
        assert(out@ =~= before + (ident@ + "("@));
        return Ok(j + 1);
    }
    if j < n && chars[j] == '=' && j + 1 < n && chars[j + 1] == '~' {
        return Err(NO_MATCH.to_string());
    }
    if j < n && chars[j] == '=' && (j + 1 >= n || chars[j + 1] != '=') {
        if !output_ends_with_let_keyword(out.as_slice()) {
            push_text(out, "let ");
        }
        push_chars(out, &ident);
        push_text(out, " = ");
        assert(out@ =~= before + ((if ends_with_let(before) {
            Seq::empty()
        } else {
            "let "@
        }) + ident@ + " = "@));
        return Ok(skip_whitespace(chars, j + 1));
    }
    if spells(ident.as_slice(), "nil") {
        push_text(out, "()");
        return Ok(e);
    }
    push_chars(out, &ident);
    push_range(out, chars, e, j);
    assert(out@ =~= before + (ident@ + s.subrange(e as int, j as int)));
    Ok(j)
}

/// Rewrites the lexeme at `i`.
fn transpile_lexeme(out: &mut Vec<char>, chars: &[char], i: usize) -> (r: Result<usize, String>)
    requires
        i < chars.len(),
    ensures
        is_step(r, chars@, i as int, old(out)@, final(out)@),
    decreases chars.len(), 5int, 0int,
{
    let ghost before = out@;
    let ghost s = chars@;
    let c = chars[i];
    if c == '#' {
        let body = skip_hashes(chars, i);
        let end = skip_line(chars, body);
        push_text(out, "//");
        push_range(out, chars, body, end);
        assert(out@ =~= before + ("//"@ + s.subrange(body as int, end as int)));
        return Ok(end);
    }
    if c == '/' && i + 1 < chars.len() && chars[i + 1] == '*' {
        return match find_block_close(chars, i + 2) {
            None => Err("块注释未闭合".to_string()),
            Some(j) => {
                push_range(out, chars, i, j + 2);
                Ok(j + 2)
            },
        };
    }
    if c == '\'' || c == '"' {
        return match read_string(chars, i) {
            Err(message) => Err(message),
            Ok((text, next)) => {
                push_chars(out, &text);
                Ok(next)
            },
        };
    }
    if is_ident_start(c) {
        return transpile_word(out, chars, i);
    }
    if c == '?' {
        if i + 1 < chars.len() && (chars[i + 1] == '?' || chars[i + 1] == '.') {
            out.push(c);
            out.push(chars[i + 1]);
            assert(out@ =~= before + seq![c, chars@[i + 1]]);
            return Ok(i + 2);
        }
        return Err(NO_CONDITIONAL.to_string());
    }
    if c == '=' && i + 1 < chars.len() && chars[i + 1] == '~' {
        return Err(NO_MATCH.to_string());
    }
    out.push(c);
    assert(out@ =~= before + seq![c]);
    Ok(i + 1)
}

fn transpile_chars(chars: &[char]) -> (r: Result<Vec<char>, String>)
    ensures
        is_outcome(r, transpiled(chars@)),
    decreases chars.len(), 6int, 0int,
{
    let mut out: Vec<char> = Vec::new();
    let mut i: usize = 0;
    assert(out@ =~= Seq::empty());
    while i < chars.len()
        invariant
            i <= chars.len(),
            transpiled(chars@) == translate(chars@, i as int, out@),
        decreases chars.len() - i,
    {
        proof {
            lemma_lexeme(chars@, i as int);
        }
        match transpile_lexeme(&mut out, chars, i) {
            Err(message) => {
                return Err(message);
            },
            Ok(next) => {
                i = next;
            },
        }
    }
    Ok(out)
}

/// Rewrites AviatorScript source into rhai source, or gives the reason why that cannot be done.
pub fn transpile(source: &str) -> (r: Result<String, String>)
    ensures
        match transpiled(source@) {
            Ok(text) => r matches Ok(t) && t@ == text,
            Err(message) => r matches Err(m) && m@ == message,
        },
{
    let chars = chars_of(source);
    match transpile_chars(chars.as_slice()) {
        Ok(out) => Ok(string_of(out.as_slice())),
        Err(message) => Err(message),
    }
}

// -------------------------------------------------------------------- metadata
/// Whether `s` starts with `prefix`.
pub open spec fn starts_with(s: Seq<char>, prefix: Seq<char>) -> bool {
    s.len() >= prefix.len() && s.take(prefix.len() as int) == prefix
}

/// A script's display name and whether its results may be cached.
pub type Header = (Seq<char>, bool);

/// The header after one more line: a line of `#`, an `@` and a field name sets that field.
pub open spec fn header_line(line: Seq<char>, header: Header) -> Header {
    let t = trim_start_of(line);
    if t.len() > 0 && t[0] == '#' {
        let rest = trim_of(t.skip(hash_end(t, 0)));
        if rest.len() > 0 && rest[0] == '@' {
            let body = trim_of(rest.skip(1));
            if starts_with(body, "NAME"@) {
                (trim_of(body.skip("NAME"@.len() as int)), header.1)
            } else if starts_with(body, "CACHEABLE"@) {
                (header.0, trim_of(body.skip("CACHEABLE"@.len() as int)) != "false"@)
            } else {
                header
            }
        } else {
            header
        }
    } else {
        header
    }
}

/// The header after the lines from position `i` on.
pub open spec fn header_from(s: Seq<char>, i: int, header: Header) -> Header
    decreases s.len() + 1 - i,
{
    if i < 0 || i >= s.len() {
        header
    } else {
        proof {
            lemma_line_end(s, i);
        }
        header_from(s, line_end(s, i) + 1, header_line(s.subrange(i, line_end(s, i)), header))
    }
}

/// `text` without its first `prefix` characters, if it starts with them.
fn strip_prefix(text: &[char], prefix: &str) -> (r: Option<Vec<char>>)
    ensures
        match r {
            Some(rest) => starts_with(text@, prefix@) && rest@ == text@.skip(prefix@.len() as int),
            None => !starts_with(text@, prefix@),
        },
{
    let p = chars_of(prefix);
    if text.len() < p.len() {
        return None;
    }
    let mut head: Vec<char> = Vec::new();
    push_range(&mut head, text, 0, p.len());
    assert(head@ =~= text@.take(prefix@.len() as int));
    if !spells(head.as_slice(), prefix) {
        return None;
    }
    let mut rest: Vec<char> = Vec::new();
    push_range(&mut rest, text, p.len(), text.len());
    assert(rest@ =~= text@.skip(prefix@.len() as int));
    Some(rest)
}

/// Reads one line of the header into the name and the cacheable flag.
fn read_header_line(line: &[char], name: &mut Vec<char>, cacheable: &mut bool)
    ensures
        (final(name)@, *final(cacheable)) == header_line(line@, (old(name)@, *old(cacheable))),
{
    let start = skip_whitespace(line, 0);
    let mut t: Vec<char> = Vec::new();
    push_range(&mut t, line, start, line.len());
    assert(t@ =~= trim_start_of(line@));
    if t.len() == 0 || t[0] != '#' {
        return;
    }
    let h = skip_hashes(t.as_slice(), 0);
    let mut behind: Vec<char> = Vec::new();
    push_range(&mut behind, t.as_slice(), h, t.len());
    assert(behind@ =~= t@.skip(hash_end(t@, 0)));
    let rest = trim_chars(behind.as_slice());
    if rest.len() == 0 || rest[0] != '@' {
        return;
    }
    let mut field: Vec<char> = Vec::new();
    push_range(&mut field, rest.as_slice(), 1, rest.len());
    assert(field@ =~= rest@.skip(1));
    let body = trim_chars(field.as_slice());
    if let Some(value) = strip_prefix(body.as_slice(), "NAME") {
        *name = trim_chars(value.as_slice());
    } else if let Some(value) = strip_prefix(body.as_slice(), "CACHEABLE") {
        let flag = trim_chars(value.as_slice());
        *cacheable = !spells(flag.as_slice(), "false");
    }
}

/// Reads a script's header: the display name (`@NAME`) and whether results may be cached
/// (`@CACHEABLE`, true unless it says `false`).
pub fn parse_metadata(source: &str) -> (r: (String, bool))
    ensures
        (r.0@, r.1) == header_from(source@, 0, (Seq::empty(), true)),
{
    let chars = chars_of(source);
    let mut name: Vec<char> = Vec::new();
    let mut cacheable = true;
    let mut i: usize = 0;
    assert(name@ =~= Seq::empty());
    while i < chars.len()
        invariant
            chars@ == source@,
            i <= chars.len(),
            header_from(source@, 0, (Seq::empty(), true)) == header_from(
                source@,
                i as int,
                (name@, cacheable),
            ),
        decreases chars.len() - i,
    {
        let ghost before = (name@, cacheable);
        let end = skip_line(chars.as_slice(), i);
        let mut line: Vec<char> = Vec::new();
        push_range(&mut line, chars.as_slice(), i, end);
        assert(line@ =~= source@.subrange(i as int, end as int));
        read_header_line(line.as_slice(), &mut name, &mut cacheable);
        proof {
            let after = (name@, cacheable);
            assert(after == header_line(line@, before));
            assert(header_from(source@, i as int, before) == header_from(source@, end + 1, after));
            assert(end == source@.len() ==> header_from(source@, end + 1, after) == after);
            assert(end == source@.len() ==> header_from(source@, end as int, after) == after);
        }
        i = if end < chars.len() {
            end + 1
        } else {
            end
        };
    }
    (string_of(name.as_slice()), cacheable)
}

// ------------------------------------------------------------------------ laws
proof fn lemma_literal_rest_stable(s: Seq<char>, i: int, quote: char, head: Seq<char>)
    requires
        0 <= i,
        quote == '\'' || quote == '"',
        literal_rest(s, i, quote) is Ok,
    ensures
        ({
            let text = literal_rest(s, i, quote)->Ok_0.0;
            literal_rest(head + text, head.len() as int, '"') == Ok::<(Seq<char>, int), Seq<char>>(
                (text, (head + text).len() as int),
            )
        }),
    decreases s.len() - i,
{
    let text = literal_rest(s, i, quote)->Ok_0.0;
    let all = head + text;
    let n = head.len() as int;
    if s[i] == '\\' && i + 1 < s.len() {
        let e = escape(s[i + 1]);
        lemma_literal_rest(s, i + 2, quote);
        lemma_literal_rest_stable(s, i + 2, quote, head + e);
        let rest = literal_rest(s, i + 2, quote)->Ok_0.0;
        assert(all =~= (head + e) + rest);
        assert(all[n] == e[0]);
        if s[i + 1] != '\'' {
            assert(all[n + 1] == e[1]);
        }
    } else if s[i] == quote {
        assert(all[n] == '"');
    } else if s[i] == '"' && quote == '\'' {
        let e = seq!['\\', '"'];
        lemma_literal_rest(s, i + 1, quote);
        lemma_literal_rest_stable(s, i + 1, quote, head + e);
        let rest = literal_rest(s, i + 1, quote)->Ok_0.0;
        assert(all =~= (head + e) + rest);
        assert(all[n] == '\\' && all[n + 1] == '"');
        assert(escape('"') =~= e);
    } else {
        let e = seq![s[i]];
        lemma_literal_rest(s, i + 1, quote);
        lemma_literal_rest_stable(s, i + 1, quote, head + e);
        let rest = literal_rest(s, i + 1, quote)->Ok_0.0;
        assert(all =~= (head + e) + rest);
        assert(all[n] == s[i]);
    }
}

/// A translated string literal is one well-formed double-quoted literal that translates to itself:
/// the translation reads it to its very end and changes nothing.
pub proof fn translated_literal_is_stable(s: Seq<char>, start: int)
    requires
        0 <= start < s.len(),
        s[start] == '\'' || s[start] == '"',
        literal_at(s, start) is Ok,
    ensures
        ({
            let text = literal_at(s, start)->Ok_0.0;
            &&& text.len() >= 2 && text[0] == '"' && text.last() == '"'
            &&& transpiled(text) == Ok::<Seq<char>, Seq<char>>(text)
        }),
{
    let rest = literal_rest(s, start + 1, s[start])->Ok_0.0;
    let text = literal_at(s, start)->Ok_0.0;
    lemma_literal_rest(s, start + 1, s[start]);
    lemma_literal_rest_stable(s, start + 1, s[start], seq!['"']);
    lemma_literal_rest_ends(s, start + 1, s[start]);
    assert(text =~= seq!['"'] + rest);
    assert(text.last() == rest.last());
    assert(literal_at(text, 0) == Ok::<(Seq<char>, int), Seq<char>>((text, text.len() as int)));
    assert(lexeme(text, 0) == (Lexeme::Text { text, next: text.len() as int }));
    assert(Seq::<char>::empty() + text =~= text);
    reveal_with_fuel(translate, 2);
}

proof fn lemma_literal_rest_ends(s: Seq<char>, i: int, quote: char)
    requires
        0 <= i,
        literal_rest(s, i, quote) is Ok,
    ensures
        literal_rest(s, i, quote)->Ok_0.0.len() > 0,
        literal_rest(s, i, quote)->Ok_0.0.last() == '"',
    decreases s.len() - i,
{
    if s[i] == '\\' && i + 1 < s.len() {
        lemma_literal_rest_ends(s, i + 2, quote);
    } else if s[i] != quote {
        lemma_literal_rest_ends(s, i + 1, quote);
    }
}

/// Whether position `i` lies within a word that starts before it.
pub open spec fn in_word(s: Seq<char>, i: int) -> bool
    decreases i,
{
    0 < i <= s.len() && ident_char(s[i - 1]) && (ident_start(s[i - 1]) || in_word(s, i - 1))
}

/// Whether the word that starts at position `i` stands for itself: it is not `nil`, selects no
/// built-in function of `string` or `seq`, is not called unless it is a keyword, and nothing is
/// assigned to it.
pub open spec fn plain_word(s: Seq<char>, i: int) -> bool {
    let e = ident_end(s, i);
    let name = s.subrange(i, e);
    let j = ws_end(s, e);
    &&& name != "nil"@
    &&& (name == "string"@ || name == "seq"@) ==> !(j < s.len() && s[j] == '.')
    &&& j < s.len() && s[j] == '(' ==> keyword(name)
    &&& j < s.len() && s[j] == '=' ==> j + 1 < s.len() && s[j + 1] == '='
}

/// Whether position `i` starts nothing that is rewritten or refused: no comment, no string, no match,
/// no question mark but that of `?.`, and no word that does not stand for itself.
pub open spec fn inert_at(s: Seq<char>, i: int) -> bool {
    &&& s[i] != '#' && s[i] != '\'' && s[i] != '"'
    &&& !(s[i] == '/' && i + 1 < s.len() && s[i + 1] == '*')
    &&& s[i] == '?' ==> i + 1 < s.len() && s[i + 1] == '.'
    &&& !match_at(s, i)
    &&& ident_start(s[i]) && !in_word(s, i) ==> plain_word(s, i)
}

proof fn lemma_ident_end_stops(s: Seq<char>, i: int)
    requires
        0 <= i <= s.len(),
    ensures
        i <= ident_end(s, i) <= s.len(),
        ident_end(s, i) < s.len() ==> !ident_char(s[ident_end(s, i)]),
    decreases s.len() - i,
{
    if i < s.len() && ident_char(s[i]) {
        lemma_ident_end_stops(s, i + 1);
    }
}

proof fn lemma_inert_from(s: Seq<char>, i: int)
    requires
        0 <= i <= s.len(),
        i < s.len() && ident_char(s[i]) ==> !in_word(s, i),
        forall|k: int| 0 <= k < s.len() ==> inert_at(s, k),
    ensures
        translate(s, i, s.take(i)) == Ok::<Seq<char>, Seq<char>>(s),
    decreases s.len() - i,
{
    if i < s.len() {
        assert(inert_at(s, i));
        if ident_start(s[i]) {
            let e = ident_end(s, i);
            let j = ws_end(s, e);
            lemma_ident_end_stops(s, i);
            lemma_ws_end(s, e);
            assert(i < e) by {
                lemma_ident_end_stops(s, i + 1);
            }
            assert(match_at(s, j) ==> !inert_at(s, j));
            assert(s.subrange(i, e) + s.subrange(e, j) =~= s.subrange(i, j));
            assert(lexeme(s, i) == (Lexeme::Text { text: s.subrange(i, j), next: j }));
            assert(emitted(s, lexeme(s, i), s.take(i)) == Ok::<Seq<char>, Seq<char>>(
                s.subrange(i, j),
            ));
            assert(s.take(i) + s.subrange(i, j) =~= s.take(j));
            if j > e {
                assert(is_ws(s[j - 1]));
                assert(!ident_char(s[j - 1]));
            }
            lemma_inert_from(s, j);
        } else if s[i] == '?' {
            assert(lexeme(s, i) == (Lexeme::Text { text: seq![s[i], s[i + 1]], next: i + 2 }));
            assert(emitted(s, lexeme(s, i), s.take(i)) == Ok::<Seq<char>, Seq<char>>(
                seq![s[i], s[i + 1]],
            ));
            assert(s.take(i) + seq![s[i], s[i + 1]] =~= s.take(i + 2));
            lemma_inert_from(s, i + 2);
        } else {
            assert(s.take(i) + seq![s[i]] =~= s.take(i + 1));
            assert(emitted(s, lexeme(s, i), s.take(i)) == Ok::<Seq<char>, Seq<char>>(seq![s[i]]));
            lemma_inert_from(s, i + 1);
        }
    } else {
        assert(s.take(i) =~= s);
    }
}

/// Source in which nothing starts that is rewritten or refused stays as it is.
pub proof fn inert_source_is_unchanged(s: Seq<char>)
    requires
        forall|k: int| 0 <= k < s.len() ==> inert_at(s, k),
    ensures
        transpiled(s) == Ok::<Seq<char>, Seq<char>>(s),
{
    assert(s.take(0) =~= Seq::empty());
    lemma_inert_from(s, 0);
}

proof fn lemma_line_end_none(s: Seq<char>, i: int)
    requires
        0 <= i <= s.len(),
        forall|k: int| i <= k < s.len() ==> #[trigger] s[k] != '\n',
    ensures
        line_end(s, i) == s.len(),
    decreases s.len() - i,
{
    if i < s.len() {
        lemma_line_end_none(s, i + 1);
    }
}

/// A `#` comment becomes a `//` comment with the same text, whatever the text holds.
pub proof fn hash_comment_becomes_line_comment(body: Seq<char>)
    requires
        forall|k: int| 0 <= k < body.len() ==> #[trigger] body[k] != '\n',
        body.len() > 0 ==> body[0] != '#',
    ensures
        transpiled(seq!['#'] + body) == Ok::<Seq<char>, Seq<char>>("//"@ + body),
{
    let s = seq!['#'] + body;
    reveal_with_fuel(hash_end, 3);
    assert(hash_end(s, 0) == 1);
    lemma_line_end_none(s, 1);
    assert(s.subrange(1, s.len() as int) =~= body);
    assert(Seq::<char>::empty() + ("//"@ + body) =~= "//"@ + body);
    reveal_with_fuel(translate, 2);
}

// ------------------------------------------------------------------ calls as texts
/// Whether a text is an argument that stands for itself: nothing in it is rewritten, refused or cuts
/// arguments, and it has no white space around it.
#[verifier::opaque]
pub open spec fn simple_arg(a: Seq<char>) -> bool {
    &&& a.len() > 0
    &&& !is_ws(a[0]) && !is_ws(a.last())
    &&& forall|k: int| 0 <= k < a.len() ==> inert_at(a, k)
    &&& forall|k: int| 0 <= k < a.len() ==> no_cut(#[trigger] a[k])
}

/// Whether a character neither opens nor closes brackets nor separates arguments.
pub open spec fn no_cut(c: char) -> bool {
    c != '(' && c != ')' && c != '[' && c != ']' && c != '{' && c != '}' && c != ',' && c != '#'
        && c != '\'' && c != '"'
}

proof fn lemma_simple_arg(s: Seq<char>, from: int, to: int)
    requires
        0 <= from <= to < s.len(),
        simple_arg(s.subrange(from, to)),
    ensures
        arg_text(s, (from, to)) == Ok::<Seq<char>, Seq<char>>(s.subrange(from, to)),
        nonblank_range(s, from, to) == seq![(from, to)],
{
    reveal(simple_arg);
    let a = s.subrange(from, to);
    inert_source_is_unchanged(a);
    lemma_ws_end(a, 0);
    assert(ws_end(a, 0) == 0);
    assert(a.skip(0) =~= a);
    assert(trim_start_of(a) == a);
    assert(trim_end_of(a) == a);
    assert(!is_ws(a[0]));
    assert(!blank(a));
}

proof fn lemma_paren_run(s: Seq<char>, i: int, close: int)
    requires
        0 <= i <= close < s.len(),
        forall|k: int| i <= k < close ==> no_cut(#[trigger] s[k]) || s[k] == ',',
        s[close] == ')',
    ensures
        paren_close(s, i, 1) == Ok::<int, Seq<char>>(close),
    decreases close - i,
{
    if i < close {
        assert(no_cut(s[i]) || s[i] == ',');
        lemma_paren_run(s, i + 1, close);
    }
}

proof fn lemma_args_run(s: Seq<char>, i: int, to: int, close: int, start: int)
    requires
        0 <= i <= to <= close <= s.len(),
        forall|k: int| i <= k < to ==> no_cut(#[trigger] s[k]),
    ensures
        args_from(s, i, close, start, 0) == args_from(s, to, close, start, 0),
    decreases to - i,
{
    if i < to {
        assert(no_cut(s[i]));
        lemma_args_run(s, i + 1, to, close, start);
    }
}

proof fn lemma_ident_run(s: Seq<char>, i: int, e: int)
    requires
        0 <= i <= e < s.len(),
        forall|k: int| i <= k < e ==> ident_char(#[trigger] s[k]),
        !ident_char(s[e]),
    ensures
        ident_end(s, i) == e,
    decreases e - i,
{
    if i < e {
        assert(ident_char(s[i]));
        lemma_ident_run(s, i + 1, e);
    }
}

/// One argument between parentheses.
proof fn lemma_one_arg(s: Seq<char>, open: int, a: Seq<char>)
    requires
        0 <= open,
        s.len() == open + a.len() + 2,
        s[open] == '(',
        s[s.len() - 1] == ')',
        s.subrange(open + 1, s.len() - 1) == a,
        simple_arg(a),
    ensures
        paren_close(s, open, 0) == Ok::<int, Seq<char>>(s.len() - 1),
        args_of(s, open, s.len() - 1) == seq![(open + 1, s.len() - 1)],
        arg_is(s, (open + 1, s.len() - 1), a),
{
    reveal(simple_arg);
    reveal(arg_is);
    let close = s.len() - 1;
    assert forall|k: int| open < k < close implies no_cut(#[trigger] s[k]) by {
        assert(a[k - open - 1] == s[k]);
    }
    lemma_paren_run(s, open + 1, close);
    assert(paren_close(s, open, 0) == paren_close(s, open + 1, 1));
    lemma_args_run(s, open + 1, close, close, open + 1);
    lemma_simple_arg(s, open + 1, close);
}

/// Two arguments between parentheses.
proof fn lemma_two_args(s: Seq<char>, open: int, a: Seq<char>, b: Seq<char>)
    requires
        0 <= open,
        s.len() == open + a.len() + b.len() + 3,
        s[open] == '(',
        s[s.len() - 1] == ')',
        s.subrange(open + 1, open + 1 + a.len()) == a,
        s[open + 1 + a.len()] == ',',
        s.subrange(open + 2 + a.len(), s.len() - 1) == b,
        simple_arg(a),
        simple_arg(b),
    ensures
        ({
            let cut = open + 1 + a.len();
            let close = s.len() - 1;
            &&& paren_close(s, open, 0) == Ok::<int, Seq<char>>(close)
            &&& args_of(s, open, close) == seq![(open + 1, cut), (cut + 1, close)]
            &&& arg_is(s, (open + 1, cut), a)
            &&& arg_is(s, (cut + 1, close), b)
        }),
{
    reveal(simple_arg);
    reveal(arg_is);
    let close = s.len() - 1;
    let cut = open + 1 + a.len();
    assert forall|k: int| open < k < cut implies no_cut(#[trigger] s[k]) by {
        assert(a[k - open - 1] == s[k]);
    }
    assert forall|k: int| cut < k < close implies no_cut(#[trigger] s[k]) by {
        assert(b[k - cut - 1] == s[k]);
    }
    lemma_paren_run(s, open + 1, close);
    assert(paren_close(s, open, 0) == paren_close(s, open + 1, 1));
    lemma_args_run(s, open + 1, cut, close, open + 1);
    lemma_args_run(s, cut + 1, close, close, cut + 1);
    lemma_simple_arg(s, open + 1, cut);
    lemma_simple_arg(s, cut + 1, close);
    assert(args_from(s, cut, close, open + 1, 0) == nonblank_range(s, open + 1, cut) + args_from(
        s,
        cut + 1,
        close,
        cut + 1,
        0,
    ));
    assert(seq![(open + 1, cut)] + seq![(cut + 1, close)] =~= seq![
        (open + 1, cut),
        (cut + 1, close),
    ]);
}

/// Three arguments between parentheses.
#[verifier::spinoff_prover]
#[verifier::rlimit(40)]
proof fn lemma_three_args(s: Seq<char>, open: int, a: Seq<char>, b: Seq<char>, c: Seq<char>)
    requires
        0 <= open,
        s.len() == open + a.len() + b.len() + c.len() + 4,
        s[open] == '(',
        s[s.len() - 1] == ')',
        s.subrange(open + 1, open + 1 + a.len()) == a,
        s[open + 1 + a.len()] == ',',
        s.subrange(open + 2 + a.len(), open + 2 + a.len() + b.len()) == b,
        s[open + 2 + a.len() + b.len()] == ',',
        s.subrange(open + 3 + a.len() + b.len(), s.len() - 1) == c,
        simple_arg(a),
        simple_arg(b),
        simple_arg(c),
    ensures
        ({
            let one = open + 1 + a.len();
            let two = one + 1 + b.len();
            let close = s.len() - 1;
            &&& paren_close(s, open, 0) == Ok::<int, Seq<char>>(close)
            &&& args_of(s, open, close) == seq![(open + 1, one), (one + 1, two), (two + 1, close)]
            &&& arg_is(s, (open + 1, one), a)
            &&& arg_is(s, (one + 1, two), b)
            &&& arg_is(s, (two + 1, close), c)
        }),
{
    reveal(simple_arg);
    reveal(arg_is);
    let close = s.len() - 1;
    let one = open + 1 + a.len();
    let two = one + 1 + b.len();
    assert forall|k: int| open < k < one implies no_cut(#[trigger] s[k]) by {
        assert(a[k - open - 1] == s[k]);
    }
    assert forall|k: int| one < k < two implies no_cut(#[trigger] s[k]) by {
        assert(b[k - one - 1] == s[k]);
    }
    assert forall|k: int| two < k < close implies no_cut(#[trigger] s[k]) by {
        assert(c[k - two - 1] == s[k]);
    }
    lemma_paren_run(s, open + 1, close);
    assert(paren_close(s, open, 0) == paren_close(s, open + 1, 1));
    lemma_args_run(s, open + 1, one, close, open + 1);
    lemma_args_run(s, one + 1, two, close, one + 1);
    lemma_args_run(s, two + 1, close, close, two + 1);
    lemma_simple_arg(s, open + 1, one);
    lemma_simple_arg(s, one + 1, two);
    lemma_simple_arg(s, two + 1, close);
    assert(args_from(s, one, close, open + 1, 0) == nonblank_range(s, open + 1, one) + args_from(
        s,
        one + 1,
        close,
        one + 1,
        0,
    ));
    assert(args_from(s, two, close, one + 1, 0) == nonblank_range(s, one + 1, two) + args_from(
        s,
        two + 1,
        close,
        two + 1,
        0,
    ));
    assert(seq![(open + 1, one)] + (seq![(one + 1, two)] + seq![(two + 1, close)]) =~= seq![
        (open + 1, one),
        (one + 1, two),
        (two + 1, close),
    ]);
}

/// Whether a source is translated as one call in a namespace.
#[verifier::opaque]
spec fn reads_as(s: Seq<char>, ns: Seq<char>, method: Seq<char>, args: Seq<(int, int)>) -> bool {
    transpiled(s) == namespaced_call(s, ns, method, args)
}

/// Whether an argument is translated to a text.
#[verifier::opaque]
spec fn arg_is(s: Seq<char>, range: (int, int), a: Seq<char>) -> bool {
    arg_text(s, range) == Ok::<Seq<char>, Seq<char>>(a)
}

/// Whether a call in a namespace is translated to a text.
#[verifier::opaque]
spec fn call_is(
    s: Seq<char>,
    ns: Seq<char>,
    method: Seq<char>,
    args: Seq<(int, int)>,
    out: Seq<char>,
) -> bool {
    namespaced_call(s, ns, method, args) == Ok::<Seq<char>, Seq<char>>(out)
}

proof fn lemma_reads_and_calls(
    s: Seq<char>,
    ns: Seq<char>,
    method: Seq<char>,
    args: Seq<(int, int)>,
    out: Seq<char>,
)
    requires
        reads_as(s, ns, method, args),
        call_is(s, ns, method, args, out),
    ensures
        transpiled(s) == Ok::<Seq<char>, Seq<char>>(out),
{
    reveal(reads_as);
    reveal(call_is);
}

/// What stands before the parentheses of a call in a namespace.
proof fn lemma_namespaced(s: Seq<char>, ns: Seq<char>, method: Seq<char>)
    requires
        ns == "string"@ || ns == "seq"@,
        method.len() > 0,
        forall|k: int| 0 <= k < method.len() ==> ident_char(#[trigger] method[k]),
        s.len() > 1int + ns.len() + method.len(),
        s.take(ns.len() as int) == ns,
        s[ns.len() as int] == '.',
        s.subrange(1int + ns.len(), 1int + ns.len() + method.len()) == method,
        s[1int + ns.len() + method.len()] == '(',
        paren_close(s, 1int + ns.len() + method.len(), 0) == Ok::<int, Seq<char>>(s.len() - 1),
    ensures
        reads_as(
            s,
            ns,
            method,
            args_of(s, 1int + ns.len() + method.len(), s.len() - 1),
        ),
{
    reveal(reads_as);
    reveal_strlit("string");
    reveal_strlit("seq");
    let n = ns.len() as int;
    let m = n + 1 + method.len();
    assert forall|k: int| 0 <= k < n implies ident_char(#[trigger] s[k]) by {
        assert(s.take(n)[k] == ns[k]);
    }
    assert forall|k: int| n < k < m implies ident_char(#[trigger] s[k]) by {
        assert(s.subrange(n + 1, m)[k - n - 1] == method[k - n - 1]);
    }
    assert(ident_start(s[0])) by {
        assert(s.take(n)[0] == ns[0]);
    }
    lemma_ident_run(s, 0, n);
    lemma_ident_run(s, n + 1, m);
    assert(s.subrange(0, n) =~= ns);
    assert(ws_end(s, n) == n);
    assert(ws_end(s, m) == m);
    let lex = lexeme(s, 0);
    assert(lex == (Lexeme::Namespaced { ns, method, open: m, close: s.len() - 1 }));
    let call = namespaced_call(s, ns, method, args_of(s, m, s.len() - 1));
    assert(emitted(s, lex, Seq::empty()) == call);
    if let Ok(text) = call {
        assert(Seq::<char>::empty() + text =~= text);
        assert(translate(s, s.len() as int, text) == Ok::<Seq<char>, Seq<char>>(text));
    }
}

/// A call of a function with one argument in a namespace.
proof fn lemma_call_one(ns: Seq<char>, method: Seq<char>, a: Seq<char>)
    requires
        ns == "string"@ || ns == "seq"@,
        method.len() > 0,
        forall|k: int| 0 <= k < method.len() ==> ident_char(#[trigger] method[k]),
        simple_arg(a),
    ensures
        ({
            let s = ns + seq!['.'] + method + seq!['('] + a + seq![')'];
            let open = 1int + ns.len() + method.len();
            &&& reads_as(s, ns, method, seq![(open + 1, s.len() - 1)])
            &&& arg_is(s, (open + 1, s.len() - 1), a)
        }),
{
    let s = ns + seq!['.'] + method + seq!['('] + a + seq![')'];
    let open = 1int + ns.len() + method.len();
    assert(s.take(ns.len() as int) =~= ns);
    assert(s.subrange(1int + ns.len(), open) =~= method);
    assert(s.subrange(open + 1, s.len() - 1) =~= a);
    lemma_one_arg(s, open, a);
    lemma_namespaced(s, ns, method);
}

/// A call of a function with two arguments in a namespace.
proof fn lemma_call_two(ns: Seq<char>, method: Seq<char>, a: Seq<char>, b: Seq<char>)
    requires
        ns == "string"@ || ns == "seq"@,
        method.len() > 0,
        forall|k: int| 0 <= k < method.len() ==> ident_char(#[trigger] method[k]),
        simple_arg(a),
        simple_arg(b),
    ensures
        ({
            let s = ns + seq!['.'] + method + seq!['('] + a + seq![','] + b + seq![')'];
            let open = 1int + ns.len() + method.len();
            let cut = open + 1 + a.len();
            &&& reads_as(
                s,
                ns,
                method,
                seq![(open + 1, cut), (cut + 1, s.len() - 1)],
            )
            &&& arg_is(s, (open + 1, cut), a)
            &&& arg_is(s, (cut + 1, s.len() - 1), b)
        }),
{
    let s = ns + seq!['.'] + method + seq!['('] + a + seq![','] + b + seq![')'];
    let open = 1int + ns.len() + method.len();
    assert(s.take(ns.len() as int) =~= ns);
    assert(s.subrange(1int + ns.len(), open) =~= method);
    assert(s.subrange(open + 1, open + 1 + a.len()) =~= a);
    assert(s.subrange(open + 2 + a.len(), s.len() - 1) =~= b);
    lemma_two_args(s, open, a, b);
    lemma_namespaced(s, ns, method);
}

/// A call of a function with three arguments in a namespace.
proof fn lemma_call_three(ns: Seq<char>, method: Seq<char>, a: Seq<char>, b: Seq<char>, c: Seq<char>)
    requires
        ns == "string"@ || ns == "seq"@,
        method.len() > 0,
        forall|k: int| 0 <= k < method.len() ==> ident_char(#[trigger] method[k]),
        simple_arg(a),
        simple_arg(b),
        simple_arg(c),
    ensures
        ({
            let s = ns + seq!['.'] + method + seq!['('] + a + seq![','] + b + seq![','] + c
                + seq![')'];
            let open = 1int + ns.len() + method.len();
            let one = open + 1 + a.len();
            let two = one + 1 + b.len();
            &&& reads_as(
                s,
                ns,
                method,
                seq![(open + 1, one), (one + 1, two), (two + 1, s.len() - 1)],
            )
            &&& arg_is(s, (open + 1, one), a)
            &&& arg_is(s, (one + 1, two), b)
            &&& arg_is(s, (two + 1, s.len() - 1), c)
        }),
{
    let s = ns + seq!['.'] + method + seq!['('] + a + seq![','] + b + seq![','] + c + seq![')'];
    let open = 1int + ns.len() + method.len();
    let one = open + 1 + a.len();
    let two = one + 1 + b.len();
    assert(s.take(ns.len() as int) =~= ns);
    assert(s.subrange(1int + ns.len(), open) =~= method);
    assert(s.subrange(open + 1, one) =~= a);
    assert(s.subrange(one + 1, two) =~= b);
    assert(s.subrange(two + 1, s.len() - 1) =~= c);
    lemma_three_args(s, open, a, b, c);
    lemma_namespaced(s, ns, method);
}

proof fn lemma_method_one(s: Seq<char>, x: (int, int), method: Seq<char>, a: Seq<char>)
    requires
        arg_is(s, x, a),
    ensures
        method_call(s, seq![x], method, 1) == Ok::<Seq<char>, Seq<char>>(
            "("@ + a + ")."@ + method + "("@ + Seq::<char>::empty() + ")"@,
        ),
{
    reveal(arg_is);
    reveal_with_fuel(joined_args, 2);
}

proof fn lemma_method_two(
    s: Seq<char>,
    x: (int, int),
    y: (int, int),
    method: Seq<char>,
    a: Seq<char>,
    b: Seq<char>,
)
    requires
        arg_is(s, x, a),
        arg_is(s, y, b),
    ensures
        method_call(s, seq![x, y], method, 2) == Ok::<Seq<char>, Seq<char>>(
            "("@ + a + ")."@ + method + "("@ + b + ")"@,
        ),
{
    reveal(arg_is);
    reveal_with_fuel(joined_args, 3);
}

proof fn lemma_joined_two(s: Seq<char>, x: (int, int), y: (int, int), a: Seq<char>, b: Seq<char>)
    requires
        arg_is(s, x, a),
        arg_is(s, y, b),
    ensures
        joined_args(s, seq![x, y], 0) == Ok::<Seq<char>, Seq<char>>(a + ", "@ + b),
{
    reveal(arg_is);
    reveal_with_fuel(joined_args, 4);
}

proof fn lemma_call_names()
    ensures
        "contains"@ != "startsWith"@,
        "contains"@ != "endsWith"@,
        "contains"@ != "indexOf"@,
        "contains"@ != "trim"@,
        "contains"@ != "length"@,
        "contains"@ != "substring"@,
        "contains"@ != "map"@,
        "contains"@ != "list"@,
        "contains"@ != "keys"@,
        "contains"@ != "get"@,
        "startsWith"@ != "endsWith"@,
        "startsWith"@ != "indexOf"@,
        "startsWith"@ != "trim"@,
        "startsWith"@ != "length"@,
        "startsWith"@ != "substring"@,
        "startsWith"@ != "map"@,
        "startsWith"@ != "list"@,
        "startsWith"@ != "keys"@,
        "startsWith"@ != "get"@,
        "endsWith"@ != "indexOf"@,
        "endsWith"@ != "trim"@,
        "endsWith"@ != "length"@,
        "endsWith"@ != "substring"@,
        "endsWith"@ != "map"@,
        "endsWith"@ != "list"@,
        "endsWith"@ != "keys"@,
        "endsWith"@ != "get"@,
        "indexOf"@ != "trim"@,
        "indexOf"@ != "length"@,
        "indexOf"@ != "substring"@,
        "indexOf"@ != "map"@,
        "indexOf"@ != "list"@,
        "indexOf"@ != "keys"@,
        "indexOf"@ != "get"@,
        "trim"@ != "length"@,
        "trim"@ != "substring"@,
        "trim"@ != "map"@,
        "trim"@ != "list"@,
        "trim"@ != "keys"@,
        "trim"@ != "get"@,
        "length"@ != "substring"@,
        "length"@ != "map"@,
        "length"@ != "list"@,
        "length"@ != "keys"@,
        "length"@ != "get"@,
        "substring"@ != "map"@,
        "substring"@ != "list"@,
        "substring"@ != "keys"@,
        "substring"@ != "get"@,
        "map"@ != "list"@,
        "map"@ != "keys"@,
        "map"@ != "get"@,
        "list"@ != "keys"@,
        "list"@ != "get"@,
        "keys"@ != "get"@,
        "string"@ != "seq"@,
{
    reveal_strlit("contains");
    reveal_strlit("startsWith");
    reveal_strlit("endsWith");
    reveal_strlit("indexOf");
    reveal_strlit("trim");
    reveal_strlit("length");
    reveal_strlit("substring");
    reveal_strlit("map");
    reveal_strlit("list");
    reveal_strlit("keys");
    reveal_strlit("get");
    reveal_strlit("string");
    reveal_strlit("seq");
    assert("contains"@.len() != "startsWith"@.len());
    assert("contains"@[0] != "endsWith"@[0]);
    assert("contains"@.len() != "indexOf"@.len());
    assert("contains"@.len() != "trim"@.len());
    assert("contains"@.len() != "length"@.len());
    assert("contains"@.len() != "substring"@.len());
    assert("contains"@.len() != "map"@.len());
    assert("contains"@.len() != "list"@.len());
    assert("contains"@.len() != "keys"@.len());
    assert("contains"@.len() != "get"@.len());
    assert("startsWith"@.len() != "endsWith"@.len());
    assert("startsWith"@.len() != "indexOf"@.len());
    assert("startsWith"@.len() != "trim"@.len());
    assert("startsWith"@.len() != "length"@.len());
    assert("startsWith"@.len() != "substring"@.len());
    assert("startsWith"@.len() != "map"@.len());
    assert("startsWith"@.len() != "list"@.len());
    assert("startsWith"@.len() != "keys"@.len());
    assert("startsWith"@.len() != "get"@.len());
    assert("endsWith"@.len() != "indexOf"@.len());
    assert("endsWith"@.len() != "trim"@.len());
    assert("endsWith"@.len() != "length"@.len());
    assert("endsWith"@.len() != "substring"@.len());
    assert("endsWith"@.len() != "map"@.len());
    assert("endsWith"@.len() != "list"@.len());
    assert("endsWith"@.len() != "keys"@.len());
    assert("endsWith"@.len() != "get"@.len());
    assert("indexOf"@.len() != "trim"@.len());
    assert("indexOf"@.len() != "length"@.len());
    assert("indexOf"@.len() != "substring"@.len());
    assert("indexOf"@.len() != "map"@.len());
    assert("indexOf"@.len() != "list"@.len());
    assert("indexOf"@.len() != "keys"@.len());
    assert("indexOf"@.len() != "get"@.len());
    assert("trim"@.len() != "length"@.len());
    assert("trim"@.len() != "substring"@.len());
    assert("trim"@.len() != "map"@.len());
    assert("trim"@[0] != "list"@[0]);
    assert("trim"@[0] != "keys"@[0]);
    assert("trim"@.len() != "get"@.len());
    assert("length"@.len() != "substring"@.len());
    assert("length"@.len() != "map"@.len());
    assert("length"@.len() != "list"@.len());
    assert("length"@.len() != "keys"@.len());
    assert("length"@.len() != "get"@.len());
    assert("substring"@.len() != "map"@.len());
    assert("substring"@.len() != "list"@.len());
    assert("substring"@.len() != "keys"@.len());
    assert("substring"@.len() != "get"@.len());
    assert("map"@.len() != "list"@.len());
    assert("map"@.len() != "keys"@.len());
    assert("map"@[0] != "get"@[0]);
    assert("list"@[0] != "keys"@[0]);
    assert("list"@.len() != "get"@.len());
    assert("keys"@.len() != "get"@.len());
    assert("string"@.len() != "seq"@.len());
}

proof fn lemma_word_contains()
    ensures
        "contains"@.len() > 0,
        forall|k: int| 0 <= k < "contains"@.len() ==> ident_char(#[trigger] "contains"@[k]),
{
    reveal_strlit("contains");
}

proof fn lemma_word_startswith()
    ensures
        "startsWith"@.len() > 0,
        forall|k: int| 0 <= k < "startsWith"@.len() ==> ident_char(#[trigger] "startsWith"@[k]),
{
    reveal_strlit("startsWith");
}

proof fn lemma_word_endswith()
    ensures
        "endsWith"@.len() > 0,
        forall|k: int| 0 <= k < "endsWith"@.len() ==> ident_char(#[trigger] "endsWith"@[k]),
{
    reveal_strlit("endsWith");
}

proof fn lemma_word_indexof()
    ensures
        "indexOf"@.len() > 0,
        forall|k: int| 0 <= k < "indexOf"@.len() ==> ident_char(#[trigger] "indexOf"@[k]),
{
    reveal_strlit("indexOf");
}

proof fn lemma_word_trim()
    ensures
        "trim"@.len() > 0,
        forall|k: int| 0 <= k < "trim"@.len() ==> ident_char(#[trigger] "trim"@[k]),
{
    reveal_strlit("trim");
}

proof fn lemma_word_length()
    ensures
        "length"@.len() > 0,
        forall|k: int| 0 <= k < "length"@.len() ==> ident_char(#[trigger] "length"@[k]),
{
    reveal_strlit("length");
}

proof fn lemma_word_substring()
    ensures
        "substring"@.len() > 0,
        forall|k: int| 0 <= k < "substring"@.len() ==> ident_char(#[trigger] "substring"@[k]),
{
    reveal_strlit("substring");
}

proof fn lemma_word_map()
    ensures
        "map"@.len() > 0,
        forall|k: int| 0 <= k < "map"@.len() ==> ident_char(#[trigger] "map"@[k]),
{
    reveal_strlit("map");
}

proof fn lemma_word_list()
    ensures
        "list"@.len() > 0,
        forall|k: int| 0 <= k < "list"@.len() ==> ident_char(#[trigger] "list"@[k]),
{
    reveal_strlit("list");
}

proof fn lemma_word_keys()
    ensures
        "keys"@.len() > 0,
        forall|k: int| 0 <= k < "keys"@.len() ==> ident_char(#[trigger] "keys"@[k]),
{
    reveal_strlit("keys");
}

proof fn lemma_word_get()
    ensures
        "get"@.len() > 0,
        forall|k: int| 0 <= k < "get"@.len() ==> ident_char(#[trigger] "get"@[k]),
{
    reveal_strlit("get");
}

proof fn lemma_text_contains(a: Seq<char>, b: Seq<char>)
    ensures
        "string.contains("@ + a + ","@ + b + ")"@ == "string"@ + seq!['.'] + "contains"@ + seq!['('] + a + seq![',']
            + b + seq![')'],
        "("@ + a + ")."@ + "contains"@ + "("@ + b + ")"@ == "("@ + a + ").contains("@ + b + ")"@,
{
    reveal_strlit("string");
    reveal_strlit("string.contains(");
    reveal_strlit(",");
    reveal_strlit(")");
    reveal_strlit("(");
    reveal_strlit(").contains(");
    reveal_strlit(").");
    reveal_strlit("contains");
    assert("string.contains("@ =~= "string"@ + seq!['.'] + "contains"@ + seq!['(']);
    assert(","@ =~= seq![',']);
    assert(")"@ =~= seq![')']);
    assert(")."@ + "contains"@ + "("@ =~= ").contains("@);
    assert("("@ + a + ")."@ + "contains"@ + "("@ =~= "("@ + a + (")."@ + "contains"@ + "("@));
}

proof fn lemma_string_contains(a: Seq<char>, b: Seq<char>)
    requires
        simple_arg(a),
        simple_arg(b),
    ensures
        transpiled("string.contains("@ + a + ","@ + b + ")"@) == Ok::<Seq<char>, Seq<char>>("("@ + a + ").contains("@ + b + ")"@),
{
    let ns = "string"@;
    let method = "contains"@;
    let s = ns + seq!['.'] + method + seq!['('] + a + seq![','] + b + seq![')'];
    let open = 1int + ns.len() + method.len();
    let x = (open + 1, open + 1 + a.len());
    let y = (open + 2 + a.len(), s.len() - 1);
    let args = seq![x, y];
    lemma_word_contains();
    lemma_text_contains(a, b);
    lemma_call_names();
    lemma_call_two(ns, method, a, b);
    let out = "("@ + a + ")."@ + "contains"@ + "("@ + b + ")"@;
    assert(call_is(s, ns, method, args, out)) by {
        reveal(call_is);
        lemma_method_two(s, x, y, "contains"@, a, b);
    }
    lemma_reads_and_calls(s, ns, method, args, out);
}

proof fn lemma_text_starts_with(a: Seq<char>, b: Seq<char>)
    ensures
        "string.startsWith("@ + a + ","@ + b + ")"@ == "string"@ + seq!['.'] + "startsWith"@ + seq!['('] + a + seq![',']
            + b + seq![')'],
        "("@ + a + ")."@ + "starts_with"@ + "("@ + b + ")"@ == "("@ + a + ").starts_with("@ + b + ")"@,
{
    reveal_strlit("string");
    reveal_strlit("string.startsWith(");
    reveal_strlit(",");
    reveal_strlit(")");
    reveal_strlit("(");
    reveal_strlit(").starts_with(");
    reveal_strlit(").");
    reveal_strlit("starts_with");
    reveal_strlit("startsWith");
    assert("string.startsWith("@ =~= "string"@ + seq!['.'] + "startsWith"@ + seq!['(']);
    assert(","@ =~= seq![',']);
    assert(")"@ =~= seq![')']);
    assert(")."@ + "starts_with"@ + "("@ =~= ").starts_with("@);
    assert("("@ + a + ")."@ + "starts_with"@ + "("@ =~= "("@ + a + (")."@ + "starts_with"@ + "("@));
}

proof fn lemma_string_starts_with(a: Seq<char>, b: Seq<char>)
    requires
        simple_arg(a),
        simple_arg(b),
    ensures
        transpiled("string.startsWith("@ + a + ","@ + b + ")"@) == Ok::<Seq<char>, Seq<char>>("("@ + a + ").starts_with("@ + b + ")"@),
{
    let ns = "string"@;
    let method = "startsWith"@;
    let s = ns + seq!['.'] + method + seq!['('] + a + seq![','] + b + seq![')'];
    let open = 1int + ns.len() + method.len();
    let x = (open + 1, open + 1 + a.len());
    let y = (open + 2 + a.len(), s.len() - 1);
    let args = seq![x, y];
    lemma_word_startswith();
    lemma_text_starts_with(a, b);
    lemma_call_names();
    lemma_call_two(ns, method, a, b);
    let out = "("@ + a + ")."@ + "starts_with"@ + "("@ + b + ")"@;
    assert(call_is(s, ns, method, args, out)) by {
        reveal(call_is);
        lemma_method_two(s, x, y, "starts_with"@, a, b);
    }
    lemma_reads_and_calls(s, ns, method, args, out);
}

proof fn lemma_text_ends_with(a: Seq<char>, b: Seq<char>)
    ensures
        "string.endsWith("@ + a + ","@ + b + ")"@ == "string"@ + seq!['.'] + "endsWith"@ + seq!['('] + a + seq![',']
            + b + seq![')'],
        "("@ + a + ")."@ + "ends_with"@ + "("@ + b + ")"@ == "("@ + a + ").ends_with("@ + b + ")"@,
{
    reveal_strlit("string");
    reveal_strlit("string.endsWith(");
    reveal_strlit(",");
    reveal_strlit(")");
    reveal_strlit("(");
    reveal_strlit(").ends_with(");
    reveal_strlit(").");
    reveal_strlit("ends_with");
    reveal_strlit("endsWith");
    assert("string.endsWith("@ =~= "string"@ + seq!['.'] + "endsWith"@ + seq!['(']);
    assert(","@ =~= seq![',']);
    assert(")"@ =~= seq![')']);
    assert(")."@ + "ends_with"@ + "("@ =~= ").ends_with("@);
    assert("("@ + a + ")."@ + "ends_with"@ + "("@ =~= "("@ + a + (")."@ + "ends_with"@ + "("@));
}

proof fn lemma_string_ends_with(a: Seq<char>, b: Seq<char>)
    requires
        simple_arg(a),
        simple_arg(b),
    ensures
        transpiled("string.endsWith("@ + a + ","@ + b + ")"@) == Ok::<Seq<char>, Seq<char>>("("@ + a + ").ends_with("@ + b + ")"@),
{
    let ns = "string"@;
    let method = "endsWith"@;
    let s = ns + seq!['.'] + method + seq!['('] + a + seq![','] + b + seq![')'];
    let open = 1int + ns.len() + method.len();
    let x = (open + 1, open + 1 + a.len());
    let y = (open + 2 + a.len(), s.len() - 1);
    let args = seq![x, y];
    lemma_word_endswith();
    lemma_text_ends_with(a, b);
    lemma_call_names();
    lemma_call_two(ns, method, a, b);
    let out = "("@ + a + ")."@ + "ends_with"@ + "("@ + b + ")"@;
    assert(call_is(s, ns, method, args, out)) by {
        reveal(call_is);
        lemma_method_two(s, x, y, "ends_with"@, a, b);
    }
    lemma_reads_and_calls(s, ns, method, args, out);
}

proof fn lemma_text_index_of(a: Seq<char>, b: Seq<char>)
    ensures
        "string.indexOf("@ + a + ","@ + b + ")"@ == "string"@ + seq!['.'] + "indexOf"@ + seq!['('] + a + seq![',']
            + b + seq![')'],
        "("@ + a + ")."@ + "index_of"@ + "("@ + b + ")"@ == "("@ + a + ").index_of("@ + b + ")"@,
{
    reveal_strlit("string");
    reveal_strlit("string.indexOf(");
    reveal_strlit(",");
    reveal_strlit(")");
    reveal_strlit("(");
    reveal_strlit(").index_of(");
    reveal_strlit(").");
    reveal_strlit("index_of");
    reveal_strlit("indexOf");
    assert("string.indexOf("@ =~= "string"@ + seq!['.'] + "indexOf"@ + seq!['(']);
    assert(","@ =~= seq![',']);
    assert(")"@ =~= seq![')']);
    assert(")."@ + "index_of"@ + "("@ =~= ").index_of("@);
    assert("("@ + a + ")."@ + "index_of"@ + "("@ =~= "("@ + a + (")."@ + "index_of"@ + "("@));
}

proof fn lemma_string_index_of(a: Seq<char>, b: Seq<char>)
    requires
        simple_arg(a),
        simple_arg(b),
    ensures
        transpiled("string.indexOf("@ + a + ","@ + b + ")"@) == Ok::<Seq<char>, Seq<char>>("("@ + a + ").index_of("@ + b + ")"@),
{
    let ns = "string"@;
    let method = "indexOf"@;
    let s = ns + seq!['.'] + method + seq!['('] + a + seq![','] + b + seq![')'];
    let open = 1int + ns.len() + method.len();
    let x = (open + 1, open + 1 + a.len());
    let y = (open + 2 + a.len(), s.len() - 1);
    let args = seq![x, y];
    lemma_word_indexof();
    lemma_text_index_of(a, b);
    lemma_call_names();
    lemma_call_two(ns, method, a, b);
    let out = "("@ + a + ")."@ + "index_of"@ + "("@ + b + ")"@;
    assert(call_is(s, ns, method, args, out)) by {
        reveal(call_is);
        lemma_method_two(s, x, y, "index_of"@, a, b);
    }
    lemma_reads_and_calls(s, ns, method, args, out);
}

proof fn lemma_text_trim(a: Seq<char>)
    ensures
        "string.trim("@ + a + ")"@ == "string"@ + seq!['.'] + "trim"@ + seq!['('] + a + seq![')'],
        "("@ + a + ")."@ + "trim"@ + "("@ + Seq::<char>::empty() + ")"@ == "("@ + a + ").trim()"@,
{
    reveal_strlit("string");
    reveal_strlit("string.trim(");
    reveal_strlit(")");
    reveal_strlit("(");
    reveal_strlit(").trim()");
    reveal_strlit(").");
    reveal_strlit("trim");
    assert("string.trim("@ =~= "string"@ + seq!['.'] + "trim"@ + seq!['(']);
    assert(")"@ =~= seq![')']);
    assert(")."@ + "trim"@ + "("@ + ")"@ =~= ").trim()"@);
    assert("("@ + a + ")."@ + "trim"@ + "("@ + Seq::<char>::empty() + ")"@ =~= "("@ + a + (")."@
        + "trim"@ + "("@ + ")"@));
}

proof fn lemma_string_trim(a: Seq<char>)
    requires
        simple_arg(a),
    ensures
        transpiled("string.trim("@ + a + ")"@) == Ok::<Seq<char>, Seq<char>>("("@ + a + ").trim()"@),
{
    let ns = "string"@;
    let method = "trim"@;
    let s = ns + seq!['.'] + method + seq!['('] + a + seq![')'];
    let open = 1int + ns.len() + method.len();
    let x = (open + 1, s.len() - 1);
    lemma_word_trim();
    lemma_text_trim(a);
    lemma_call_names();
    lemma_call_one(ns, method, a);
    let out = "("@ + a + ")."@ + "trim"@ + "("@ + Seq::<char>::empty() + ")"@;
    assert(call_is(s, ns, method, seq![x], out)) by {
        reveal(call_is);
        lemma_method_one(s, x, "trim"@, a);
    }
    lemma_reads_and_calls(s, ns, method, seq![x], out);
}

proof fn lemma_text_len(a: Seq<char>)
    ensures
        "string.length("@ + a + ")"@ == "string"@ + seq!['.'] + "length"@ + seq!['('] + a + seq![')'],
        "("@ + a + ")."@ + "len"@ + "("@ + Seq::<char>::empty() + ")"@ == "("@ + a + ").len()"@,
{
    reveal_strlit("string");
    reveal_strlit("string.length(");
    reveal_strlit(")");
    reveal_strlit("(");
    reveal_strlit(").len()");
    reveal_strlit(").");
    reveal_strlit("len");
    reveal_strlit("length");
    assert("string.length("@ =~= "string"@ + seq!['.'] + "length"@ + seq!['(']);
    assert(")"@ =~= seq![')']);
    assert(")."@ + "len"@ + "("@ + ")"@ =~= ").len()"@);
    assert("("@ + a + ")."@ + "len"@ + "("@ + Seq::<char>::empty() + ")"@ =~= "("@ + a + (")."@
        + "len"@ + "("@ + ")"@));
}

proof fn lemma_string_len(a: Seq<char>)
    requires
        simple_arg(a),
    ensures
        transpiled("string.length("@ + a + ")"@) == Ok::<Seq<char>, Seq<char>>("("@ + a + ").len()"@),
{
    let ns = "string"@;
    let method = "length"@;
    let s = ns + seq!['.'] + method + seq!['('] + a + seq![')'];
    let open = 1int + ns.len() + method.len();
    let x = (open + 1, s.len() - 1);
    lemma_word_length();
    lemma_text_len(a);
    lemma_call_names();
    lemma_call_one(ns, method, a);
    let out = "("@ + a + ")."@ + "len"@ + "("@ + Seq::<char>::empty() + ")"@;
    assert(call_is(s, ns, method, seq![x], out)) by {
        reveal(call_is);
        lemma_method_one(s, x, "len"@, a);
    }
    lemma_reads_and_calls(s, ns, method, seq![x], out);
}

proof fn lemma_text_substring(a: Seq<char>, b: Seq<char>, c: Seq<char>)
    ensures
        "string.substring("@ + a + ","@ + b + ")"@ == "string"@ + seq!['.'] + "substring"@ + seq!['('] + a
            + seq![','] + b + seq![')'],
        "string.substring("@ + a + ","@ + b + ","@ + c + ")"@ == "string"@ + seq!['.'] + "substring"@ + seq!['(']
            + a + seq![','] + b + seq![','] + c + seq![')'],
{
    reveal_strlit("string");
    reveal_strlit("string.substring(");
    reveal_strlit(",");
    reveal_strlit(")");
    reveal_strlit("substring");
    assert("string.substring("@ =~= "string"@ + seq!['.'] + "substring"@ + seq!['(']);
    assert(","@ =~= seq![',']);
    assert(")"@ =~= seq![')']);
}

proof fn lemma_string_sub_string(a: Seq<char>, b: Seq<char>, c: Seq<char>)
    requires
        simple_arg(a),
        simple_arg(b),
        simple_arg(c),
    ensures
        transpiled("string.substring("@ + a + ","@ + b + ")"@) == Ok::<Seq<char>, Seq<char>>("("@ + a + ").sub_string("@ + b + ")"@),
        transpiled("string.substring("@ + a + ","@ + b + ","@ + c + ")"@) == Ok::<Seq<char>, Seq<char>>(
            "("@ + a + ").sub_string("@ + b + ", ("@ + c + ")-("@ + b + "))"@,
        ),
{
    let ns = "string"@;
    let method = "substring"@;
    let open = 1int + ns.len() + method.len();
    let s2 = ns + seq!['.'] + method + seq!['('] + a + seq![','] + b + seq![')'];
    let s3 = ns + seq!['.'] + method + seq!['('] + a + seq![','] + b + seq![','] + c + seq![')'];
    let one = open + 1 + a.len();
    let two = one + 1 + b.len();
    let args2 = seq![(open + 1, one), (one + 1, s2.len() - 1)];
    let args3 = seq![(open + 1, one), (one + 1, two), (two + 1, s3.len() - 1)];
    lemma_word_substring();
    lemma_text_substring(a, b, c);
    lemma_call_names();
    lemma_call_two(ns, method, a, b);
    lemma_call_three(ns, method, a, b, c);
    let out2 = "("@ + a + ").sub_string("@ + b + ")"@;
    let out3 = "("@ + a + ").sub_string("@ + b + ", ("@ + c + ")-("@ + b + "))"@;
    assert(call_is(s2, ns, method, args2, out2)) by {
        reveal(call_is);
        reveal(arg_is);
    }
    assert(call_is(s3, ns, method, args3, out3)) by {
        reveal(call_is);
        reveal(arg_is);
    }
    lemma_reads_and_calls(s2, ns, method, args2, out2);
    lemma_reads_and_calls(s3, ns, method, args3, out3);
}

/// Each function of `string` becomes the method of its first argument that does the same: `contains`,
/// `startsWith`, `endsWith`, `indexOf`, `trim` and `length`, and `substring`, whose end becomes a
/// length. So it is for all arguments that stand for themselves.
pub proof fn string_functions_become_methods(a: Seq<char>, b: Seq<char>, c: Seq<char>)
    requires
        simple_arg(a),
        simple_arg(b),
        simple_arg(c),
    ensures
        transpiled("string.contains("@ + a + ","@ + b + ")"@) == Ok::<Seq<char>, Seq<char>>(
            "("@ + a + ").contains("@ + b + ")"@,
        ),
        transpiled("string.startsWith("@ + a + ","@ + b + ")"@) == Ok::<Seq<char>, Seq<char>>(
            "("@ + a + ").starts_with("@ + b + ")"@,
        ),
        transpiled("string.endsWith("@ + a + ","@ + b + ")"@) == Ok::<Seq<char>, Seq<char>>(
            "("@ + a + ").ends_with("@ + b + ")"@,
        ),
        transpiled("string.indexOf("@ + a + ","@ + b + ")"@) == Ok::<Seq<char>, Seq<char>>(
            "("@ + a + ").index_of("@ + b + ")"@,
        ),
        transpiled("string.trim("@ + a + ")"@) == Ok::<Seq<char>, Seq<char>>("("@ + a + ").trim()"@),
        transpiled("string.length("@ + a + ")"@) == Ok::<Seq<char>, Seq<char>>("("@ + a + ").len()"@),
        transpiled("string.substring("@ + a + ","@ + b + ")"@) == Ok::<Seq<char>, Seq<char>>(
            "("@ + a + ").sub_string("@ + b + ")"@,
        ),
        transpiled("string.substring("@ + a + ","@ + b + ","@ + c + ")"@) == Ok::<Seq<char>, Seq<char>>(
            "("@ + a + ").sub_string("@ + b + ", ("@ + c + ")-("@ + b + "))"@,
        ),
{
    lemma_string_contains(a, b);
    lemma_string_starts_with(a, b);
    lemma_string_ends_with(a, b);
    lemma_string_index_of(a, b);
    lemma_string_trim(a);
    lemma_string_len(a);
    lemma_string_sub_string(a, b, c);
}

proof fn lemma_seq_map(a: Seq<char>, b: Seq<char>)
    requires
        simple_arg(a),
        simple_arg(b),
    ensures
        transpiled("seq.map("@ + a + ","@ + b + ")"@) == Ok::<Seq<char>, Seq<char>>("["@ + a + ", "@ + b + "]"@),
{
    let ns = "seq"@;
    let method = "map"@;
    let s = ns + seq!['.'] + method + seq!['('] + a + seq![','] + b + seq![')'];
    let open = 1int + ns.len() + method.len();
    let x = (open + 1, open + 1 + a.len());
    let y = (open + 2 + a.len(), s.len() - 1);
    let args = seq![x, y];
    lemma_word_map();
    assert("seq.map("@ + a + ","@ + b + ")"@ == s) by {
        reveal_strlit("seq");
        reveal_strlit("map");
        reveal_strlit("seq.map(");
        reveal_strlit(",");
        reveal_strlit(")");
        assert("seq.map("@ =~= "seq"@ + seq!['.'] + "map"@ + seq!['(']);
        assert(","@ =~= seq![',']);
        assert(")"@ =~= seq![')']);
    }
    lemma_call_names();
    lemma_call_two(ns, method, a, b);
    let out = "["@ + (a + ", "@ + b) + "]"@;
    assert(call_is(s, ns, method, args, out)) by {
        reveal(call_is);
        lemma_joined_two(s, x, y, a, b);
    }
    lemma_reads_and_calls(s, ns, method, args, out);
    assert(out =~= "["@ + a + ", "@ + b + "]"@);
}

proof fn lemma_seq_list(a: Seq<char>, b: Seq<char>)
    requires
        simple_arg(a),
        simple_arg(b),
    ensures
        transpiled("seq.list("@ + a + ","@ + b + ")"@) == Ok::<Seq<char>, Seq<char>>("["@ + a + ", "@ + b + "]"@),
{
    let ns = "seq"@;
    let method = "list"@;
    let s = ns + seq!['.'] + method + seq!['('] + a + seq![','] + b + seq![')'];
    let open = 1int + ns.len() + method.len();
    let x = (open + 1, open + 1 + a.len());
    let y = (open + 2 + a.len(), s.len() - 1);
    let args = seq![x, y];
    lemma_word_list();
    assert("seq.list("@ + a + ","@ + b + ")"@ == s) by {
        reveal_strlit("seq");
        reveal_strlit("list");
        reveal_strlit("seq.list(");
        reveal_strlit(",");
        reveal_strlit(")");
        assert("seq.list("@ =~= "seq"@ + seq!['.'] + "list"@ + seq!['(']);
        assert(","@ =~= seq![',']);
        assert(")"@ =~= seq![')']);
    }
    lemma_call_names();
    lemma_call_two(ns, method, a, b);
    let out = "["@ + (a + ", "@ + b) + "]"@;
    assert(call_is(s, ns, method, args, out)) by {
        reveal(call_is);
        lemma_joined_two(s, x, y, a, b);
    }
    lemma_reads_and_calls(s, ns, method, args, out);
    assert(out =~= "["@ + a + ", "@ + b + "]"@);
}

proof fn lemma_seq_get(a: Seq<char>, b: Seq<char>)
    requires
        simple_arg(a),
        simple_arg(b),
    ensures
        transpiled("seq.get("@ + a + ","@ + b + ")"@) == Ok::<Seq<char>, Seq<char>>("av_get("@ + a + ", "@ + b + ")"@),
{
    let ns = "seq"@;
    let method = "get"@;
    let s = ns + seq!['.'] + method + seq!['('] + a + seq![','] + b + seq![')'];
    let open = 1int + ns.len() + method.len();
    let x = (open + 1, open + 1 + a.len());
    let y = (open + 2 + a.len(), s.len() - 1);
    let args = seq![x, y];
    lemma_word_get();
    assert("seq.get("@ + a + ","@ + b + ")"@ == s) by {
        reveal_strlit("seq");
        reveal_strlit("get");
        reveal_strlit("seq.get(");
        reveal_strlit(",");
        reveal_strlit(")");
        assert("seq.get("@ =~= "seq"@ + seq!['.'] + "get"@ + seq!['(']);
        assert(","@ =~= seq![',']);
        assert(")"@ =~= seq![')']);
    }
    lemma_call_names();
    lemma_call_two(ns, method, a, b);
    let out = "av_get("@ + (a + ", "@ + b) + ")"@;
    assert(call_is(s, ns, method, args, out)) by {
        reveal(call_is);
        lemma_joined_two(s, x, y, a, b);
    }
    lemma_reads_and_calls(s, ns, method, args, out);
    assert(out =~= "av_get("@ + a + ", "@ + b + ")"@);
}

proof fn lemma_seq_keys(a: Seq<char>)
    requires
        simple_arg(a),
    ensures
        transpiled("seq.keys("@ + a + ")"@) == Ok::<Seq<char>, Seq<char>>("av_keys("@ + a + ")"@),
{
    let ns = "seq"@;
    let method = "keys"@;
    let s = ns + seq!['.'] + method + seq!['('] + a + seq![')'];
    let open = 1int + ns.len() + method.len();
    lemma_word_keys();
    assert("seq.keys("@ + a + ")"@ == s) by {
        reveal_strlit("seq");
        reveal_strlit("keys");
        reveal_strlit("seq.keys(");
        reveal_strlit(")");
        assert("seq.keys("@ =~= "seq"@ + seq!['.'] + "keys"@ + seq!['(']);
        assert(")"@ =~= seq![')']);
    }
    lemma_call_names();
    lemma_call_one(ns, method, a);
    let out = "av_keys("@ + a + ")"@;
    let args = seq![(open + 1, s.len() - 1)];
    assert(call_is(s, ns, method, args, out)) by {
        reveal(call_is);
        reveal(arg_is);
    }
    lemma_reads_and_calls(s, ns, method, args, out);
}

/// A map or list of `seq` becomes an array of its items in order, and its keys and its values are
/// asked for with the functions that keep that order.
pub proof fn seq_functions_keep_the_order(a: Seq<char>, b: Seq<char>)
    requires
        simple_arg(a),
        simple_arg(b),
    ensures
        transpiled("seq.map("@ + a + ","@ + b + ")"@) == Ok::<Seq<char>, Seq<char>>("["@ + a + ", "@ + b + "]"@),
        transpiled("seq.list("@ + a + ","@ + b + ")"@) == Ok::<Seq<char>, Seq<char>>("["@ + a + ", "@ + b + "]"@),
        transpiled("seq.get("@ + a + ","@ + b + ")"@) == Ok::<Seq<char>, Seq<char>>("av_get("@ + a + ", "@ + b + ")"@),
        transpiled("seq.keys("@ + a + ")"@) == Ok::<Seq<char>, Seq<char>>("av_keys("@ + a + ")"@),
{
    lemma_seq_map(a, b);
    lemma_seq_list(a, b);
    lemma_seq_get(a, b);
    lemma_seq_keys(a);
}

/// What stands before the parentheses of a call of a built-in function.
proof fn lemma_builtin_source(name: Seq<char>, a: Seq<char>)
    requires
        name.len() > 0,
        ident_start(name[0]),
        forall|k: int| 0 <= k < name.len() ==> ident_char(#[trigger] name[k]),
        builtin(name) is Some,
        !keyword(name),
        name != "string"@,
        name != "seq"@,
        simple_arg(a),
    ensures
        transpiled(name + seq!['('] + a + seq![')']) == Ok::<Seq<char>, Seq<char>>(builtin_text(builtin(name)->0, a)),
{
    let s = name + seq!['('] + a + seq![')'];
    let open = name.len() as int;
    assert(s.subrange(open + 1, s.len() - 1) =~= a);
    lemma_one_arg(s, open, a);
    reveal(arg_is);
    assert forall|k: int| 0 <= k < open implies ident_char(#[trigger] s[k]) by {
        assert(s[k] == name[k]);
    }
    lemma_ident_run(s, 0, open);
    assert(s.subrange(0, open) =~= name);
    assert(ws_end(s, open) == open);
    let kind = builtin(name)->0;
    let lex = lexeme(s, 0);
    assert(lex == (Lexeme::BuiltinCall { kind, open, close: s.len() - 1 }));
    let text = builtin_text(kind, a);
    assert(emitted(s, lex, Seq::empty()) == Ok::<Seq<char>, Seq<char>>(text));
    assert(Seq::<char>::empty() + text =~= text);
    assert(translate(s, s.len() as int, text) == Ok::<Seq<char>, Seq<char>>(text));
}


proof fn lemma_builtin_isblank(a: Seq<char>)
    requires
        simple_arg(a),
    ensures
        transpiled("isBlank("@ + a + ")"@) == Ok::<Seq<char>, Seq<char>>("is_blank("@ + a + ")"@),
{
    reveal_strlit("string");
    reveal_strlit("seq");
    reveal_strlit("isBlank");
    reveal_strlit("isBlank(");
    reveal_strlit(")");
    reveal_strlit("isNotBlank");
    reveal_strlit("toLowerCase");
    reveal_strlit("toUpperCase");
    reveal_strlit("toString");
    reveal_strlit("str");
    reveal_strlit("double");
    reveal_strlit("long");
    reveal_strlit("int");
    reveal_strlit("if");
    reveal_strlit("else");
    reveal_strlit("for");
    reveal_strlit("while");
    reveal_strlit("return");
    reveal_strlit("let");
    reveal_strlit("in");
    reveal_strlit("true");
    reveal_strlit("false");
    reveal_strlit("break");
    reveal_strlit("continue");
    reveal_strlit("loop");
    reveal_strlit("do");
    reveal_strlit("switch");
    reveal_strlit("fn");
    reveal_strlit("throw");
    reveal_strlit("try");
    reveal_strlit("catch");
    lemma_builtin_source("isBlank"@, a);
    assert("isBlank("@ + a + ")"@ =~= "isBlank"@ + seq!['('] + a + seq![')']);
}

proof fn lemma_builtin_isnotblank(a: Seq<char>)
    requires
        simple_arg(a),
    ensures
        transpiled("isNotBlank("@ + a + ")"@) == Ok::<Seq<char>, Seq<char>>("is_not_blank("@ + a + ")"@),
{
    reveal_strlit("string");
    reveal_strlit("seq");
    reveal_strlit("isNotBlank");
    reveal_strlit("isNotBlank(");
    reveal_strlit(")");
    reveal_strlit("isBlank");
    reveal_strlit("toLowerCase");
    reveal_strlit("toUpperCase");
    reveal_strlit("toString");
    reveal_strlit("str");
    reveal_strlit("double");
    reveal_strlit("long");
    reveal_strlit("int");
    reveal_strlit("if");
    reveal_strlit("else");
    reveal_strlit("for");
    reveal_strlit("while");
    reveal_strlit("return");
    reveal_strlit("let");
    reveal_strlit("in");
    reveal_strlit("true");
    reveal_strlit("false");
    reveal_strlit("break");
    reveal_strlit("continue");
    reveal_strlit("loop");
    reveal_strlit("do");
    reveal_strlit("switch");
    reveal_strlit("fn");
    reveal_strlit("throw");
    reveal_strlit("try");
    reveal_strlit("catch");
    lemma_builtin_source("isNotBlank"@, a);
    assert("isNotBlank("@ + a + ")"@ =~= "isNotBlank"@ + seq!['('] + a + seq![')']);
}

proof fn lemma_builtin_tolowercase(a: Seq<char>)
    requires
        simple_arg(a),
    ensures
        transpiled("toLowerCase("@ + a + ")"@) == Ok::<Seq<char>, Seq<char>>("("@ + a + ").to_lower()"@),
{
    reveal_strlit("string");
    reveal_strlit("seq");
    reveal_strlit("toLowerCase");
    reveal_strlit("toLowerCase(");
    reveal_strlit(")");
    reveal_strlit("isBlank");
    reveal_strlit("isNotBlank");
    reveal_strlit("toUpperCase");
    reveal_strlit("toString");
    reveal_strlit("str");
    reveal_strlit("double");
    reveal_strlit("long");
    reveal_strlit("int");
    reveal_strlit("if");
    reveal_strlit("else");
    reveal_strlit("for");
    reveal_strlit("while");
    reveal_strlit("return");
    reveal_strlit("let");
    reveal_strlit("in");
    reveal_strlit("true");
    reveal_strlit("false");
    reveal_strlit("break");
    reveal_strlit("continue");
    reveal_strlit("loop");
    reveal_strlit("do");
    reveal_strlit("switch");
    reveal_strlit("fn");
    reveal_strlit("throw");
    reveal_strlit("try");
    reveal_strlit("catch");
    lemma_builtin_source("toLowerCase"@, a);
    assert("toLowerCase("@ + a + ")"@ =~= "toLowerCase"@ + seq!['('] + a + seq![')']);
}

proof fn lemma_builtin_touppercase(a: Seq<char>)
    requires
        simple_arg(a),
    ensures
        transpiled("toUpperCase("@ + a + ")"@) == Ok::<Seq<char>, Seq<char>>("("@ + a + ").to_upper()"@),
{
    reveal_strlit("string");
    reveal_strlit("seq");
    reveal_strlit("toUpperCase");
    reveal_strlit("toUpperCase(");
    reveal_strlit(")");
    reveal_strlit("isBlank");
    reveal_strlit("isNotBlank");
    reveal_strlit("toLowerCase");
    reveal_strlit("toString");
    reveal_strlit("str");
    reveal_strlit("double");
    reveal_strlit("long");
    reveal_strlit("int");
    reveal_strlit("if");
    reveal_strlit("else");
    reveal_strlit("for");
    reveal_strlit("while");
    reveal_strlit("return");
    reveal_strlit("let");
    reveal_strlit("in");
    reveal_strlit("true");
    reveal_strlit("false");
    reveal_strlit("break");
    reveal_strlit("continue");
    reveal_strlit("loop");
    reveal_strlit("do");
    reveal_strlit("switch");
    reveal_strlit("fn");
    reveal_strlit("throw");
    reveal_strlit("try");
    reveal_strlit("catch");
    lemma_builtin_source("toUpperCase"@, a);
    assert("toUpperCase("@ + a + ")"@ =~= "toUpperCase"@ + seq!['('] + a + seq![')']);
}

proof fn lemma_builtin_tostring(a: Seq<char>)
    requires
        simple_arg(a),
    ensures
        transpiled("toString("@ + a + ")"@) == Ok::<Seq<char>, Seq<char>>("("@ + a + ").to_string()"@),
{
    reveal_strlit("string");
    reveal_strlit("seq");
    reveal_strlit("toString");
    reveal_strlit("toString(");
    reveal_strlit(")");
    reveal_strlit("isBlank");
    reveal_strlit("isNotBlank");
    reveal_strlit("toLowerCase");
    reveal_strlit("toUpperCase");
    reveal_strlit("str");
    reveal_strlit("double");
    reveal_strlit("long");
    reveal_strlit("int");
    reveal_strlit("if");
    reveal_strlit("else");
    reveal_strlit("for");
    reveal_strlit("while");
    reveal_strlit("return");
    reveal_strlit("let");
    reveal_strlit("in");
    reveal_strlit("true");
    reveal_strlit("false");
    reveal_strlit("break");
    reveal_strlit("continue");
    reveal_strlit("loop");
    reveal_strlit("do");
    reveal_strlit("switch");
    reveal_strlit("fn");
    reveal_strlit("throw");
    reveal_strlit("try");
    reveal_strlit("catch");
    lemma_builtin_source("toString"@, a);
    assert("toString("@ + a + ")"@ =~= "toString"@ + seq!['('] + a + seq![')']);
}

proof fn lemma_builtin_str(a: Seq<char>)
    requires
        simple_arg(a),
    ensures
        transpiled("str("@ + a + ")"@) == Ok::<Seq<char>, Seq<char>>("("@ + a + ").to_string()"@),
{
    reveal_strlit("string");
    reveal_strlit("seq");
    reveal_strlit("str");
    reveal_strlit("str(");
    reveal_strlit(")");
    reveal_strlit("isBlank");
    reveal_strlit("isNotBlank");
    reveal_strlit("toLowerCase");
    reveal_strlit("toUpperCase");
    reveal_strlit("toString");
    reveal_strlit("double");
    reveal_strlit("long");
    reveal_strlit("int");
    reveal_strlit("if");
    reveal_strlit("else");
    reveal_strlit("for");
    reveal_strlit("while");
    reveal_strlit("return");
    reveal_strlit("let");
    reveal_strlit("in");
    reveal_strlit("true");
    reveal_strlit("false");
    reveal_strlit("break");
    reveal_strlit("continue");
    reveal_strlit("loop");
    reveal_strlit("do");
    reveal_strlit("switch");
    reveal_strlit("fn");
    reveal_strlit("throw");
    reveal_strlit("try");
    reveal_strlit("catch");
    lemma_builtin_source("str"@, a);
    assert("str("@ + a + ")"@ =~= "str"@ + seq!['('] + a + seq![')']);
}

proof fn lemma_builtin_double(a: Seq<char>)
    requires
        simple_arg(a),
    ensures
        transpiled("double("@ + a + ")"@) == Ok::<Seq<char>, Seq<char>>("av_double("@ + a + ")"@),
{
    reveal_strlit("string");
    reveal_strlit("seq");
    reveal_strlit("double");
    reveal_strlit("double(");
    reveal_strlit(")");
    reveal_strlit("isBlank");
    reveal_strlit("isNotBlank");
    reveal_strlit("toLowerCase");
    reveal_strlit("toUpperCase");
    reveal_strlit("toString");
    reveal_strlit("str");
    reveal_strlit("long");
    reveal_strlit("int");
    reveal_strlit("if");
    reveal_strlit("else");
    reveal_strlit("for");
    reveal_strlit("while");
    reveal_strlit("return");
    reveal_strlit("let");
    reveal_strlit("in");
    reveal_strlit("true");
    reveal_strlit("false");
    reveal_strlit("break");
    reveal_strlit("continue");
    reveal_strlit("loop");
    reveal_strlit("do");
    reveal_strlit("switch");
    reveal_strlit("fn");
    reveal_strlit("throw");
    reveal_strlit("try");
    reveal_strlit("catch");
    lemma_builtin_source("double"@, a);
    assert("double("@ + a + ")"@ =~= "double"@ + seq!['('] + a + seq![')']);
}

proof fn lemma_builtin_long(a: Seq<char>)
    requires
        simple_arg(a),
    ensures
        transpiled("long("@ + a + ")"@) == Ok::<Seq<char>, Seq<char>>("av_long("@ + a + ")"@),
{
    reveal_strlit("string");
    reveal_strlit("seq");
    reveal_strlit("long");
    reveal_strlit("long(");
    reveal_strlit(")");
    reveal_strlit("isBlank");
    reveal_strlit("isNotBlank");
    reveal_strlit("toLowerCase");
    reveal_strlit("toUpperCase");
    reveal_strlit("toString");
    reveal_strlit("str");
    reveal_strlit("double");
    reveal_strlit("int");
    reveal_strlit("if");
    reveal_strlit("else");
    reveal_strlit("for");
    reveal_strlit("while");
    reveal_strlit("return");
    reveal_strlit("let");
    reveal_strlit("in");
    reveal_strlit("true");
    reveal_strlit("false");
    reveal_strlit("break");
    reveal_strlit("continue");
    reveal_strlit("loop");
    reveal_strlit("do");
    reveal_strlit("switch");
    reveal_strlit("fn");
    reveal_strlit("throw");
    reveal_strlit("try");
    reveal_strlit("catch");
    lemma_builtin_source("long"@, a);
    assert("long("@ + a + ")"@ =~= "long"@ + seq!['('] + a + seq![')']);
}

proof fn lemma_builtin_int(a: Seq<char>)
    requires
        simple_arg(a),
    ensures
        transpiled("int("@ + a + ")"@) == Ok::<Seq<char>, Seq<char>>("av_long("@ + a + ")"@),
{
    reveal_strlit("string");
    reveal_strlit("seq");
    reveal_strlit("int");
    reveal_strlit("int(");
    reveal_strlit(")");
    reveal_strlit("isBlank");
    reveal_strlit("isNotBlank");
    reveal_strlit("toLowerCase");
    reveal_strlit("toUpperCase");
    reveal_strlit("toString");
    reveal_strlit("str");
    reveal_strlit("double");
    reveal_strlit("long");
    reveal_strlit("if");
    reveal_strlit("else");
    reveal_strlit("for");
    reveal_strlit("while");
    reveal_strlit("return");
    reveal_strlit("let");
    reveal_strlit("in");
    reveal_strlit("true");
    reveal_strlit("false");
    reveal_strlit("break");
    reveal_strlit("continue");
    reveal_strlit("loop");
    reveal_strlit("do");
    reveal_strlit("switch");
    reveal_strlit("fn");
    reveal_strlit("throw");
    reveal_strlit("try");
    reveal_strlit("catch");
    lemma_builtin_source("int"@, a);
    assert("int("@ + a + ")"@ =~= "int"@ + seq!['('] + a + seq![')']);
}

/// Each built-in function without a namespace becomes the function or method that does the same, for
/// all arguments that stand for themselves.
pub proof fn builtin_functions_keep_their_meaning(a: Seq<char>)
    requires
        simple_arg(a),
    ensures
        transpiled("isBlank("@ + a + ")"@) == Ok::<Seq<char>, Seq<char>>("is_blank("@ + a + ")"@),
        transpiled("isNotBlank("@ + a + ")"@) == Ok::<Seq<char>, Seq<char>>("is_not_blank("@ + a + ")"@),
        transpiled("toLowerCase("@ + a + ")"@) == Ok::<Seq<char>, Seq<char>>("("@ + a + ").to_lower()"@),
        transpiled("toUpperCase("@ + a + ")"@) == Ok::<Seq<char>, Seq<char>>("("@ + a + ").to_upper()"@),
        transpiled("toString("@ + a + ")"@) == Ok::<Seq<char>, Seq<char>>("("@ + a + ").to_string()"@),
        transpiled("str("@ + a + ")"@) == Ok::<Seq<char>, Seq<char>>("("@ + a + ").to_string()"@),
        transpiled("double("@ + a + ")"@) == Ok::<Seq<char>, Seq<char>>("av_double("@ + a + ")"@),
        transpiled("long("@ + a + ")"@) == Ok::<Seq<char>, Seq<char>>("av_long("@ + a + ")"@),
        transpiled("int("@ + a + ")"@) == Ok::<Seq<char>, Seq<char>>("av_long("@ + a + ")"@),
{
    lemma_builtin_isblank(a);
    lemma_builtin_isnotblank(a);
    lemma_builtin_tolowercase(a);
    lemma_builtin_touppercase(a);
    lemma_builtin_tostring(a);
    lemma_builtin_str(a);
    lemma_builtin_double(a);
    lemma_builtin_long(a);
    lemma_builtin_int(a);
}

// ------------------------------------------------------------------ the pieces of a source
/// Whether a character stands for itself in a literal of either quote.
pub open spec fn plain_char(c: char) -> bool {
    c != '\\' && c != '\'' && c != '"' && c != '\n'
}

proof fn lemma_plain_run(s: Seq<char>, i: int, e: int, quote: char)
    requires
        0 <= i <= e < s.len(),
        quote == '\'' || quote == '"',
        forall|k: int| i <= k < e ==> plain_char(#[trigger] s[k]),
    ensures
        literal_rest(s, i, quote) == prepend(s.subrange(i, e), literal_rest(s, e, quote)),
    decreases e - i,
{
    let none = Seq::<char>::empty();
    if i < e {
        assert(plain_char(s[i]));
        lemma_plain_run(s, i + 1, e, quote);
        lemma_prepend_prepend(seq![s[i]], s.subrange(i + 1, e), literal_rest(s, e, quote));
        assert(seq![s[i]] + s.subrange(i + 1, e) =~= s.subrange(i, e));
    } else {
        assert(s.subrange(i, e) =~= none);
        match literal_rest(s, e, quote) {
            Ok((text, end)) => {
                assert(none + text =~= text);
            },
            Err(_) => {},
        }
    }
}

proof fn lemma_literal_behind(quote: char, a: Seq<char>, rest: Seq<char>)
    requires
        quote == '\'' || quote == '"',
        forall|k: int| 0 <= k < a.len() ==> plain_char(#[trigger] a[k]),
        rest.len() > 0,
    ensures
        ({
            let s = seq![quote] + a + rest;
            literal_at(s, 0) == prepend(
                seq!['"'] + a,
                literal_rest(s, 1int + a.len(), quote),
            )
        }),
{
    let s = seq![quote] + a + rest;
    let e = 1int + a.len();
    assert forall|k: int| 1 <= k < e implies plain_char(#[trigger] s[k]) by {
        assert(s[k] == a[k - 1]);
    }
    lemma_plain_run(s, 1, e, quote);
    assert(s.subrange(1, e) =~= a);
    lemma_prepend_prepend(seq!['"'], a, literal_rest(s, e, quote));
}

/// A literal of either quote becomes one in double quotes with the same text; without its end, or
/// with the end of the line before it, it is refused.
pub proof fn literals_get_double_quotes(quote: char, t: Seq<char>, rest: Seq<char>)
    requires
        quote == '\'' || quote == '"',
        forall|k: int| 0 <= k < t.len() ==> plain_char(#[trigger] t[k]),
    ensures
        literal_at(seq![quote] + t + (seq![quote] + rest), 0) == Ok::<
            (Seq<char>, int),
            Seq<char>,
        >((seq!['"'] + t + seq!['"'], 2int + t.len())),
        literal_at(seq![quote] + t + (seq!['\n'] + rest), 0) is Err,
{
    lemma_literal_behind(quote, t, seq![quote] + rest);
    lemma_literal_behind(quote, t, seq!['\n'] + rest);
    let e = 1int + t.len();
    assert((seq![quote] + t + (seq![quote] + rest))[e] == quote);
    assert((seq![quote] + t + (seq!['\n'] + rest))[e] == '\n');
}

/// A double quote in single quotes is escaped, an escaped single quote loses its escape, an escaped
/// double quote keeps it, and so does any other escape.
pub proof fn quotes_in_literals_are_kept(t: Seq<char>, u: Seq<char>, c: char)
    requires
        forall|k: int| 0 <= k < t.len() ==> plain_char(#[trigger] t[k]),
        forall|k: int| 0 <= k < u.len() ==> plain_char(#[trigger] u[k]),
        c != '\'' && c != '"',
    ensures
        literal_at(seq!['\''] + t + (seq!['"'] + u + seq!['\'']), 0) == Ok::<
            (Seq<char>, int),
            Seq<char>,
        >((seq!['"'] + t + seq!['\\', '"'] + u + seq!['"'], 3int + t.len() + u.len())),
        literal_at(seq!['\''] + t + (seq!['\\', '\''] + u + seq!['\'']), 0) == Ok::<
            (Seq<char>, int),
            Seq<char>,
        >((seq!['"'] + t + seq!['\''] + u + seq!['"'], 4int + t.len() + u.len())),
        literal_at(seq!['"'] + t + (seq!['\\', '"'] + u + seq!['"']), 0) == Ok::<
            (Seq<char>, int),
            Seq<char>,
        >((seq!['"'] + t + seq!['\\', '"'] + u + seq!['"'], 4int + t.len() + u.len())),
        literal_at(seq!['"'] + t + (seq!['\\', c] + u + seq!['"']), 0) == Ok::<
            (Seq<char>, int),
            Seq<char>,
        >((seq!['"'] + t + seq!['\\', c] + u + seq!['"'], 4int + t.len() + u.len())),
{
    lemma_literal_with('\'', t, seq!['"'], seq!['\\', '"'], u);
    lemma_literal_with('\'', t, seq!['\\', '\''], seq!['\''], u);
    lemma_literal_with('"', t, seq!['\\', '"'], seq!['\\', '"'], u);
    lemma_literal_with('"', t, seq!['\\', c], seq!['\\', c], u);
}

proof fn lemma_literal_with(
    quote: char,
    t: Seq<char>,
    mark: Seq<char>,
    written: Seq<char>,
    u: Seq<char>,
)
    requires
        quote == '\'' || quote == '"',
        forall|k: int| 0 <= k < t.len() ==> plain_char(#[trigger] t[k]),
        forall|k: int| 0 <= k < u.len() ==> plain_char(#[trigger] u[k]),
        ({
            ||| mark == seq!['"'] && quote == '\'' && written == seq!['\\', '"']
            ||| mark.len() == 2 && mark[0] == '\\' && written == escape(mark[1])
        }),
    ensures
        literal_at(seq![quote] + t + (mark + u + seq![quote]), 0) == Ok::<
            (Seq<char>, int),
            Seq<char>,
        >((seq!['"'] + t + written + u + seq!['"'], 2int + t.len() + mark.len() + u.len())),
{
    let s = seq![quote] + t + (mark + u + seq![quote]);
    let i = 1int + t.len();
    let j = i + mark.len();
    let e = j + u.len();
    lemma_literal_behind(quote, t, mark + u + seq![quote]);
    assert(s[i] == mark[0]);
    if mark.len() == 2 {
        assert(s[i + 1] == mark[1]);
    }
    assert(literal_rest(s, i, quote) == prepend(written, literal_rest(s, j, quote)));
    assert forall|k: int| j <= k < e implies plain_char(#[trigger] s[k]) by {
        assert(s[k] == u[k - j]);
    }
    lemma_plain_run(s, j, e, quote);
    assert(s.subrange(j, e) =~= u);
    assert(s[e] == quote);
    assert(literal_rest(s, e, quote) == Ok::<(Seq<char>, int), Seq<char>>((seq!['"'], e + 1)));
    assert((seq!['"'] + t) + (written + (u + seq!['"'])) =~= seq!['"'] + t + written + u + seq![
        '"',
    ]);
}

proof fn lemma_word_ends(name: Seq<char>, rest: Seq<char>)
    requires
        forall|k: int| 0 <= k < name.len() ==> ident_char(#[trigger] name[k]),
        rest.len() > 0 ==> !ident_char(rest[0]),
    ensures
        ident_end(name + rest, 0) == name.len(),
        (name + rest).subrange(0, name.len() as int) == name,
{
    let s = name + rest;
    let n = name.len() as int;
    assert forall|k: int| 0 <= k < n implies ident_char(#[trigger] s[k]) by {
        assert(s[k] == name[k]);
    }
    assert(rest.len() > 0 ==> s[n] == rest[0]);
    lemma_word_run(s, 0, n);
    assert(s.subrange(0, n) =~= name);
}

proof fn lemma_word_run(s: Seq<char>, i: int, e: int)
    requires
        0 <= i <= e <= s.len(),
        forall|k: int| i <= k < e ==> ident_char(#[trigger] s[k]),
        e < s.len() ==> !ident_char(s[e]),
    ensures
        ident_end(s, i) == e,
    decreases e - i,
{
    if i < e {
        assert(ident_char(s[i]));
        lemma_word_run(s, i + 1, e);
    }
}

/// A word with an equals sign behind it is declared, unless it was with the word before; with two
/// it is compared and stays.
pub proof fn assignments_are_declared(name: Seq<char>, rest: Seq<char>, out: Seq<char>)
    requires
        name.len() > 0,
        ident_start(name[0]),
        forall|k: int| 0 <= k < name.len() ==> ident_char(#[trigger] name[k]),
        rest.len() > 0 ==> rest[0] != '=' && rest[0] != '~' && !is_ws(rest[0]),
    ensures
        ({
            let s = name + (seq!['='] + rest);
            let lex = lexeme(s, 0);
            &&& lex == (Lexeme::Assign { name, next: 1int + name.len() })
            &&& !ends_with_let(out) ==> emitted(s, lex, out) == Ok::<Seq<char>, Seq<char>>(
                "let "@ + name + " = "@,
            )
            &&& ends_with_let(out) ==> emitted(s, lex, out) == Ok::<Seq<char>, Seq<char>>(
                name + " = "@,
            )
        }),
        name != "nil"@ ==> lexeme(name + (seq!['=', '='] + rest), 0) == (Lexeme::Text {
            text: name,
            next: name.len() as int,
        }),
{
    let n = name.len() as int;
    let s = name + (seq!['='] + rest);
    lemma_word_ends(name, seq!['='] + rest);
    assert(s[0] == name[0] && s[n] == '=');
    assert(n + 1 < s.len() ==> s[n + 1] == rest[0]);
    assert(Seq::<char>::empty() + name =~= name);
    let t = name + (seq!['=', '='] + rest);
    lemma_word_ends(name, seq!['=', '='] + rest);
    assert(t[0] == name[0] && t[n] == '=' && t[n + 1] == '=');
    assert(t.subrange(n, n) =~= Seq::<char>::empty());
    assert(name + t.subrange(n, n) =~= name);
}

/// A `let` is seen at the end of what is written, white space aside, where it is a word of its own.
pub proof fn declared_words_are_seen(pre: Seq<char>, post: Seq<char>)
    requires
        blank(post),
    ensures
        pre.len() == 0 || !ident_char(pre.last()) ==> ends_with_let(pre + "let"@ + post),
        pre.len() > 0 && ident_char(pre.last()) ==> !ends_with_let(pre + "let"@ + post),
        pre.len() > 0 && !is_ws(pre.last()) && pre.last() != 't' ==> !ends_with_let(pre + post),
{
    reveal_strlit("let");
    let none = Seq::<char>::empty();
    let t = pre + "let"@;
    assert(t.last() == 't');
    lemma_trim_end_behind(t, post);
    if pre.len() > 0 && !is_ws(pre.last()) {
        lemma_trim_end_behind(pre, post);
    }
    let n = t.len() as int;
    assert(t[n - 3] == 'l' && t[n - 2] == 'e' && t[n - 1] == 't');
    assert(n > 3 ==> t[n - 4] == pre.last());
}

proof fn lemma_trim_end_behind(s: Seq<char>, post: Seq<char>)
    requires
        blank(post),
        s.len() > 0,
        !is_ws(s.last()),
    ensures
        trim_end_of(s + post) == s,
    decreases post.len(),
{
    if post.len() == 0 {
        assert(s + post =~= s);
    } else {
        assert((s + post).last() == post[post.len() - 1]);
        assert((s + post).drop_last() =~= s + post.drop_last());
        lemma_trim_end_behind(s, post.drop_last());
    }
}

/// The word `nil` becomes the unit value.
pub proof fn nil_becomes_unit(rest: Seq<char>)
    requires
        rest.len() > 0 ==> !ident_char(rest[0]) && !is_ws(rest[0]) && rest[0] != '(' && rest[0]
            != '=',
    ensures
        lexeme("nil"@ + rest, 0) == (Lexeme::Text { text: "()"@, next: 3 }),
{
    reveal_strlit("nil");
    reveal_strlit("string");
    reveal_strlit("seq");
    assert("string"@.len() == 6);
    assert("nil"@.len() == 3 && "nil"@[0] == 'n' && "nil"@[1] == 'i' && "nil"@[2] == 'l');
    assert("seq"@[0] == 's');
    lemma_word_ends("nil"@, rest);
    let s = "nil"@ + rest;
    assert(s[0] == 'n');
    assert(rest.len() > 0 ==> s[3] == rest[0]);
}

/// The conditional and the match of patterns are refused, the two operators that begin with a
/// question mark stay.
pub proof fn conditionals_are_refused(rest: Seq<char>)
    ensures
        rest.len() == 0 || (rest[0] != '?' && rest[0] != '.') ==> lexeme(
            seq!['?'] + rest,
            0,
        ) is Fail,
        lexeme(seq!['?', '?'] + rest, 0) == (Lexeme::Text { text: seq!['?', '?'], next: 2 }),
        lexeme(seq!['?', '.'] + rest, 0) == (Lexeme::Text { text: seq!['?', '.'], next: 2 }),
        lexeme(seq!['=', '~'] + rest, 0) is Fail,
{
    assert(rest.len() > 0 ==> (seq!['?'] + rest)[1] == rest[0]);
    assert((seq!['?', '?'] + rest)[0] == '?' && (seq!['?', '?'] + rest)[1] == '?');
    assert((seq!['?', '.'] + rest)[0] == '?' && (seq!['?', '.'] + rest)[1] == '.');
    assert((seq!['=', '~'] + rest)[0] == '=' && (seq!['=', '~'] + rest)[1] == '~');
}

proof fn lemma_block_run(s: Seq<char>, i: int, e: int)
    requires
        0 <= i <= e,
        e + 1 < s.len(),
        forall|k: int| i <= k < e ==> #[trigger] s[k] != '*',
        s[e] == '*',
        s[e + 1] == '/',
    ensures
        block_close(s, i) == Some(e),
    decreases e - i,
{
    if i < e {
        assert(s[i] != '*');
        lemma_block_run(s, i + 1, e);
    }
}

proof fn lemma_block_open(s: Seq<char>, i: int)
    requires
        0 <= i <= s.len(),
        forall|k: int| i <= k < s.len() ==> #[trigger] s[k] != '*',
    ensures
        block_close(s, i) is None,
    decreases s.len() - i,
{
    if i < s.len() {
        assert(s[i] != '*');
        lemma_block_open(s, i + 1);
    }
}

/// A comment between `/*` and `*/` stays, one without its end is refused.
pub proof fn block_comments_stay(body: Seq<char>, rest: Seq<char>)
    requires
        forall|k: int| 0 <= k < body.len() ==> #[trigger] body[k] != '*',
    ensures
        lexeme(seq!['/', '*'] + body + (seq!['*', '/'] + rest), 0) == (Lexeme::Text {
            text: seq!['/', '*'] + body + seq!['*', '/'],
            next: 4int + body.len(),
        }),
        lexeme(seq!['/', '*'] + body, 0) is Fail,
{
    let s = seq!['/', '*'] + body + (seq!['*', '/'] + rest);
    let e = 2int + body.len();
    assert(s[0] == '/' && s[1] == '*' && s[e] == '*' && s[e + 1] == '/');
    assert forall|k: int| 2 <= k < e implies #[trigger] s[k] != '*' by {
        assert(s[k] == body[k - 2]);
    }
    lemma_block_run(s, 2, e);
    assert(s.subrange(0, e + 2) =~= seq!['/', '*'] + body + seq!['*', '/']);
    let t = seq!['/', '*'] + body;
    assert(t[0] == '/' && t[1] == '*');
    assert forall|k: int| 2 <= k < t.len() implies #[trigger] t[k] != '*' by {
        assert(t[k] == body[k - 2]);
    }
    lemma_block_open(t, 2);
}

proof fn lemma_args_deep(s: Seq<char>, i: int, to: int, close: int, start: int)
    requires
        0 <= i <= to <= close <= s.len(),
        forall|k: int| i <= k < to ==> no_cut(#[trigger] s[k]) || s[k] == ',',
    ensures
        args_from(s, i, close, start, 1) == args_from(s, to, close, start, 1),
    decreases to - i,
{
    if i < to {
        assert(no_cut(s[i]) || s[i] == ',');
        lemma_args_deep(s, i + 1, to, close, start);
    }
}

/// What stands in brackets or braces is one argument, commas and all.
pub proof fn brackets_keep_arguments_together(open: char, end: char, t: Seq<char>)
    requires
        (open == '[' && end == ']') || (open == '{' && end == '}'),
        forall|k: int| 0 <= k < t.len() ==> no_cut(#[trigger] t[k]) || t[k] == ',',
    ensures
        ({
            let s = seq!['(', open] + t + seq![end, ')'];
            &&& args_of(s, 0, s.len() - 1) == seq![(1int, s.len() - 1)]
            &&& paren_close(s, 1, 1) == Ok::<int, Seq<char>>(s.len() - 1)
        }),
{
    let s = seq!['(', open] + t + seq![end, ')'];
    let n = t.len() as int;
    let close = s.len() - 1;
    assert(s[1] == open && s[n + 2] == end && s[close] == ')');
    assert forall|k: int| 2 <= k < n + 2 implies no_cut(#[trigger] s[k]) || s[k] == ',' by {
        assert(s[k] == t[k - 2]);
    }
    lemma_args_deep(s, 2, n + 2, close, 1);
    assert(args_from(s, 1, close, 1, 0) == args_from(s, 2, close, 1, 1));
    assert(args_from(s, n + 2, close, 1, 1) == args_from(s, n + 3, close, 1, 0));
    assert(args_from(s, n + 3, close, 1, 0) == nonblank_range(s, 1, close));
    assert(s.subrange(1, close)[0] == open);
    assert(!is_ws(open));
    assert(!blank(s.subrange(1, close)));
    lemma_paren_brackets(s, 2, n + 2, close);
}

proof fn lemma_paren_brackets(s: Seq<char>, i: int, e: int, close: int)
    requires
        2 <= i <= e,
        close == e + 1,
        close < s.len(),
        s[1] == '[' || s[1] == '{',
        s[e] == ']' || s[e] == '}',
        s[close] == ')',
        forall|k: int| 2 <= k < e ==> no_cut(#[trigger] s[k]) || s[k] == ',',
    ensures
        paren_close(s, i, 1) == Ok::<int, Seq<char>>(close),
        i == 2 ==> paren_close(s, 1, 1) == Ok::<int, Seq<char>>(close),
    decreases e - i,
{
    if i < e {
        assert(no_cut(s[i]) || s[i] == ',');
        lemma_paren_brackets(s, i + 1, e, close);
    } else {
        assert(paren_close(s, close, 1) == Ok::<int, Seq<char>>(close));
    }
}

/// What stands in quotes is one argument, whatever it holds.
pub proof fn quotes_keep_arguments_together(quote: char, t: Seq<char>)
    requires
        quote == '\'' || quote == '"',
        forall|k: int| 0 <= k < t.len() ==> plain_char(#[trigger] t[k]),
    ensures
        ({
            let s = seq!['(', quote] + t + seq![quote, ')'];
            &&& args_of(s, 0, s.len() - 1) == seq![(1int, s.len() - 1)]
            &&& paren_close(s, 1, 1) == Ok::<int, Seq<char>>(s.len() - 1)
        }),
{
    let s = seq!['(', quote] + t + seq![quote, ')'];
    let n = t.len() as int;
    let close = s.len() - 1;
    assert(s[1] == quote && s[n + 2] == quote && s[close] == ')');
    assert forall|k: int| 2 <= k < n + 2 implies plain_char(#[trigger] s[k]) by {
        assert(s[k] == t[k - 2]);
    }
    lemma_plain_run(s, 2, n + 2, quote);
    assert(literal_rest(s, n + 2, quote) == Ok::<(Seq<char>, int), Seq<char>>(
        (seq!['"'], n + 3),
    ));
    assert(literal_at(s, 1) matches Ok(p) && p.1 == n + 3);
    assert(args_from(s, 1, close, 1, 0) == args_from(s, n + 3, close, 1, 0));
    assert(args_from(s, n + 3, close, 1, 0) == nonblank_range(s, 1, close));
    assert(s.subrange(1, close)[0] == quote);
    assert(!is_ws(quote));
    assert(!blank(s.subrange(1, close)));
    assert(paren_close(s, 1, 1) == paren_close(s, n + 3, 1));
    assert(paren_close(s, close, 1) == Ok::<int, Seq<char>>(close));
}

/// The name of a script is what follows `@NAME` in a comment, and a script may be cached unless
/// `false` follows `@CACHEABLE`; any other line tells nothing.
pub proof fn headers_are_read_from_comments(header: Header, v: Seq<char>, other: Seq<char>)
    requires
        v.len() > 0,
        !is_ws(v[0]),
        !is_ws(v.last()),
        other.len() > 0,
        !is_ws(other[0]),
        other[0] != '#',
    ensures
        header_line("# @NAME "@ + v, header) == (v, header.1),
        header_line("# @CACHEABLE "@ + v, header) == (header.0, v != "false"@),
        header_line(other, header) == header,
{
    reveal_strlit("# @NAME ");
    reveal_strlit("@NAME ");
    reveal_strlit("NAME ");
    reveal_strlit("NAME");
    reveal_strlit("# @CACHEABLE ");
    reveal_strlit("@CACHEABLE ");
    reveal_strlit("CACHEABLE ");
    reveal_strlit("CACHEABLE");
    lemma_header_value("NAME "@, v);
    lemma_header_value("CACHEABLE "@, v);
    assert("# @NAME "@ =~= seq!['#', ' ', '@'] + "NAME "@);
    assert("# @CACHEABLE "@ =~= seq!['#', ' ', '@'] + "CACHEABLE "@);
    assert("# @NAME "@ + v =~= seq!['#', ' ', '@'] + ("NAME "@ + v));
    assert("# @CACHEABLE "@ + v =~= seq!['#', ' ', '@'] + ("CACHEABLE "@ + v));
    let a = "NAME "@ + v;
    let b = "CACHEABLE "@ + v;
    assert(a.take(4) =~= "NAME"@);
    assert(b.take(9) =~= "CACHEABLE"@);
    assert(b.take(4)[0] == 'C');
    assert("NAME"@[0] == 'N');
    assert(a.skip(4) =~= seq![' '] + v);
    assert(b.skip(9) =~= seq![' '] + v);
    lemma_behind_space(v);
    lemma_ws_end(other, 0);
    assert(ws_end(other, 0) == 0);
    assert(other.skip(0) =~= other);
}

proof fn lemma_behind_space(v: Seq<char>)
    requires
        v.len() > 0,
        !is_ws(v[0]),
        !is_ws(v.last()),
    ensures
        trim_of(seq![' '] + v) == v,
{
    let none = Seq::<char>::empty();
    crate::text::trimming_takes_the_white_space_around(seq![' '], v, none);
    assert(seq![' '] + v + none =~= seq![' '] + v);
}

proof fn lemma_header_value(word: Seq<char>, v: Seq<char>)
    requires
        word.len() > 0,
        !is_ws(word[0]),
        word[0] != '#',
        v.len() > 0,
        !is_ws(v.last()),
    ensures
        ({
            let t = seq!['#', ' ', '@'] + (word + v);
            &&& trim_start_of(t) == t
            &&& t[0] == '#'
            &&& hash_end(t, 0) == 1
            &&& trim_of(t.skip(1)) == seq!['@'] + (word + v)
            &&& trim_of((seq!['@'] + (word + v)).skip(1)) == word + v
        }),
{
    let none = Seq::<char>::empty();
    let t = seq!['#', ' ', '@'] + (word + v);
    assert(t[0] == '#' && t[1] == ' ');
    lemma_ws_end(t, 0);
    assert(ws_end(t, 0) == 0);
    assert(t.skip(0) =~= t);
    assert(hash_end(t, 1) == 1);
    assert(hash_end(t, 0) == 1);
    let m = seq!['@'] + (word + v);
    assert(m.last() == v.last() && m[0] == '@');
    lemma_behind_space(m);
    assert(t.skip(1) =~= seq![' '] + m);
    let w = word + v;
    assert(w.last() == v.last() && w[0] == word[0]);
    assert(m.skip(1) =~= w);
    crate::text::lemma_untouched(w);
}

/// The words of the language that may stand before a parenthesis without being called.
pub open spec fn reserved_words() -> Seq<Seq<char>> {
    seq![
        "if"@,
        "else"@,
        "for"@,
        "while"@,
        "return"@,
        "let"@,
        "in"@,
        "true"@,
        "false"@,
        "break"@,
        "continue"@,
        "loop"@,
        "do"@,
        "switch"@,
        "fn"@,
        "throw"@,
        "try"@,
        "catch"@,
    ]
}

/// Exactly the reserved words are keywords.
pub proof fn keywords_are_the_reserved_words(word: Seq<char>)
    ensures
        keyword(word) == reserved_words().contains(word),
{
    let all = reserved_words();
    assert(all[0] == "if"@);
    assert(all[1] == "else"@);
    assert(all[2] == "for"@);
    assert(all[3] == "while"@);
    assert(all[4] == "return"@);
    assert(all[5] == "let"@);
    assert(all[6] == "in"@);
    assert(all[7] == "true"@);
    assert(all[8] == "false"@);
    assert(all[9] == "break"@);
    assert(all[10] == "continue"@);
    assert(all[11] == "loop"@);
    assert(all[12] == "do"@);
    assert(all[13] == "switch"@);
    assert(all[14] == "fn"@);
    assert(all[15] == "throw"@);
    assert(all[16] == "try"@);
    assert(all[17] == "catch"@);
    if all.contains(word) {
        let i = choose|i: int| 0 <= i < all.len() && all[i] == word;
        assert(0 <= i < 18);
    }
}

/// A function with too few or too many arguments is refused with a message that tells both counts.
pub proof fn counts_are_told(name: Seq<char>, expected: nat, got: nat)
    ensures
        count_message(name, expected, got) == name + " 需要 "@ + decimal(expected)
            + " 个参数，实际 "@ + decimal(got),
{
}

/// The header of a script is read line by line.
pub proof fn headers_are_read_line_by_line(line: Seq<char>, rest: Seq<char>, header: Header)
    requires
        forall|k: int| 0 <= k < line.len() ==> #[trigger] line[k] != '\n',
    ensures
        header_from(line + (seq!['\n'] + rest), 0, header) == header_from(
            rest,
            0,
            header_line(line, header),
        ),
{
    let s = line + (seq!['\n'] + rest);
    let n = line.len() as int;
    assert(s[n] == '\n');
    assert forall|k: int| 0 <= k < n implies #[trigger] s[k] != '\n' by {
        assert(s[k] == line[k]);
    }
    lemma_line_run(s, 0, n);
    assert(s.subrange(0, n) =~= line);
    lemma_header_moved(s, n + 1, rest, 0, header_line(line, header));
}

proof fn lemma_line_run(s: Seq<char>, i: int, e: int)
    requires
        0 <= i <= e < s.len(),
        s[e] == '\n',
        forall|k: int| i <= k < e ==> #[trigger] s[k] != '\n',
    ensures
        line_end(s, i) == e,
    decreases e - i,
{
    if i < e {
        lemma_line_run(s, i + 1, e);
    }
}

proof fn lemma_line_moved(s: Seq<char>, i: int, t: Seq<char>, j: int)
    requires
        0 <= i <= s.len(),
        0 <= j <= t.len(),
        s.len() - i == t.len() - j,
        forall|k: int| j <= k < t.len() ==> #[trigger] t[k] == s[k - j + i],
    ensures
        line_end(s, i) - i == line_end(t, j) - j,
    decreases s.len() - i,
{
    if i < s.len() {
        assert(t[j] == s[i]);
        if s[i] != '\n' {
            lemma_line_moved(s, i + 1, t, j + 1);
        }
    }
}

proof fn lemma_header_moved(s: Seq<char>, i: int, t: Seq<char>, j: int, header: Header)
    requires
        0 <= i,
        0 <= j,
        s.len() - i == t.len() - j,
        forall|k: int| j <= k < t.len() ==> #[trigger] t[k] == s[k - j + i],
    ensures
        header_from(s, i, header) == header_from(t, j, header),
    decreases s.len() + 1 - i,
{
    if i < s.len() {
        lemma_line_moved(s, i, t, j);
        lemma_line_end(s, i);
        lemma_line_end(t, j);
        let e = line_end(s, i);
        let f = line_end(t, j);
        assert(s.subrange(i, e) =~= t.subrange(j, f));
        lemma_header_moved(s, e + 1, t, f + 1, header_line(s.subrange(i, e), header));
    }
}

} // verus!
