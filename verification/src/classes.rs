//! The classes of characters that the segments of a key are made of.
//!
//! Of a character of ASCII the library decides by itself. Of any other
//! character it asks the regex crate, whose classes `\d` and `\w` know
//! the digits and the letters of all scripts.

use vstd::prelude::*;

verus! {

/// What the regex crate says of one character: whether the expression
/// `pattern`, compiled by `regex::Regex::new`, finds a match in the text
/// that holds `c` and nothing else (`Regex::is_match`). It is `None` where
/// the crate refuses the pattern.
pub uninterp spec fn regex_finds(pattern: Seq<char>, c: char) -> Option<bool>;

/// Asks the regex crate about one character: compiles `pattern` with
/// `regex::Regex::new` and searches the text made of `c` alone with
/// `Regex::is_match`. Nothing is proved of this function. Its contract
/// gives the answer its name, which rests on the crate's compiling and
/// searching being functions of the pattern and the text alone, and claims
/// no more of it.
#[verifier::external_body]
fn regex_verdict(pattern: &str, c: char) -> (verdict: Option<bool>)
    ensures
        verdict == regex_finds(pattern@, c),
{
    let mut buffer: [u8; 4] = [0u8; 4];
    match regex::Regex::new(pattern) {
        Ok(expression) => Some(expression.is_match(c.encode_utf8(&mut buffer))),
        Err(_) => None,
    }
}

/// A character of ASCII.
pub open spec fn in_ascii(c: char) -> bool {
    c <= '\u{7f}'
}

/// One of `0` to `9`.
pub open spec fn is_ascii_digit(c: char) -> bool {
    '0' <= c && c <= '9'
}

/// A letter of ASCII, one of `0` to `9`, or `_`.
pub open spec fn is_ascii_word(c: char) -> bool {
    is_ascii_digit(c) || ('a' <= c && c <= 'z') || ('A' <= c && c <= 'Z') || c == '_'
}

/// A hexadecimal digit, in either case.
pub open spec fn is_hex_digit(c: char) -> bool {
    is_ascii_digit(c) || ('a' <= c && c <= 'f') || ('A' <= c && c <= 'F')
}

/// Whether `c` is a digit, given what the regex crate said of it: within
/// ASCII the digits are `0` to `9`, whatever was said; outside of ASCII
/// a character is a digit where the crate said so.
pub open spec fn digit_given(c: char, verdict: Option<bool>) -> bool {
    if in_ascii(c) {
        is_ascii_digit(c)
    } else {
        verdict == Some(true)
    }
}

/// Whether `c` may stand in a call's name, given what the regex crate said
/// of it: within ASCII these are the letters, the digits, `_` and `-`,
/// whatever was said; outside of ASCII a character may stand there where
/// the crate said so.
pub open spec fn word_or_dash_given(c: char, verdict: Option<bool>) -> bool {
    if in_ascii(c) {
        is_ascii_word(c) || c == '-'
    } else {
        verdict == Some(true)
    }
}

/// A digit: one of `0` to `9`, or a character outside of ASCII in which
/// the regex crate's `\d` finds a match.
pub open spec fn is_digit(c: char) -> bool {
    digit_given(c, regex_finds("\\d"@, c))
}

/// A character of a call's name: a letter, a digit, `_` or `-`, or a
/// character outside of ASCII in which the regex crate's `\w` finds a
/// match.
pub open spec fn is_word_or_dash(c: char) -> bool {
    word_or_dash_given(c, regex_finds("\\w"@, c))
}

/// Decides whether `c` is a digit, from what the regex crate said of it.
pub fn judge_digit(c: char, verdict: Option<bool>) -> (r: bool)
    ensures
        r == digit_given(c, verdict),
{
    if c <= '\u{7f}' {
        '0' <= c && c <= '9'
    } else {
        match verdict {
            Some(found) => found,
            None => false,
        }
    }
}

/// Decides whether `c` may stand in a call's name, from what the regex
/// crate said of it.
pub fn judge_word_or_dash(c: char, verdict: Option<bool>) -> (r: bool)
    ensures
        r == word_or_dash_given(c, verdict),
{
    if c <= '\u{7f}' {
        ('0' <= c && c <= '9') || ('a' <= c && c <= 'z') || ('A' <= c && c <= 'Z') || c == '_'
            || c == '-'
    } else {
        match verdict {
            Some(found) => found,
            None => false,
        }
    }
}

/// Whether `c` is a digit. The regex crate is asked only about a
/// character outside of ASCII.
pub fn digit(c: char) -> (r: bool)
    ensures
        r == is_digit(c),
{
    if c <= '\u{7f}' {
        judge_digit(c, None)
    } else {
        judge_digit(c, regex_verdict("\\d", c))
    }
}

/// Whether `c` may stand in a call's name. The regex crate is asked only
/// about a character outside of ASCII.
pub fn word_or_dash(c: char) -> (r: bool)
    ensures
        r == is_word_or_dash(c),
{
    if c <= '\u{7f}' {
        judge_word_or_dash(c, None)
    } else {
        judge_word_or_dash(c, regex_verdict("\\w", c))
    }
}

/// Whether `c` is a hexadecimal digit.
pub fn hex_digit(c: char) -> (r: bool)
    ensures
        r == is_hex_digit(c),
{
    ('0' <= c && c <= '9') || ('a' <= c && c <= 'f') || ('A' <= c && c <= 'F')
}

} // verus!
