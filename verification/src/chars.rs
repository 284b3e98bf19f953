//! The character classes of the language.

use vstd::prelude::*;

verus! {

/// Whether Unicode counts `c` as alphabetic or numeric. This is the name of
/// what `char::is_alphanumeric` returns; nothing else is known of it here.
pub uninterp spec fn unicode_alphanumeric(c: char) -> bool;

/// `char::is_alphanumeric` of std: the result is a function of the character
/// alone, fixed by the Unicode tables that std was built with. Only that is
/// claimed; the verified code asks it about characters beyond ASCII only.
pub assume_specification[ char::is_alphanumeric ](c: char) -> (r: bool)
    ensures
        r == unicode_alphanumeric(c),
;

/// A blank within a line. A newline is no blank: it is a token.
pub open spec fn space(c: char) -> bool {
    c == ' ' || c == '\t' || c == '\r'
}

/// A decimal digit of ASCII.
pub open spec fn digit(c: char) -> bool {
    '0' <= c <= '9'
}

/// A letter of ASCII, of either case.
pub open spec fn letter(c: char) -> bool {
    ('a' <= c <= 'z') || ('A' <= c <= 'Z')
}

/// A character of the first 128.
pub open spec fn ascii(c: char) -> bool {
    c <= '\x7f'
}

/// A letter or a digit: within ASCII the letters and digits, beyond it
/// whatever Unicode counts as alphabetic or numeric.
pub open spec fn alphanumeric(c: char) -> bool {
    if ascii(c) {
        letter(c) || digit(c)
    } else {
        unicode_alphanumeric(c)
    }
}

/// A character that can stand in a name: an underscore, a letter or a digit.
pub open spec fn word(c: char) -> bool {
    c == '_' || alphanumeric(c)
}

/// A character at which the token before it ends.
pub open spec fn separator(c: char) -> bool {
    c == '\n' || c == ':' || c == '(' || c == ')' || c == '\'' || c == '=' || c == '<' || c == '>'
        || c == ';' || c == ',' || c == '+' || c == '-' || c == '*' || c == '/' || c == '^'
        || space(c)
}

/// Tells whether `c` is a blank within a line.
pub fn is_space(c: char) -> (r: bool)
    ensures
        r == space(c),
{
    c == ' ' || c == '\t' || c == '\r'
}

/// Tells whether `c` is a decimal digit of ASCII.
pub fn is_digit(c: char) -> (r: bool)
    ensures
        r == digit(c),
{
    '0' <= c && c <= '9'
}

/// Tells whether `c` can stand in a name.
pub fn is_word(c: char) -> (r: bool)
    ensures
        r == word(c),
{
    if c == '_' {
        true
    } else if c <= '\x7f' {
        ('a' <= c && c <= 'z') || ('A' <= c && c <= 'Z') || ('0' <= c && c <= '9')
    } else {
        c.is_alphanumeric()
    }
}

/// Tells whether `c` ends the token before it.
pub fn is_separator(c: char) -> (r: bool)
    ensures
        r == separator(c),
{
    match c {
        '\n' | ':' | '(' | ')' | '\'' | '=' | '<' | '>' | ';' | ',' | '+' | '-' | '*' | '/'
        | '^' => true,
        ch => is_space(ch),
    }
}

} // verus!
