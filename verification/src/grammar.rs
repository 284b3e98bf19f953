//! The lexical grammar: what the next token of a text is, as a function of
//! the text and of the index at which reading starts.

use crate::ast::{annotated, VarRefView, VarType};
use crate::chars::{digit, separator, space, word};
use crate::keyword::{keyword, token_of, upper};
use crate::number::decimal_value;
use crate::reader::{failed, failure_of, moved, place, ReadErrorView, Source};
use crate::token::{TokenSpanView, TokenView};
use vstd::prelude::*;

verus! {

/// The kinds of character of which the lexer reads a whole run.
pub enum CharClass {
    /// Blanks within a line.
    Space,
    /// Characters of names.
    Word,
    /// Decimal digits.
    Digit,
    /// Anything but a separator: what is skipped after a bad token.
    Joined,
    /// Anything but a newline: what a remark holds.
    Line,
}

/// Whether `c` is of the class `class`.
pub open spec fn within(class: CharClass, c: char) -> bool {
    match class {
        CharClass::Space => space(c),
        CharClass::Word => word(c),
        CharClass::Digit => digit(c),
        CharClass::Joined => !separator(c),
        CharClass::Line => c != '\n',
    }
}

/// Where the run of characters of `class` that starts at `from` ends: the
/// index of the first character at or after `from` that is not of the class,
/// or the length of the text.
pub open spec fn run_end(text: Seq<char>, from: int, class: CharClass) -> int
    decreases text.len() - from,
{
    if 0 <= from < text.len() && within(class, text[from]) {
        run_end(text, from + 1, class)
    } else {
        from
    }
}

/// What reading one token gives.
pub struct Lexed {
    /// The token.
    pub token: TokenView,
    /// The index of the character whose place the token carries.
    pub at: int,
    /// The width of the token.
    pub length: int,
    /// The index of the first character that was not taken.
    pub end: int,
    /// Whether the lexer had to look beyond the last character of the text,
    /// so that how the text ends decides what is returned.
    pub probed: bool,
}

/// The end of the text, at the place that one more character would take.
pub open spec fn eof(text: Seq<char>) -> Lexed {
    Lexed {
        token: TokenView::Eof,
        at: text.len() as int,
        length: 0,
        end: text.len() as int,
        probed: true,
    }
}

/// A token that is the one character at `at`.
pub open spec fn single(token: TokenView, at: int) -> Lexed {
    Lexed { token, at, length: 1, end: at + 1, probed: false }
}

/// A token that is the characters from `at` up to `end`, where the lexer
/// stopped at the character at `end`.
pub open spec fn scanned(text: Seq<char>, token: TokenView, at: int, end: int) -> Lexed {
    Lexed { token, at, length: end - at, end, probed: end >= text.len() }
}

/// A bad token that starts at `at`, found when the characters before `resume`
/// were taken. The characters from `resume` on are skipped up to the next
/// separator, which is left in place; the width is one more than their number.
pub open spec fn bad(text: Seq<char>, message: Seq<char>, at: int, resume: int) -> Lexed {
    let end = run_end(text, resume, CharClass::Joined);
    Lexed {
        token: TokenView::Bad(message),
        at,
        length: 1 + end - resume,
        end,
        probed: end >= text.len(),
    }
}

/// What a remark that goes on at `from` ends in: the newline that closes its
/// line, or the end of the text.
pub open spec fn rest_of_line(text: Seq<char>, from: int) -> Lexed {
    let n = run_end(text, from, CharClass::Line);
    if n >= text.len() {
        eof(text)
    } else {
        single(TokenView::Eol, n)
    }
}

/// The inside of a quoted text.
pub struct Quoted {
    /// The characters that the literal stands for.
    pub content: Seq<char>,
    /// The index behind the closing quote, or the length of the text.
    pub end: int,
    /// Whether the closing quote was found.
    pub closed: bool,
}

/// The inside of a quoted text from index `j` on, closed by `quote`. A
/// backslash stands for the character behind it, whatever that is; a
/// backslash that ends the text leaves the literal open.
pub open spec fn quoted(text: Seq<char>, j: int, quote: char) -> Quoted
    decreases text.len() - j,
{
    if j < 0 || j >= text.len() {
        Quoted { content: Seq::empty(), end: text.len() as int, closed: false }
    } else if text[j] == '\\' {
        if j + 1 >= text.len() {
            Quoted { content: Seq::empty(), end: text.len() as int, closed: false }
        } else {
            let rest = quoted(text, j + 2, quote);
            Quoted { content: seq![text[j + 1]] + rest.content, end: rest.end, closed: rest.closed }
        }
    } else if text[j] == quote {
        Quoted { content: Seq::empty(), end: j + 1, closed: true }
    } else {
        let rest = quoted(text, j + 1, quote);
        Quoted { content: seq![text[j]] + rest.content, end: rest.end, closed: rest.closed }
    }
}

/// The quoted text that opens at `i`. Its width is that of its content and
/// the two quotes.
pub open spec fn string(text: Seq<char>, i: int) -> Lexed {
    let q = quoted(text, i + 1, text[i]);
    if q.closed {
        Lexed {
            token: TokenView::Text(q.content),
            at: i,
            length: q.content.len() as int + 2,
            end: q.end,
            probed: false,
        }
    } else {
        bad(text, "Incomplete string due to EOF: "@ + q.content, i, text.len() as int)
    }
}

/// The relational operator that opens at `i` with `<` or `>`.
pub open spec fn operator(text: Seq<char>, i: int) -> Lexed {
    let more = i + 1 < text.len();
    if text[i] == '<' && more && text[i + 1] == '>' {
        Lexed { token: TokenView::NotEqual, at: i, length: 2, end: i + 2, probed: false }
    } else if text[i] == '<' && more && text[i + 1] == '=' {
        Lexed { token: TokenView::LessEqual, at: i, length: 2, end: i + 2, probed: false }
    } else if text[i] == '>' && more && text[i + 1] == '=' {
        Lexed { token: TokenView::GreaterEqual, at: i, length: 2, end: i + 2, probed: false }
    } else if text[i] == '<' {
        scanned(text, TokenView::Less, i, i + 1)
    } else {
        scanned(text, TokenView::Greater, i, i + 1)
    }
}

/// The label that opens at `i` with `@`.
pub open spec fn label(text: Seq<char>, i: int) -> Lexed {
    let n = run_end(text, i + 1, CharClass::Word);
    if n < text.len() && !separator(text[n]) {
        bad(text, "Unexpected character in label: "@.push(text[n]), i, n + 1)
    } else if n == i + 1 {
        bad(text, "Empty label name"@, i, n)
    } else {
        scanned(text, TokenView::Label(text.subrange(i + 1, n)), i, n)
    }
}

/// The number that opens at `i` with a digit: digits, then perhaps a dot and
/// more digits, up to a separator or the end of the text.
pub open spec fn number(text: Seq<char>, i: int) -> Lexed {
    let a = run_end(text, i + 1, CharClass::Digit);
    let dotted = a < text.len() && text[a] == '.';
    let b = if dotted {
        run_end(text, a + 1, CharClass::Digit)
    } else {
        a
    };
    let literal = text.subrange(i, b);
    if dotted && b < text.len() && text[b] == '.' {
        bad(text, "Too many dots in numeric literal"@, i, b + 1)
    } else if b < text.len() && !separator(text[b]) {
        bad(text, "Unexpected character in numeric literal: "@.push(text[b]), i, b + 1)
    } else if dotted && b == a + 1 {
        bad(text, "Unknown character: ."@, i, b)
    } else if dotted {
        scanned(text, TokenView::Double(literal), i, b)
    } else if decimal_value(literal) <= i32::MAX {
        scanned(text, TokenView::Integer(decimal_value(literal)), i, b)
    } else {
        bad(
            text,
            "Bad integer "@ + literal + ": number too large to fit in target type"@,
            i,
            b,
        )
    }
}

/// The word that stands from `i` up to `n` with no annotation behind it: a
/// reserved word where its upper case spells one, else a name. `REM` opens a
/// remark, which ends with its line.
pub open spec fn bare_word(text: Seq<char>, i: int, n: int) -> Lexed {
    let name = text.subrange(i, n);
    match keyword(upper(name)) {
        Some(k) => match token_of(k) {
            Some(token) => scanned(text, token, i, n),
            None => rest_of_line(text, n),
        },
        None => scanned(
            text,
            TokenView::Symbol(VarRefView { name, vtype: VarType::Auto }),
            i,
            n,
        ),
    }
}

/// The name or reserved word that opens at `i`. A name with an annotation
/// behind it is a name, whatever it spells.
pub open spec fn symbol(text: Seq<char>, i: int) -> Lexed {
    let n = run_end(text, i + 1, CharClass::Word);
    if n >= text.len() || separator(text[n]) {
        bare_word(text, i, n)
    } else {
        match annotated(text[n]) {
            Some(vtype) => Lexed {
                token: TokenView::Symbol(VarRefView { name: text.subrange(i, n), vtype }),
                at: i,
                length: n - i + 1,
                end: n + 1,
                probed: false,
            },
            None => bad(text, "Unexpected character in symbol: "@.push(text[n]), i, n + 1),
        }
    }
}

/// The token that is the character `c` alone, if it is one.
pub open spec fn punctuation(c: char) -> Option<TokenView> {
    if c == '\n' || c == ':' {
        Some(TokenView::Eol)
    } else if c == ';' {
        Some(TokenView::Semicolon)
    } else if c == ',' {
        Some(TokenView::Comma)
    } else if c == '(' {
        Some(TokenView::LeftParen)
    } else if c == ')' {
        Some(TokenView::RightParen)
    } else if c == '+' {
        Some(TokenView::Plus)
    } else if c == '-' {
        Some(TokenView::Minus)
    } else if c == '*' {
        Some(TokenView::Multiply)
    } else if c == '/' {
        Some(TokenView::Divide)
    } else if c == '^' {
        Some(TokenView::Exponent)
    } else if c == '=' {
        Some(TokenView::Equal)
    } else {
        None
    }
}

/// The token that opens at `i`, where the character at `i` is no blank.
pub open spec fn token_at(text: Seq<char>, i: int) -> Lexed {
    let c = text[i];
    if punctuation(c) is Some {
        single(punctuation(c).unwrap(), i)
    } else if c == '\'' {
        rest_of_line(text, i + 1)
    } else if c == '"' {
        string(text, i)
    } else if c == '<' || c == '>' {
        operator(text, i)
    } else if c == '@' {
        label(text, i)
    } else if digit(c) {
        number(text, i)
    } else if word(c) {
        symbol(text, i)
    } else {
        bad(text, "Unknown character: "@.push(c), i, i + 1)
    }
}

/// The next token of `text` for a lexer that stands at `from`: blanks are
/// skipped, and what follows them decides.
pub open spec fn lex(text: Seq<char>, from: int) -> Lexed {
    let k = run_end(text, from, CharClass::Space);
    if k >= text.len() {
        eof(text)
    } else {
        token_at(text, k)
    }
}

/// The tokens of `text` for a lexer that stands at `from`, one after the
/// other, up to the first `Eof`.
pub open spec fn tokens(text: Seq<char>, from: int) -> Seq<Lexed>
    decreases text.len() - from,
{
    let l = lex(text, from);
    if l.token is Eof || l.end <= from || l.end > text.len() {
        seq![l]
    } else {
        seq![l] + tokens(text, l.end)
    }
}

/// The token of `l` with its place in `text` and its width.
pub open spec fn span_of(text: Seq<char>, l: Lexed) -> TokenSpanView {
    TokenSpanView { token: l.token, pos: place(text, l.at), length: l.length as usize }
}

/// What a lexer over `before` returns for the token `l`, and the source
/// after it. A source that ends in a failure gives the failure where `l`
/// could only be made out by looking beyond the text; it is then used up.
pub open spec fn delivered(before: Source, l: Lexed) -> (
    Result<TokenSpanView, ReadErrorView>,
    Source,
) {
    if l.probed && !(before.ending is Eof) {
        (Err(failure_of(before)), failed(before))
    } else {
        (Ok(span_of(before.text, l)), moved(before, l.end))
    }
}

/// What reading one token from `before` returns, and the source after it.
pub open spec fn read_step(before: Source) -> (Result<TokenSpanView, ReadErrorView>, Source) {
    delivered(before, lex(before.text, before.offset))
}

/// The run that starts at `from` ends at `end` where every character between
/// them is of the class and the one at `end`, if there is one, is not.
pub proof fn lemma_run_end(text: Seq<char>, from: int, class: CharClass, end: int)
    requires
        0 <= from <= end <= text.len(),
        forall|k: int| from <= k < end ==> within(class, #[trigger] text[k]),
        end == text.len() || !within(class, text[end]),
    ensures
        run_end(text, from, class) == end,
    decreases end - from,
{
    if from < end {
        lemma_run_end(text, from + 1, class, end);
    }
}

/// A run ends at or after its start and within the text, holds characters of
/// its class only, and stops at one that is not.
pub proof fn lemma_run_end_is_end(text: Seq<char>, from: int, class: CharClass)
    requires
        0 <= from <= text.len(),
    ensures
        from <= run_end(text, from, class) <= text.len(),
        forall|k: int| from <= k < run_end(text, from, class) ==> within(class, #[trigger] text[k]),
        run_end(text, from, class) == text.len() || !within(
            class,
            text[run_end(text, from, class)],
        ),
    decreases text.len() - from,
{
    if from < text.len() && within(class, text[from]) {
        lemma_run_end_is_end(text, from + 1, class);
    }
}

} // verus!
