//! The reserved words of the language, and letter case.

use crate::chars::ascii;
use crate::text::{chars_of, spells, string_of};
use crate::token::{Token, TokenView};
use vstd::prelude::*;

verus! {

/// The text `s` in upper case as Unicode defines it. This is the name of what
/// `str::to_uppercase` returns; nothing else is known of it here.
pub uninterp spec fn unicode_upper(s: Seq<char>) -> Seq<char>;

/// `str::to_uppercase` of std: the result is a function of the text alone,
/// fixed by the Unicode tables that std was built with. Only that is claimed;
/// the verified code asks it about texts that go beyond ASCII only.
pub assume_specification[ str::to_uppercase ](s: &str) -> (r: String)
    ensures
        r@ == unicode_upper(s@),
;

/// The capital of a small letter of ASCII; any other character as it is.
pub open spec fn upper_letter(c: char) -> char {
    if 'a' <= c <= 'z' {
        (c as int - 32) as char
    } else {
        c
    }
}

/// Whether `s` holds characters of ASCII only.
pub open spec fn all_ascii(s: Seq<char>) -> bool {
    forall|i: int| 0 <= i < s.len() ==> ascii(#[trigger] s[i])
}

/// The text `s` with every small letter of ASCII replaced by its capital.
pub open spec fn ascii_upper(s: Seq<char>) -> Seq<char> {
    Seq::new(s.len(), |i: int| upper_letter(s[i]))
}

/// The text `s` in upper case: letter by letter within ASCII, as Unicode
/// defines it for a text that goes beyond.
pub open spec fn upper(s: Seq<char>) -> Seq<char> {
    if all_ascii(s) {
        ascii_upper(s)
    } else {
        unicode_upper(s)
    }
}

/// The text `name` in upper case.
pub fn uppercase(name: &Vec<char>) -> (r: Vec<char>)
    ensures
        r@ == upper(name@),
{
    let mut out: Vec<char> = Vec::new();
    let mut i: usize = 0;
    while i < name.len()
        invariant
            i <= name.len(),
            all_ascii(name@.take(i as int)),
            out@ == ascii_upper(name@.take(i as int)),
        decreases name.len() - i,
    {
        let c = name[i];
        if c > '\x7f' {
            assert(!ascii(name@[i as int]));
            let folded = string_of(name).as_str().to_uppercase();
            return chars_of(folded.as_str());
        }
        let u = if 'a' <= c && c <= 'z' {
            (c as u8 - 32) as char
        } else {
            c
        };
        out.push(u);
        i = i + 1;
        assert(out@ =~= ascii_upper(name@.take(i as int)));
    }
    assert(name@.take(i as int) =~= name@);
    out
}

/// A reserved word.
#[derive(Clone, Copy, Debug, PartialEq, Eq, Structural)]
pub enum Keyword {
    /// `AND`
    And,
    /// `AS`
    As,
    /// `BOOLEAN`
    BooleanName,
    /// `DATA`
    Data,
    /// `DIM`
    Dim,
    /// `DOUBLE`
    DoubleName,
    /// `ELSE`
    Else,
    /// `ELSEIF`
    Elseif,
    /// `END`
    End,
    /// `FALSE`
    False,
    /// `FOR`
    For,
    /// `GOTO`
    Goto,
    /// `IF`
    If,
    /// `INTEGER`
    IntegerName,
    /// `MOD`
    Modulo,
    /// `NEXT`
    Next,
    /// `NOT`
    Not,
    /// `OR`
    Or,
    /// `REM`
    Rem,
    /// `STEP`
    Step,
    /// `STRING`
    TextName,
    /// `THEN`
    Then,
    /// `TO`
    To,
    /// `TRUE`
    True,
    /// `WEND`
    Wend,
    /// `WHILE`
    While,
    /// `XOR`
    Xor,
}

/// How the reserved word `k` is spelled, in upper case.
pub open spec fn spelling(k: Keyword) -> Seq<char> {
    match k {
        Keyword::And => "AND"@,
        Keyword::As => "AS"@,
        Keyword::BooleanName => "BOOLEAN"@,
        Keyword::Data => "DATA"@,
        Keyword::Dim => "DIM"@,
        Keyword::DoubleName => "DOUBLE"@,
        Keyword::Else => "ELSE"@,
        Keyword::Elseif => "ELSEIF"@,
        Keyword::End => "END"@,
        Keyword::False => "FALSE"@,
        Keyword::For => "FOR"@,
        Keyword::Goto => "GOTO"@,
        Keyword::If => "IF"@,
        Keyword::IntegerName => "INTEGER"@,
        Keyword::Modulo => "MOD"@,
        Keyword::Next => "NEXT"@,
        Keyword::Not => "NOT"@,
        Keyword::Or => "OR"@,
        Keyword::Rem => "REM"@,
        Keyword::Step => "STEP"@,
        Keyword::TextName => "STRING"@,
        Keyword::Then => "THEN"@,
        Keyword::To => "TO"@,
        Keyword::True => "TRUE"@,
        Keyword::Wend => "WEND"@,
        Keyword::While => "WHILE"@,
        Keyword::Xor => "XOR"@,
    }
}

/// The reserved word that `word` spells, if it spells one. The match is
/// exact: `word` is expected in upper case.
pub open spec fn keyword(word: Seq<char>) -> Option<Keyword> {
    if word == spelling(Keyword::And) {
        Some(Keyword::And)
    } else if word == spelling(Keyword::As) {
        Some(Keyword::As)
    } else if word == spelling(Keyword::BooleanName) {
        Some(Keyword::BooleanName)
    } else if word == spelling(Keyword::Data) {
        Some(Keyword::Data)
    } else if word == spelling(Keyword::Dim) {
        Some(Keyword::Dim)
    } else if word == spelling(Keyword::DoubleName) {
        Some(Keyword::DoubleName)
    } else if word == spelling(Keyword::Else) {
        Some(Keyword::Else)
    } else if word == spelling(Keyword::Elseif) {
        Some(Keyword::Elseif)
    } else if word == spelling(Keyword::End) {
        Some(Keyword::End)
    } else if word == spelling(Keyword::False) {
        Some(Keyword::False)
    } else if word == spelling(Keyword::For) {
        Some(Keyword::For)
    } else if word == spelling(Keyword::Goto) {
        Some(Keyword::Goto)
    } else if word == spelling(Keyword::If) {
        Some(Keyword::If)
    } else if word == spelling(Keyword::IntegerName) {
        Some(Keyword::IntegerName)
    } else if word == spelling(Keyword::Modulo) {
        Some(Keyword::Modulo)
    } else if word == spelling(Keyword::Next) {
        Some(Keyword::Next)
    } else if word == spelling(Keyword::Not) {
        Some(Keyword::Not)
    } else if word == spelling(Keyword::Or) {
        Some(Keyword::Or)
    } else if word == spelling(Keyword::Rem) {
        Some(Keyword::Rem)
    } else if word == spelling(Keyword::Step) {
        Some(Keyword::Step)
    } else if word == spelling(Keyword::TextName) {
        Some(Keyword::TextName)
    } else if word == spelling(Keyword::Then) {
        Some(Keyword::Then)
    } else if word == spelling(Keyword::To) {
        Some(Keyword::To)
    } else if word == spelling(Keyword::True) {
        Some(Keyword::True)
    } else if word == spelling(Keyword::Wend) {
        Some(Keyword::Wend)
    } else if word == spelling(Keyword::While) {
        Some(Keyword::While)
    } else if word == spelling(Keyword::Xor) {
        Some(Keyword::Xor)
    } else {
        None
    }
}

/// The token that the reserved word `k` stands for. `REM` stands for none: it
/// opens a remark.
pub open spec fn token_of(k: Keyword) -> Option<TokenView> {
    match k {
        Keyword::And => Some(TokenView::And),
        Keyword::As => Some(TokenView::As),
        Keyword::BooleanName => Some(TokenView::BooleanName),
        Keyword::Data => Some(TokenView::Data),
        Keyword::Dim => Some(TokenView::Dim),
        Keyword::DoubleName => Some(TokenView::DoubleName),
        Keyword::Else => Some(TokenView::Else),
        Keyword::Elseif => Some(TokenView::Elseif),
        Keyword::End => Some(TokenView::End),
        Keyword::False => Some(TokenView::Boolean(false)),
        Keyword::For => Some(TokenView::For),
        Keyword::Goto => Some(TokenView::Goto),
        Keyword::If => Some(TokenView::If),
        Keyword::IntegerName => Some(TokenView::IntegerName),
        Keyword::Modulo => Some(TokenView::Modulo),
        Keyword::Next => Some(TokenView::Next),
        Keyword::Not => Some(TokenView::Not),
        Keyword::Or => Some(TokenView::Or),
        Keyword::Rem => None,
        Keyword::Step => Some(TokenView::Step),
        Keyword::TextName => Some(TokenView::TextName),
        Keyword::Then => Some(TokenView::Then),
        Keyword::To => Some(TokenView::To),
        Keyword::True => Some(TokenView::Boolean(true)),
        Keyword::Wend => Some(TokenView::Wend),
        Keyword::While => Some(TokenView::While),
        Keyword::Xor => Some(TokenView::Xor),
    }
}

impl Keyword {
    /// The reserved word that `word` spells, if it spells one. The match is
    /// exact: `word` is expected in upper case.
    pub fn lookup(word: &Vec<char>) -> (r: Option<Keyword>)
        ensures
            r == keyword(word@),
    {
        if spells(word, "AND") {
            Some(Keyword::And)
        } else if spells(word, "AS") {
            Some(Keyword::As)
        } else if spells(word, "BOOLEAN") {
            Some(Keyword::BooleanName)
        } else if spells(word, "DATA") {
            Some(Keyword::Data)
        } else if spells(word, "DIM") {
            Some(Keyword::Dim)
        } else if spells(word, "DOUBLE") {
            Some(Keyword::DoubleName)
        } else if spells(word, "ELSE") {
            Some(Keyword::Else)
        } else if spells(word, "ELSEIF") {
            Some(Keyword::Elseif)
        } else if spells(word, "END") {
            Some(Keyword::End)
        } else if spells(word, "FALSE") {
            Some(Keyword::False)
        } else if spells(word, "FOR") {
            Some(Keyword::For)
        } else if spells(word, "GOTO") {
            Some(Keyword::Goto)
        } else if spells(word, "IF") {
            Some(Keyword::If)
        } else if spells(word, "INTEGER") {
            Some(Keyword::IntegerName)
        } else if spells(word, "MOD") {
            Some(Keyword::Modulo)
        } else if spells(word, "NEXT") {
            Some(Keyword::Next)
        } else if spells(word, "NOT") {
            Some(Keyword::Not)
        } else if spells(word, "OR") {
            Some(Keyword::Or)
        } else if spells(word, "REM") {
            Some(Keyword::Rem)
        } else if spells(word, "STEP") {
            Some(Keyword::Step)
        } else if spells(word, "STRING") {
            Some(Keyword::TextName)
        } else if spells(word, "THEN") {
            Some(Keyword::Then)
        } else if spells(word, "TO") {
            Some(Keyword::To)
        } else if spells(word, "TRUE") {
            Some(Keyword::True)
        } else if spells(word, "WEND") {
            Some(Keyword::Wend)
        } else if spells(word, "WHILE") {
            Some(Keyword::While)
        } else if spells(word, "XOR") {
            Some(Keyword::Xor)
        } else {
            None
        }
    }

    /// The token that the reserved word stands for. `REM` stands for none: it
    /// opens a remark.
    pub fn token(self) -> (r: Option<Token>)
        ensures
            r is Some == token_of(self) is Some,
            r matches Some(t) ==> t@ == token_of(self).unwrap(),
    {
        match self {
            Keyword::And => Some(Token::And),
            Keyword::As => Some(Token::As),
            Keyword::BooleanName => Some(Token::BooleanName),
            Keyword::Data => Some(Token::Data),
            Keyword::Dim => Some(Token::Dim),
            Keyword::DoubleName => Some(Token::DoubleName),
            Keyword::Else => Some(Token::Else),
            Keyword::Elseif => Some(Token::Elseif),
            Keyword::End => Some(Token::End),
            Keyword::False => Some(Token::Boolean(false)),
            Keyword::For => Some(Token::For),
            Keyword::Goto => Some(Token::Goto),
            Keyword::If => Some(Token::If),
            Keyword::IntegerName => Some(Token::IntegerName),
            Keyword::Modulo => Some(Token::Modulo),
            Keyword::Next => Some(Token::Next),
            Keyword::Not => Some(Token::Not),
            Keyword::Or => Some(Token::Or),
            Keyword::Rem => None,
            Keyword::Step => Some(Token::Step),
            Keyword::TextName => Some(Token::TextName),
            Keyword::Then => Some(Token::Then),
            Keyword::To => Some(Token::To),
            Keyword::True => Some(Token::Boolean(true)),
            Keyword::Wend => Some(Token::Wend),
            Keyword::While => Some(Token::While),
            Keyword::Xor => Some(Token::Xor),
        }
    }
}

} // verus!
