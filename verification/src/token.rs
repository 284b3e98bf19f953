//! The tokens of the language.

use crate::ast::{annotation, VarRef, VarRefView};
use crate::number::{decimal_text, integer_text};
use crate::reader::LineCol;
use vstd::prelude::*;
use vstd::string::StringExecFns;

verus! {

/// A token.
///
/// Two of them mark exceptional conditions. `Eof` says that the text is used
/// up. `Bad` says that a token could not be made out, and why; the tokens
/// after it can still be read.
#[derive(Clone, Debug, PartialEq, Eq)]
pub enum Token {
    Eof,
    Eol,
    Bad(String),
    Boolean(bool),
    /// A literal with a fraction, as written: digits, a dot, digits. The
    /// library holds no floating point; the value is the decimal number that
    /// the digits spell.
    Double(String),
    Integer(i32),
    Text(String),
    Symbol(VarRef),
    Label(String),
    Comma,
    Semicolon,
    LeftParen,
    RightParen,
    Plus,
    Minus,
    Multiply,
    Divide,
    Modulo,
    Exponent,
    Equal,
    NotEqual,
    Less,
    LessEqual,
    Greater,
    GreaterEqual,
    And,
    Not,
    Or,
    Xor,
    Data,
    Else,
    Elseif,
    End,
    For,
    Goto,
    If,
    Next,
    Step,
    Then,
    To,
    Wend,
    While,
    Dim,
    As,
    BooleanName,
    DoubleName,
    IntegerName,
    TextName,
}

/// A `Token` as a mathematical value.
pub enum TokenView {
    Eof,
    Eol,
    Bad(Seq<char>),
    Boolean(bool),
    Double(Seq<char>),
    Integer(int),
    Text(Seq<char>),
    Symbol(VarRefView),
    Label(Seq<char>),
    Comma,
    Semicolon,
    LeftParen,
    RightParen,
    Plus,
    Minus,
    Multiply,
    Divide,
    Modulo,
    Exponent,
    Equal,
    NotEqual,
    Less,
    LessEqual,
    Greater,
    GreaterEqual,
    And,
    Not,
    Or,
    Xor,
    Data,
    Else,
    Elseif,
    End,
    For,
    Goto,
    If,
    Next,
    Step,
    Then,
    To,
    Wend,
    While,
    Dim,
    As,
    BooleanName,
    DoubleName,
    IntegerName,
    TextName,
}

impl View for Token {
    type V = TokenView;

    open spec fn view(&self) -> TokenView {
        match *self {
            Token::Eof => TokenView::Eof,
            Token::Eol => TokenView::Eol,
            Token::Bad(s) => TokenView::Bad(s@),
            Token::Boolean(b) => TokenView::Boolean(b),
            Token::Double(s) => TokenView::Double(s@),
            Token::Integer(i) => TokenView::Integer(i as int),
            Token::Text(s) => TokenView::Text(s@),
            Token::Symbol(v) => TokenView::Symbol(v@),
            Token::Label(s) => TokenView::Label(s@),
            Token::Comma => TokenView::Comma,
            Token::Semicolon => TokenView::Semicolon,
            Token::LeftParen => TokenView::LeftParen,
            Token::RightParen => TokenView::RightParen,
            Token::Plus => TokenView::Plus,
            Token::Minus => TokenView::Minus,
            Token::Multiply => TokenView::Multiply,
            Token::Divide => TokenView::Divide,
            Token::Modulo => TokenView::Modulo,
            Token::Exponent => TokenView::Exponent,
            Token::Equal => TokenView::Equal,
            Token::NotEqual => TokenView::NotEqual,
            Token::Less => TokenView::Less,
            Token::LessEqual => TokenView::LessEqual,
            Token::Greater => TokenView::Greater,
            Token::GreaterEqual => TokenView::GreaterEqual,
            Token::And => TokenView::And,
            Token::Not => TokenView::Not,
            Token::Or => TokenView::Or,
            Token::Xor => TokenView::Xor,
            Token::Data => TokenView::Data,
            Token::Else => TokenView::Else,
            Token::Elseif => TokenView::Elseif,
            Token::End => TokenView::End,
            Token::For => TokenView::For,
            Token::Goto => TokenView::Goto,
            Token::If => TokenView::If,
            Token::Next => TokenView::Next,
            Token::Step => TokenView::Step,
            Token::Then => TokenView::Then,
            Token::To => TokenView::To,
            Token::Wend => TokenView::Wend,
            Token::While => TokenView::While,
            Token::Dim => TokenView::Dim,
            Token::As => TokenView::As,
            Token::BooleanName => TokenView::BooleanName,
            Token::DoubleName => TokenView::DoubleName,
            Token::IntegerName => TokenView::IntegerName,
            Token::TextName => TokenView::TextName,
        }
    }
}

/// The canonical text of a token: how it is written where a program is shown
/// back. A literal with a fraction is shown as it was written.
pub open spec fn canonical(token: TokenView) -> Seq<char> {
    match token {
        TokenView::Eof => "<<EOF>>"@,
        TokenView::Eol => "<<NEWLINE>>"@,
        TokenView::Bad(s) => "<<"@ + s + ">>"@,
        TokenView::Boolean(false) => "FALSE"@,
        TokenView::Boolean(true) => "TRUE"@,
        TokenView::Double(d) => d,
        TokenView::Integer(i) => decimal_text(i),
        TokenView::Text(t) => t,
        TokenView::Symbol(vref) => vref.name + annotation(vref.vtype),
        TokenView::Label(l) => "@"@ + l,
        TokenView::Comma => ","@,
        TokenView::Semicolon => ";"@,
        TokenView::LeftParen => "("@,
        TokenView::RightParen => ")"@,
        TokenView::Plus => "+"@,
        TokenView::Minus => "-"@,
        TokenView::Multiply => "*"@,
        TokenView::Divide => "/"@,
        TokenView::Modulo => "MOD"@,
        TokenView::Exponent => "^"@,
        TokenView::Equal => "="@,
        TokenView::NotEqual => "<>"@,
        TokenView::Less => "<"@,
        TokenView::LessEqual => "<="@,
        TokenView::Greater => ">"@,
        TokenView::GreaterEqual => ">="@,
        TokenView::And => "AND"@,
        TokenView::Not => "NOT"@,
        TokenView::Or => "OR"@,
        TokenView::Xor => "XOR"@,
        TokenView::Data => "DATA"@,
        TokenView::Else => "ELSE"@,
        TokenView::Elseif => "ELSEIF"@,
        TokenView::End => "END"@,
        TokenView::For => "FOR"@,
        TokenView::Goto => "GOTO"@,
        TokenView::If => "IF"@,
        TokenView::Next => "NEXT"@,
        TokenView::Step => "STEP"@,
        TokenView::Then => "THEN"@,
        TokenView::To => "TO"@,
        TokenView::Wend => "WEND"@,
        TokenView::While => "WHILE"@,
        TokenView::Dim => "DIM"@,
        TokenView::As => "AS"@,
        TokenView::BooleanName => "BOOLEAN"@,
        TokenView::DoubleName => "DOUBLE"@,
        TokenView::IntegerName => "INTEGER"@,
        TokenView::TextName => "STRING"@,
    }
}

impl Token {
    /// The canonical text of the token.
    pub fn to_text(&self) -> (r: String)
        ensures
            r@ == canonical(self@),
    {
        match self {
            Token::Eof => "<<EOF>>".to_owned(),
            Token::Eol => "<<NEWLINE>>".to_owned(),
            Token::Bad(s) => {
                let mut out = "<<".to_owned();
                out.append(s.as_str());
                out.append(">>");
                out
            },
            Token::Boolean(false) => "FALSE".to_owned(),
            Token::Boolean(true) => "TRUE".to_owned(),
            Token::Double(d) => d.clone(),
            Token::Integer(i) => integer_text(*i),
            Token::Text(t) => t.clone(),
            Token::Symbol(vref) => vref.to_text(),
            Token::Label(l) => {
                let mut out = "@".to_owned();
                out.append(l.as_str());
                out
            },
            Token::Comma => ",".to_owned(),
            Token::Semicolon => ";".to_owned(),
            Token::LeftParen => "(".to_owned(),
            Token::RightParen => ")".to_owned(),
            Token::Plus => "+".to_owned(),
            Token::Minus => "-".to_owned(),
            Token::Multiply => "*".to_owned(),
            Token::Divide => "/".to_owned(),
            Token::Modulo => "MOD".to_owned(),
            Token::Exponent => "^".to_owned(),
            Token::Equal => "=".to_owned(),
            Token::NotEqual => "<>".to_owned(),
            Token::Less => "<".to_owned(),
            Token::LessEqual => "<=".to_owned(),
            Token::Greater => ">".to_owned(),
            Token::GreaterEqual => ">=".to_owned(),
            Token::And => "AND".to_owned(),
            Token::Not => "NOT".to_owned(),
            Token::Or => "OR".to_owned(),
            Token::Xor => "XOR".to_owned(),
            Token::Data => "DATA".to_owned(),
            Token::Else => "ELSE".to_owned(),
            Token::Elseif => "ELSEIF".to_owned(),
            Token::End => "END".to_owned(),
            Token::For => "FOR".to_owned(),
            Token::Goto => "GOTO".to_owned(),
            Token::If => "IF".to_owned(),
            Token::Next => "NEXT".to_owned(),
            Token::Step => "STEP".to_owned(),
            Token::Then => "THEN".to_owned(),
            Token::To => "TO".to_owned(),
            Token::Wend => "WEND".to_owned(),
            Token::While => "WHILE".to_owned(),
            Token::Dim => "DIM".to_owned(),
            Token::As => "AS".to_owned(),
            Token::BooleanName => "BOOLEAN".to_owned(),
            Token::DoubleName => "DOUBLE".to_owned(),
            Token::IntegerName => "INTEGER".to_owned(),
            Token::TextName => "STRING".to_owned(),
        }
    }
}

/// A token with the place where it starts and its width.
#[derive(Clone, Debug, PartialEq, Eq)]
pub struct TokenSpan {
    /// The token.
    pub token: Token,
    /// The place where the token starts.
    pub pos: LineCol,
    /// The width of the token, in characters.
    pub length: usize,
}

/// A `TokenSpan` as a mathematical value.
pub struct TokenSpanView {
    pub token: TokenView,
    pub pos: LineCol,
    pub length: usize,
}

impl View for TokenSpan {
    type V = TokenSpanView;

    open spec fn view(&self) -> TokenSpanView {
        TokenSpanView { token: self.token@, pos: self.pos, length: self.length }
    }
}

impl TokenSpan {
    /// The span made of its three parts.
    pub fn new(token: Token, pos: LineCol, length: usize) -> (r: TokenSpan)
        ensures
            r.token == token,
            r.pos == pos,
            r.length == length,
    {
        TokenSpan { token, pos, length }
    }
}

} // verus!
