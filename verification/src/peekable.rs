//! A lexer with one token of look-ahead.

use crate::grammar::read_step;
use crate::lexer::{outcome, Lexer};
use crate::reader::{ReadError, ReadErrorView, Source};
use crate::token::{TokenSpan, TokenSpanView};
use vstd::prelude::*;

verus! {

/// A lexer with look-ahead as a mathematical value: the source it reads and
/// the token it holds back, if any.
pub struct Peekable {
    pub source: Source,
    pub peeked: Option<TokenSpanView>,
}

/// What peeking at the next token of `p` returns, and `p` after it. A token
/// that is held back is shown again; else one is read and held back.
pub open spec fn peek_step(p: Peekable) -> (Result<TokenSpanView, ReadErrorView>, Peekable) {
    match p.peeked {
        Some(span) => (Ok(span), p),
        None => {
            let (r, source) = read_step(p.source);
            match r {
                Ok(span) => (Ok(span), Peekable { source, peeked: Some(span) }),
                Err(e) => (Err(e), Peekable { source, peeked: None }),
            }
        },
    }
}

/// What reading the next token of `p` returns, and `p` after it. A token that
/// is held back is handed out; else one is read.
pub open spec fn take_step(p: Peekable) -> (Result<TokenSpanView, ReadErrorView>, Peekable) {
    match p.peeked {
        Some(span) => (Ok(span), Peekable { source: p.source, peeked: None }),
        None => {
            let (r, source) = read_step(p.source);
            (r, Peekable { source, peeked: None })
        },
    }
}

/// What a call that shows a token returned, as a mathematical value.
pub open spec fn shown(r: Result<&TokenSpan, ReadError>) -> Result<TokenSpanView, ReadErrorView> {
    match r {
        Ok(span) => Ok(span@),
        Err(e) => Err(e@),
    }
}

/// A lexer with one token of look-ahead.
pub struct PeekableLexer {
    lexer: Lexer,
    peeked: Option<TokenSpan>,
}

impl View for PeekableLexer {
    type V = Peekable;

    closed spec fn view(&self) -> Peekable {
        Peekable {
            source: self.lexer@,
            peeked: match self.peeked {
                Some(span) => Some(span@),
                None => None,
            },
        }
    }
}

impl PeekableLexer {
    /// The lexer is consistent: the lexer that it wraps is.
    pub closed spec fn wf(&self) -> bool {
        self.lexer.wf()
    }

    /// Wraps `lexer`, with no token held back.
    pub fn new(lexer: Lexer) -> (r: PeekableLexer)
        requires
            lexer.wf(),
        ensures
            r.wf(),
            r@ == (Peekable { source: lexer@, peeked: None }),
    {
        PeekableLexer { lexer, peeked: None }
    }

    /// Hands out the token that a call of `peek` showed.
    pub fn consume_peeked(&mut self) -> (r: TokenSpan)
        requires
            old(self).wf(),
            old(self)@.peeked is Some,
        ensures
            final(self).wf(),
            Some(r@) == old(self)@.peeked,
            final(self)@ == (Peekable { source: old(self)@.source, peeked: None }),
    {
        self.peeked.take().unwrap()
    }

    /// Shows the next token without taking it. It can be called again and
    /// again before the token is read.
    pub fn peek(&mut self) -> (r: Result<&TokenSpan, ReadError>)
        requires
            old(self).wf(),
        ensures
            final(self).wf(),
            (shown(r), final(self)@) == peek_step(old(self)@),
    {
        if self.peeked.is_none() {
            match self.lexer.read() {
                Ok(span) => {
                    self.peeked = Some(span);
                },
                Err(e) => {
                    return Err(e);
                },
            }
        }
        Ok(self.peeked.as_ref().unwrap())
    }

    /// Reads the next token: the one that was shown, if one was.
    pub fn read(&mut self) -> (r: Result<TokenSpan, ReadError>)
        requires
            old(self).wf(),
        ensures
            final(self).wf(),
            (outcome(r), final(self)@) == take_step(old(self)@),
    {
        match self.peeked.take() {
            Some(span) => Ok(span),
            None => self.lexer.read(),
        }
    }
}

} // verus!
