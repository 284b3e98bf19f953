//! The lexer: reads a source of characters one token at a time.

use crate::ast::{VarRef, VarType};
use crate::chars::{digit, is_digit, is_separator, is_space, is_word, separator};
use crate::decode::source_of;
use crate::grammar::{
    bad, delivered, label, lemma_run_end, lemma_run_end_is_end, number, operator, quoted,
    read_step, rest_of_line, run_end, string, symbol, within, CharClass, Lexed,
};
use crate::keyword::{uppercase, Keyword};
use crate::number::{lemma_decimal_value_nonnegative, parse_integer};
use crate::peekable::{Peekable, PeekableLexer};
use crate::reader::{
    failed, failure_of, lemma_place_bounds, moved, place, upcoming, CharReader, CharSpan, Ending,
    LineCol, ReadError, ReadErrorView, Source, Upcoming,
};
use crate::text::{push_chars, string_of};
use crate::token::{Token, TokenSpan, TokenSpanView};
use vstd::pervasive::unreached;
use vstd::prelude::*;
use vstd::string::StringExecFns;

verus! {

/// What a call of the lexer returned, as a mathematical value.
pub open spec fn outcome(r: Result<TokenSpan, ReadError>) -> Result<TokenSpanView, ReadErrorView> {
    match r {
        Ok(span) => Ok(span@),
        Err(e) => Err(e@),
    }
}

/// Whether `r` and the source `after` are what a lexer over `before` owes for
/// the token `l`.
pub open spec fn delivers(
    before: Source,
    l: Lexed,
    r: Result<TokenSpan, ReadError>,
    after: Source,
) -> bool {
    (outcome(r), after) == delivered(before, l)
}

/// Whether `first` is the character at index `i` of the text of `s`, and `s`
/// stands right behind it: the state in which a token that opens with `first`
/// is read.
pub open spec fn opened(s: Source, first: CharSpan, i: int) -> bool {
    &&& 0 <= i < s.text.len()
    &&& s.offset == i + 1
    &&& first.ch == s.text[i]
    &&& first.pos == place(s.text, i)
}

/// Where the two runs of digits of a number end, from what a scan of it has
/// seen: digits from `i` up to `a`, then, where `dotted`, a dot at `a` and
/// digits up to `b`, and at `b` the end of the text or something that is
/// no digit.
proof fn lemma_number_scan(text: Seq<char>, i: int, a: int, b: int, dotted: bool)
    requires
        0 <= i < a <= b <= text.len(),
        forall|k: int| i + 1 <= k < a ==> digit(#[trigger] text[k]),
        !dotted ==> a == b,
        dotted ==> a < b && text[a] == '.',
        forall|k: int| a < k < b ==> digit(#[trigger] text[k]),
        b == text.len() || !digit(text[b]),
        !dotted ==> b == text.len() || text[b] != '.',
    ensures
        run_end(text, i + 1, CharClass::Digit) == a,
        dotted == (a < text.len() && text[a] == '.'),
        dotted ==> run_end(text, a + 1, CharClass::Digit) == b,
{
    lemma_run_end(text, i + 1, CharClass::Digit, a);
    if dotted {
        lemma_run_end(text, a + 1, CharClass::Digit, b);
    }
}

/// A lexer over a source of characters.
pub struct Lexer {
    input: CharReader,
}

impl View for Lexer {
    type V = Source;

    closed spec fn view(&self) -> Source {
        self.input@
    }
}

impl Lexer {
    /// The lexer is consistent: its reader is.
    pub closed spec fn wf(&self) -> bool {
        self.input.wf()
    }

    /// A lexer stands within its text, which is short enough to count its
    /// places.
    pub proof fn lemma_wf(&self)
        requires
            self.wf(),
        ensures
            0 <= self@.offset <= self@.text.len() < usize::MAX,
    {
        self.input.lemma_wf();
    }

    /// A lexer at the start of the text that the bytes `input` hold.
    pub fn from(input: &[u8]) -> (r: Lexer)
        requires
            input@.len() < usize::MAX,
        ensures
            r.wf(),
            r@ == source_of(input@, Ending::Eof),
    {
        Lexer { input: CharReader::from(input) }
    }

    /// A lexer that reads from `input`, from where `input` stands.
    pub fn from_reader(input: CharReader) -> (r: Lexer)
        requires
            input.wf(),
        ensures
            r.wf(),
            r@ == input@,
    {
        Lexer { input }
    }

    /// Takes the failure that the source ends in.
    fn fail(&mut self) -> (e: ReadError)
        requires
            old(self).wf(),
            upcoming(old(self)@) is Failure,
        ensures
            final(self).wf(),
            e@ == failure_of(old(self)@),
            final(self)@ == failed(old(self)@),
    {
        match self.input.next() {
            Some(Err(e)) => e,
            _ => unreached(),
        }
    }

    /// Makes the bad token that starts at `first_pos` and says `msg`, after
    /// skipping the characters up to the next separator.
    fn handle_bad_read(&mut self, msg: String, first_pos: LineCol, Ghost(at): Ghost<int>) -> (r:
        Result<TokenSpan, ReadError>)
        requires
            old(self).wf(),
            first_pos == place(old(self)@.text, at),
        ensures
            final(self).wf(),
            delivers(
                old(self)@,
                bad(old(self)@.text, msg@, at, old(self)@.offset),
                r,
                final(self)@,
            ),
    {
        let ghost before = self@;
        let mut len: usize = 1;
        proof {
            self.lemma_wf();
        }
        loop
            invariant
                self.wf(),
                before == old(self)@,
                first_pos == place(before.text, at),
                0 <= before.offset <= self@.offset <= before.text.len() < usize::MAX,
                self@ == moved(before, before.offset + len - 1),
                forall|k: int|
                    before.offset <= k < self@.offset ==> within(
                        CharClass::Joined,
                        #[trigger] before.text[k],
                    ),
            decreases before.text.len() - self@.offset,
        {
            match self.input.peek() {
                Upcoming::Char(c) => {
                    if is_separator(c) {
                        proof {
                            lemma_run_end(
                                before.text,
                                before.offset,
                                CharClass::Joined,
                                self@.offset,
                            );
                        }
                        return Ok(TokenSpan::new(Token::Bad(msg), first_pos, len));
                    }
                    self.input.next();
                    len = len + 1;
                },
                Upcoming::Failure => {
                    proof {
                        lemma_run_end(
                            before.text,
                            before.offset,
                            CharClass::Joined,
                            self@.offset,
                        );
                    }
                    return Err(self.fail());
                },
                Upcoming::End => {
                    proof {
                        lemma_run_end(
                            before.text,
                            before.offset,
                            CharClass::Joined,
                            self@.offset,
                        );
                    }
                    return Ok(TokenSpan::new(Token::Bad(msg), first_pos, len));
                },
            }
        }
    }

    /// Reads the number whose first digit, `first`, was taken.
    fn consume_number(&mut self, first: CharSpan, Ghost(i): Ghost<int>) -> (r: Result<
        TokenSpan,
        ReadError,
    >)
        requires
            old(self).wf(),
            opened(old(self)@, first, i),
            digit(first.ch),
        ensures
            final(self).wf(),
            delivers(old(self)@, number(old(self)@.text, i), r, final(self)@),
    {
        let ghost before = self@;
        let ghost mut a: int = i + 1;
        let mut s: Vec<char> = Vec::new();
        let mut found_dot = false;
        s.push(first.ch);
        proof {
            self.lemma_wf();
        }
        loop
            invariant
                self.wf(),
                before == old(self)@,
                opened(before, first, i),
                digit(first.ch),
                i + 1 <= a <= self@.offset <= before.text.len() < usize::MAX,
                self@ == moved(before, self@.offset),
                s@ =~= before.text.subrange(i, self@.offset),
                forall|k: int| i + 1 <= k < a ==> digit(#[trigger] before.text[k]),
                !found_dot ==> a == self@.offset,
                found_dot ==> a < self@.offset && before.text[a] == '.',
                forall|k: int| a < k < self@.offset ==> digit(#[trigger] before.text[k]),
            ensures
                self@.offset == before.text.len() || separator(before.text[self@.offset]),
                self@.offset == before.text.len() ==> before.ending is Eof,
            decreases before.text.len() - self@.offset,
        {
            match self.input.peek() {
                Upcoming::Char(ch) => {
                    if ch == '.' {
                        if found_dot {
                            proof {
                                lemma_number_scan(before.text, i, a, self@.offset, found_dot);
                            }
                            self.input.next();
                            return self.handle_bad_read(
                                "Too many dots in numeric literal".to_owned(),
                                first.pos,
                                Ghost(i),
                            );
                        }
                        self.input.next();
                        s.push(ch);
                        found_dot = true;
                    } else if is_digit(ch) {
                        self.input.next();
                        s.push(ch);
                        proof {
                            if !found_dot {
                                a = a + 1;
                            }
                        }
                    } else if is_separator(ch) {
                        break ;
                    } else {
                        proof {
                            lemma_number_scan(before.text, i, a, self@.offset, found_dot);
                        }
                        self.input.next();
                        let mut msg = "Unexpected character in numeric literal: ".to_owned();
                        msg.push(ch);
                        return self.handle_bad_read(msg, first.pos, Ghost(i));
                    }
                },
                Upcoming::Failure => {
                    proof {
                        lemma_number_scan(before.text, i, a, self@.offset, found_dot);
                        lemma_run_end(
                            before.text,
                            before.text.len() as int,
                            CharClass::Joined,
                            before.text.len() as int,
                        );
                    }
                    return Err(self.fail());
                },
                Upcoming::End => {
                    break ;
                },
            }
        }
        proof {
            lemma_number_scan(before.text, i, a, self@.offset, found_dot);
        }
        if found_dot {
            if s[s.len() - 1] == '.' {
                return self.handle_bad_read("Unknown character: .".to_owned(), first.pos, Ghost(i));
            }
            let token_len: usize = s.len();
            Ok(TokenSpan::new(Token::Double(string_of(&s)), first.pos, token_len))
        } else {
            proof {
                lemma_decimal_value_nonnegative(s@);
            }
            match parse_integer(&s) {
                Some(value) => {
                    let token_len: usize = s.len();
                    Ok(TokenSpan::new(Token::Integer(value), first.pos, token_len))
                },
                None => {
                    let mut msg = "Bad integer ".to_owned();
                    push_chars(&mut msg, &s);
                    msg.append(": number too large to fit in target type");
                    self.handle_bad_read(msg, first.pos, Ghost(i))
                },
            }
        }
    }

    /// Reads the relational operator whose first character, `first`, was
    /// taken.
    fn consume_operator(&mut self, first: CharSpan, Ghost(i): Ghost<int>) -> (r: Result<
        TokenSpan,
        ReadError,
    >)
        requires
            old(self).wf(),
            opened(old(self)@, first, i),
            first.ch == '<' || first.ch == '>',
        ensures
            final(self).wf(),
            delivers(old(self)@, operator(old(self)@.text, i), r, final(self)@),
    {
        proof {
            self.lemma_wf();
        }
        match self.input.peek() {
            Upcoming::Failure => Err(self.fail()),
            Upcoming::Char(c) => {
                if first.ch == '<' && c == '>' {
                    self.input.next();
                    Ok(TokenSpan::new(Token::NotEqual, first.pos, 2))
                } else if first.ch == '<' && c == '=' {
                    self.input.next();
                    Ok(TokenSpan::new(Token::LessEqual, first.pos, 2))
                } else if first.ch == '>' && c == '=' {
                    self.input.next();
                    Ok(TokenSpan::new(Token::GreaterEqual, first.pos, 2))
                } else if first.ch == '<' {
                    Ok(TokenSpan::new(Token::Less, first.pos, 1))
                } else {
                    Ok(TokenSpan::new(Token::Greater, first.pos, 1))
                }
            },
            Upcoming::End => {
                if first.ch == '<' {
                    Ok(TokenSpan::new(Token::Less, first.pos, 1))
                } else {
                    Ok(TokenSpan::new(Token::Greater, first.pos, 1))
                }
            },
        }
    }

    /// Reads the name or reserved word whose first character, `first`, was
    /// taken. A name may have the annotation of a type behind it.
    fn consume_symbol(&mut self, first: CharSpan, Ghost(i): Ghost<int>) -> (r: Result<
        TokenSpan,
        ReadError,
    >)
        requires
            old(self).wf(),
            opened(old(self)@, first, i),
        ensures
            final(self).wf(),
            delivers(old(self)@, symbol(old(self)@.text, i), r, final(self)@),
    {
        let ghost before = self@;
        let mut s: Vec<char> = Vec::new();
        s.push(first.ch);
        proof {
            self.lemma_wf();
        }
        loop
            invariant
                self.wf(),
                before == old(self)@,
                opened(before, first, i),
                i + 1 <= self@.offset <= before.text.len() < usize::MAX,
                self@ == moved(before, self@.offset),
                s@ =~= before.text.subrange(i, self@.offset),
                forall|k: int|
                    i + 1 <= k < self@.offset ==> within(CharClass::Word, #[trigger] before.text[k]),
            ensures
                self@.offset == run_end(before.text, i + 1, CharClass::Word),
                self@.offset == before.text.len() || separator(before.text[self@.offset]),
                self@.offset == before.text.len() ==> before.ending is Eof,
            decreases before.text.len() - self@.offset,
        {
            proof {
                if self@.offset == before.text.len() || !within(
                    CharClass::Word,
                    before.text[self@.offset],
                ) {
                    lemma_run_end(before.text, i + 1, CharClass::Word, self@.offset);
                    lemma_run_end(
                        before.text,
                        before.text.len() as int,
                        CharClass::Line,
                        before.text.len() as int,
                    );
                }
            }
            match self.input.peek() {
                Upcoming::Char(ch) => {
                    if is_word(ch) {
                        self.input.next();
                        s.push(ch);
                    } else if is_separator(ch) {
                        break ;
                    } else {
                        self.input.next();
                        match VarType::of_annotation(ch) {
                            Some(vtype) => {
                                let token_len: usize = s.len() + 1;
                                let name = string_of(&s);
                                return Ok(
                                    TokenSpan::new(
                                        Token::Symbol(VarRef { name, vtype }),
                                        first.pos,
                                        token_len,
                                    ),
                                );
                            },
                            None => {
                                let mut msg = "Unexpected character in symbol: ".to_owned();
                                msg.push(ch);
                                return self.handle_bad_read(msg, first.pos, Ghost(i));
                            },
                        }
                    }
                },
                Upcoming::Failure => {
                    return Err(self.fail());
                },
                Upcoming::End => {
                    break ;
                },
            }
        }
        let token_len: usize = s.len();
        let folded = uppercase(&s);
        match Keyword::lookup(&folded) {
            Some(k) => match k.token() {
                Some(token) => Ok(TokenSpan::new(token, first.pos, token_len)),
                None => self.consume_rest_of_line(),
            },
            None => {
                let name = string_of(&s);
                Ok(
                    TokenSpan::new(
                        Token::Symbol(VarRef { name, vtype: VarType::Auto }),
                        first.pos,
                        token_len,
                    ),
                )
            },
        }
    }

    /// Reads the quoted text whose opening quote, `delim`, was taken. The
    /// same character closes it; a backslash stands for the character behind
    /// it.
    fn consume_text(&mut self, delim: CharSpan, Ghost(i): Ghost<int>) -> (r: Result<
        TokenSpan,
        ReadError,
    >)
        requires
            old(self).wf(),
            opened(old(self)@, delim, i),
        ensures
            final(self).wf(),
            delivers(old(self)@, string(old(self)@.text, i), r, final(self)@),
    {
        let ghost before = self@;
        let ghost whole = quoted(before.text, i + 1, delim.ch);
        let mut s: Vec<char> = Vec::new();
        proof {
            self.lemma_wf();
        }
        loop
            invariant
                self.wf(),
                before == old(self)@,
                opened(before, delim, i),
                whole == quoted(before.text, i + 1, delim.ch),
                i + 1 <= self@.offset <= before.text.len() < usize::MAX,
                self@ == moved(before, self@.offset),
                s@.len() <= self@.offset - (i + 1),
                whole.content =~= s@ + quoted(before.text, self@.offset, delim.ch).content,
                whole.end == quoted(before.text, self@.offset, delim.ch).end,
                whole.closed == quoted(before.text, self@.offset, delim.ch).closed,
            decreases before.text.len() - self@.offset,
        {
            let ghost j = self@.offset;
            match self.input.peek() {
                Upcoming::Char(ch) => {
                    if ch == '\\' {
                        self.input.next();
                        match self.input.peek() {
                            Upcoming::Char(escaped) => {
                                self.input.next();
                                s.push(escaped);
                                assert(whole.content =~= s@ + quoted(
                                    before.text,
                                    j + 2,
                                    delim.ch,
                                ).content);
                            },
                            Upcoming::Failure => {
                                proof {
                                    lemma_run_end(
                                        before.text,
                                        before.text.len() as int,
                                        CharClass::Joined,
                                        before.text.len() as int,
                                    );
                                }
                                return Err(self.fail());
                            },
                            Upcoming::End => {
                                let mut msg = "Incomplete string due to EOF: ".to_owned();
                                push_chars(&mut msg, &s);
                                assert(whole.content =~= s@);
                                return self.handle_bad_read(msg, delim.pos, Ghost(i));
                            },
                        }
                    } else if ch == delim.ch {
                        self.input.next();
                        let token_len: usize = s.len() + 2;
                        assert(whole.content =~= s@);
                        return Ok(TokenSpan::new(Token::Text(string_of(&s)), delim.pos, token_len));
                    } else {
                        self.input.next();
                        s.push(ch);
                        assert(whole.content =~= s@ + quoted(before.text, j + 1, delim.ch).content);
                    }
                },
                Upcoming::Failure => {
                    proof {
                        lemma_run_end(
                            before.text,
                            before.text.len() as int,
                            CharClass::Joined,
                            before.text.len() as int,
                        );
                    }
                    return Err(self.fail());
                },
                Upcoming::End => {
                    let mut msg = "Incomplete string due to EOF: ".to_owned();
                    push_chars(&mut msg, &s);
                    assert(whole.content =~= s@);
                    return self.handle_bad_read(msg, delim.pos, Ghost(i));
                },
            }
        }
    }

    /// Reads the label whose opening `@`, `first`, was taken.
    fn consume_label(&mut self, first: CharSpan, Ghost(i): Ghost<int>) -> (r: Result<
        TokenSpan,
        ReadError,
    >)
        requires
            old(self).wf(),
            opened(old(self)@, first, i),
        ensures
            final(self).wf(),
            delivers(old(self)@, label(old(self)@.text, i), r, final(self)@),
    {
        let ghost before = self@;
        let mut s: Vec<char> = Vec::new();
        proof {
            self.lemma_wf();
        }
        loop
            invariant
                self.wf(),
                before == old(self)@,
                opened(before, first, i),
                i + 1 <= self@.offset <= before.text.len() < usize::MAX,
                self@ == moved(before, self@.offset),
                s@ =~= before.text.subrange(i + 1, self@.offset),
                forall|k: int|
                    i + 1 <= k < self@.offset ==> within(CharClass::Word, #[trigger] before.text[k]),
            ensures
                self@.offset == run_end(before.text, i + 1, CharClass::Word),
                self@.offset == before.text.len() || separator(before.text[self@.offset]),
                self@.offset == before.text.len() ==> before.ending is Eof,
            decreases before.text.len() - self@.offset,
        {
            proof {
                if self@.offset == before.text.len() || !within(
                    CharClass::Word,
                    before.text[self@.offset],
                ) {
                    lemma_run_end(before.text, i + 1, CharClass::Word, self@.offset);
                }
            }
            match self.input.peek() {
                Upcoming::Char(ch) => {
                    if is_word(ch) {
                        self.input.next();
                        s.push(ch);
                    } else if is_separator(ch) {
                        break ;
                    } else {
                        self.input.next();
                        let mut msg = "Unexpected character in label: ".to_owned();
                        msg.push(ch);
                        return self.handle_bad_read(msg, first.pos, Ghost(i));
                    }
                },
                Upcoming::Failure => {
                    return Err(self.fail());
                },
                Upcoming::End => {
                    break ;
                },
            }
        }
        if s.len() == 0 {
            return self.handle_bad_read("Empty label name".to_owned(), first.pos, Ghost(i));
        }
        let token_len: usize = s.len() + 1;
        Ok(TokenSpan::new(Token::Label(string_of(&s)), first.pos, token_len))
    }

    /// Skips the rest of the line, which holds a remark, and returns what it
    /// ends in: the newline, or the end of the text.
    fn consume_rest_of_line(&mut self) -> (r: Result<TokenSpan, ReadError>)
        requires
            old(self).wf(),
        ensures
            final(self).wf(),
            delivers(
                old(self)@,
                rest_of_line(old(self)@.text, old(self)@.offset),
                r,
                final(self)@,
            ),
    {
        let ghost before = self@;
        proof {
            self.lemma_wf();
        }
        loop
            invariant
                self.wf(),
                before == old(self)@,
                0 <= before.offset <= self@.offset <= before.text.len() < usize::MAX,
                self@ == moved(before, self@.offset),
                forall|k: int|
                    before.offset <= k < self@.offset ==> within(
                        CharClass::Line,
                        #[trigger] before.text[k],
                    ),
            decreases before.text.len() - self@.offset,
        {
            proof {
                if self@.offset == before.text.len() || before.text[self@.offset] == '\n' {
                    lemma_run_end(before.text, before.offset, CharClass::Line, self@.offset);
                }
                lemma_place_bounds(before.text, self@.offset);
            }
            match self.input.next() {
                None => {
                    let last_pos = self.input.next_pos();
                    return Ok(TokenSpan::new(Token::Eof, last_pos, 0));
                },
                Some(Ok(ch_span)) => {
                    if ch_span.ch == '\n' {
                        return Ok(TokenSpan::new(Token::Eol, ch_span.pos, 1));
                    }
                },
                Some(Err(e)) => {
                    return Err(e);
                },
            }
        }
    }

    /// Skips the blanks before the next token and takes its first character;
    /// `None` where the text ends first.
    pub fn advance_and_read_next(&mut self) -> (r: Result<Option<CharSpan>, ReadError>)
        requires
            old(self).wf(),
        ensures
            final(self).wf(),
            ({
                let before = old(self)@;
                let k = run_end(before.text, before.offset, CharClass::Space);
                if k < before.text.len() {
                    &&& r == Ok::<Option<CharSpan>, ReadError>(
                        Some(CharSpan { ch: before.text[k], pos: place(before.text, k) }),
                    )
                    &&& final(self)@ == moved(before, k + 1)
                } else if before.ending is Eof {
                    &&& r == Ok::<Option<CharSpan>, ReadError>(None)
                    &&& final(self)@ == moved(before, before.text.len() as int)
                } else {
                    &&& r matches Err(e)
                    &&& e@ == failure_of(before)
                    &&& final(self)@ == failed(before)
                }
            }),
    {
        let ghost before = self@;
        proof {
            self.lemma_wf();
        }
        loop
            invariant
                self.wf(),
                before == old(self)@,
                0 <= before.offset <= self@.offset <= before.text.len() < usize::MAX,
                self@ == moved(before, self@.offset),
                forall|k: int|
                    before.offset <= k < self@.offset ==> within(
                        CharClass::Space,
                        #[trigger] before.text[k],
                    ),
            decreases before.text.len() - self@.offset,
        {
            proof {
                if self@.offset == before.text.len() || !within(
                    CharClass::Space,
                    before.text[self@.offset],
                ) {
                    lemma_run_end(before.text, before.offset, CharClass::Space, self@.offset);
                }
            }
            match self.input.next() {
                Some(Ok(ch_span)) => {
                    if !is_space(ch_span.ch) {
                        return Ok(Some(ch_span));
                    }
                },
                Some(Err(e)) => {
                    return Err(e);
                },
                None => {
                    return Ok(None);
                },
            }
        }
    }

    /// Reads the next token.
    ///
    /// The result is an error only where the source fails. The end of the
    /// text and a token that cannot be made out are tokens themselves, `Eof`
    /// and `Bad`.
    pub fn read(&mut self) -> (r: Result<TokenSpan, ReadError>)
        requires
            old(self).wf(),
        ensures
            final(self).wf(),
            (outcome(r), final(self)@) == read_step(old(self)@),
    {
        let ghost before = self@;
        let ghost k = run_end(before.text, before.offset, CharClass::Space);
        proof {
            self.lemma_wf();
            lemma_run_end_is_end(before.text, before.offset, CharClass::Space);
            lemma_place_bounds(before.text, before.text.len() as int);
        }
        let ch_span = match self.advance_and_read_next() {
            Ok(Some(ch_span)) => ch_span,
            Ok(None) => {
                let last_pos = self.input.next_pos();
                return Ok(TokenSpan::new(Token::Eof, last_pos, 0));
            },
            Err(e) => {
                return Err(e);
            },
        };
        match ch_span.ch {
            '\n' | ':' => Ok(TokenSpan::new(Token::Eol, ch_span.pos, 1)),
            '\'' => self.consume_rest_of_line(),
            '"' => self.consume_text(ch_span, Ghost(k)),
            ';' => Ok(TokenSpan::new(Token::Semicolon, ch_span.pos, 1)),
            ',' => Ok(TokenSpan::new(Token::Comma, ch_span.pos, 1)),
            '(' => Ok(TokenSpan::new(Token::LeftParen, ch_span.pos, 1)),
            ')' => Ok(TokenSpan::new(Token::RightParen, ch_span.pos, 1)),
            '+' => Ok(TokenSpan::new(Token::Plus, ch_span.pos, 1)),
            '-' => Ok(TokenSpan::new(Token::Minus, ch_span.pos, 1)),
            '*' => Ok(TokenSpan::new(Token::Multiply, ch_span.pos, 1)),
            '/' => Ok(TokenSpan::new(Token::Divide, ch_span.pos, 1)),
            '^' => Ok(TokenSpan::new(Token::Exponent, ch_span.pos, 1)),
            '=' => Ok(TokenSpan::new(Token::Equal, ch_span.pos, 1)),
            '<' | '>' => self.consume_operator(ch_span, Ghost(k)),
            '@' => self.consume_label(ch_span, Ghost(k)),
            ch => {
                if is_digit(ch) {
                    self.consume_number(ch_span, Ghost(k))
                } else if is_word(ch) {
                    self.consume_symbol(ch_span, Ghost(k))
                } else {
                    let mut msg = "Unknown character: ".to_owned();
                    msg.push(ch);
                    self.handle_bad_read(msg, ch_span.pos, Ghost(k))
                }
            },
        }
    }

    /// This lexer with one token of look-ahead.
    pub fn peekable(self) -> (r: PeekableLexer)
        requires
            self.wf(),
        ensures
            r.wf(),
            r@ == (Peekable { source: self@, peeked: None }),
    {
        PeekableLexer::new(self)
    }
}

} // verus!
