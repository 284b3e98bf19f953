//! The source of characters: a text that is handed out one character at a
//! time, each with its place, and that ends either cleanly or in a failure.

use crate::decode::{decode, invalid_data_error, source_of};
use vstd::prelude::*;

verus! {

/// A place in a text: a line and a column, both counted from one.
#[derive(Clone, Copy, Debug, PartialEq, Eq, Structural)]
pub struct LineCol {
    /// The line, from one.
    pub line: usize,
    /// The column within the line, from one, in characters.
    pub col: usize,
}

/// A character and the place where it stands.
#[derive(Clone, Copy, Debug, PartialEq, Eq, Structural)]
pub struct CharSpan {
    /// The character.
    pub ch: char,
    /// Its place.
    pub pos: LineCol,
}

/// The broad reason of a failure to read.
#[derive(Clone, Copy, Debug, PartialEq, Eq, Structural)]
pub enum ErrorKind {
    /// The bytes read were not valid text.
    InvalidData,
    /// Anything else.
    Other,
}

/// A failure to read from the source. It is fatal: no token stands for it.
#[derive(Clone, Debug, PartialEq, Eq)]
pub struct ReadError {
    /// The broad reason.
    pub kind: ErrorKind,
    /// What the source said of it.
    pub message: String,
}

/// A `ReadError` as a mathematical value.
pub struct ReadErrorView {
    pub kind: ErrorKind,
    pub message: Seq<char>,
}

impl View for ReadError {
    type V = ReadErrorView;

    open spec fn view(&self) -> ReadErrorView {
        ReadErrorView { kind: self.kind, message: self.message@ }
    }
}

/// How a source ends once its characters are used up.
pub enum Ending {
    /// Cleanly: there is no more text.
    Eof,
    /// In a failure that has not been reported yet.
    Failure(ReadErrorView),
    /// In a failure that was reported: the source is being read after it.
    Consumed,
}

/// A source as a mathematical value: its whole text, how many characters of it
/// were handed out, and how it ends.
pub struct Source {
    pub text: Seq<char>,
    pub offset: int,
    pub ending: Ending,
}

/// What a source hands out next.
#[derive(Clone, Copy, Debug, PartialEq, Eq, Structural)]
pub enum Upcoming {
    /// This character.
    Char(char),
    /// Nothing: the text ended cleanly.
    End,
    /// A failure.
    Failure,
}

/// The line of the character at index `i` of `text`: one more than the number
/// of newlines before it.
pub open spec fn line_at(text: Seq<char>, i: int) -> int
    decreases i,
{
    if i <= 0 || i > text.len() {
        1
    } else if text[i - 1] == '\n' {
        line_at(text, i - 1) + 1
    } else {
        line_at(text, i - 1)
    }
}

/// The column of the character at index `i` of `text`: one more than the
/// number of characters between it and the newline before it. Every character
/// but the newline, a tab too, is one column wide.
pub open spec fn col_at(text: Seq<char>, i: int) -> int
    decreases i,
{
    if i <= 0 || i > text.len() {
        1
    } else if text[i - 1] == '\n' {
        1
    } else {
        col_at(text, i - 1) + 1
    }
}

/// The place of the character at index `i` of `text`; for `i == text.len()`,
/// the place that one more character would take.
pub open spec fn place(text: Seq<char>, i: int) -> LineCol {
    LineCol { line: line_at(text, i) as usize, col: col_at(text, i) as usize }
}

/// Lines and columns start at one and grow by at most one per character.
pub proof fn lemma_place_bounds(text: Seq<char>, i: int)
    ensures
        1 <= line_at(text, i) <= (if 0 <= i <= text.len() { i + 1 } else { 1 }),
        1 <= col_at(text, i) <= (if 0 <= i <= text.len() { i + 1 } else { 1 }),
    decreases i,
{
    if 0 < i <= text.len() {
        lemma_place_bounds(text, i - 1);
    }
}

/// The error that a source gives when it is read after its failure was
/// reported.
pub open spec fn consumed_error() -> ReadErrorView {
    ReadErrorView { kind: ErrorKind::Other, message: "Invalid state; error already consumed"@ }
}

/// What `s` hands out next.
pub open spec fn upcoming(s: Source) -> Upcoming {
    if 0 <= s.offset < s.text.len() {
        Upcoming::Char(s.text[s.offset])
    } else if s.ending is Eof {
        Upcoming::End
    } else {
        Upcoming::Failure
    }
}

/// The failure that `s` reports when read at its end.
pub open spec fn failure_of(s: Source) -> ReadErrorView {
    match s.ending {
        Ending::Failure(e) => e,
        _ => consumed_error(),
    }
}

/// The source `s` after its failure was reported.
pub open spec fn failed(s: Source) -> Source {
    Source { text: s.text, offset: s.text.len() as int, ending: Ending::Consumed }
}

/// The source `s` with `offset` characters handed out.
pub open spec fn moved(s: Source, offset: int) -> Source {
    Source { text: s.text, offset: offset, ending: s.ending }
}

/// A reader of characters over bytes held in memory.
pub struct CharReader {
    chars: Vec<char>,
    index: usize,
    next_pos: LineCol,
    failure: Option<ReadError>,
    consumed: bool,
}

impl View for CharReader {
    type V = Source;

    closed spec fn view(&self) -> Source {
        Source {
            text: self.chars@,
            offset: self.index as int,
            ending: match self.failure {
                Some(e) => Ending::Failure(e@),
                None => if self.consumed {
                    Ending::Consumed
                } else {
                    Ending::Eof
                },
            },
        }
    }
}

impl CharReader {
    /// The reader is consistent: it stands within its text, and the place it
    /// keeps is the place of the next character.
    pub closed spec fn wf(&self) -> bool {
        &&& self.index <= self.chars.len()
        &&& self.chars.len() < usize::MAX
        &&& self.next_pos == place(self.chars@, self.index as int)
    }

    /// What `wf` says of the view.
    pub proof fn lemma_wf(&self)
        requires
            self.wf(),
        ensures
            0 <= self@.offset <= self@.text.len() < usize::MAX,
    {
    }

    /// A reader at the start of the text that the bytes `input` hold, where
    /// nothing follows the bytes. Bytes that are not UTF-8 are a failure of
    /// the reader, behind the lines before them.
    pub fn from(input: &[u8]) -> (r: CharReader)
        requires
            input@.len() < usize::MAX,
        ensures
            r.wf(),
            r@ == source_of(input@, Ending::Eof),
    {
        let (chars, whole) = decode(input);
        let failure = if whole {
            None
        } else {
            Some(invalid_data_error())
        };
        CharReader { chars, index: 0, next_pos: LineCol { line: 1, col: 1 }, failure, consumed: false }
    }

    /// A reader at the start of the text that the bytes `input` hold, where
    /// the source gave these bytes and then failed with `failure`. Bytes that
    /// are not UTF-8 are a failure that comes before that.
    pub fn failing(input: &[u8], failure: ReadError) -> (r: CharReader)
        requires
            input@.len() < usize::MAX,
        ensures
            r.wf(),
            r@ == source_of(input@, Ending::Failure(failure@)),
    {
        let (chars, whole) = decode(input);
        let failure = if whole {
            failure
        } else {
            invalid_data_error()
        };
        CharReader {
            chars,
            index: 0,
            next_pos: LineCol { line: 1, col: 1 },
            failure: Some(failure),
            consumed: false,
        }
    }

    /// What `next` would hand out, without taking it.
    pub fn peek(&self) -> (r: Upcoming)
        requires
            self.wf(),
        ensures
            r == upcoming(self@),
    {
        if self.index < self.chars.len() {
            Upcoming::Char(self.chars[self.index])
        } else if self.failure.is_none() && !self.consumed {
            Upcoming::End
        } else {
            Upcoming::Failure
        }
    }

    /// The place of the next character, or the place it would take had the
    /// text gone on.
    pub fn next_pos(&self) -> (r: LineCol)
        requires
            self.wf(),
        ensures
            r == place(self@.text, self@.offset),
    {
        self.next_pos
    }

    /// Hands out the next character with its place; at the end of the text,
    /// nothing or the failure. A failure is reported once: after it every call
    /// gives the error of a source read after its failure.
    pub fn next(&mut self) -> (r: Option<Result<CharSpan, ReadError>>)
        requires
            old(self).wf(),
        ensures
            final(self).wf(),
            match upcoming(old(self)@) {
                Upcoming::Char(c) => {
                    &&& r == Some(
                        Ok::<CharSpan, ReadError>(
                            CharSpan {
                                ch: c,
                                pos: place(old(self)@.text, old(self)@.offset),
                            },
                        ),
                    )
                    &&& final(self)@ == moved(old(self)@, old(self)@.offset + 1)
                },
                Upcoming::End => r is None && final(self)@ == old(self)@,
                Upcoming::Failure => {
                    &&& r matches Some(Err(e))
                    &&& e@ == failure_of(old(self)@)
                    &&& final(self)@ == failed(old(self)@)
                },
            },
    {
        if self.index < self.chars.len() {
            let ch = self.chars[self.index];
            let pos = self.next_pos;
            proof {
                lemma_place_bounds(self.chars@, self.index as int);
                lemma_place_bounds(self.chars@, self.index as int + 1);
            }
            self.index = self.index + 1;
            if ch == '\n' {
                self.next_pos = LineCol { line: pos.line + 1, col: 1 };
            } else {
                self.next_pos = LineCol { line: pos.line, col: pos.col + 1 };
            }
            Some(Ok(CharSpan { ch, pos }))
        } else {
            match self.failure.take() {
                Some(e) => {
                    self.consumed = true;
                    Some(Err(e))
                },
                None => {
                    if self.consumed {
                        Some(
                            Err(
                                ReadError {
                                    kind: ErrorKind::Other,
                                    message: "Invalid state; error already consumed".to_owned(),
                                },
                            ),
                        )
                    } else {
                        None
                    }
                },
            }
        }
    }
}

} // verus!
