//! From bytes to characters: the text that a source of bytes holds.
//!
//! A source is read line by line. A line that is not UTF-8 is a failure of the
//! source: the lines before it are text, and nothing after it is read.

use crate::reader::{Ending, ErrorKind, ReadError, ReadErrorView, Source};
use vstd::prelude::*;
use vstd::slice::slice_subrange;
use vstd::utf8::{
    decode_utf8, encode_utf8, encode_utf8_decode_utf8, is_char_boundary,
    is_char_boundary_start_end_of_seq, length_of_first_scalar, pop_first_scalar, valid_utf8,
    valid_utf8_split,
};

verus! {

/// `core::str::from_utf8` of std checks that bytes are UTF-8 and, where they
/// are, gives the same bytes back as text. The contract says when it
/// succeeds, by the definition of UTF-8 that vstd holds, and that the text it
/// gives is the one that these bytes encode.
#[verifier::external_body]
fn text_of<'a>(bytes: &'a [u8]) -> (r: Option<&'a str>)
    ensures
        r is Some <==> valid_utf8(bytes@),
        r matches Some(s) ==> encode_utf8(s@) == bytes@,
{
    core::str::from_utf8(bytes).ok()
}

/// The index behind the line that starts at `from`: behind its newline, or
/// the length of `bytes` where no newline follows.
pub open spec fn line_end(bytes: Seq<u8>, from: int) -> int
    decreases bytes.len() - from,
{
    if from < 0 || from >= bytes.len() {
        bytes.len() as int
    } else if bytes[from] == 10 {
        from + 1
    } else {
        line_end(bytes, from + 1)
    }
}

/// Where reading `bytes` line by line from `from` stops: at the start of the
/// first line that is not UTF-8, or at the length of `bytes`.
pub open spec fn readable(bytes: Seq<u8>, from: int) -> int
    decreases bytes.len() - from,
{
    if from < 0 || from >= bytes.len() {
        bytes.len() as int
    } else {
        let end = line_end(bytes, from);
        if from < end <= bytes.len() && valid_utf8(bytes.subrange(from, end)) {
            readable(bytes, end)
        } else {
            from
        }
    }
}

/// The failure of a source whose bytes are not UTF-8.
pub open spec fn invalid_data() -> ReadErrorView {
    ReadErrorView {
        kind: ErrorKind::InvalidData,
        message: "stream did not contain valid UTF-8"@,
    }
}

/// The source of characters that the bytes `bytes` are, where the source of
/// bytes ends as `ending` says: the text of its lines up to the first that is
/// not UTF-8. Where there is such a line, it is the failure that the source
/// ends in.
pub open spec fn source_of(bytes: Seq<u8>, ending: Ending) -> Source {
    let stop = readable(bytes, 0);
    Source {
        text: decode_utf8(bytes.subrange(0, stop)),
        offset: 0,
        ending: if stop == bytes.len() {
            ending
        } else {
            Ending::Failure(invalid_data())
        },
    }
}

/// A line ends behind its start and within the bytes, behind a newline or
/// at the end of the bytes.
pub proof fn lemma_line_end(bytes: Seq<u8>, from: int)
    requires
        0 <= from < bytes.len(),
    ensures
        from < line_end(bytes, from) <= bytes.len(),
        line_end(bytes, from) == bytes.len() || bytes[line_end(bytes, from) - 1] == 10,
    decreases bytes.len() - from,
{
    if bytes[from] != 10 {
        if from + 1 < bytes.len() {
            lemma_line_end(bytes, from + 1);
        } else {
            assert(line_end(bytes, from + 1) == bytes.len());
        }
    }
}

/// Texts are encoded one after the other.
pub proof fn lemma_encode_concat(a: Seq<char>, b: Seq<char>)
    ensures
        encode_utf8(a + b) == encode_utf8(a) + encode_utf8(b),
    decreases a.len(),
{
    if a.len() == 0 {
        assert(a + b =~= b);
        assert(encode_utf8(a) + encode_utf8(b) =~= encode_utf8(b));
    } else {
        lemma_encode_concat(a.drop_first(), b);
        assert((a + b).drop_first() =~= a.drop_first() + b);
        assert((a + b)[0] == a[0]);
        assert(encode_utf8(a + b) =~= encode_utf8(a) + encode_utf8(b));
    }
}

/// A text has no more characters than bytes.
pub proof fn lemma_encode_len(a: Seq<char>)
    ensures
        a.len() <= encode_utf8(a).len(),
    decreases a.len(),
{
    if a.len() > 0 {
        lemma_encode_len(a.drop_first());
    }
}

/// In UTF-8 a character ends wherever a byte of ASCII stands: the index
/// behind such a byte is the boundary of a character.
proof fn lemma_boundary_behind_ascii(bytes: Seq<u8>, index: int)
    requires
        valid_utf8(bytes),
        0 < index <= bytes.len(),
        bytes[index - 1] < 0x80,
    ensures
        is_char_boundary(bytes, index),
    decreases bytes.len(),
{
    let first = length_of_first_scalar(bytes);
    let rest = pop_first_scalar(bytes);
    if index > first {
        assert(rest[index - first - 1] == bytes[index - 1]);
        lemma_boundary_behind_ascii(rest, index - first);
    } else {
        assert(first == 1 && index == 1);
        assert(is_char_boundary(rest, 0));
    }
}

/// Bytes that are UTF-8 from `from` on are read to their end.
proof fn lemma_valid_rest_is_readable(bytes: Seq<u8>, from: int)
    requires
        0 <= from <= bytes.len(),
        valid_utf8(bytes.subrange(from, bytes.len() as int)),
    ensures
        readable(bytes, from) == bytes.len(),
    decreases bytes.len() - from,
{
    if from < bytes.len() {
        lemma_line_end(bytes, from);
        let end = line_end(bytes, from);
        let tail = bytes.subrange(from, bytes.len() as int);
        if end == bytes.len() {
            is_char_boundary_start_end_of_seq(tail);
        } else {
            assert(tail[end - from - 1] == bytes[end - 1]);
            lemma_boundary_behind_ascii(tail, end - from);
        }
        valid_utf8_split(tail, end - from);
        assert(tail.subrange(0, end - from) =~= bytes.subrange(from, end));
        assert(tail.subrange(end - from, tail.len() as int) =~= bytes.subrange(
            end,
            bytes.len() as int,
        ));
        lemma_valid_rest_is_readable(bytes, end);
    }
}

/// Bytes that are UTF-8 are read whole: they are the source of the text that
/// they encode, and it ends as the source of bytes does.
pub proof fn law_valid_bytes_are_read_whole(bytes: Seq<u8>, ending: Ending)
    requires
        valid_utf8(bytes),
    ensures
        source_of(bytes, ending) == (Source { text: decode_utf8(bytes), offset: 0, ending }),
{
    assert(bytes.subrange(0, bytes.len() as int) =~= bytes);
    lemma_valid_rest_is_readable(bytes, 0);
}

/// The bytes of a text are the source of that text.
pub proof fn law_text_is_read_whole(text: Seq<char>, ending: Ending)
    ensures
        source_of(encode_utf8(text), ending) == (Source { text, offset: 0, ending }),
{
    vstd::utf8::encode_utf8_valid_utf8(text);
    encode_utf8_decode_utf8(text);
    law_valid_bytes_are_read_whole(encode_utf8(text), ending);
}

/// The index behind the line that starts at `from`.
fn end_of_line(input: &[u8], from: usize) -> (end: usize)
    requires
        from < input@.len(),
    ensures
        end == line_end(input@, from as int),
        from < end <= input@.len(),
{
    let mut end: usize = from;
    while end < input.len() && input[end] != 10
        invariant
            from <= end <= input@.len(),
            line_end(input@, from as int) == line_end(input@, end as int),
        decreases input@.len() - end,
    {
        end = end + 1;
    }
    if end < input.len() {
        end = end + 1;
    }
    end
}

/// The characters of `input`, read line by line up to the first line that is
/// not UTF-8, and whether all of `input` was read.
pub fn decode(input: &[u8]) -> (r: (Vec<char>, bool))
    ensures
        r.0@ == decode_utf8(input@.subrange(0, readable(input@, 0))),
        r.1 == (readable(input@, 0) == input@.len()),
        r.0@.len() <= input@.len(),
{
    let mut chars: Vec<char> = Vec::new();
    let mut from: usize = 0;
    proof {
        assert(input@.subrange(0, 0) =~= encode_utf8(chars@));
    }
    while from < input.len()
        invariant
            from <= input@.len(),
            readable(input@, 0) == readable(input@, from as int),
            input@.subrange(0, from as int) == encode_utf8(chars@),
        decreases input@.len() - from,
    {
        let end = end_of_line(input, from);
        let line = slice_subrange(input, from, end);
        match text_of(line) {
            None => {
                proof {
                    encode_utf8_decode_utf8(chars@);
                    lemma_encode_len(chars@);
                }
                return (chars, false);
            },
            Some(s) => {
                let ghost before = chars@;
                for c in it: s.chars()
                    invariant
                        it.seq() == s@,
                        chars@ == before + s@.take(it.index()),
                {
                    chars.push(c);
                    assert(before + s@.take(it.index() + 1) =~= (before + s@.take(
                        it.index(),
                    )).push(s@[it.index()]));
                }
                proof {
                    assert(s@.take(s@.len() as int) =~= s@);
                    lemma_encode_concat(before, s@);
                    assert(input@.subrange(0, end as int) =~= input@.subrange(0, from as int)
                        + line@);
                }
                from = end;
            },
        }
    }
    proof {
        encode_utf8_decode_utf8(chars@);
        lemma_encode_len(chars@);
    }
    (chars, true)
}

/// The failure of a source whose bytes are not UTF-8.
pub fn invalid_data_error() -> (r: ReadError)
    ensures
        r@ == invalid_data(),
{
    ReadError {
        kind: ErrorKind::InvalidData,
        message: "stream did not contain valid UTF-8".to_owned(),
    }
}

} // verus!
