use basic_lexer::ast::{VarRef, VarType};
use basic_lexer::decode::{decode, invalid_data_error};
use basic_lexer::lexer::Lexer;
use basic_lexer::reader::{CharReader, ErrorKind, LineCol, ReadError, Upcoming};
use basic_lexer::token::{Token, TokenSpan};

fn name(text: &str) -> Token {
    Token::Symbol(VarRef::new(text, VarType::Auto))
}

fn not_utf8() -> ReadError {
    ReadError {
        kind: ErrorKind::InvalidData,
        message: "stream did not contain valid UTF-8".to_owned(),
    }
}

fn used_up() -> ReadError {
    ReadError {
        kind: ErrorKind::Other,
        message: "Invalid state; error already consumed".to_owned(),
    }
}

/// What reading `input` line by line gives: the text of the lines before the
/// first that is not UTF-8, and whether there was no such line.
fn by_lines(input: &[u8]) -> (Vec<char>, bool) {
    let mut chars = vec![];
    for line in input.split_inclusive(|byte| *byte == b'\n') {
        match std::str::from_utf8(line) {
            Ok(text) => chars.extend(text.chars()),
            Err(_) => return (chars, false),
        }
    }
    (chars, true)
}

#[test]
fn bytes_of_a_text_are_that_text() {
    for text in ["", "a", "a\n", "\n", "\n\n", "a\nb", "\u{ac00} \u{b098}=7\n\u{1F600}\u{e9}", "tab\there"] {
        let expected: Vec<char> = text.chars().collect();
        assert_eq!((expected, true), decode(text.as_bytes()), "{:?}", text);
    }
}

#[test]
fn bytes_that_are_no_text_end_the_text_before_their_line() {
    assert_eq!((vec![], false), decode(b"\xff"));
    assert_eq!((vec![], false), decode(b"abc\xffdef"));
    assert_eq!((vec![], false), decode(b"abc\xff\ndef\n"));
    assert_eq!((vec!['a', '\n'], false), decode(b"a\n\xff"));
    assert_eq!((vec!['a', '\n', 'b', '\n'], false), decode(b"a\nb\nc\xc3\nd"));
    // A character cut short by the end, an encoding longer than needed, and
    // half of a surrogate pair.
    assert_eq!((vec!['x', '\n'], false), decode(b"x\n\xea\xb0"));
    assert_eq!((vec![], false), decode(b"\xc0\x80"));
    assert_eq!((vec![], false), decode(b"\xed\xa0\x80"));
    assert_eq!((vec![], false), decode(b"\xf4\x90\x80\x80"));
    // A stray continuation byte.
    assert_eq!((vec!['o', 'k', '\n'], false), decode(b"ok\n\x80"));
}

#[test]
fn bytes_are_read_as_std_reads_lines() {
    let samples: [&[u8]; 10] = [
        b"",
        b"plain",
        b"two\nlines\n",
        b"\xea\xb0\x80\n\xea\xb0",
        b"a\n\xff\nb",
        b"\n\n\n",
        b"\xe2\x82\xac\n\xe2\x82\n",
        b"\xf0\x9f\x98\x80",
        b"\xf0\x9f\x98",
        b"x\ny\nz\xc3\xa9\xc3",
    ];
    for sample in samples {
        assert_eq!(by_lines(sample), decode(sample), "{:?}", sample);
    }
    for first in 0..=255u8 {
        for second in [0x0au8, 0x41, 0x80, 0xbf, 0xc3, 0xe2] {
            let sample = [b'a', b'\n', first, second, b'\n', b'z'];
            assert_eq!(by_lines(&sample), decode(&sample), "{:?}", sample);
        }
    }
}

#[test]
fn error_of_bytes_that_are_no_text() {
    assert_eq!(not_utf8(), invalid_data_error());
}

#[test]
fn reader_fails_where_bytes_are_no_text() {
    let mut reader = CharReader::from(b"a\n\xffb");
    assert_eq!(Upcoming::Char('a'), reader.peek());
    assert!(matches!(reader.next(), Some(Ok(_))));
    assert!(matches!(reader.next(), Some(Ok(_))));
    assert_eq!(Upcoming::Failure, reader.peek());
    assert_eq!(LineCol { line: 2, col: 1 }, reader.next_pos());
    assert_eq!(Some(Err(not_utf8())), reader.next());
    assert_eq!(Some(Err(used_up())), reader.next());
}

#[test]
fn lexer_fails_where_bytes_are_no_text() {
    let mut lexer = Lexer::from(b"a = 1\nb = \xff\nc");
    assert_eq!(
        TokenSpan::new(name("a"), LineCol { line: 1, col: 1 }, 1),
        lexer.read().unwrap()
    );
    assert_eq!(Token::Equal, lexer.read().unwrap().token);
    assert_eq!(Token::Integer(1), lexer.read().unwrap().token);
    assert_eq!(
        TokenSpan::new(Token::Eol, LineCol { line: 1, col: 6 }, 1),
        lexer.read().unwrap()
    );
    assert_eq!(Err(not_utf8()), lexer.read());
    assert_eq!(Err(used_up()), lexer.read());

    let mut lexer = Lexer::from(b"\xff");
    assert_eq!(Err(not_utf8()), lexer.read());
    assert_eq!(Err(used_up()), lexer.read());
}

#[test]
fn bytes_that_are_no_text_come_before_the_failure_of_the_source() {
    let failure = ReadError { kind: ErrorKind::Other, message: "broken".to_owned() };
    let mut lexer = Lexer::from_reader(CharReader::failing(b"a\n\xff", failure.clone()));
    assert_eq!(name("a"), lexer.read().unwrap().token);
    assert_eq!(Token::Eol, lexer.read().unwrap().token);
    assert_eq!(Err(not_utf8()), lexer.read());
    assert_eq!(Err(used_up()), lexer.read());

    let mut lexer = Lexer::from_reader(CharReader::failing(b"a\n", failure.clone()));
    assert_eq!(name("a"), lexer.read().unwrap().token);
    assert_eq!(Token::Eol, lexer.read().unwrap().token);
    assert_eq!(Err(failure), lexer.read());
    assert_eq!(Err(used_up()), lexer.read());
}
