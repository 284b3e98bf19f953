use basic_lexer::ast::{VarRef, VarType};
use basic_lexer::lexer::Lexer;
use basic_lexer::reader::LineCol;
use basic_lexer::token::{Token, TokenSpan};

fn span(token: Token, line: usize, col: usize, length: usize) -> TokenSpan {
    TokenSpan::new(token, LineCol { line, col }, length)
}

fn name(text: &str) -> Token {
    Token::Symbol(VarRef::new(text, VarType::Auto))
}

fn bad(message: &str) -> Token {
    Token::Bad(message.to_owned())
}

/// All the tokens of `input`, the `Eof` included.
fn lex_all(input: &str) -> Vec<TokenSpan> {
    let mut lexer = Lexer::from(input.as_bytes());
    let mut spans = vec![];
    loop {
        let span = lexer.read().unwrap();
        let done = span.token == Token::Eof;
        spans.push(span);
        if done {
            return spans;
        }
    }
}

#[test]
fn numbers_names_and_lines() {
    assert_eq!(
        lex_all("123 45\n 6 3.012 abc a38z: a=3"),
        vec![
            span(Token::Integer(123), 1, 1, 3),
            span(Token::Integer(45), 1, 5, 2),
            span(Token::Eol, 1, 7, 1),
            span(Token::Integer(6), 2, 2, 1),
            span(Token::Double("3.012".to_owned()), 2, 4, 5),
            span(name("abc"), 2, 10, 3),
            span(name("a38z"), 2, 14, 4),
            span(Token::Eol, 2, 18, 1),
            span(name("a"), 2, 20, 1),
            span(Token::Equal, 2, 21, 1),
            span(Token::Integer(3), 2, 22, 1),
            span(Token::Eof, 2, 23, 0),
        ]
    );
}

#[test]
fn escapes_in_text() {
    // Nine characters of source: the content is five characters long, and the
    // width is that of the content and the two quotes.
    let source = "\"a\\\"b\\\\c\"";
    assert_eq!(9, source.chars().count());
    assert_eq!(
        lex_all(source),
        vec![span(Token::Text("a\"b\\c".to_owned()), 1, 1, 7), span(Token::Eof, 1, 10, 0)]
    );
}

#[test]
fn too_many_dots() {
    assert_eq!(
        lex_all("0.1.28+5"),
        vec![
            span(bad("Too many dots in numeric literal"), 1, 1, 3),
            span(Token::Plus, 1, 7, 1),
            span(Token::Integer(5), 1, 8, 1),
            span(Token::Eof, 1, 9, 0),
        ]
    );
}

#[test]
fn integer_too_large() {
    assert_eq!(
        lex_all("9999999999+5"),
        vec![
            span(bad("Bad integer 9999999999: number too large to fit in target type"), 1, 1, 1),
            span(Token::Plus, 1, 11, 1),
            span(Token::Integer(5), 1, 12, 1),
            span(Token::Eof, 1, 13, 0),
        ]
    );
}

#[test]
fn incomplete_text() {
    assert_eq!(
        lex_all("( \"this is incomplete"),
        vec![
            span(Token::LeftParen, 1, 1, 1),
            span(bad("Incomplete string due to EOF: this is incomplete"), 1, 3, 1),
            span(Token::Eof, 1, 22, 0),
        ]
    );
}

#[test]
fn labels_may_start_with_a_digit() {
    assert_eq!(
        lex_all("@Foo123 @a @Z @123"),
        vec![
            span(Token::Label("Foo123".to_owned()), 1, 1, 7),
            span(Token::Label("a".to_owned()), 1, 9, 2),
            span(Token::Label("Z".to_owned()), 1, 12, 2),
            span(Token::Label("123".to_owned()), 1, 15, 4),
            span(Token::Eof, 1, 19, 0),
        ]
    );
}

#[test]
fn operators_need_no_blanks() {
    assert_eq!(
        lex_all("z=2"),
        vec![
            span(name("z"), 1, 1, 1),
            span(Token::Equal, 1, 2, 1),
            span(Token::Integer(2), 1, 3, 1),
            span(Token::Eof, 1, 4, 0),
        ]
    );
    assert_eq!(
        lex_all("a<=b<>c>=d<e>f"),
        vec![
            span(name("a"), 1, 1, 1),
            span(Token::LessEqual, 1, 2, 2),
            span(name("b"), 1, 4, 1),
            span(Token::NotEqual, 1, 5, 2),
            span(name("c"), 1, 7, 1),
            span(Token::GreaterEqual, 1, 8, 2),
            span(name("d"), 1, 10, 1),
            span(Token::Less, 1, 11, 1),
            span(name("e"), 1, 12, 1),
            span(Token::Greater, 1, 13, 1),
            span(name("f"), 1, 14, 1),
            span(Token::Eof, 1, 15, 0),
        ]
    );
    // `>` followed by `<` or `>` is no operator of two characters.
    assert_eq!(
        lex_all("><>>"),
        vec![
            span(Token::Greater, 1, 1, 1),
            span(Token::NotEqual, 1, 2, 2),
            span(Token::Greater, 1, 4, 1),
            span(Token::Eof, 1, 5, 0),
        ]
    );
}

#[test]
fn eof_comes_once_and_then_again() {
    let mut lexer = Lexer::from(b"a \n");
    assert_eq!(span(name("a"), 1, 1, 1), lexer.read().unwrap());
    assert_eq!(span(Token::Eol, 1, 3, 1), lexer.read().unwrap());
    for _ in 0..5 {
        assert_eq!(span(Token::Eof, 2, 1, 0), lexer.read().unwrap());
    }
}

#[test]
fn bad_token_stops_at_the_next_separator() {
    assert_eq!(
        lex_all("1a+2"),
        vec![
            span(bad("Unexpected character in numeric literal: a"), 1, 1, 1),
            span(Token::Plus, 1, 3, 1),
            span(Token::Integer(2), 1, 4, 1),
            span(Token::Eof, 1, 5, 0),
        ]
    );
    // After a blank anything can follow, another bad token too.
    assert_eq!(
        lex_all("1a !"),
        vec![
            span(bad("Unexpected character in numeric literal: a"), 1, 1, 1),
            span(bad("Unknown character: !"), 1, 4, 1),
            span(Token::Eof, 1, 5, 0),
        ]
    );
    assert_eq!(
        lex_all("#abc#def ghi"),
        vec![
            span(bad("Unknown character: #"), 1, 1, 8),
            span(name("ghi"), 1, 10, 3),
            span(Token::Eof, 1, 13, 0),
        ]
    );
}

#[test]
fn keywords_in_any_letter_case() {
    for spelling in ["if", "IF", "If", "iF"] {
        assert_eq!(lex_all(spelling), vec![span(Token::If, 1, 1, 2), span(Token::Eof, 1, 3, 0)]);
    }
    for spelling in ["elseif", "ELSEIF", "ElseIf", "eLsEiF"] {
        assert_eq!(
            lex_all(spelling),
            vec![span(Token::Elseif, 1, 1, 6), span(Token::Eof, 1, 7, 0)]
        );
    }
    let all = [
        ("and", Token::And),
        ("as", Token::As),
        ("boolean", Token::BooleanName),
        ("data", Token::Data),
        ("dim", Token::Dim),
        ("double", Token::DoubleName),
        ("else", Token::Else),
        ("elseif", Token::Elseif),
        ("end", Token::End),
        ("false", Token::Boolean(false)),
        ("for", Token::For),
        ("goto", Token::Goto),
        ("if", Token::If),
        ("integer", Token::IntegerName),
        ("mod", Token::Modulo),
        ("next", Token::Next),
        ("not", Token::Not),
        ("or", Token::Or),
        ("step", Token::Step),
        ("string", Token::TextName),
        ("then", Token::Then),
        ("to", Token::To),
        ("true", Token::Boolean(true)),
        ("wend", Token::Wend),
        ("while", Token::While),
        ("xor", Token::Xor),
    ];
    for (spelling, token) in all {
        let width = spelling.len();
        let expected = vec![span(token, 1, 1, width), span(Token::Eof, 1, width + 1, 0)];
        assert_eq!(lex_all(spelling), expected);
        assert_eq!(lex_all(&spelling.to_uppercase()), expected);
    }
}

#[test]
fn keyword_spelled_beyond_ascii() {
    // The dotless i has the capital I for its upper case.
    assert_eq!(lex_all("\u{131}f"), vec![span(Token::If, 1, 1, 2), span(Token::Eof, 1, 3, 0)]);
    // A name that no upper case turns into a reserved word stays a name.
    assert_eq!(
        lex_all("stra\u{df}e"),
        vec![span(name("stra\u{df}e"), 1, 1, 6), span(Token::Eof, 1, 7, 0)]
    );
}

#[test]
fn names_keep_their_letter_case() {
    assert_eq!(
        lex_all("Foo fOO _x9 iff"),
        vec![
            span(name("Foo"), 1, 1, 3),
            span(name("fOO"), 1, 5, 3),
            span(name("_x9"), 1, 9, 3),
            span(name("iff"), 1, 13, 3),
            span(Token::Eof, 1, 16, 0),
        ]
    );
}

#[test]
fn annotated_names_are_names_whatever_they_spell() {
    assert_eq!(
        lex_all("if$ REM% true? Next#"),
        vec![
            span(Token::Symbol(VarRef::new("if", VarType::Text)), 1, 1, 3),
            span(Token::Symbol(VarRef::new("REM", VarType::Integer)), 1, 5, 4),
            span(Token::Symbol(VarRef::new("true", VarType::Boolean)), 1, 10, 5),
            span(Token::Symbol(VarRef::new("Next", VarType::Double)), 1, 16, 5),
            span(Token::Eof, 1, 21, 0),
        ]
    );
    // The annotation ends the name: what follows is read on its own.
    assert_eq!(
        lex_all("a$b"),
        vec![
            span(Token::Symbol(VarRef::new("a", VarType::Text)), 1, 1, 2),
            span(name("b"), 1, 3, 1),
            span(Token::Eof, 1, 4, 0),
        ]
    );
}

#[test]
fn tabs_are_one_column_wide() {
    assert_eq!(
        lex_all("\t\ta\tb"),
        vec![span(name("a"), 1, 3, 1), span(name("b"), 1, 5, 1), span(Token::Eof, 1, 6, 0)]
    );
}

#[test]
fn newline_starts_a_line_and_colon_does_not() {
    assert_eq!(
        lex_all("a\nb:c"),
        vec![
            span(name("a"), 1, 1, 1),
            span(Token::Eol, 1, 2, 1),
            span(name("b"), 2, 1, 1),
            span(Token::Eol, 2, 2, 1),
            span(name("c"), 2, 3, 1),
            span(Token::Eof, 2, 4, 0),
        ]
    );
    // A carriage return is a blank.
    assert_eq!(
        lex_all("a\r\nb"),
        vec![
            span(name("a"), 1, 1, 1),
            span(Token::Eol, 1, 3, 1),
            span(name("b"), 2, 1, 1),
            span(Token::Eof, 2, 2, 0),
        ]
    );
}

#[test]
fn remarks_go_to_the_end_of_the_line() {
    assert_eq!(
        lex_all("a ' b + \"c\nd"),
        vec![
            span(name("a"), 1, 1, 1),
            span(Token::Eol, 1, 11, 1),
            span(name("d"), 2, 1, 1),
            span(Token::Eof, 2, 2, 0),
        ]
    );
    assert_eq!(
        lex_all("rem x\nReM y"),
        vec![span(Token::Eol, 1, 6, 1), span(Token::Eof, 2, 6, 0)]
    );
    assert_eq!(lex_all("'"), vec![span(Token::Eof, 1, 2, 0)]);
    assert_eq!(lex_all("REM"), vec![span(Token::Eof, 1, 4, 0)]);
    // `REM` right before a separator that is no blank.
    assert_eq!(lex_all("REM:a\n"), vec![span(Token::Eol, 1, 6, 1), span(Token::Eof, 2, 1, 0)]);
}

#[test]
fn text_may_hold_newlines_and_separators() {
    assert_eq!(
        lex_all("\"a\nb\" c"),
        vec![
            span(Token::Text("a\nb".to_owned()), 1, 1, 5),
            span(name("c"), 2, 4, 1),
            span(Token::Eof, 2, 5, 0),
        ]
    );
    assert_eq!(lex_all("\"\""), vec![span(Token::Text("".to_owned()), 1, 1, 2), span(Token::Eof, 1, 3, 0)]);
    // A backslash before a letter stands for the letter.
    assert_eq!(
        lex_all("\"\\n\""),
        vec![span(Token::Text("n".to_owned()), 1, 1, 3), span(Token::Eof, 1, 5, 0)]
    );
}

#[test]
fn text_left_open() {
    assert_eq!(
        lex_all("\"abc\\"),
        vec![span(bad("Incomplete string due to EOF: abc"), 1, 1, 1), span(Token::Eof, 1, 6, 0)]
    );
    assert_eq!(
        lex_all("\"abc\\\""),
        vec![
            span(bad("Incomplete string due to EOF: abc\""), 1, 1, 1),
            span(Token::Eof, 1, 7, 0),
        ]
    );
    assert_eq!(
        lex_all("\""),
        vec![span(bad("Incomplete string due to EOF: "), 1, 1, 1), span(Token::Eof, 1, 2, 0)]
    );
}

#[test]
fn labels_that_are_bad() {
    assert_eq!(
        lex_all("@"),
        vec![span(bad("Empty label name"), 1, 1, 1), span(Token::Eof, 1, 2, 0)]
    );
    assert_eq!(
        lex_all("@ a"),
        vec![
            span(bad("Empty label name"), 1, 1, 1),
            span(name("a"), 1, 3, 1),
            span(Token::Eof, 1, 4, 0),
        ]
    );
    assert_eq!(
        lex_all("@ab!cd e"),
        vec![
            span(bad("Unexpected character in label: !"), 1, 1, 3),
            span(name("e"), 1, 8, 1),
            span(Token::Eof, 1, 9, 0),
        ]
    );
    assert_eq!(
        lex_all("@a$"),
        vec![span(bad("Unexpected character in label: $"), 1, 1, 1), span(Token::Eof, 1, 4, 0)]
    );
}

#[test]
fn numbers_at_the_limits() {
    assert_eq!(
        lex_all("2147483647"),
        vec![span(Token::Integer(2147483647), 1, 1, 10), span(Token::Eof, 1, 11, 0)]
    );
    assert_eq!(
        lex_all("2147483648"),
        vec![
            span(bad("Bad integer 2147483648: number too large to fit in target type"), 1, 1, 1),
            span(Token::Eof, 1, 11, 0),
        ]
    );
    assert_eq!(
        lex_all("0000000000000000000007"),
        vec![span(Token::Integer(7), 1, 1, 22), span(Token::Eof, 1, 23, 0)]
    );
    assert_eq!(lex_all("0"), vec![span(Token::Integer(0), 1, 1, 1), span(Token::Eof, 1, 2, 0)]);
    // A minus sign is a token of its own.
    assert_eq!(
        lex_all("-5"),
        vec![
            span(Token::Minus, 1, 1, 1),
            span(Token::Integer(5), 1, 2, 1),
            span(Token::Eof, 1, 3, 0),
        ]
    );
}

#[test]
fn numbers_with_a_fraction() {
    assert_eq!(
        lex_all("10.250"),
        vec![span(Token::Double("10.250".to_owned()), 1, 1, 6), span(Token::Eof, 1, 7, 0)]
    );
    assert_eq!(
        lex_all("3."),
        vec![span(bad("Unknown character: ."), 1, 1, 1), span(Token::Eof, 1, 3, 0)]
    );
    assert_eq!(
        lex_all(".5"),
        vec![span(bad("Unknown character: ."), 1, 1, 2), span(Token::Eof, 1, 3, 0)]
    );
    assert_eq!(
        lex_all("1.2.3.4 x"),
        vec![
            span(bad("Too many dots in numeric literal"), 1, 1, 4),
            span(name("x"), 1, 9, 1),
            span(Token::Eof, 1, 10, 0),
        ]
    );
    assert_eq!(
        lex_all("1.5e3"),
        vec![
            span(bad("Unexpected character in numeric literal: e"), 1, 1, 2),
            span(Token::Eof, 1, 6, 0),
        ]
    );
    // The digits may spell more than any machine number holds.
    let long = "123456789012345678901234567890.5";
    assert_eq!(
        lex_all(long),
        vec![span(Token::Double(long.to_owned()), 1, 1, 32), span(Token::Eof, 1, 33, 0)]
    );
    assert_eq!(long.parse::<f64>().unwrap(), 123456789012345678901234567890.5);
}

#[test]
fn characters_beyond_ascii() {
    assert_eq!(
        lex_all("a\u{2192}b c"),
        vec![
            span(bad("Unexpected character in symbol: \u{2192}"), 1, 1, 2),
            span(name("c"), 1, 5, 1),
            span(Token::Eof, 1, 6, 0),
        ]
    );
    assert_eq!(
        lex_all("\u{2192}"),
        vec![span(bad("Unknown character: \u{2192}"), 1, 1, 1), span(Token::Eof, 1, 2, 0)]
    );
    // Digits beyond ASCII are characters of names, not of numbers.
    assert_eq!(
        lex_all("\u{663}"),
        vec![span(name("\u{663}"), 1, 1, 1), span(Token::Eof, 1, 2, 0)]
    );
    assert_eq!(
        lex_all("1\u{663}"),
        vec![
            span(bad("Unexpected character in numeric literal: \u{663}"), 1, 1, 1),
            span(Token::Eof, 1, 3, 0),
        ]
    );
}

#[test]
fn tokens_do_not_overlap() {
    let spans = lex_all("ab$ 12.5 <= @x \"y\\\"z\" 1a + rEm x\n\t: 0.1.2 '");
    for pair in spans.windows(2) {
        let (first, second) = (&pair[0], &pair[1]);
        assert!(
            (first.pos.line, first.pos.col) <= (second.pos.line, second.pos.col),
            "{:?} {:?}",
            first,
            second
        );
        if first.pos.line == second.pos.line && first.token != Token::Eol {
            assert!(first.pos.col + first.length <= second.pos.col, "{:?} {:?}", first, second);
        }
    }
    assert_eq!(Token::Eof, spans.last().unwrap().token);
    assert_eq!(1, spans.iter().filter(|span| span.token == Token::Eof).count());
}
