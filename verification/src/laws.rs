//! What holds of the lexer for every text.

use crate::ast::{annotated, VarRefView, VarType};
use crate::chars::{digit, letter, separator, space, word};
use crate::grammar::{
    bad, eof, lemma_run_end, lemma_run_end_is_end, lex, punctuation, quoted, read_step,
    rest_of_line, run_end, scanned, single, symbol, token_at, tokens, within, CharClass, Lexed,
};
use crate::keyword::{
    all_ascii, ascii_upper, keyword, spelling, token_of, upper, upper_letter, Keyword,
};
use crate::peekable::{peek_step, take_step, Peekable};
use crate::reader::{
    col_at, consumed_error, failure_of, line_at, Ending, ReadErrorView, Source,
};
use crate::token::{TokenSpanView, TokenView};
use vstd::prelude::*;

verus! {

/// Whether `l` lies within `text` as a token read from `from` must: it starts
/// at or after `from`, its width is within what was taken, and what was taken
/// is within the text.
pub open spec fn within_text(text: Seq<char>, from: int, l: Lexed) -> bool {
    &&& from <= l.at
    &&& 0 <= l.length
    &&& l.at + l.length <= l.end <= text.len()
    &&& l.probed ==> l.end == text.len()
    &&& l.token is Eof ==> l == eof(text)
    &&& !(l.token is Eof) ==> from < l.end && l.at < l.end && l.length >= 1
    &&& l.token is Bad ==> l.end == text.len() || separator(text[l.end])
}

/// A bad token lies within the text.
proof fn lemma_bad(text: Seq<char>, message: Seq<char>, at: int, resume: int)
    requires
        0 <= at < resume <= text.len(),
    ensures
        within_text(text, at, bad(text, message, at, resume)),
{
    lemma_run_end_is_end(text, resume, CharClass::Joined);
}

/// What a remark ends in lies within the text.
proof fn lemma_rest_of_line(text: Seq<char>, from: int)
    requires
        0 <= from <= text.len(),
    ensures
        within_text(text, from, rest_of_line(text, from)),
{
    lemma_run_end_is_end(text, from, CharClass::Line);
}

/// The inside of a quoted text ends within the text, at its end where the
/// closing quote is missing; its content is no longer than what stands
/// between the quotes.
proof fn lemma_quoted(text: Seq<char>, j: int, quote: char)
    requires
        0 <= j <= text.len(),
    ensures
        j <= quoted(text, j, quote).end <= text.len(),
        !quoted(text, j, quote).closed ==> quoted(text, j, quote).end == text.len(),
        quoted(text, j, quote).closed ==> quoted(text, j, quote).content.len() + 1 <= quoted(
            text,
            j,
            quote,
        ).end - j,
    decreases text.len() - j,
{
    if j < text.len() {
        if text[j] == '\\' {
            if j + 1 < text.len() {
                lemma_quoted(text, j + 2, quote);
            }
        } else if text[j] != quote {
            lemma_quoted(text, j + 1, quote);
        }
    }
}

/// The token that opens at `i` lies within the text.
proof fn lemma_token_at(text: Seq<char>, i: int)
    requires
        0 <= i < text.len(),
    ensures
        within_text(text, i, token_at(text, i)),
{
    let c = text[i];
    if punctuation(c) is Some {
    } else if c == '\'' {
        lemma_rest_of_line(text, i + 1);
    } else if c == '"' {
        lemma_quoted(text, i + 1, c);
        lemma_bad(
            text,
            "Incomplete string due to EOF: "@ + quoted(text, i + 1, c).content,
            i,
            text.len() as int,
        );
    } else if c == '<' || c == '>' {
    } else if c == '@' {
        let n = run_end(text, i + 1, CharClass::Word);
        lemma_run_end_is_end(text, i + 1, CharClass::Word);
        if n < text.len() {
            lemma_bad(text, "Unexpected character in label: "@.push(text[n]), i, n + 1);
        }
        lemma_bad(text, "Empty label name"@, i, n);
    } else if digit(c) {
        let a = run_end(text, i + 1, CharClass::Digit);
        lemma_run_end_is_end(text, i + 1, CharClass::Digit);
        let dotted = a < text.len() && text[a] == '.';
        let b = if dotted {
            run_end(text, a + 1, CharClass::Digit)
        } else {
            a
        };
        if dotted {
            lemma_run_end_is_end(text, a + 1, CharClass::Digit);
        }
        let literal = text.subrange(i, b);
        if b < text.len() {
            lemma_bad(text, "Too many dots in numeric literal"@, i, b + 1);
            lemma_bad(text, "Unexpected character in numeric literal: "@.push(text[b]), i, b + 1);
        }
        lemma_bad(text, "Unknown character: ."@, i, b);
        lemma_bad(
            text,
            "Bad integer "@ + literal + ": number too large to fit in target type"@,
            i,
            b,
        );
    } else if word(c) {
        let n = run_end(text, i + 1, CharClass::Word);
        lemma_run_end_is_end(text, i + 1, CharClass::Word);
        if n < text.len() {
            lemma_bad(text, "Unexpected character in symbol: "@.push(text[n]), i, n + 1);
        }
        lemma_rest_of_line(text, n);
    } else {
        lemma_bad(text, "Unknown character: "@.push(c), i, i + 1);
    }
}

/// Every token lies within the text it was read from: it starts at or after
/// the place where reading started, and the characters from its start over
/// its width are among those that were taken to make it. Every token but
/// `Eof` takes at least one character. `Eof` takes the rest of the text and
/// has no width. After a bad token the lexer stands at a separator, or at the
/// end of the text.
pub proof fn law_token_within_text(text: Seq<char>, from: int)
    requires
        0 <= from <= text.len(),
    ensures
        within_text(text, from, lex(text, from)),
{
    lemma_run_end_is_end(text, from, CharClass::Space);
    let k = run_end(text, from, CharClass::Space);
    if k < text.len() {
        lemma_token_at(text, k);
    }
}

/// The tokens of a text end with exactly one `Eof`: the sequence of tokens
/// read from `from` is finite, its last token is `Eof` and no other is, each
/// token is read where the one before it ended, and reading again after the
/// `Eof` gives the same `Eof`, at the same place.
pub proof fn law_stream_ends_with_one_eof(text: Seq<char>, from: int)
    requires
        0 <= from <= text.len(),
    ensures
        tokens(text, from).len() >= 1,
        tokens(text, from)[0] == lex(text, from),
        tokens(text, from).last().token is Eof,
        forall|n: int|
            0 <= n < tokens(text, from).len() - 1 ==> !((#[trigger] tokens(text, from)[n]).token
                is Eof),
        forall|n: int|
            0 <= n < tokens(text, from).len() - 1 ==> #[trigger] tokens(text, from)[n + 1] == lex(
                text,
                tokens(text, from)[n].end,
            ),
        lex(text, tokens(text, from).last().end) == tokens(text, from).last(),
    decreases text.len() - from,
{
    let l = lex(text, from);
    law_token_within_text(text, from);
    if l.token is Eof {
        law_eof_again(text, from);
    } else {
        law_stream_ends_with_one_eof(text, l.end);
        let rest = tokens(text, l.end);
        let all = tokens(text, from);
        assert(all =~= seq![l] + rest);
        assert forall|n: int| 0 <= n < all.len() - 1 implies !((#[trigger] all[n]).token is Eof) by {
            if n > 0 {
                assert(all[n] == rest[n - 1]);
            }
        }
        assert forall|n: int| 0 <= n < all.len() - 1 implies #[trigger] all[n + 1] == lex(
            text,
            all[n].end,
        ) by {
            if n > 0 {
                assert(all[n] == rest[n - 1]);
                assert(all[n + 1] == rest[n - 1 + 1]);
            } else {
                assert(all[1] == rest[0]);
            }
        }
        assert(all.last() == rest.last());
    }
}

/// Reading `Eof` again gives it again: where the next token is `Eof`, the
/// token after it is the same `Eof`.
pub proof fn law_eof_again(text: Seq<char>, from: int)
    requires
        0 <= from <= text.len(),
        lex(text, from).token is Eof,
    ensures
        lex(text, from) == eof(text),
        lex(text, lex(text, from).end) == lex(text, from),
{
    law_token_within_text(text, from);
    lemma_run_end(text, text.len() as int, CharClass::Space, text.len() as int);
}

/// A lexer that returned `Eof` returns it again, and stays as it is.
pub proof fn law_read_eof_again(s: Source)
    requires
        0 <= s.offset <= s.text.len(),
        read_step(s).0 matches Ok(span) && span.token is Eof,
    ensures
        read_step(read_step(s).1) == read_step(s),
{
    law_eof_again(s.text, s.offset);
}

/// After a bad token the lexer stands at a separator or at the end of the
/// text. Where it stands at a separator that is no blank, the next token
/// starts right there and is not bad.
pub proof fn law_bad_then_separator(text: Seq<char>, from: int)
    requires
        0 <= from <= text.len(),
        lex(text, from).token is Bad,
    ensures
        lex(text, from).end == text.len() || separator(text[lex(text, from).end]),
        lex(text, from).end < text.len() && !space(text[lex(text, from).end]) ==> {
            &&& !(lex(text, lex(text, from).end).token is Bad)
            &&& lex(text, lex(text, from).end).at >= lex(text, from).end
        },
{
    law_token_within_text(text, from);
    let end = lex(text, from).end;
    if end < text.len() && !space(text[end]) {
        lemma_run_end(text, end, CharClass::Space, end);
        law_token_within_text(text, end);
        lemma_run_end_is_end(text, end + 1, CharClass::Line);
    }
}

/// The first token of `text` read from `at`, where the character at `at` is
/// no blank.
proof fn lemma_lex_at_token(text: Seq<char>, at: int)
    requires
        0 <= at < text.len(),
        !space(text[at]),
    ensures
        lex(text, at) == token_at(text, at),
{
    lemma_run_end(text, at, CharClass::Space, at);
}

/// Whether `name` can be a name: characters of names, the first of them no
/// digit.
pub open spec fn is_name(name: Seq<char>) -> bool {
    &&& name.len() > 0
    &&& !digit(name[0])
    &&& forall|j: int| 0 <= j < name.len() ==> word(#[trigger] name[j])
}

/// Whether a token can end right before `tail`: `tail` is empty or starts
/// with a separator.
pub open spec fn separated(tail: Seq<char>) -> bool {
    tail.len() == 0 || separator(tail[0])
}

/// Where the run of name characters ends in a text that opens with the name
/// `name`, followed by `tail`, which does not go on with a name character.
proof fn lemma_name_run(name: Seq<char>, tail: Seq<char>)
    requires
        is_name(name),
        tail.len() == 0 || !word(tail[0]),
    ensures
        run_end(name + tail, 1, CharClass::Word) == name.len(),
        (name + tail).subrange(0, name.len() as int) == name,
        lex(name + tail, 0) == symbol(name + tail, 0),
{
    let text = name + tail;
    assert forall|k: int| 1 <= k < name.len() implies within(
        CharClass::Word,
        #[trigger] text[k],
    ) by {
        assert(text[k] == name[k]);
    }
    if tail.len() > 0 {
        assert(text[name.len() as int] == tail[0]);
    }
    lemma_run_end(text, 1, CharClass::Word, name.len() as int);
    assert(text.subrange(0, name.len() as int) =~= name);
    assert(text[0] == name[0]);
    lemma_lex_at_token(text, 0);
}

/// A name that is no reserved word, with no annotation behind it, is read as
/// that name, in the letter case it was written in, with no type.
pub proof fn law_plain_name(name: Seq<char>, tail: Seq<char>)
    requires
        is_name(name),
        keyword(upper(name)) is None,
        separated(tail),
    ensures
        lex(name + tail, 0) == scanned(
            name + tail,
            TokenView::Symbol(VarRefView { name, vtype: VarType::Auto }),
            0,
            name.len() as int,
        ),
{
    lemma_name_run(name, tail);
    if tail.len() > 0 {
        assert((name + tail)[name.len() as int] == tail[0]);
    }
}

/// A name with an annotation behind it is read as that name with the type of
/// the annotation, whatever the name spells and whatever follows; its width is
/// that of the name and one more.
pub proof fn law_annotated_name(name: Seq<char>, sigil: char, tail: Seq<char>)
    requires
        is_name(name),
        annotated(sigil) is Some,
    ensures
        lex(name + seq![sigil] + tail, 0) == (Lexed {
            token: TokenView::Symbol(
                VarRefView { name, vtype: annotated(sigil).unwrap() },
            ),
            at: 0,
            length: name.len() as int + 1,
            end: name.len() as int + 1,
            probed: false,
        }),
{
    let rest = seq![sigil] + tail;
    assert(name + seq![sigil] + tail =~= name + rest);
    assert(rest[0] == sigil);
    lemma_name_run(name, rest);
    assert((name + rest)[name.len() as int] == rest[0]);
}

/// Reserved words are spelled in capital letters, and no two alike: each
/// spelling is found as its own word.
pub proof fn lemma_spellings(k: Keyword)
    ensures
        keyword(spelling(k)) == Some(k),
        spelling(k).len() >= 2,
        forall|j: int| 0 <= j < spelling(k).len() ==> 'A' <= #[trigger] spelling(k)[j] <= 'Z',
{
    reveal_strlit("AND");
    assert("AND"@.len() == 3 && "AND"@[0] == 'A' && "AND"@[1] == 'N');
    reveal_strlit("AS");
    assert("AS"@.len() == 2 && "AS"@[0] == 'A' && "AS"@[1] == 'S');
    reveal_strlit("BOOLEAN");
    assert("BOOLEAN"@.len() == 7 && "BOOLEAN"@[0] == 'B' && "BOOLEAN"@[1] == 'O');
    reveal_strlit("DATA");
    assert("DATA"@.len() == 4 && "DATA"@[0] == 'D' && "DATA"@[1] == 'A');
    reveal_strlit("DIM");
    assert("DIM"@.len() == 3 && "DIM"@[0] == 'D' && "DIM"@[1] == 'I');
    reveal_strlit("DOUBLE");
    assert("DOUBLE"@.len() == 6 && "DOUBLE"@[0] == 'D' && "DOUBLE"@[1] == 'O');
    reveal_strlit("ELSE");
    assert("ELSE"@.len() == 4 && "ELSE"@[0] == 'E' && "ELSE"@[1] == 'L');
    reveal_strlit("ELSEIF");
    assert("ELSEIF"@.len() == 6 && "ELSEIF"@[0] == 'E' && "ELSEIF"@[1] == 'L');
    reveal_strlit("END");
    assert("END"@.len() == 3 && "END"@[0] == 'E' && "END"@[1] == 'N');
    reveal_strlit("FALSE");
    assert("FALSE"@.len() == 5 && "FALSE"@[0] == 'F' && "FALSE"@[1] == 'A');
    reveal_strlit("FOR");
    assert("FOR"@.len() == 3 && "FOR"@[0] == 'F' && "FOR"@[1] == 'O');
    reveal_strlit("GOTO");
    assert("GOTO"@.len() == 4 && "GOTO"@[0] == 'G' && "GOTO"@[1] == 'O');
    reveal_strlit("IF");
    assert("IF"@.len() == 2 && "IF"@[0] == 'I' && "IF"@[1] == 'F');
    reveal_strlit("INTEGER");
    assert("INTEGER"@.len() == 7 && "INTEGER"@[0] == 'I' && "INTEGER"@[1] == 'N');
    reveal_strlit("MOD");
    assert("MOD"@.len() == 3 && "MOD"@[0] == 'M' && "MOD"@[1] == 'O');
    reveal_strlit("NEXT");
    assert("NEXT"@.len() == 4 && "NEXT"@[0] == 'N' && "NEXT"@[1] == 'E');
    reveal_strlit("NOT");
    assert("NOT"@.len() == 3 && "NOT"@[0] == 'N' && "NOT"@[1] == 'O');
    reveal_strlit("OR");
    assert("OR"@.len() == 2 && "OR"@[0] == 'O' && "OR"@[1] == 'R');
    reveal_strlit("REM");
    assert("REM"@.len() == 3 && "REM"@[0] == 'R' && "REM"@[1] == 'E');
    reveal_strlit("STEP");
    assert("STEP"@.len() == 4 && "STEP"@[0] == 'S' && "STEP"@[1] == 'T');
    reveal_strlit("STRING");
    assert("STRING"@.len() == 6 && "STRING"@[0] == 'S' && "STRING"@[1] == 'T');
    reveal_strlit("THEN");
    assert("THEN"@.len() == 4 && "THEN"@[0] == 'T' && "THEN"@[1] == 'H');
    reveal_strlit("TO");
    assert("TO"@.len() == 2 && "TO"@[0] == 'T' && "TO"@[1] == 'O');
    reveal_strlit("TRUE");
    assert("TRUE"@.len() == 4 && "TRUE"@[0] == 'T' && "TRUE"@[1] == 'R');
    reveal_strlit("WEND");
    assert("WEND"@.len() == 4 && "WEND"@[0] == 'W' && "WEND"@[1] == 'E');
    reveal_strlit("WHILE");
    assert("WHILE"@.len() == 5 && "WHILE"@[0] == 'W' && "WHILE"@[1] == 'H');
    reveal_strlit("XOR");
    assert("XOR"@.len() == 3 && "XOR"@[0] == 'X' && "XOR"@[1] == 'O');
}

/// Whether `written` spells `word` but for the case of its letters: each of
/// its characters, put in upper case, is the character of `word`.
pub open spec fn spells_any_case(written: Seq<char>, word: Seq<char>) -> bool {
    ascii_upper(written) =~= word
}

/// Reserved words are found in any letter case: a word that spells a
/// reserved word, in whatever mix of small and capital letters, is read as
/// the token of that reserved word; where it spells `REM`, as the remark that
/// it opens.
pub proof fn law_keyword_in_any_case(written: Seq<char>, k: Keyword, tail: Seq<char>)
    requires
        spells_any_case(written, spelling(k)),
        separated(tail),
    ensures
        lex(written + tail, 0) == (match token_of(k) {
            Some(token) => scanned(written + tail, token, 0, written.len() as int),
            None => rest_of_line(written + tail, written.len() as int),
        }),
{
    lemma_spellings(k);
    assert forall|j: int| 0 <= j < written.len() implies letter(
        #[trigger] written[j],
    ) by {
        assert(ascii_upper(written)[j] == upper_letter(written[j]));
        assert('A' <= spelling(k)[j] <= 'Z');
    }
    assert(all_ascii(written));
    assert(is_name(written));
    lemma_name_run(written, tail);
    if tail.len() > 0 {
        assert((written + tail)[written.len() as int] == tail[0]);
    }
}

/// Peeking changes nothing that a caller can see: to peek and then read
/// gives the token, and leaves the lexer in the state, that reading alone
/// does. This holds unless the peek reports the failure of the source, which
/// is reported once and cannot be had again.
pub proof fn law_peek_then_read(p: Peekable)
    requires
        peek_step(p).0 is Ok || failure_of(p.source) == consumed_error(),
        0 <= p.source.offset <= p.source.text.len(),
    ensures
        take_step(peek_step(p).1) == take_step(p),
{
    lemma_read_after_failure(p.source);
}

/// Peeking twice shows the same token twice and takes no more of the text
/// than peeking once. This holds unless the peek reports the failure of the
/// source, which is reported once and cannot be had again.
pub proof fn law_peek_twice(p: Peekable)
    requires
        peek_step(p).0 is Ok || failure_of(p.source) == consumed_error(),
        0 <= p.source.offset <= p.source.text.len(),
    ensures
        peek_step(peek_step(p).1) == peek_step(p),
{
    lemma_read_after_failure(p.source);
}

/// A source whose failure was reported reports, at every further call, the
/// error of a source that is read after its failure.
proof fn lemma_read_after_failure(s: Source)
    requires
        0 <= s.offset <= s.text.len(),
    ensures
        read_step(s).0 is Err ==> read_step(read_step(s).1) == (
            Err::<TokenSpanView, ReadErrorView>(consumed_error()),
            read_step(s).1,
        ),
{
    lemma_run_end(s.text, s.text.len() as int, CharClass::Space, s.text.len() as int);
}

/// Every character but the newline is one column wide, a tab too: the
/// character after it stands on the same line, one column further.
pub proof fn law_one_column_each(text: Seq<char>, i: int)
    requires
        0 <= i < text.len(),
        text[i] != '\n',
    ensures
        line_at(text, i + 1) == line_at(text, i),
        col_at(text, i + 1) == col_at(text, i) + 1,
{
}

/// A newline is the token `Eol`, one character wide, at the place of the
/// newline; the character after it starts the next line, at column one.
pub proof fn law_newline(text: Seq<char>, from: int)
    requires
        0 <= from <= text.len(),
        run_end(text, from, CharClass::Space) < text.len(),
        text[run_end(text, from, CharClass::Space)] == '\n',
    ensures
        lex(text, from) == single(TokenView::Eol, run_end(text, from, CharClass::Space)),
        line_at(text, lex(text, from).end) == line_at(text, lex(text, from).at) + 1,
        col_at(text, lex(text, from).end) == 1,
{
    lemma_run_end_is_end(text, from, CharClass::Space);
}

/// A colon is the token `Eol` too, but the line goes on: the character after
/// it stands on the same line, one column further.
pub proof fn law_colon(text: Seq<char>, from: int)
    requires
        0 <= from <= text.len(),
        run_end(text, from, CharClass::Space) < text.len(),
        text[run_end(text, from, CharClass::Space)] == ':',
    ensures
        lex(text, from) == single(TokenView::Eol, run_end(text, from, CharClass::Space)),
        line_at(text, lex(text, from).end) == line_at(text, lex(text, from).at),
        col_at(text, lex(text, from).end) == col_at(text, lex(text, from).at) + 1,
{
    lemma_run_end_is_end(text, from, CharClass::Space);
}

/// A remark goes to the end of its line: nothing in it is a token, and what
/// is read is the newline at `stop` that ends the line, or `Eof` where the
/// text ends first.
pub proof fn law_remark_ends_with_line(text: Seq<char>, from: int, stop: int)
    requires
        0 <= from <= stop <= text.len(),
        forall|k: int| from <= k < stop ==> #[trigger] text[k] != '\n',
        stop == text.len() || text[stop] == '\n',
    ensures
        rest_of_line(text, from) == (if stop == text.len() {
            eof(text)
        } else {
            single(TokenView::Eol, stop)
        }),
{
    assert forall|k: int| from <= k < stop implies within(
        CharClass::Line,
        #[trigger] text[k],
    ) by {
    }
    lemma_run_end(text, from, CharClass::Line, stop);
}

/// An apostrophe opens a remark.
pub proof fn law_apostrophe_opens_remark(text: Seq<char>, from: int)
    requires
        0 <= from <= text.len(),
        run_end(text, from, CharClass::Space) < text.len(),
        text[run_end(text, from, CharClass::Space)] == '\'',
    ensures
        lex(text, from) == rest_of_line(text, run_end(text, from, CharClass::Space) + 1),
{
    lemma_run_end_is_end(text, from, CharClass::Space);
}

/// Whether the place `(line1, col1)` is at or before the place `(line2,
/// col2)`.
pub open spec fn at_or_before(line1: int, col1: int, line2: int, col2: int) -> bool {
    line1 < line2 || (line1 == line2 && col1 <= col2)
}

/// Places follow the text: a character further on stands at the same place or
/// later, by line and then by column.
pub proof fn law_places_in_order(text: Seq<char>, i: int, j: int)
    requires
        0 <= i <= j <= text.len(),
    ensures
        at_or_before(line_at(text, i), col_at(text, i), line_at(text, j), col_at(text, j)),
    decreases j - i,
{
    if i < j {
        law_places_in_order(text, i, j - 1);
    }
}

/// Tokens come in the order of the text: the token read after another starts
/// at or after the end of that one, so at the same place or later.
pub proof fn law_tokens_in_order(text: Seq<char>, from: int)
    requires
        0 <= from <= text.len(),
    ensures
        lex(text, from).at <= lex(text, lex(text, from).end).at,
        at_or_before(
            line_at(text, lex(text, from).at),
            col_at(text, lex(text, from).at),
            line_at(text, lex(text, lex(text, from).end).at),
            col_at(text, lex(text, lex(text, from).end).at),
        ),
{
    law_token_within_text(text, from);
    law_token_within_text(text, lex(text, from).end);
    law_places_in_order(text, lex(text, from).at, lex(text, lex(text, from).end).at);
}

/// The source `s` as it would be if it ended cleanly.
pub open spec fn ending_cleanly(s: Source) -> Source {
    Source { text: s.text, offset: s.offset, ending: Ending::Eof }
}

/// A failure of the source is never turned into a token, and no token comes
/// from it. Over a source that ends cleanly every call returns a token. Over
/// one that ends in a failure a call returns either that failure or the token,
/// and leaves the lexer at the index, that it would with a clean end.
pub proof fn law_token_or_failure(s: Source)
    ensures
        read_step(ending_cleanly(s)).0 is Ok,
        read_step(s).0 is Ok ==> {
            &&& read_step(s).0 == read_step(ending_cleanly(s)).0
            &&& read_step(s).1.offset == read_step(ending_cleanly(s)).1.offset
            &&& read_step(s).1.ending == s.ending
        },
        read_step(s).0 matches Err(e) ==> {
            &&& !(s.ending is Eof)
            &&& e == failure_of(s)
            &&& read_step(s).1.ending is Consumed
        },
{
}

} // verus!
