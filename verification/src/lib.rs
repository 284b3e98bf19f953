//! A lexer for a BASIC dialect.
//!
//! Bytes go in; `decode` makes them text, and `reader` hands the text out one
//! character at a time, each with its line and column. Tokens come out, each
//! with the place where it starts and its width in characters. What the lexer
//! returns is stated once, as a function of the text, in `grammar`; the
//! executable lexer in `lexer` is proved to compute exactly that, and `laws`
//! holds what follows from it for every text.

pub mod ast;
pub mod chars;
pub mod decode;
pub mod grammar;
pub mod keyword;
pub mod laws;
pub mod lexer;
pub mod number;
pub mod peekable;
pub mod reader;
pub mod text;
pub mod token;
