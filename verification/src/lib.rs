//! Lexical and syntactic front end for a small statically-typed language.
//!
//! The pipeline is strictly linear: source text is scanned by the tokenizer
//! into a token sequence terminated by a single `EndOfInput` sentinel, and the
//! parser turns that sequence into a `Program` syntax tree.  Either stage
//! reports the first fault it meets, as a typed error with an offset, and
//! never returns a partial result.

pub mod ast;
pub mod laws;
pub mod parser;
pub mod token;
pub mod tokenize;
