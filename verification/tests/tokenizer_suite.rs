//! Full-language tokenizing: keywords, symbols, operators, literals and a
//! larger mixed program.

use minilang::token::FloatLiteral;
use minilang::token::Token;
use minilang::tokenize::Tokenizer;

fn tokens_of(source: &str) -> Vec<Token> {
    Tokenizer::new(source).tokenize().unwrap()
}

fn ident(name: &str) -> Token {
    Token::Identifier(name.to_string())
}

#[test]
fn test_tokenize_empty() {
    assert_eq!(tokens_of(""), vec![Token::EndOfInput]);
}

#[test]
fn test_tokenize_whitespace() {
    assert_eq!(tokens_of("   \t\n"), vec![Token::EndOfInput]);
}

#[test]
fn test_tokenize_keywords() {
    assert_eq!(
        tokens_of("if import in from static const let fn for true false"),
        vec![
            Token::If,
            Token::Import,
            Token::In,
            Token::From,
            Token::Static,
            Token::Const,
            Token::Let,
            Token::Fn,
            Token::For,
            Token::True,
            Token::False,
            Token::EndOfInput,
        ]
    );
}

#[test]
fn test_tokenize_symbols() {
    assert_eq!(
        tokens_of(":;(){}[]="),
        vec![
            Token::Colon,
            Token::SemiColon,
            Token::BrancketStart,
            Token::BrancketEnd,
            Token::CurlyBracketStart,
            Token::CurlyBracketEnd,
            Token::SquareBracketStart,
            Token::SquareBracketEnd,
            Token::EqualOpe,
            Token::EndOfInput,
        ]
    );
}

#[test]
fn test_tokenize_operators() {
    assert_eq!(
        tokens_of("+-*/"),
        vec![
            Token::PlusOpe,
            Token::MinusOpe,
            Token::MulOpe,
            Token::DivOpe,
            Token::EndOfInput,
        ]
    );
}

#[test]
fn test_tokenize_mixed() {
    assert_eq!(
        tokens_of("let=\"hello world\"2232 43.43; if (true)"),
        vec![
            Token::Let,
            Token::EqualOpe,
            Token::StringLiteral("hello world".to_string()),
            Token::Integer(2232),
            Token::Float(FloatLiteral { int_part: 43, frac_part: 43, frac_len: 2 }),
            Token::SemiColon,
            Token::If,
            Token::BrancketStart,
            Token::True,
            Token::BrancketEnd,
            Token::EndOfInput,
        ]
    );
}

#[test]
fn test_tokenize_complex() {
    let source = "
let x = 10;
const PI = 3.14;
fn add(a, b) {
    if a > 0 {
        return a + b;
    } else {
        return 0;
    }
}
import { util } from \"module\";
for i in [1, 2, 3] {
    static count = 0;
    count = count + 1;
}
";
    assert_eq!(
        tokens_of(source),
        vec![
            Token::Let,
            ident("x"),
            Token::EqualOpe,
            Token::Integer(10),
            Token::SemiColon,
            Token::Const,
            ident("PI"),
            Token::EqualOpe,
            Token::Float(FloatLiteral { int_part: 3, frac_part: 14, frac_len: 2 }),
            Token::SemiColon,
            Token::Fn,
            ident("add"),
            Token::BrancketStart,
            ident("a"),
            Token::Comma,
            ident("b"),
            Token::BrancketEnd,
            Token::CurlyBracketStart,
            Token::If,
            ident("a"),
            Token::LesserOpe,
            Token::Integer(0),
            Token::CurlyBracketStart,
            Token::Return,
            ident("a"),
            Token::PlusOpe,
            ident("b"),
            Token::SemiColon,
            Token::CurlyBracketEnd,
            Token::Else,
            Token::CurlyBracketStart,
            Token::Return,
            Token::Integer(0),
            Token::SemiColon,
            Token::CurlyBracketEnd,
            Token::CurlyBracketEnd,
            Token::Import,
            Token::CurlyBracketStart,
            ident("util"),
            Token::CurlyBracketEnd,
            Token::From,
            Token::StringLiteral("module".to_string()),
            Token::SemiColon,
            Token::For,
            ident("i"),
            Token::In,
            Token::SquareBracketStart,
            Token::Integer(1),
            Token::Comma,
            Token::Integer(2),
            Token::Comma,
            Token::Integer(3),
            Token::SquareBracketEnd,
            Token::CurlyBracketStart,
            Token::Static,
            ident("count"),
            Token::EqualOpe,
            Token::Integer(0),
            Token::SemiColon,
            ident("count"),
            Token::EqualOpe,
            ident("count"),
            Token::PlusOpe,
            Token::Integer(1),
            Token::SemiColon,
            Token::CurlyBracketEnd,
            Token::EndOfInput,
        ]
    );
}
