//! Arithmetic-expression tokenizing: integers, floats, and the four
//! operators, with whitespace scattered between tokens.

use minilang::token::FloatLiteral;
use minilang::token::Token;
use minilang::tokenize::Tokenizer;

fn float(int_part: u64, frac_part: u64, frac_len: u64) -> Token {
    Token::Float(FloatLiteral { int_part, frac_part, frac_len })
}

fn tokens_of(source: &str) -> Vec<Token> {
    Tokenizer::new(source).tokenize().unwrap()
}

#[test]
fn tokenize_one_integer() {
    assert_eq!(tokens_of("10"), vec![Token::Integer(10), Token::EndOfInput]);
}

#[test]
fn tokenize_one_float() {
    assert_eq!(tokens_of("1.3"), vec![float(1, 3, 1), Token::EndOfInput]);
}

#[test]
fn tokenize_add_ope() {
    assert_eq!(
        tokens_of("10+ 23"),
        vec![
            Token::Integer(10),
            Token::PlusOpe,
            Token::Integer(23),
            Token::EndOfInput,
        ]
    );
}

#[test]
fn tokenize_sub_ope() {
    assert_eq!(
        tokens_of(" 10 +2.0-17 "),
        vec![
            Token::Integer(10),
            Token::PlusOpe,
            float(2, 0, 1),
            Token::MinusOpe,
            Token::Integer(17),
            Token::EndOfInput,
        ]
    );
}

#[test]
fn tokenize_complex_sub_and_add_expresion() {
    assert_eq!(
        tokens_of("10 +.3- 3.8 22+2."),
        vec![
            Token::Integer(10),
            Token::PlusOpe,
            float(0, 3, 1),
            Token::MinusOpe,
            float(3, 8, 1),
            Token::Integer(22),
            Token::PlusOpe,
            float(2, 0, 0),
            Token::EndOfInput,
        ]
    );
}

#[test]
fn tokenize_complex_sub_add_mul_div_expresion() {
    assert_eq!(
        tokens_of("10* .48 /3.2* 4. .5"),
        vec![
            Token::Integer(10),
            Token::MulOpe,
            float(0, 48, 2),
            Token::DivOpe,
            float(3, 2, 1),
            Token::MulOpe,
            float(4, 0, 0),
            float(0, 5, 1),
            Token::EndOfInput,
        ]
    );
}
