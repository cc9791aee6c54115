//! Scanning-rule scenarios: the keyword word-boundary rule, whitespace
//! insensitivity, the numeric-literal rules, and each lexical error with an
//! input that raises it.

use minilang::token::FloatLiteral;
use minilang::token::Token;
use minilang::tokenize::Tokenizer;
use minilang::tokenize::TokenizeErr;
use minilang::tokenize::TokenizeErrType;

fn tokens_of(source: &str) -> Vec<Token> {
    Tokenizer::new(source).tokenize().unwrap()
}

fn error_of(source: &str) -> TokenizeErr {
    Tokenizer::new(source).tokenize().unwrap_err()
}

#[test]
fn keyword_strict_prefix_is_one_identifier() {
    // "in" is a keyword, but an identifier merely starting with it must
    // never be split into keyword plus remainder
    assert_eq!(
        tokens_of("infinity"),
        vec![Token::Identifier("infinity".to_string()), Token::EndOfInput]
    );
    assert_eq!(
        tokens_of("internal"),
        vec![Token::Identifier("internal".to_string()), Token::EndOfInput]
    );
    assert_eq!(
        tokens_of("iffy forever classic"),
        vec![
            Token::Identifier("iffy".to_string()),
            Token::Identifier("forever".to_string()),
            Token::Identifier("classic".to_string()),
            Token::EndOfInput,
        ]
    );
    // a keyword followed by a word boundary is still the keyword
    assert_eq!(
        tokens_of("in x"),
        vec![Token::In, Token::Identifier("x".to_string()), Token::EndOfInput]
    );
}

#[test]
fn whitespace_between_tokens_changes_nothing() {
    let plain = tokens_of("let x=10;");
    assert_eq!(tokens_of("let x = 10 ;"), plain);
    assert_eq!(tokens_of("let\tx\n=   10\n\n;"), plain);
    assert_eq!(tokens_of(" \t let x=10; \n"), plain);
}

#[test]
fn float_rule_one_dot() {
    assert_eq!(
        tokens_of("0.25"),
        vec![
            Token::Float(FloatLiteral { int_part: 0, frac_part: 25, frac_len: 2 }),
            Token::EndOfInput,
        ]
    );
    // either side of the dot may be empty, but not both
    assert_eq!(
        tokens_of(".5"),
        vec![
            Token::Float(FloatLiteral { int_part: 0, frac_part: 5, frac_len: 1 }),
            Token::EndOfInput,
        ]
    );
    assert_eq!(
        tokens_of("5."),
        vec![
            Token::Float(FloatLiteral { int_part: 5, frac_part: 0, frac_len: 0 }),
            Token::EndOfInput,
        ]
    );
    // a fraction keeps its leading zeros through frac_len
    assert_eq!(
        tokens_of("1.03"),
        vec![
            Token::Float(FloatLiteral { int_part: 1, frac_part: 3, frac_len: 2 }),
            Token::EndOfInput,
        ]
    );
}

#[test]
fn float_rule_two_dots_is_illegal() {
    assert_eq!(
        error_of("1.2.3"),
        TokenizeErr { err_type: TokenizeErrType::IllegalFloatLiteral, location: 0 }
    );
    // the offset names the run's start, wherever it lies
    assert_eq!(
        error_of("x = 1..5;"),
        TokenizeErr { err_type: TokenizeErrType::IllegalFloatLiteral, location: 4 }
    );
}

#[test]
fn unexpected_character() {
    assert_eq!(
        error_of("let x = @;"),
        TokenizeErr { err_type: TokenizeErrType::UnexpectedCharacter('@'), location: 8 }
    );
    assert_eq!(
        error_of("#"),
        TokenizeErr { err_type: TokenizeErrType::UnexpectedCharacter('#'), location: 0 }
    );
}

#[test]
fn unterminated_string_literal() {
    // the offset names the opening quote
    assert_eq!(
        error_of("x = \"abc"),
        TokenizeErr { err_type: TokenizeErrType::UnterminatedStringLiteral, location: 4 }
    );
    assert_eq!(
        error_of("\""),
        TokenizeErr { err_type: TokenizeErrType::UnterminatedStringLiteral, location: 0 }
    );
}

#[test]
fn integer_beyond_carrier_is_rejected_at_run_start() {
    // 2^64 does not fit the token's carrier
    assert_eq!(
        error_of("18446744073709551616"),
        TokenizeErr { err_type: TokenizeErrType::UnexpectedCharacter('1'), location: 0 }
    );
    // the largest value that fits still scans
    assert_eq!(
        tokens_of("18446744073709551615"),
        vec![Token::Integer(u64::MAX), Token::EndOfInput]
    );
}

#[test]
fn string_may_hold_whitespace_and_symbols() {
    assert_eq!(
        tokens_of("\"a b\tc;{}\""),
        vec![Token::StringLiteral("a b\tc;{}".to_string()), Token::EndOfInput]
    );
}
