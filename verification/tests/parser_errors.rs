//! Failure behaviour of the parser: truncated programs always fail cleanly,
//! and each error kind is raised where the grammar demands it.

use minilang::parser::ParseErr;
use minilang::parser::ParseErrType;
use minilang::parser::Parser;
use minilang::token::Token;
use minilang::tokenize::Tokenizer;

fn tokens_of(source: &str) -> Vec<Token> {
    Tokenizer::new(source).tokenize().unwrap()
}

fn parse_error(source: &str) -> ParseErr {
    Parser::new(tokens_of(source)).parse().unwrap_err()
}

#[test]
fn truncating_a_well_formed_program_yields_an_error() {
    // cutting a single declaration anywhere strictly inside it always gives
    // a ParseErr, never a panic and never a silently wrong tree
    for source in [
        "static X: int = 1;",
        "fn add(a: int, b: int): int { a + b; }",
        "namespace n { static A = 1; }",
    ] {
        let tokens = tokens_of(source);
        let body_len = tokens.len() - 1;  // drop the sentinel
        for keep in 1..body_len {
            let mut truncated: Vec<Token> = tokens[..keep].to_vec();
            truncated.push(Token::EndOfInput);
            let result = Parser::new(truncated).parse();
            assert!(result.is_err(), "kept {} tokens of {:?}", keep, source);
        }
    }
}

#[test]
fn truncating_the_token_sequence_itself_yields_an_error() {
    // even without the sentinel the parser fails cleanly
    let tokens = tokens_of("static X: int = 1;");
    let body_len = tokens.len() - 1;
    for keep in 0..body_len {
        let truncated: Vec<Token> = tokens[..keep].to_vec();
        if keep == 0 {
            continue;  // no tokens at all: nothing was demanded yet
        }
        let result = Parser::new(truncated).parse();
        assert!(result.is_err(), "kept {} tokens without sentinel", keep);
    }
}

#[test]
fn unexpected_token_names_location_and_found() {
    let e = parse_error("static 5 = 1;");
    assert_eq!(e.location, 1);
    match e.err_type {
        ParseErrType::UnexpectedToken { found, .. } => assert_eq!(found, Token::Integer(5)),
        other => panic!("expected UnexpectedToken, got {:?}", other),
    }
}

#[test]
fn non_declaration_at_top_level_is_rejected() {
    let e = parse_error("let x = 1;");
    assert_eq!(e.location, 0);
    assert!(matches!(e.err_type, ParseErrType::UnexpectedToken { .. }));
}

#[test]
fn unexpected_end_of_input() {
    let e = parse_error("static X");
    assert_eq!(e.err_type, ParseErrType::UnexpectedEndOfInput);
    assert_eq!(e.location, 2);
}

#[test]
fn invalid_pattern() {
    let e = parse_error("fn f() { let ; }");
    assert_eq!(e.err_type, ParseErrType::InvalidPattern);
    assert_eq!(e.location, 6);
}

#[test]
fn missing_semicolon_after_expression_statement() {
    let e = parse_error("fn f() { 1 + 2 }");
    assert!(matches!(e.err_type, ParseErrType::UnexpectedToken { .. }));
}

#[test]
fn no_partial_tree_comes_with_an_error() {
    // the same source parses whole or not at all
    assert!(Parser::new(tokens_of("static X = 1; static")).parse().is_err());
    let ok = Parser::new(tokens_of("static X = 1;")).parse().unwrap();
    assert_eq!(ok.declarations.len(), 1);
}

#[test]
fn parser_is_total_on_arbitrary_token_sequences() {
    // hand-built sequences, sentinel or not, never panic
    let weird: Vec<Vec<Token>> = vec![
        vec![],
        vec![Token::EndOfInput],
        vec![Token::EndOfInput, Token::EndOfInput],
        vec![Token::CurlyBracketEnd],
        vec![Token::Pub],
        vec![Token::Pub, Token::Pub, Token::Static],
        vec![Token::EqualOpe, Token::LesserOpe],
        vec![Token::Fn, Token::Identifier("f".to_string()), Token::BrancketStart],
    ];
    for tokens in weird {
        let _ = Parser::new(tokens).parse();
    }
}
