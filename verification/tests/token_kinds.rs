//! For every token kind, a minimal source holding exactly its canonical
//! lexeme tokenizes to that token followed by `EndOfInput`.

use minilang::token::FloatLiteral;
use minilang::token::Token;
use minilang::tokenize::Tokenizer;

fn check(source: &str, token: Token) {
    assert_eq!(
        Tokenizer::new(source).tokenize().unwrap(),
        vec![token, Token::EndOfInput],
        "canonical lexeme {:?}",
        source
    );
}

#[test]
fn kinds_keywords() {
    check("if", Token::If);
    check("else", Token::Else);
    check("import", Token::Import);
    check("from", Token::From);
    check("return", Token::Return);
    check("static", Token::Static);
    check("const", Token::Const);
    check("let", Token::Let);
    check("fn", Token::Fn);
    check("for", Token::For);
    check("in", Token::In);
    check("while", Token::While);
    check("match", Token::Match);
    check("pub", Token::Pub);
    check("namespace", Token::NameSpace);
    check("class", Token::Class);
    check("trait", Token::Trait);
    check("true", Token::True);
    check("false", Token::False);
    check("int", Token::IntType);
    check("float", Token::FloatType);
    check("char", Token::CharType);
    check("bool", Token::BoolType);
}

#[test]
fn kinds_punctuation() {
    check(":", Token::Colon);
    check(";", Token::SemiColon);
    check(".", Token::Period);
    check(",", Token::Comma);
    check("(", Token::BrancketStart);
    check(")", Token::BrancketEnd);
    check("{", Token::CurlyBracketStart);
    check("}", Token::CurlyBracketEnd);
    check("[", Token::SquareBracketStart);
    check("]", Token::SquareBracketEnd);
    check("=", Token::EqualOpe);
    check("+", Token::PlusOpe);
    check("-", Token::MinusOpe);
    check("*", Token::MulOpe);
    check("/", Token::DivOpe);
    check("<", Token::GreaterOpe);
    check(">", Token::LesserOpe);
}

#[test]
fn kinds_literals() {
    check("abc", Token::Identifier("abc".to_string()));
    check("7", Token::Integer(7));
    check("1.5", Token::Float(FloatLiteral { int_part: 1, frac_part: 5, frac_len: 1 }));
    check("\"hi\"", Token::StringLiteral("hi".to_string()));
}

#[test]
fn kinds_sentinel() {
    assert_eq!(Tokenizer::new("").tokenize().unwrap(), vec![Token::EndOfInput]);
}
