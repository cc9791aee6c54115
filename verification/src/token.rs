//! The token model: the closed set of lexical categories that the tokenizer
//! produces, their mathematical views, and the character classes and keyword
//! table that drive scanning.

use vstd::prelude::*;

verus! {

/// The digits of a float literal, kept exactly as scanned: the value denoted
/// is `int_part + frac_part / 10^frac_len`.  Keeping the fraction as a digit
/// count plus a digit value preserves leading zeros (`"1.03"`) and
/// distinguishes `"2."` from `"2.0"`.
#[derive(Debug, PartialEq, Eq, Clone, Copy)]
pub struct FloatLiteral {
    pub int_part: u64,
    pub frac_part: u64,
    pub frac_len: u64,
}

/// One lexical token.  A token sequence produced by the tokenizer holds
/// exactly one `EndOfInput`, always last.
#[derive(Debug, PartialEq, Clone)]
pub enum Token {
    /// A name that is not a keyword, e.g. `my_variable`.
    Identifier(String),
    /// `if`
    If,
    /// `else`
    Else,
    /// `import`
    Import,
    /// `from`
    From,
    /// `return`
    Return,
    /// `static`
    Static,
    /// `const`
    Const,
    /// `let`
    Let,
    /// `fn`
    Fn,
    /// `for`
    For,
    /// `in`
    In,
    /// `while`
    While,
    /// `match`
    Match,
    /// `pub`
    Pub,
    /// `namespace`
    NameSpace,
    /// `class`
    Class,
    /// `trait`
    Trait,
    /// `true`
    True,
    /// `false`
    False,
    /// `int`, the primitive type name
    IntType,
    /// `float`, the primitive type name
    FloatType,
    /// `char`, the primitive type name
    CharType,
    /// `bool`, the primitive type name
    BoolType,
    /// `:`
    Colon,
    /// `;`
    SemiColon,
    /// `.`
    Period,
    /// `,`
    Comma,
    /// `(`
    BrancketStart,
    /// `)`
    BrancketEnd,
    /// `{`
    CurlyBracketStart,
    /// `}`
    CurlyBracketEnd,
    /// `[`
    SquareBracketStart,
    /// `]`
    SquareBracketEnd,
    /// `=`
    EqualOpe,
    /// `+`
    PlusOpe,
    /// `-`
    MinusOpe,
    /// `*`
    MulOpe,
    /// `/`
    DivOpe,
    /// `<`
    GreaterOpe,
    /// `>`
    LesserOpe,
    /// An integer literal, e.g. `20`, carrying its parsed value.
    Integer(u64),
    /// A float literal, e.g. `3.2`, carrying its parsed digits.
    Float(FloatLiteral),
    /// A string literal, e.g. `"string"`, carrying its contents.
    StringLiteral(String),
    /// The end-of-input sentinel.
    EndOfInput,
}

/// The mathematical view of a token: carried strings become `Seq<char>` and
/// carried numbers become `nat`, so that contracts can speak of tokens
/// without reference to machine types.
pub enum TokenV {
    Identifier(Seq<char>),
    If,
    Else,
    Import,
    From,
    Return,
    Static,
    Const,
    Let,
    Fn,
    For,
    In,
    While,
    Match,
    Pub,
    NameSpace,
    Class,
    Trait,
    True,
    False,
    IntType,
    FloatType,
    CharType,
    BoolType,
    Colon,
    SemiColon,
    Period,
    Comma,
    BrancketStart,
    BrancketEnd,
    CurlyBracketStart,
    CurlyBracketEnd,
    SquareBracketStart,
    SquareBracketEnd,
    EqualOpe,
    PlusOpe,
    MinusOpe,
    MulOpe,
    DivOpe,
    GreaterOpe,
    LesserOpe,
    Integer(nat),
    Float { int_part: nat, frac_part: nat, frac_len: nat },
    StringLiteral(Seq<char>),
    EndOfInput,
}

impl View for Token {
    type V = TokenV;

    open spec fn view(&self) -> TokenV {
        match self {
            Token::Identifier(s) => TokenV::Identifier(s@),
            Token::If => TokenV::If,
            Token::Else => TokenV::Else,
            Token::Import => TokenV::Import,
            Token::From => TokenV::From,
            Token::Return => TokenV::Return,
            Token::Static => TokenV::Static,
            Token::Const => TokenV::Const,
            Token::Let => TokenV::Let,
            Token::Fn => TokenV::Fn,
            Token::For => TokenV::For,
            Token::In => TokenV::In,
            Token::While => TokenV::While,
            Token::Match => TokenV::Match,
            Token::Pub => TokenV::Pub,
            Token::NameSpace => TokenV::NameSpace,
            Token::Class => TokenV::Class,
            Token::Trait => TokenV::Trait,
            Token::True => TokenV::True,
            Token::False => TokenV::False,
            Token::IntType => TokenV::IntType,
            Token::FloatType => TokenV::FloatType,
            Token::CharType => TokenV::CharType,
            Token::BoolType => TokenV::BoolType,
            Token::Colon => TokenV::Colon,
            Token::SemiColon => TokenV::SemiColon,
            Token::Period => TokenV::Period,
            Token::Comma => TokenV::Comma,
            Token::BrancketStart => TokenV::BrancketStart,
            Token::BrancketEnd => TokenV::BrancketEnd,
            Token::CurlyBracketStart => TokenV::CurlyBracketStart,
            Token::CurlyBracketEnd => TokenV::CurlyBracketEnd,
            Token::SquareBracketStart => TokenV::SquareBracketStart,
            Token::SquareBracketEnd => TokenV::SquareBracketEnd,
            Token::EqualOpe => TokenV::EqualOpe,
            Token::PlusOpe => TokenV::PlusOpe,
            Token::MinusOpe => TokenV::MinusOpe,
            Token::MulOpe => TokenV::MulOpe,
            Token::DivOpe => TokenV::DivOpe,
            Token::GreaterOpe => TokenV::GreaterOpe,
            Token::LesserOpe => TokenV::LesserOpe,
            Token::Integer(n) => TokenV::Integer(*n as nat),
            Token::Float(f) => TokenV::Float {
                int_part: f.int_part as nat,
                frac_part: f.frac_part as nat,
                frac_len: f.frac_len as nat,
            },
            Token::StringLiteral(s) => TokenV::StringLiteral(s@),
            Token::EndOfInput => TokenV::EndOfInput,
        }
    }
}

impl DeepView for Token {
    type V = TokenV;

    open spec fn deep_view(&self) -> TokenV {
        self.view()
    }
}

/// The whitespace characters that separate tokens and are never part of one.
pub open spec fn is_whitespace_char(c: char) -> bool {
    c == ' ' || c == '\t' || c == '\n'
}

/// A character that may open an identifier: an ASCII letter or underscore.
pub open spec fn is_ident_start_char(c: char) -> bool {
    ('a' <= c && c <= 'z') || ('A' <= c && c <= 'Z') || c == '_'
}

/// A decimal digit.
pub open spec fn is_digit_char(c: char) -> bool {
    '0' <= c && c <= '9'
}

/// A character that may continue an identifier run.
pub open spec fn is_ident_char(c: char) -> bool {
    is_ident_start_char(c) || is_digit_char(c)
}

/// A character of a numeric literal run: a digit or a dot.
pub open spec fn is_numeric_char(c: char) -> bool {
    is_digit_char(c) || c == '.'
}

pub fn whitespace_char(c: char) -> (r: bool)
    ensures
        r == is_whitespace_char(c),
{
    c == ' ' || c == '\t' || c == '\n'
}

pub fn ident_start_char(c: char) -> (r: bool)
    ensures
        r == is_ident_start_char(c),
{
    ('a' <= c && c <= 'z') || ('A' <= c && c <= 'Z') || c == '_'
}

pub fn digit_char(c: char) -> (r: bool)
    ensures
        r == is_digit_char(c),
{
    '0' <= c && c <= '9'
}

pub fn ident_char(c: char) -> (r: bool)
    ensures
        r == is_ident_char(c),
{
    ident_start_char(c) || digit_char(c)
}

pub fn numeric_char(c: char) -> (r: bool)
    ensures
        r == is_numeric_char(c),
{
    digit_char(c) || c == '.'
}

/// The numeric value of one decimal digit character.  Non-digits map to 10,
/// a value no digit takes, so misuse cannot be mistaken for a digit.
pub open spec fn digit_val(c: char) -> nat {
    if c == '0' {
        0
    } else if c == '1' {
        1
    } else if c == '2' {
        2
    } else if c == '3' {
        3
    } else if c == '4' {
        4
    } else if c == '5' {
        5
    } else if c == '6' {
        6
    } else if c == '7' {
        7
    } else if c == '8' {
        8
    } else if c == '9' {
        9
    } else {
        10
    }
}

pub fn digit_value(c: char) -> (v: u64)
    requires
        is_digit_char(c),
    ensures
        v as nat == digit_val(c),
{
    if c == '0' {
        0
    } else if c == '1' {
        1
    } else if c == '2' {
        2
    } else if c == '3' {
        3
    } else if c == '4' {
        4
    } else if c == '5' {
        5
    } else if c == '6' {
        6
    } else if c == '7' {
        7
    } else if c == '8' {
        8
    } else {
        9
    }
}

/// The fixed keyword table.  A maximal identifier run is classified as a
/// keyword only when the entire lexeme matches one of these words exactly.
pub open spec fn spec_keyword(lex: Seq<char>) -> Option<TokenV> {
    if lex == "if"@ {
        Some(TokenV::If)
    } else if lex == "else"@ {
        Some(TokenV::Else)
    } else if lex == "import"@ {
        Some(TokenV::Import)
    } else if lex == "from"@ {
        Some(TokenV::From)
    } else if lex == "return"@ {
        Some(TokenV::Return)
    } else if lex == "static"@ {
        Some(TokenV::Static)
    } else if lex == "const"@ {
        Some(TokenV::Const)
    } else if lex == "let"@ {
        Some(TokenV::Let)
    } else if lex == "fn"@ {
        Some(TokenV::Fn)
    } else if lex == "for"@ {
        Some(TokenV::For)
    } else if lex == "in"@ {
        Some(TokenV::In)
    } else if lex == "while"@ {
        Some(TokenV::While)
    } else if lex == "match"@ {
        Some(TokenV::Match)
    } else if lex == "pub"@ {
        Some(TokenV::Pub)
    } else if lex == "namespace"@ {
        Some(TokenV::NameSpace)
    } else if lex == "class"@ {
        Some(TokenV::Class)
    } else if lex == "trait"@ {
        Some(TokenV::Trait)
    } else if lex == "true"@ {
        Some(TokenV::True)
    } else if lex == "false"@ {
        Some(TokenV::False)
    } else if lex == "int"@ {
        Some(TokenV::IntType)
    } else if lex == "float"@ {
        Some(TokenV::FloatType)
    } else if lex == "char"@ {
        Some(TokenV::CharType)
    } else if lex == "bool"@ {
        Some(TokenV::BoolType)
    } else {
        None
    }
}

/// Character-by-character string comparison, so that keyword classification
/// needs no allocation and no trust in derived equality.
pub fn str_equal(a: &str, b: &str) -> (r: bool)
    ensures
        r == (a@ == b@),
{
    let an = a.unicode_len();
    let bn = b.unicode_len();
    if an != bn {
        assert(a@ != b@);
        return false;
    }
    let mut i: usize = 0;
    while i < an
        invariant
            i <= an,
            an as nat == a@.len(),
            bn as nat == b@.len(),
            an == bn,
            forall|j: int| 0 <= j < i ==> a@[j] == b@[j],
        decreases an - i,
    {
        if a.get_char(i) != b.get_char(i) {
            assert(a@ != b@);
            return false;
        }
        i += 1;
    }
    proof {
        assert(a@ =~= b@);
    }
    true
}

/// Classifies a maximal identifier lexeme against the keyword table.
pub fn keyword_token(lex: &str) -> (r: Option<Token>)
    ensures
        match r {
            Some(t) => spec_keyword(lex@) == Some(t@),
            None => spec_keyword(lex@) is None,
        },
{
    if str_equal(lex, "if") {
        Some(Token::If)
    } else if str_equal(lex, "else") {
        Some(Token::Else)
    } else if str_equal(lex, "import") {
        Some(Token::Import)
    } else if str_equal(lex, "from") {
        Some(Token::From)
    } else if str_equal(lex, "return") {
        Some(Token::Return)
    } else if str_equal(lex, "static") {
        Some(Token::Static)
    } else if str_equal(lex, "const") {
        Some(Token::Const)
    } else if str_equal(lex, "let") {
        Some(Token::Let)
    } else if str_equal(lex, "fn") {
        Some(Token::Fn)
    } else if str_equal(lex, "for") {
        Some(Token::For)
    } else if str_equal(lex, "in") {
        Some(Token::In)
    } else if str_equal(lex, "while") {
        Some(Token::While)
    } else if str_equal(lex, "match") {
        Some(Token::Match)
    } else if str_equal(lex, "pub") {
        Some(Token::Pub)
    } else if str_equal(lex, "namespace") {
        Some(Token::NameSpace)
    } else if str_equal(lex, "class") {
        Some(Token::Class)
    } else if str_equal(lex, "trait") {
        Some(Token::Trait)
    } else if str_equal(lex, "true") {
        Some(Token::True)
    } else if str_equal(lex, "false") {
        Some(Token::False)
    } else if str_equal(lex, "int") {
        Some(Token::IntType)
    } else if str_equal(lex, "float") {
        Some(Token::FloatType)
    } else if str_equal(lex, "char") {
        Some(Token::CharType)
    } else if str_equal(lex, "bool") {
        Some(Token::BoolType)
    } else {
        None
    }
}

} // verus!
