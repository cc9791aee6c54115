//! The parser: turns a token sequence into a `Program` by recursive descent,
//! with expressions parsed by precedence climbing (two binary levels, both
//! left-associative, unary minus tighter than either).
//!
//! Every parse function is total: it either returns the parsed node together
//! with the position just past it, or the first failure, and never panics on
//! any token sequence.  Each function's contract states that the cursor
//! stays within bounds and moves strictly forward on success, which is also
//! what bounds the recursion; beyond that, the contracts pin the returned
//! tree against the consumed tokens through grammar relations —
//! [`expr_matches`] (one level per precedence production, so precedence,
//! associativity and unary binding are part of the contract),
//! [`stmt_matches`]/[`stmts_match`] for statement dispatch and bodies, and
//! [`decl_matches`]/[`program_matches`] for the declaration list, complete
//! and in source order — together with the exact conditions for each error
//! kind, and success-owed clauses for the shapes small enough to state
//! positionally.

use crate::ast::BinaryOperator;
use crate::ast::ClassDeclaration;
use crate::ast::Declaration;
use crate::ast::Expression;
use crate::ast::FieldDeclaration;
use crate::ast::FunctionDeclaration;
use crate::ast::FunctionSignature;
use crate::ast::ImportDeclaration;
use crate::ast::Literal;
use crate::ast::NamespaceDeclaration;
use crate::ast::Pattern;
use crate::ast::Program;
use crate::ast::StaticVariableDeclaration;
use crate::ast::Statement;
use crate::ast::TraitDeclaration;
use crate::ast::TypeLiteral;
use crate::ast::UnaryOperator;
use crate::token::str_equal;
use crate::token::Token;
use crate::token::TokenV;
use vstd::prelude::*;

verus! {

/// The ways parsing can fail.
#[derive(Debug, PartialEq)]
pub enum ParseErrType {
    /// The current token fits none of the alternatives the grammar allows
    /// here; `expected` lists representative token kinds that would.
    UnexpectedToken { expected: Vec<TokenKind>, found: Token },
    /// The token sequence ended (or reached `EndOfInput`) where the grammar
    /// demands more.
    UnexpectedEndOfInput,
    /// None of the pattern alternatives matched at a pattern position.
    InvalidPattern,
}

/// A parsing failure: its kind and the index into the token sequence at
/// which it was detected.
#[derive(Debug, PartialEq)]
pub struct ParseErr {
    pub err_type: ParseErrType,
    pub location: usize,
}

/// A token's category, without its carried value; what `expect` compares.
#[derive(Debug, PartialEq, Eq, Structural, Clone, Copy)]
pub enum TokenKind {
    Identifier,
    If,
    Else,
    Import,
    From,
    Return,
    Static,
    Const,
    Let,
    Fn,
    For,
    In,
    While,
    Match,
    Pub,
    NameSpace,
    Class,
    Trait,
    True,
    False,
    IntType,
    FloatType,
    CharType,
    BoolType,
    Colon,
    SemiColon,
    Period,
    Comma,
    BrancketStart,
    BrancketEnd,
    CurlyBracketStart,
    CurlyBracketEnd,
    SquareBracketStart,
    SquareBracketEnd,
    EqualOpe,
    PlusOpe,
    MinusOpe,
    MulOpe,
    DivOpe,
    GreaterOpe,
    LesserOpe,
    Integer,
    Float,
    StringLiteral,
    EndOfInput,
}

/// The category of a token.
pub open spec fn spec_token_kind(t: Token) -> TokenKind {
    match t {
        Token::Identifier(_) => TokenKind::Identifier,
        Token::If => TokenKind::If,
        Token::Else => TokenKind::Else,
        Token::Import => TokenKind::Import,
        Token::From => TokenKind::From,
        Token::Return => TokenKind::Return,
        Token::Static => TokenKind::Static,
        Token::Const => TokenKind::Const,
        Token::Let => TokenKind::Let,
        Token::Fn => TokenKind::Fn,
        Token::For => TokenKind::For,
        Token::In => TokenKind::In,
        Token::While => TokenKind::While,
        Token::Match => TokenKind::Match,
        Token::Pub => TokenKind::Pub,
        Token::NameSpace => TokenKind::NameSpace,
        Token::Class => TokenKind::Class,
        Token::Trait => TokenKind::Trait,
        Token::True => TokenKind::True,
        Token::False => TokenKind::False,
        Token::IntType => TokenKind::IntType,
        Token::FloatType => TokenKind::FloatType,
        Token::CharType => TokenKind::CharType,
        Token::BoolType => TokenKind::BoolType,
        Token::Colon => TokenKind::Colon,
        Token::SemiColon => TokenKind::SemiColon,
        Token::Period => TokenKind::Period,
        Token::Comma => TokenKind::Comma,
        Token::BrancketStart => TokenKind::BrancketStart,
        Token::BrancketEnd => TokenKind::BrancketEnd,
        Token::CurlyBracketStart => TokenKind::CurlyBracketStart,
        Token::CurlyBracketEnd => TokenKind::CurlyBracketEnd,
        Token::SquareBracketStart => TokenKind::SquareBracketStart,
        Token::SquareBracketEnd => TokenKind::SquareBracketEnd,
        Token::EqualOpe => TokenKind::EqualOpe,
        Token::PlusOpe => TokenKind::PlusOpe,
        Token::MinusOpe => TokenKind::MinusOpe,
        Token::MulOpe => TokenKind::MulOpe,
        Token::DivOpe => TokenKind::DivOpe,
        Token::GreaterOpe => TokenKind::GreaterOpe,
        Token::LesserOpe => TokenKind::LesserOpe,
        Token::Integer(_) => TokenKind::Integer,
        Token::Float(_) => TokenKind::Float,
        Token::StringLiteral(_) => TokenKind::StringLiteral,
        Token::EndOfInput => TokenKind::EndOfInput,
    }
}

/// The category of a token, executable form.
pub fn token_kind(t: &Token) -> (k: TokenKind)
    ensures
        k == spec_token_kind(*t),
{
    match t {
        Token::Identifier(_) => TokenKind::Identifier,
        Token::If => TokenKind::If,
        Token::Else => TokenKind::Else,
        Token::Import => TokenKind::Import,
        Token::From => TokenKind::From,
        Token::Return => TokenKind::Return,
        Token::Static => TokenKind::Static,
        Token::Const => TokenKind::Const,
        Token::Let => TokenKind::Let,
        Token::Fn => TokenKind::Fn,
        Token::For => TokenKind::For,
        Token::In => TokenKind::In,
        Token::While => TokenKind::While,
        Token::Match => TokenKind::Match,
        Token::Pub => TokenKind::Pub,
        Token::NameSpace => TokenKind::NameSpace,
        Token::Class => TokenKind::Class,
        Token::Trait => TokenKind::Trait,
        Token::True => TokenKind::True,
        Token::False => TokenKind::False,
        Token::IntType => TokenKind::IntType,
        Token::FloatType => TokenKind::FloatType,
        Token::CharType => TokenKind::CharType,
        Token::BoolType => TokenKind::BoolType,
        Token::Colon => TokenKind::Colon,
        Token::SemiColon => TokenKind::SemiColon,
        Token::Period => TokenKind::Period,
        Token::Comma => TokenKind::Comma,
        Token::BrancketStart => TokenKind::BrancketStart,
        Token::BrancketEnd => TokenKind::BrancketEnd,
        Token::CurlyBracketStart => TokenKind::CurlyBracketStart,
        Token::CurlyBracketEnd => TokenKind::CurlyBracketEnd,
        Token::SquareBracketStart => TokenKind::SquareBracketStart,
        Token::SquareBracketEnd => TokenKind::SquareBracketEnd,
        Token::EqualOpe => TokenKind::EqualOpe,
        Token::PlusOpe => TokenKind::PlusOpe,
        Token::MinusOpe => TokenKind::MinusOpe,
        Token::MulOpe => TokenKind::MulOpe,
        Token::DivOpe => TokenKind::DivOpe,
        Token::GreaterOpe => TokenKind::GreaterOpe,
        Token::LesserOpe => TokenKind::LesserOpe,
        Token::Integer(_) => TokenKind::Integer,
        Token::Float(_) => TokenKind::Float,
        Token::StringLiteral(_) => TokenKind::StringLiteral,
        Token::EndOfInput => TokenKind::EndOfInput,
    }
}

/// Builds the failure for the token at `pos`: `UnexpectedEndOfInput` where
/// the sequence (or its sentinel) ends, else `UnexpectedToken` naming the
/// kinds that the grammar would have accepted here.
fn parse_err(toks: &Vec<Token>, pos: usize, expected: Vec<TokenKind>) -> (e: ParseErr)
    requires
        pos <= toks@.len(),
    ensures
        e.location == pos,
        !(e.err_type is InvalidPattern),
        (pos < toks@.len() && !(toks@[pos as int] is EndOfInput)) ==> (
        e.err_type matches ParseErrType::UnexpectedToken { expected: ex, .. } && ex == expected),
        (pos == toks@.len() || toks@[pos as int] is EndOfInput)
            ==> e.err_type is UnexpectedEndOfInput,
{
    if pos < toks.len() {
        match &toks[pos] {
            Token::EndOfInput => ParseErr {
                err_type: ParseErrType::UnexpectedEndOfInput,
                location: pos,
            },
            t => ParseErr {
                err_type: ParseErrType::UnexpectedToken { expected, found: t.clone() },
                location: pos,
            },
        }
    } else {
        ParseErr { err_type: ParseErrType::UnexpectedEndOfInput, location: pos }
    }
}

/// True when the token at `pos` exists and has the given kind.
fn at_kind(toks: &Vec<Token>, pos: usize, kind: TokenKind) -> (r: bool)
    ensures
        r == (pos < toks@.len() && spec_token_kind(toks@[pos as int]) == kind),
        toks@.len() <= usize::MAX,
{
    let n = toks.len();
    assert(n == toks@.len());
    pos < n && token_kind(&toks[pos]) == kind
}

/// `expect`: consumes the token at `pos` when it has the given kind, else
/// fails without consuming.
fn expect_token(toks: &Vec<Token>, pos: usize, kind: TokenKind) -> (r: Result<usize, ParseErr>)
    requires
        pos <= toks@.len(),
    ensures
        match r {
            Ok(np) => np == pos + 1 && pos < toks@.len() && spec_token_kind(toks@[pos as int])
                == kind,
            Err(e) => e.location <= toks@.len() && (e.err_type is InvalidPattern
                ==> spec_invalid_pattern_at(toks@, e.location as int)),
        },
        (pos < toks@.len() && spec_token_kind(toks@[pos as int]) == kind) ==> r is Ok,
        r matches Err(e) ==> !(e.err_type is InvalidPattern),
{
    if at_kind(toks, pos, kind) {
        Ok(pos + 1)
    } else {
        let mut expected: Vec<TokenKind> = Vec::new();
        expected.push(kind);
        Err(parse_err(toks, pos, expected))
    }
}

/// Consumes an identifier token and hands out its name.
fn expect_identifier(toks: &Vec<Token>, pos: usize) -> (r: Result<(String, usize), ParseErr>)
    requires
        pos <= toks@.len(),
    ensures
        match r {
            Ok((name, np)) => np == pos + 1 && pos < toks@.len() && toks@[pos as int]@
                == TokenV::Identifier(name@),
            Err(e) => e.location <= toks@.len() && (e.err_type is InvalidPattern
                ==> spec_invalid_pattern_at(toks@, e.location as int)),
        },
        (pos < toks@.len() && spec_token_kind(toks@[pos as int]) == TokenKind::Identifier)
            ==> r is Ok,
        r matches Err(e) ==> !(e.err_type is InvalidPattern),
{
    if pos < toks.len() {
        match &toks[pos] {
            Token::Identifier(n) => Ok((n.clone(), pos + 1)),
            _ => {
                let mut expected: Vec<TokenKind> = Vec::new();
                expected.push(TokenKind::Identifier);
                Err(parse_err(toks, pos, expected))
            },
        }
    } else {
        let mut expected: Vec<TokenKind> = Vec::new();
        expected.push(TokenKind::Identifier);
        Err(parse_err(toks, pos, expected))
    }
}

/// Where the accesser path whose last identifier ended at `p` stops: past
/// each `"." IDENT` or `"::" IDENT` continuation, greedily.
pub open spec fn spec_accesser_end(toks: Seq<Token>, p: int) -> int
    decreases toks.len() - p when 0 <= p <= toks.len()
{
    if p + 1 < toks.len() && spec_token_kind(toks[p]) == TokenKind::Period && spec_token_kind(
        toks[p + 1],
    ) == TokenKind::Identifier {
        spec_accesser_end(toks, p + 2)
    } else if p + 2 < toks.len() && spec_token_kind(toks[p]) == TokenKind::Colon && spec_token_kind(
        toks[p + 1],
    ) == TokenKind::Colon && spec_token_kind(toks[p + 2]) == TokenKind::Identifier {
        spec_accesser_end(toks, p + 3)
    } else {
        p
    }
}

/// Parses an accesser path: `IDENT ( ("." | "::") IDENT )*`.  A separator is
/// consumed only together with the identifier that follows it, so the path
/// ends cleanly before any other use of `.` or `:`.
fn parse_accesser(toks: &Vec<Token>, pos: usize) -> (r: Result<(Vec<String>, usize), ParseErr>)
    requires
        pos <= toks@.len(),
    ensures
        match r {
            Ok((path, np)) => pos < np <= toks@.len() && path@.len() >= 1 && toks@[pos as int]@
                == TokenV::Identifier(path@[0]@) && np == spec_accesser_end(toks@, pos + 1),
            Err(e) => e.location <= toks@.len() && !(e.err_type is InvalidPattern),
        },
        (pos < toks@.len() && spec_token_kind(toks@[pos as int]) == TokenKind::Identifier)
            ==> r is Ok,
{
    let (first, start) = match expect_identifier(toks, pos) {
        Ok(x) => x,
        Err(e) => {
            return Err(e);
        },
    };
    let mut path: Vec<String> = Vec::new();
    path.push(first);
    let mut p = start;
    loop
        invariant
            pos < p <= toks@.len(),
            path@.len() >= 1,
            toks@[pos as int]@ == TokenV::Identifier(path@[0]@),
            spec_accesser_end(toks@, pos + 1) == spec_accesser_end(toks@, p as int),
        decreases toks@.len() - p,
    {
        if at_kind(toks, p, TokenKind::Period) && at_kind(toks, p + 1, TokenKind::Identifier) {
            match expect_identifier(toks, p + 1) {
                Ok((seg, np)) => {
                    path.push(seg);
                    p = np;
                },
                Err(_) => {
                    return Ok((path, p));
                },
            }
        } else if at_kind(toks, p, TokenKind::Colon) && at_kind(toks, p + 1, TokenKind::Colon)
            && at_kind(toks, p + 2, TokenKind::Identifier) {
            match expect_identifier(toks, p + 2) {
                Ok((seg, np)) => {
                    path.push(seg);
                    p = np;
                },
                Err(_) => {
                    return Ok((path, p));
                },
            }
        } else {
            return Ok((path, p));
        }
    }
}

/// Parses a type literal: a primitive type name, a custom type with optional
/// `<`-delimited generic arguments, or a parenthesized tuple type.
fn parse_type(toks: &Vec<Token>, pos: usize) -> (r: Result<(TypeLiteral, usize), ParseErr>)
    requires
        pos <= toks@.len(),
    ensures
        match r {
            Ok((t, np)) => pos < np <= toks@.len() && {
                let k = spec_token_kind(toks@[pos as int]);
                &&& (k == TokenKind::IntType ==> t == TypeLiteral::IntType && np == pos + 1)
                &&& (k == TokenKind::FloatType ==> t == TypeLiteral::FloatType && np == pos + 1)
                &&& (k == TokenKind::CharType ==> t == TypeLiteral::CharType && np == pos + 1)
                &&& (k == TokenKind::BoolType ==> t == TypeLiteral::BoolType && np == pos + 1)
                &&& (k == TokenKind::Identifier ==> (t matches TypeLiteral::CustomType {
                    name,
                    ..
                } && toks@[pos as int]@ == TokenV::Identifier(name@)))
                &&& (k == TokenKind::BrancketStart ==> t is TupleType)
            },
            Err(e) => e.location <= toks@.len() && (e.err_type is InvalidPattern
                ==> spec_invalid_pattern_at(toks@, e.location as int)),
        },
        (pos < toks@.len() && (spec_token_kind(toks@[pos as int]) == TokenKind::IntType
            || spec_token_kind(toks@[pos as int]) == TokenKind::FloatType || spec_token_kind(
            toks@[pos as int],
        ) == TokenKind::CharType || spec_token_kind(toks@[pos as int]) == TokenKind::BoolType))
            ==> r is Ok,
    decreases toks@.len() - pos,
{
    if at_kind(toks, pos, TokenKind::IntType) {
        Ok((TypeLiteral::IntType, pos + 1))
    } else if at_kind(toks, pos, TokenKind::FloatType) {
        Ok((TypeLiteral::FloatType, pos + 1))
    } else if at_kind(toks, pos, TokenKind::CharType) {
        Ok((TypeLiteral::CharType, pos + 1))
    } else if at_kind(toks, pos, TokenKind::BoolType) {
        Ok((TypeLiteral::BoolType, pos + 1))
    } else if at_kind(toks, pos, TokenKind::Identifier) {
        let (name, p1) = match expect_identifier(toks, pos) {
            Ok(x) => x,
            Err(e) => {
                return Err(e);
            },
        };
        // `<` directly after a type-position identifier always opens a
        // generic-argument list, never a comparison.
        if at_kind(toks, p1, TokenKind::GreaterOpe) {
            let mut args: Vec<TypeLiteral> = Vec::new();
            let mut p = p1 + 1;
            loop
                invariant
                    pos < p <= toks@.len(),
                    spec_token_kind(toks@[pos as int]) == TokenKind::Identifier,
                    toks@[pos as int]@ == TokenV::Identifier(name@),
                decreases toks@.len() - p,
            {
                if at_kind(toks, p, TokenKind::LesserOpe) {
                    return Ok(
                        (TypeLiteral::CustomType { name, type_args: args }, p + 1),
                    );
                }
                match parse_type(toks, p) {
                    Ok((arg, np)) => {
                        args.push(arg);
                        p = np;
                    },
                    Err(e) => {
                        return Err(e);
                    },
                }
            }
        } else {
            let args: Vec<TypeLiteral> = Vec::new();
            Ok((TypeLiteral::CustomType { name, type_args: args }, p1))
        }
    } else if at_kind(toks, pos, TokenKind::BrancketStart) {
        let mut inner: Vec<TypeLiteral> = Vec::new();
        let mut p = pos + 1;
        loop
            invariant
                pos < p <= toks@.len(),
                spec_token_kind(toks@[pos as int]) == TokenKind::BrancketStart,
            decreases toks@.len() - p,
        {
            if at_kind(toks, p, TokenKind::BrancketEnd) {
                return Ok((TypeLiteral::TupleType { inner }, p + 1));
            }
            match parse_type(toks, p) {
                Ok((t, np)) => {
                    inner.push(t);
                    p = np;
                },
                Err(e) => {
                    return Err(e);
                },
            }
            if at_kind(toks, p, TokenKind::Comma) {
                p = p + 1;
            } else if at_kind(toks, p, TokenKind::BrancketEnd) {
                return Ok((TypeLiteral::TupleType { inner }, p + 1));
            } else {
                let mut expected: Vec<TokenKind> = Vec::new();
                expected.push(TokenKind::Comma);
                expected.push(TokenKind::BrancketEnd);
                return Err(parse_err(toks, p, expected));
            }
        }
    } else {
        let mut expected: Vec<TokenKind> = Vec::new();
        expected.push(TokenKind::IntType);
        expected.push(TokenKind::FloatType);
        expected.push(TokenKind::CharType);
        expected.push(TokenKind::BoolType);
        expected.push(TokenKind::Identifier);
        expected.push(TokenKind::BrancketStart);
        Err(parse_err(toks, pos, expected))
    }
}

/// Whether a token kind opens a literal.
pub open spec fn spec_literal_start(k: TokenKind) -> bool {
    k == TokenKind::Integer || k == TokenKind::Float || k == TokenKind::StringLiteral || k
        == TokenKind::True || k == TokenKind::False
}

/// The literal a single token denotes: an integer, float or string carrying
/// the token's own value, or the boolean of its keyword.
pub open spec fn spec_literal_of(t: TokenV, l: Literal) -> bool {
    match (t, l) {
        (TokenV::Integer(v), Literal::Integer(w)) => w as nat == v,
        (TokenV::Float { int_part, frac_part, frac_len }, Literal::Float(f)) => f.int_part as nat
            == int_part && f.frac_part as nat == frac_part && f.frac_len as nat == frac_len,
        (TokenV::StringLiteral(sv), Literal::Str(s)) => s@ == sv,
        (TokenV::True, Literal::Bool(b)) => b == true,
        (TokenV::False, Literal::Bool(b)) => b == false,
        _ => false,
    }
}

/// Extracts a literal from the token at `pos`: exactly when that token is a
/// literal token, and then carrying exactly its value.
fn parse_literal(toks: &Vec<Token>, pos: usize) -> (r: Option<(Literal, usize)>)
    requires
        pos <= toks@.len(),
    ensures
        match r {
            Some((l, np)) => np == pos + 1 && pos < toks@.len() && spec_literal_of(
                toks@[pos as int]@,
                l,
            ),
            None => pos == toks@.len() || !spec_literal_start(spec_token_kind(toks@[pos as int])),
        },
        (pos < toks@.len() && spec_literal_start(spec_token_kind(toks@[pos as int]))) ==> r is Some,
{
    if pos < toks.len() {
        match &toks[pos] {
            Token::Integer(v) => Some((Literal::Integer(*v), pos + 1)),
            Token::Float(f) => Some((Literal::Float(*f), pos + 1)),
            Token::StringLiteral(s) => Some((Literal::Str(s.clone()), pos + 1)),
            Token::True => Some((Literal::Bool(true), pos + 1)),
            Token::False => Some((Literal::Bool(false), pos + 1)),
            _ => None,
        }
    } else {
        None
    }
}

/// Whether a token kind opens one of the pattern alternatives this grammar
/// gives concrete syntax: a literal, an identifier (binding, wildcard, or a
/// path opening a struct or enum pattern), or `(` opening a tuple.
pub open spec fn spec_pattern_start(k: TokenKind) -> bool {
    spec_literal_start(k) || k == TokenKind::Identifier || k == TokenKind::BrancketStart
}

/// A position at which no pattern alternative applies: past the end, or at
/// a token that opens none of them.
pub open spec fn spec_invalid_pattern_at(toks: Seq<Token>, loc: int) -> bool {
    loc >= toks.len() || !spec_pattern_start(spec_token_kind(toks[loc]))
}

/// Parses a pattern, dispatching on the leading token: a literal, the
/// wildcard `_`, a binding identifier, a parenthesized tuple, a path
/// applied to sub-patterns (an enum pattern), or a bare path (a struct
/// pattern).  `InvalidPattern` is returned exactly at positions where no
/// alternative applies — here, or inside a nested pattern.
fn parse_pattern(toks: &Vec<Token>, pos: usize) -> (r: Result<(Pattern, usize), ParseErr>)
    requires
        pos <= toks@.len(),
    ensures
        match r {
            Ok((pat, np)) => pos < np <= toks@.len() && {
                let k = spec_token_kind(toks@[pos as int]);
                &&& (spec_literal_start(k) ==> np == pos + 1 && (pat matches Pattern::Literal(l)
                    && spec_literal_of(toks@[pos as int]@, l)))
                &&& (k == TokenKind::BrancketStart ==> pat is Tuple)
                &&& (k == TokenKind::Identifier ==> (pat is Identifier || pat == Pattern::Wildcard
                    || pat is Struct || pat is Enum))
                &&& (pat matches Pattern::Identifier(n) ==> toks@[pos as int]@
                    == TokenV::Identifier(n@))
                &&& (pat == Pattern::Wildcard ==> toks@[pos as int]@ == TokenV::Identifier("_"@))
            },
            Err(e) => e.location <= toks@.len() && (e.err_type is InvalidPattern
                ==> spec_invalid_pattern_at(toks@, e.location as int)),
        },
        spec_invalid_pattern_at(toks@, pos as int) ==> r == Err::<(Pattern, usize), ParseErr>(
            ParseErr { err_type: ParseErrType::InvalidPattern, location: pos },
        ),
        spec_ident_atom_at(toks@, pos as int) ==> (r matches Ok(x) && x.1 == pos + 1),
    decreases toks@.len() - pos, 1int,
{
    match parse_literal(toks, pos) {
        Some((l, np)) => {
            return Ok((Pattern::Literal(l), np));
        },
        None => {},
    }
    if at_kind(toks, pos, TokenKind::BrancketStart) {
        let (pats, np) = match parse_pattern_list(toks, pos) {
            Ok(x) => x,
            Err(e) => {
                return Err(e);
            },
        };
        return Ok((Pattern::Tuple(pats), np));
    }
    if at_kind(toks, pos, TokenKind::Identifier) {
        let (path, p1) = match parse_accesser(toks, pos) {
            Ok(x) => x,
            Err(e) => {
                return Err(e);
            },
        };
        if at_kind(toks, p1, TokenKind::BrancketStart) {
            let (pats, np) = match parse_pattern_list(toks, p1) {
                Ok(x) => x,
                Err(e) => {
                    return Err(e);
                },
            };
            return Ok((Pattern::Enum(path, pats), np));
        }
        if path.len() == 1 {
            let name = path[0].clone();
            if str_equal(name.as_str(), "_") {
                return Ok((Pattern::Wildcard, p1));
            }
            return Ok((Pattern::Identifier(name), p1));
        }
        return Ok((Pattern::Struct(path), p1));
    }
    Err(ParseErr { err_type: ParseErrType::InvalidPattern, location: pos })
}

/// Parses a parenthesized, comma-separated pattern list, `pos` at the `(`.
fn parse_pattern_list(toks: &Vec<Token>, pos: usize) -> (r: Result<
    (Vec<Pattern>, usize),
    ParseErr,
>)
    requires
        pos <= toks@.len(),
    ensures
        match r {
            Ok((pats, np)) => pos < np <= toks@.len(),
            Err(e) => e.location <= toks@.len() && (e.err_type is InvalidPattern
                ==> spec_invalid_pattern_at(toks@, e.location as int)),
        },
    decreases toks@.len() - pos, 0int,
{
    let mut p = match expect_token(toks, pos, TokenKind::BrancketStart) {
        Ok(x) => x,
        Err(e) => {
            return Err(e);
        },
    };
    let mut pats: Vec<Pattern> = Vec::new();
    loop
        invariant
            pos < p <= toks@.len(),
        decreases toks@.len() - p,
    {
        if at_kind(toks, p, TokenKind::BrancketEnd) {
            return Ok((pats, p + 1));
        }
        match parse_pattern(toks, p) {
            Ok((pat, np)) => {
                pats.push(pat);
                p = np;
            },
            Err(e) => {
                return Err(e);
            },
        }
        if at_kind(toks, p, TokenKind::Comma) {
            p = p + 1;
        } else if at_kind(toks, p, TokenKind::BrancketEnd) {
            return Ok((pats, p + 1));
        } else {
            let mut expected: Vec<TokenKind> = Vec::new();
            expected.push(TokenKind::Comma);
            expected.push(TokenKind::BrancketEnd);
            return Err(parse_err(toks, p, expected));
        }
    }
}

/// The expression grammar as a relation between a token span and the tree it
/// derives, one level per production, so that precedence and associativity
/// are part of every expression contract: a `+`/`-` node splits an additive
/// span into an additive left part and a multiplicative right part, a
/// `*`/`/` node a multiplicative span into a multiplicative left part and a
/// unary right part, and an operator node can stand below its level only
/// behind parentheses.  Literal leaves are pinned exactly; the other primary
/// forms are pinned to their opening token.
pub open spec fn expr_matches(toks: Seq<Token>, lo: int, hi: int, e: Expression) -> bool
    decreases hi - lo, 4int when 0 <= lo <= hi <= toks.len()
{
    additive_matches(toks, lo, hi, e)
}

/// The `+`/`-` level of [`expr_matches`], left-associative.
pub open spec fn additive_matches(toks: Seq<Token>, lo: int, hi: int, e: Expression) -> bool
    decreases hi - lo, 3int when 0 <= lo <= hi <= toks.len()
{
    ||| multiplicative_matches(toks, lo, hi, e)
    ||| match e {
        Expression::BinaryOp(l, op, r) => (op == BinaryOperator::Plus || op
            == BinaryOperator::Minus) && exists|k: int|
            #![trigger spec_token_kind(toks[k])]
            lo < k < hi && spec_token_kind(toks[k]) == (if op == BinaryOperator::Plus {
                TokenKind::PlusOpe
            } else {
                TokenKind::MinusOpe
            }) && additive_matches(toks, lo, k, *l) && multiplicative_matches(toks, k + 1, hi, *r),
        _ => false,
    }
}

/// The `*`/`/` level of [`expr_matches`], left-associative.
pub open spec fn multiplicative_matches(toks: Seq<Token>, lo: int, hi: int, e: Expression) -> bool
    decreases hi - lo, 2int when 0 <= lo <= hi <= toks.len()
{
    ||| unary_matches(toks, lo, hi, e)
    ||| match e {
        Expression::BinaryOp(l, op, r) => (op == BinaryOperator::Multiply || op
            == BinaryOperator::Divide) && exists|k: int|
            #![trigger spec_token_kind(toks[k])]
            lo < k < hi && spec_token_kind(toks[k]) == (if op == BinaryOperator::Multiply {
                TokenKind::MulOpe
            } else {
                TokenKind::DivOpe
            }) && multiplicative_matches(toks, lo, k, *l) && unary_matches(toks, k + 1, hi, *r),
        _ => false,
    }
}

/// The unary level of [`expr_matches`]: `-` binds tighter than any binary
/// operator.
pub open spec fn unary_matches(toks: Seq<Token>, lo: int, hi: int, e: Expression) -> bool
    decreases hi - lo, 1int when 0 <= lo <= hi <= toks.len()
{
    ||| primary_matches(toks, lo, hi, e)
    ||| match e {
        Expression::UnaryOp(op, inner) => op == UnaryOperator::Minus && lo < hi && spec_token_kind(
            toks[lo],
        ) == TokenKind::MinusOpe && unary_matches(toks, lo + 1, hi, *inner),
        _ => false,
    }
}

/// The primary level of [`expr_matches`]: a literal spans exactly its token;
/// the other forms are pinned to their opening token; and any expression may
/// stand as a primary behind parentheses — the only way an operator node
/// reaches a tighter level.
pub open spec fn primary_matches(toks: Seq<Token>, lo: int, hi: int, e: Expression) -> bool
    decreases hi - lo, 0int when 0 <= lo <= hi <= toks.len()
{
    ||| (lo < hi && match e {
        Expression::Literal(l) => hi == lo + 1 && spec_literal_of(toks[lo]@, l),
        Expression::IdentifierRef(_) => spec_token_kind(toks[lo]) == TokenKind::Identifier,
        Expression::FunctionCall(_, _) => spec_token_kind(toks[lo]) == TokenKind::Identifier,
        Expression::If { .. } => spec_token_kind(toks[lo]) == TokenKind::If,
        Expression::Match { .. } => spec_token_kind(toks[lo]) == TokenKind::Match,
        Expression::Block(_) => spec_token_kind(toks[lo]) == TokenKind::CurlyBracketStart,
        _ => false,
    })
    ||| (lo + 1 < hi && spec_token_kind(toks[lo]) == TokenKind::BrancketStart && spec_token_kind(
        toks[hi - 1],
    ) == TokenKind::BrancketEnd && expr_matches(toks, lo + 1, hi - 1, e))
}

/// A primary span satisfies every looser level up to the expression level.
proof fn lemma_primary_chain(toks: Seq<Token>, lo: int, hi: int, e: Expression)
    requires
        0 <= lo <= hi <= toks.len(),
        primary_matches(toks, lo, hi, e),
    ensures
        expr_matches(toks, lo, hi, e),
{
    assert(unary_matches(toks, lo, hi, e));
    assert(multiplicative_matches(toks, lo, hi, e));
    assert(additive_matches(toks, lo, hi, e));
}

/// Parses a parenthesized, comma-separated argument list, `pos` at the `(`.
fn parse_call_args(toks: &Vec<Token>, pos: usize) -> (r: Result<
    (Vec<Expression>, usize),
    ParseErr,
>)
    requires
        pos <= toks@.len(),
    ensures
        match r {
            Ok((args, np)) => pos < np <= toks@.len(),
            Err(e) => e.location <= toks@.len() && (e.err_type is InvalidPattern
                ==> spec_invalid_pattern_at(toks@, e.location as int)),
        },
    decreases toks@.len() - pos, 0int,
{
    let mut p = match expect_token(toks, pos, TokenKind::BrancketStart) {
        Ok(x) => x,
        Err(e) => {
            return Err(e);
        },
    };
    let mut args: Vec<Expression> = Vec::new();
    loop
        invariant
            pos < p <= toks@.len(),
        decreases toks@.len() - p,
    {
        if at_kind(toks, p, TokenKind::BrancketEnd) {
            return Ok((args, p + 1));
        }
        match parse_expression(toks, p) {
            Ok((e, np)) => {
                args.push(e);
                p = np;
            },
            Err(e) => {
                return Err(e);
            },
        }
        if at_kind(toks, p, TokenKind::Comma) {
            p = p + 1;
        } else if at_kind(toks, p, TokenKind::BrancketEnd) {
            return Ok((args, p + 1));
        } else {
            let mut expected: Vec<TokenKind> = Vec::new();
            expected.push(TokenKind::Comma);
            expected.push(TokenKind::BrancketEnd);
            return Err(parse_err(toks, p, expected));
        }
    }
}

/// Parses a primary expression: a literal, an identifier path (possibly a
/// function call), or a parenthesized sub-expression.
fn parse_primary(toks: &Vec<Token>, pos: usize) -> (r: Result<(Expression, usize), ParseErr>)
    requires
        pos <= toks@.len(),
    ensures
        match r {
            Ok((e, np)) => pos < np <= toks@.len() && primary_matches(
                toks@,
                pos as int,
                np as int,
                e,
            ) && {
                let k = spec_token_kind(toks@[pos as int]);
                let tv = toks@[pos as int]@;
                &&& (spec_literal_start(k) ==> np == pos + 1 && (e matches Expression::Literal(l)
                    && spec_literal_of(tv, l)))
                &&& (k == TokenKind::Identifier ==> ((e matches Expression::IdentifierRef(path)
                    && path@.len() >= 1 && tv == TokenV::Identifier(path@[0]@)) || (
                e matches Expression::FunctionCall(path, _) && path@.len() >= 1 && tv
                    == TokenV::Identifier(path@[0]@))))
            },
            Err(e) => e.location <= toks@.len() && (e.err_type is InvalidPattern
                ==> spec_invalid_pattern_at(toks@, e.location as int)),
        },
        (pos < toks@.len() && spec_literal_start(spec_token_kind(toks@[pos as int]))) ==> r is Ok,
        spec_ident_atom_at(toks@, pos as int) ==> (r matches Ok(x) && x.1 == pos + 1),
    decreases toks@.len() - pos, 1int,
{
    match parse_literal(toks, pos) {
        Some((l, np)) => {
            return Ok((Expression::Literal(l), np));
        },
        None => {},
    }
    if at_kind(toks, pos, TokenKind::Identifier) {
        let (path, p1) = match parse_accesser(toks, pos) {
            Ok(x) => x,
            Err(e) => {
                return Err(e);
            },
        };
        if at_kind(toks, p1, TokenKind::BrancketStart) {
            let (args, np) = match parse_call_args(toks, p1) {
                Ok(x) => x,
                Err(e) => {
                    return Err(e);
                },
            };
            return Ok((Expression::FunctionCall(path, args), np));
        }
        return Ok((Expression::IdentifierRef(path), p1));
    }
    if at_kind(toks, pos, TokenKind::BrancketStart) {
        let (inner, p1) = match parse_expression(toks, pos + 1) {
            Ok(x) => x,
            Err(e) => {
                return Err(e);
            },
        };
        let p2 = match expect_token(toks, p1, TokenKind::BrancketEnd) {
            Ok(x) => x,
            Err(e) => {
                return Err(e);
            },
        };
        return Ok((inner, p2));
    }
    let mut expected: Vec<TokenKind> = Vec::new();
    expected.push(TokenKind::Integer);
    expected.push(TokenKind::Float);
    expected.push(TokenKind::StringLiteral);
    expected.push(TokenKind::True);
    expected.push(TokenKind::False);
    expected.push(TokenKind::Identifier);
    expected.push(TokenKind::BrancketStart);
    Err(parse_err(toks, pos, expected))
}

/// Parses a unary expression: unary `-` binds tighter than any binary
/// operator.
fn parse_unary(toks: &Vec<Token>, pos: usize) -> (r: Result<(Expression, usize), ParseErr>)
    requires
        pos <= toks@.len(),
    ensures
        match r {
            Ok((e, np)) => pos < np <= toks@.len() && unary_matches(toks@, pos as int, np as int, e)
                && (spec_token_kind(toks@[pos as int]) == TokenKind::MinusOpe ==> (
            e matches Expression::UnaryOp(op, _) && op == UnaryOperator::Minus)),
            Err(e) => e.location <= toks@.len() && (e.err_type is InvalidPattern
                ==> spec_invalid_pattern_at(toks@, e.location as int)),
        },
        (pos < toks@.len() && spec_literal_start(spec_token_kind(toks@[pos as int]))) ==> (
        r matches Ok(x) && x.1 == pos + 1),
        spec_ident_atom_at(toks@, pos as int) ==> (r matches Ok(x) && x.1 == pos + 1),
    decreases toks@.len() - pos, 2int,
{
    if at_kind(toks, pos, TokenKind::MinusOpe) {
        let (operand, np) = match parse_unary(toks, pos + 1) {
            Ok(x) => x,
            Err(e) => {
                return Err(e);
            },
        };
        Ok((Expression::UnaryOp(UnaryOperator::Minus, Box::new(operand)), np))
    } else {
        parse_primary(toks, pos)
    }
}

/// A literal token at `pos` followed by no binary operator: the one-token
/// expressions on which success is owed at every climbing level.
pub open spec fn spec_lone_literal_at(toks: Seq<Token>, pos: int) -> bool {
    &&& 0 <= pos < toks.len()
    &&& spec_literal_start(spec_token_kind(toks[pos]))
    &&& (pos + 1 < toks.len() ==> {
        let k = spec_token_kind(toks[pos + 1]);
        k != TokenKind::PlusOpe && k != TokenKind::MinusOpe && k != TokenKind::MulOpe && k
            != TokenKind::DivOpe
    })
}

/// A literal at `pos` not followed by a tighter-level operator: the
/// multiplicative level is owed success and stops right after it.
pub open spec fn spec_lit_then_no_mul(toks: Seq<Token>, pos: int) -> bool {
    &&& 0 <= pos < toks.len()
    &&& spec_literal_start(spec_token_kind(toks[pos]))
    &&& (pos + 1 < toks.len() ==> spec_token_kind(toks[pos + 1]) != TokenKind::MulOpe
        && spec_token_kind(toks[pos + 1]) != TokenKind::DivOpe)
}

/// `literal (*|/) literal` with no further tighter-level operator: one whole
/// multiplicative span.
pub open spec fn spec_lit_mul_lit_at(toks: Seq<Token>, pos: int) -> bool {
    &&& 0 <= pos
    &&& pos + 2 < toks.len()
    &&& spec_literal_start(spec_token_kind(toks[pos]))
    &&& (spec_token_kind(toks[pos + 1]) == TokenKind::MulOpe || spec_token_kind(toks[pos + 1])
        == TokenKind::DivOpe)
    &&& spec_literal_start(spec_token_kind(toks[pos + 2]))
    &&& (pos + 3 < toks.len() ==> spec_token_kind(toks[pos + 3]) != TokenKind::MulOpe
        && spec_token_kind(toks[pos + 3]) != TokenKind::DivOpe)
}

/// `literal (+|-) literal (*|/) literal` with no operator after: the shape
/// on which the two precedence levels meet; success is owed on it.
pub open spec fn spec_lit_chain5_at(toks: Seq<Token>, pos: int) -> bool {
    &&& 0 <= pos
    &&& pos + 4 < toks.len()
    &&& spec_literal_start(spec_token_kind(toks[pos]))
    &&& (spec_token_kind(toks[pos + 1]) == TokenKind::PlusOpe || spec_token_kind(toks[pos + 1])
        == TokenKind::MinusOpe)
    &&& spec_literal_start(spec_token_kind(toks[pos + 2]))
    &&& (spec_token_kind(toks[pos + 3]) == TokenKind::MulOpe || spec_token_kind(toks[pos + 3])
        == TokenKind::DivOpe)
    &&& spec_literal_start(spec_token_kind(toks[pos + 4]))
    &&& (pos + 5 < toks.len() ==> {
        let k = spec_token_kind(toks[pos + 5]);
        k != TokenKind::PlusOpe && k != TokenKind::MinusOpe && k != TokenKind::MulOpe && k
            != TokenKind::DivOpe
    })
}

/// A lone identifier at `pos`: one that continues into no path, call or
/// tighter operator, so it is a whole primary, and a whole multiplicative
/// span when no `*`/`/` follows.
pub open spec fn spec_ident_atom_at(toks: Seq<Token>, pos: int) -> bool {
    &&& 0 <= pos < toks.len()
    &&& spec_token_kind(toks[pos]) == TokenKind::Identifier
    &&& spec_accesser_end(toks, pos + 1) == pos + 1
    &&& (pos + 1 < toks.len() ==> spec_token_kind(toks[pos + 1]) != TokenKind::BrancketStart)
}

/// `identifier (+|-) identifier` followed by no operator, path or call
/// continuation: one whole additive span, as in a function body `a + b`.
pub open spec fn spec_ident_pair_at(toks: Seq<Token>, pos: int) -> bool {
    &&& 0 <= pos
    &&& pos + 2 < toks.len()
    &&& spec_ident_atom_at(toks, pos)
    &&& (spec_token_kind(toks[pos + 1]) == TokenKind::PlusOpe || spec_token_kind(toks[pos + 1])
        == TokenKind::MinusOpe)
    &&& spec_ident_atom_at(toks, pos + 2)
    &&& (pos + 3 < toks.len() ==> {
        let k = spec_token_kind(toks[pos + 3]);
        k != TokenKind::PlusOpe && k != TokenKind::MinusOpe && k != TokenKind::MulOpe && k
            != TokenKind::DivOpe
    })
}

/// Parses the tighter binary level, `*` and `/`, left-associatively.
fn parse_multiplicative(toks: &Vec<Token>, pos: usize) -> (r: Result<
    (Expression, usize),
    ParseErr,
>)
    requires
        pos <= toks@.len(),
    ensures
        match r {
            Ok((e, np)) => pos < np <= toks@.len() && multiplicative_matches(
                toks@,
                pos as int,
                np as int,
                e,
            ) && !(np < toks@.len() && (spec_token_kind(toks@[np as int]) == TokenKind::MulOpe
                || spec_token_kind(toks@[np as int]) == TokenKind::DivOpe)),
            Err(e) => e.location <= toks@.len() && (e.err_type is InvalidPattern
                ==> spec_invalid_pattern_at(toks@, e.location as int)),
        },
        spec_lit_then_no_mul(toks@, pos as int) ==> (r matches Ok(x) && x.1 == pos + 1),
        spec_lit_mul_lit_at(toks@, pos as int) ==> (r matches Ok(x) && x.1 == pos + 3),
        (spec_ident_atom_at(toks@, pos as int) && (pos + 1 >= toks@.len() || (spec_token_kind(
            toks@[pos + 1],
        ) != TokenKind::MulOpe && spec_token_kind(toks@[pos + 1]) != TokenKind::DivOpe))) ==> (
        r matches Ok(x) && x.1 == pos + 1),
    decreases toks@.len() - pos, 3int,
{
    let (first, start) = match parse_unary(toks, pos) {
        Ok(x) => x,
        Err(e) => {
            return Err(e);
        },
    };
    let mut lhs = first;
    let mut p = start;
    loop
        invariant
            pos < p <= toks@.len(),
            multiplicative_matches(toks@, pos as int, p as int, lhs),
            spec_lit_then_no_mul(toks@, pos as int) ==> p == pos + 1,
            spec_lit_mul_lit_at(toks@, pos as int) ==> (p == pos + 1 || p == pos + 3),
            (spec_ident_atom_at(toks@, pos as int) && (pos + 1 >= toks@.len() || (spec_token_kind(
                toks@[pos + 1],
            ) != TokenKind::MulOpe && spec_token_kind(toks@[pos + 1]) != TokenKind::DivOpe))) ==> p
                == pos + 1,
        decreases toks@.len() - p,
    {
        let op = if at_kind(toks, p, TokenKind::MulOpe) {
            Some(BinaryOperator::Multiply)
        } else if at_kind(toks, p, TokenKind::DivOpe) {
            Some(BinaryOperator::Divide)
        } else {
            None
        };
        match op {
            Some(op) => {
                let (rhs, np) = match parse_unary(toks, p + 1) {
                    Ok(x) => x,
                    Err(e) => {
                        return Err(e);
                    },
                };
                lhs = Expression::BinaryOp(Box::new(lhs), op, Box::new(rhs));
                p = np;
            },
            None => {
                return Ok((lhs, p));
            },
        }
    }
}

/// Parses the looser binary level, `+` and `-`, left-associatively.
fn parse_additive(toks: &Vec<Token>, pos: usize) -> (r: Result<(Expression, usize), ParseErr>)
    requires
        pos <= toks@.len(),
    ensures
        match r {
            Ok((e, np)) => pos < np <= toks@.len() && additive_matches(
                toks@,
                pos as int,
                np as int,
                e,
            ) && !(np < toks@.len() && (spec_token_kind(toks@[np as int]) == TokenKind::PlusOpe
                || spec_token_kind(toks@[np as int]) == TokenKind::MinusOpe || spec_token_kind(
                toks@[np as int],
            ) == TokenKind::MulOpe || spec_token_kind(toks@[np as int]) == TokenKind::DivOpe)),
            Err(e) => e.location <= toks@.len() && (e.err_type is InvalidPattern
                ==> spec_invalid_pattern_at(toks@, e.location as int)),
        },
        spec_lone_literal_at(toks@, pos as int) ==> (r matches Ok(x) && x.1 == pos + 1),
        spec_lit_chain5_at(toks@, pos as int) ==> (r matches Ok(x) && x.1 == pos + 5),
        spec_ident_pair_at(toks@, pos as int) ==> (r matches Ok(x) && x.1 == pos + 3),
    decreases toks@.len() - pos, 4int,
{
    let (first, start) = match parse_multiplicative(toks, pos) {
        Ok(x) => x,
        Err(e) => {
            return Err(e);
        },
    };
    let mut lhs = first;
    let mut p = start;
    loop
        invariant
            pos < p <= toks@.len(),
            additive_matches(toks@, pos as int, p as int, lhs),
            !(p < toks@.len() && (spec_token_kind(toks@[p as int]) == TokenKind::MulOpe
                || spec_token_kind(toks@[p as int]) == TokenKind::DivOpe)),
            spec_lone_literal_at(toks@, pos as int) ==> p == pos + 1,
            spec_lit_chain5_at(toks@, pos as int) ==> (p == pos + 1 || p == pos + 5),
            spec_ident_pair_at(toks@, pos as int) ==> (p == pos + 1 || p == pos + 3),
        decreases toks@.len() - p,
    {
        let op = if at_kind(toks, p, TokenKind::PlusOpe) {
            Some(BinaryOperator::Plus)
        } else if at_kind(toks, p, TokenKind::MinusOpe) {
            Some(BinaryOperator::Minus)
        } else {
            None
        };
        match op {
            Some(op) => {
                let (rhs, np) = match parse_multiplicative(toks, p + 1) {
                    Ok(x) => x,
                    Err(e) => {
                        return Err(e);
                    },
                };
                lhs = Expression::BinaryOp(Box::new(lhs), op, Box::new(rhs));
                p = np;
            },
            None => {
                return Ok((lhs, p));
            },
        }
    }
}

/// Parses an if-expression, `pos` at the `if`: a condition, a braced
/// then-body, and optionally `else` followed by another expression, which
/// permits `else if` chains and else-blocks.
fn parse_if_expression(toks: &Vec<Token>, pos: usize) -> (r: Result<(Expression, usize), ParseErr>)
    requires
        pos <= toks@.len(),
    ensures
        match r {
            Ok((e, np)) => pos < np <= toks@.len() && (match e {
                Expression::If { condition, .. } => exists|c: int|
                    #![trigger expr_matches(toks@, pos + 1, c, *condition)]
                    pos + 1 < c < np && expr_matches(toks@, pos + 1, c, *condition)
                        && spec_token_kind(toks@[c]) == TokenKind::CurlyBracketStart,
                _ => false,
            }),
            Err(e) => e.location <= toks@.len() && (e.err_type is InvalidPattern
                ==> spec_invalid_pattern_at(toks@, e.location as int)),
        },
    decreases toks@.len() - pos, 0int,
{
    let p0 = match expect_token(toks, pos, TokenKind::If) {
        Ok(x) => x,
        Err(e) => {
            return Err(e);
        },
    };
    let (cond, p1) = match parse_expression(toks, p0) {
        Ok(x) => x,
        Err(e) => {
            return Err(e);
        },
    };
    let p2 = match expect_token(toks, p1, TokenKind::CurlyBracketStart) {
        Ok(x) => x,
        Err(e) => {
            return Err(e);
        },
    };
    let (then_body, p3) = match parse_statement_list(toks, p2) {
        Ok(x) => x,
        Err(e) => {
            return Err(e);
        },
    };
    let p4 = match expect_token(toks, p3, TokenKind::CurlyBracketEnd) {
        Ok(x) => x,
        Err(e) => {
            return Err(e);
        },
    };
    if at_kind(toks, p4, TokenKind::Else) {
        let (else_e, p5) = match parse_expression(toks, p4 + 1) {
            Ok(x) => x,
            Err(e) => {
                return Err(e);
            },
        };
        Ok(
            (
                Expression::If {
                    condition: Box::new(cond),
                    then_body,
                    else_body: Some(Box::new(else_e)),
                },
                p5,
            ),
        )
    } else {
        Ok((Expression::If { condition: Box::new(cond), then_body, else_body: None }, p4))
    }
}

/// Parses a match-expression, `pos` at the `match`: a scrutinee, then a
/// brace-delimited list of arms `pattern "=" ">" expression ","`; zero arms
/// is legal.
fn parse_match_expression(toks: &Vec<Token>, pos: usize) -> (r: Result<
    (Expression, usize),
    ParseErr,
>)
    requires
        pos <= toks@.len(),
    ensures
        match r {
            Ok((e, np)) => pos < np <= toks@.len() && spec_token_kind(toks@[np - 1])
                == TokenKind::CurlyBracketEnd && (match e {
                Expression::Match { scrutinee, arms } => exists|c: int|
                    #![trigger expr_matches(toks@, pos + 1, c, *scrutinee)]
                    pos + 1 < c < np && expr_matches(toks@, pos + 1, c, *scrutinee)
                        && spec_token_kind(toks@[c]) == TokenKind::CurlyBracketStart && (arms@.len()
                        == 0 <==> c + 2 == np),
                _ => false,
            }),
            Err(e) => e.location <= toks@.len() && (e.err_type is InvalidPattern
                ==> spec_invalid_pattern_at(toks@, e.location as int)),
        },
        (pos + 3 < toks@.len() && spec_token_kind(toks@[pos as int]) == TokenKind::Match
            && spec_lone_literal_at(toks@, pos + 1) && spec_token_kind(toks@[pos + 2])
            == TokenKind::CurlyBracketStart && spec_token_kind(toks@[pos + 3])
            == TokenKind::CurlyBracketEnd) ==> (r matches Ok(x) && (
        x.0 matches Expression::Match { arms, .. } && arms@.len() == 0) && x.1 == pos + 4),
    decreases toks@.len() - pos, 0int,
{
    let p0 = match expect_token(toks, pos, TokenKind::Match) {
        Ok(x) => x,
        Err(e) => {
            return Err(e);
        },
    };
    let (scrutinee, p1) = match parse_expression(toks, p0) {
        Ok(x) => x,
        Err(e) => {
            return Err(e);
        },
    };
    let mut p = match expect_token(toks, p1, TokenKind::CurlyBracketStart) {
        Ok(x) => x,
        Err(e) => {
            return Err(e);
        },
    };
    let mut arms: Vec<(Pattern, Expression)> = Vec::new();
    loop
        invariant
            pos < p <= toks@.len(),
            pos + 1 < p1 < p,
            p1 + 1 <= p,
            expr_matches(toks@, pos + 1, p1 as int, scrutinee),
            spec_token_kind(toks@[p1 as int]) == TokenKind::CurlyBracketStart,
            arms@.len() == 0 <==> p == p1 + 1,
            (pos + 3 < toks@.len() && spec_lone_literal_at(toks@, pos + 1) && spec_token_kind(
                toks@[pos + 2],
            ) == TokenKind::CurlyBracketStart && spec_token_kind(toks@[pos + 3])
                == TokenKind::CurlyBracketEnd) ==> p == pos + 3 && arms@.len() == 0,
        decreases toks@.len() - p,
    {
        if at_kind(toks, p, TokenKind::CurlyBracketEnd) {
            let e = Expression::Match { scrutinee: Box::new(scrutinee), arms };
            proof {
                assert(match e {
                    Expression::Match { scrutinee: sc, arms: ar } => expr_matches(
                        toks@,
                        pos + 1,
                        p1 as int,
                        *sc,
                    ),
                    _ => false,
                });
            }
            return Ok((e, p + 1));
        }
        let (pat, p2) = match parse_pattern(toks, p) {
            Ok(x) => x,
            Err(e) => {
                return Err(e);
            },
        };
        // the arm arrow `=>` is the token pair `=` `>`
        let p3 = match expect_token(toks, p2, TokenKind::EqualOpe) {
            Ok(x) => x,
            Err(e) => {
                return Err(e);
            },
        };
        let p4 = match expect_token(toks, p3, TokenKind::LesserOpe) {
            Ok(x) => x,
            Err(e) => {
                return Err(e);
            },
        };
        let (body, p5) = match parse_expression(toks, p4) {
            Ok(x) => x,
            Err(e) => {
                return Err(e);
            },
        };
        let p6 = match expect_token(toks, p5, TokenKind::Comma) {
            Ok(x) => x,
            Err(e) => {
                return Err(e);
            },
        };
        arms.push((pat, body));
        p = p6;
    }
}

/// Parses a block-expression, `pos` at the `{`: a braced statement list
/// whose last expression-statement, if any, is the block's value.
fn parse_block_expression(toks: &Vec<Token>, pos: usize) -> (r: Result<
    (Expression, usize),
    ParseErr,
>)
    requires
        pos <= toks@.len(),
    ensures
        match r {
            Ok((e, np)) => pos < np <= toks@.len() && e is Block,
            Err(e) => e.location <= toks@.len() && (e.err_type is InvalidPattern
                ==> spec_invalid_pattern_at(toks@, e.location as int)),
        },
    decreases toks@.len() - pos, 0int,
{
    let p0 = match expect_token(toks, pos, TokenKind::CurlyBracketStart) {
        Ok(x) => x,
        Err(e) => {
            return Err(e);
        },
    };
    let (stmts, p1) = match parse_statement_list(toks, p0) {
        Ok(x) => x,
        Err(e) => {
            return Err(e);
        },
    };
    let p2 = match expect_token(toks, p1, TokenKind::CurlyBracketEnd) {
        Ok(x) => x,
        Err(e) => {
            return Err(e);
        },
    };
    Ok((Expression::Block(stmts), p2))
}

/// Parses an expression.  Keyword-led forms (`if`, `match`, a bare `{`
/// block) are recognized by leading-token dispatch; everything else goes
/// through precedence climbing over primary expressions.
#[verifier::rlimit(60)]
fn parse_expression(toks: &Vec<Token>, pos: usize) -> (r: Result<(Expression, usize), ParseErr>)
    requires
        pos <= toks@.len(),
    ensures
        match r {
            Ok((e, np)) => pos < np <= toks@.len() && expr_matches(toks@, pos as int, np as int, e)
                && {
                let k = spec_token_kind(toks@[pos as int]);
                &&& (k == TokenKind::If ==> e is If)
                &&& (k == TokenKind::Match ==> e is Match)
                &&& (k == TokenKind::CurlyBracketStart ==> e is Block)
            },
            Err(e) => e.location <= toks@.len() && (e.err_type is InvalidPattern
                ==> spec_invalid_pattern_at(toks@, e.location as int)),
        },
        spec_lone_literal_at(toks@, pos as int) ==> (r matches Ok(x) && x.1 == pos + 1),
        spec_lit_chain5_at(toks@, pos as int) ==> (r matches Ok(x) && x.1 == pos + 5),
        spec_ident_pair_at(toks@, pos as int) ==> (r matches Ok(x) && x.1 == pos + 3),
        r matches Ok(x) ==> ((pos < toks@.len() && spec_token_kind(toks@[pos as int])
            == TokenKind::If) ==> match x.0 {
            Expression::If { condition, .. } => exists|c: int|
                #![trigger expr_matches(toks@, pos + 1, c, *condition)]
                pos + 1 < c < x.1 && expr_matches(toks@, pos + 1, c, *condition)
                    && spec_token_kind(toks@[c]) == TokenKind::CurlyBracketStart,
            _ => false,
        }),
        r matches Ok(x) ==> ((pos < toks@.len() && spec_token_kind(toks@[pos as int])
            == TokenKind::Match) ==> match x.0 {
            Expression::Match { scrutinee, arms } => spec_token_kind(toks@[x.1 - 1])
                == TokenKind::CurlyBracketEnd && exists|c: int|
                #![trigger expr_matches(toks@, pos + 1, c, *scrutinee)]
                pos + 1 < c < x.1 && expr_matches(toks@, pos + 1, c, *scrutinee)
                    && spec_token_kind(toks@[c]) == TokenKind::CurlyBracketStart && (arms@.len()
                    == 0 <==> c + 2 == x.1),
            _ => false,
        }),
    decreases toks@.len() - pos, 5int,
{
    if at_kind(toks, pos, TokenKind::If) {
        parse_if_expression(toks, pos)
    } else if at_kind(toks, pos, TokenKind::Match) {
        parse_match_expression(toks, pos)
    } else if at_kind(toks, pos, TokenKind::CurlyBracketStart) {
        parse_block_expression(toks, pos)
    } else {
        parse_additive(toks, pos)
    }
}

/// The statement grammar as a relation between a token span and the node it
/// derives: the dispatching token decides the variant both ways, an
/// assignment or call statement names its target path and ends at the `;`,
/// an assignment's value and an expression statement's expression derive
/// their spans under [`expr_matches`].
pub open spec fn stmt_matches(toks: Seq<Token>, lo: int, hi: int, s: Statement) -> bool {
    let k = spec_token_kind(toks[lo]);
    let tv = toks[lo]@;
    &&& 0 <= lo < hi <= toks.len()
    &&& ((k == TokenKind::Let || k == TokenKind::Const) ==> (
    s matches Statement::VariableDeclaration { is_const, .. } && is_const == (k
        == TokenKind::Const)))
    &&& (s is VariableDeclaration ==> (k == TokenKind::Let || k == TokenKind::Const))
    &&& (k == TokenKind::For ==> s is ForLoop)
    &&& (s is ForLoop ==> k == TokenKind::For)
    &&& (k == TokenKind::While ==> s is WhileLoop)
    &&& (s is WhileLoop ==> k == TokenKind::While)
    &&& (match s {
        Statement::Assignment { target, value } => {
            &&& k == TokenKind::Identifier
            &&& target@.len() >= 1
            &&& tv == TokenV::Identifier(target@[0]@)
            &&& spec_token_kind(toks[hi - 1]) == TokenKind::SemiColon
            &&& exists|v: int|
                #![trigger expr_matches(toks, v, hi - 1, value)]
                lo < v < hi && spec_token_kind(toks[v - 1]) == TokenKind::EqualOpe && expr_matches(
                    toks,
                    v,
                    hi - 1,
                    value,
                )
        },
        Statement::CallStatement { target, .. } => {
            &&& k == TokenKind::Identifier
            &&& target@.len() >= 1
            &&& tv == TokenV::Identifier(target@[0]@)
            &&& spec_token_kind(toks[hi - 1]) == TokenKind::SemiColon
            &&& exists|c: int|
                #![trigger spec_token_kind(toks[c])]
                lo < c < hi && spec_token_kind(toks[c]) == TokenKind::BrancketStart
        },
        Statement::ExpressionStatement(e) => {
            &&& hi >= lo + 2
            &&& expr_matches(toks, lo, hi - 1, e)
            &&& spec_token_kind(toks[hi - 1]) == TokenKind::SemiColon
            &&& (k == TokenKind::Identifier ==> {
                let a = spec_accesser_end(toks, lo + 1);
                !(a < toks.len() && (spec_token_kind(toks[a]) == TokenKind::EqualOpe
                    || spec_token_kind(toks[a]) == TokenKind::BrancketStart))
            })
        },
        Statement::WhileLoop { condition, .. } => {
            &&& spec_token_kind(toks[hi - 1]) == TokenKind::CurlyBracketEnd
            &&& exists|c: int|
                #![trigger expr_matches(toks, lo + 1, c, condition)]
                lo + 1 < c < hi && expr_matches(toks, lo + 1, c, condition) && spec_token_kind(
                    toks[c],
                ) == TokenKind::CurlyBracketStart
        },
        Statement::ForLoop { iterable, .. } => {
            &&& spec_token_kind(toks[hi - 1]) == TokenKind::CurlyBracketEnd
            &&& exists|v: int, c: int|
                #![trigger expr_matches(toks, v, c, iterable)]
                lo < v < c < hi && spec_token_kind(toks[v - 1]) == TokenKind::In && expr_matches(
                    toks,
                    v,
                    c,
                    iterable,
                ) && spec_token_kind(toks[c]) == TokenKind::CurlyBracketStart
        },
        _ => true,
    })
}

/// A statement list derives a token span exactly when its statements derive
/// consecutive sub-spans covering it, in order.
pub open spec fn stmts_match(toks: Seq<Token>, lo: int, hi: int, ss: Seq<Statement>) -> bool
    decreases ss.len(),
{
    if ss.len() == 0 {
        lo == hi
    } else {
        exists|k: int|
            #![trigger stmt_matches(toks, lo, k, ss[0])]
            lo < k <= hi && stmt_matches(toks, lo, k, ss[0]) && stmts_match(
                toks,
                k,
                hi,
                ss.subrange(1, ss.len() as int),
            )
    }
}

/// Extending a derived statement list by one statement derived from the
/// adjoining span derives the combined span.
proof fn lemma_stmts_match_push(
    toks: Seq<Token>,
    lo: int,
    mid: int,
    hi: int,
    ss: Seq<Statement>,
    s: Statement,
)
    requires
        stmts_match(toks, lo, mid, ss),
        stmt_matches(toks, mid, hi, s),
    ensures
        stmts_match(toks, lo, hi, ss.push(s)),
    decreases ss.len(),
{
    if ss.len() == 0 {
        assert(ss.push(s)[0] == s);
        assert(ss.push(s).subrange(1, 1) =~= Seq::<Statement>::empty());
        assert(stmt_matches(toks, lo, hi, ss.push(s)[0]));
        assert(stmts_match(toks, hi, hi, ss.push(s).subrange(1, 1)));
    } else {
        let tail = ss.subrange(1, ss.len() as int);
        let k = choose|k: int|
            #![trigger stmt_matches(toks, lo, k, ss[0])]
            lo < k <= mid && stmt_matches(toks, lo, k, ss[0]) && stmts_match(toks, k, mid, tail);
        lemma_stmts_match_push(toks, k, mid, hi, tail, s);
        assert(ss.push(s)[0] == ss[0]);
        assert(ss.push(s).subrange(1, ss.push(s).len() as int) =~= tail.push(s));
        assert(stmt_matches(toks, lo, k, ss.push(s)[0]));
    }
}

/// Parses one statement, dispatching on the leading token; a statement that
/// starts with an identifier path is an assignment before `=`, a call
/// statement before `(`, and otherwise an expression statement, which
/// requires looking one token past the parsed path.
#[verifier::rlimit(60)]
fn parse_statement(toks: &Vec<Token>, pos: usize) -> (r: Result<(Statement, usize), ParseErr>)
    requires
        pos <= toks@.len(),
    ensures
        match r {
            Ok((s, np)) => pos < np <= toks@.len() && stmt_matches(toks@, pos as int, np as int, s),
            Err(e) => e.location <= toks@.len() && (e.err_type is InvalidPattern
                ==> spec_invalid_pattern_at(toks@, e.location as int)),
        },
        (spec_ident_pair_at(toks@, pos as int) && pos + 3 < toks@.len() && spec_token_kind(
            toks@[pos + 3],
        ) == TokenKind::SemiColon) ==> (r matches Ok(x) && x.1 == pos + 4),
    decreases toks@.len() - pos, 6int,
{
    if at_kind(toks, pos, TokenKind::Let) || at_kind(toks, pos, TokenKind::Const) {
        let is_const = at_kind(toks, pos, TokenKind::Const);
        let (binding, p1) = match parse_pattern(toks, pos + 1) {
            Ok(x) => x,
            Err(e) => {
                return Err(e);
            },
        };
        let (type_annotation, p2) = if at_kind(toks, p1, TokenKind::Colon) {
            match parse_type(toks, p1 + 1) {
                Ok((t, np)) => (Some(t), np),
                Err(e) => {
                    return Err(e);
                },
            }
        } else {
            (None, p1)
        };
        let (initializer, p3) = if at_kind(toks, p2, TokenKind::EqualOpe) {
            match parse_expression(toks, p2 + 1) {
                Ok((e, np)) => (Some(e), np),
                Err(e) => {
                    return Err(e);
                },
            }
        } else {
            (None, p2)
        };
        let p4 = match expect_token(toks, p3, TokenKind::SemiColon) {
            Ok(x) => x,
            Err(e) => {
                return Err(e);
            },
        };
        return Ok(
            (
                Statement::VariableDeclaration { is_const, binding, type_annotation, initializer },
                p4,
            ),
        );
    }
    if at_kind(toks, pos, TokenKind::For) {
        let (binding, p1) = match parse_pattern(toks, pos + 1) {
            Ok(x) => x,
            Err(e) => {
                return Err(e);
            },
        };
        let p2 = match expect_token(toks, p1, TokenKind::In) {
            Ok(x) => x,
            Err(e) => {
                return Err(e);
            },
        };
        let (iterable, p3) = match parse_expression(toks, p2) {
            Ok(x) => x,
            Err(e) => {
                return Err(e);
            },
        };
        let p4 = match expect_token(toks, p3, TokenKind::CurlyBracketStart) {
            Ok(x) => x,
            Err(e) => {
                return Err(e);
            },
        };
        let (body, p5) = match parse_statement_list(toks, p4) {
            Ok(x) => x,
            Err(e) => {
                return Err(e);
            },
        };
        let p6 = match expect_token(toks, p5, TokenKind::CurlyBracketEnd) {
            Ok(x) => x,
            Err(e) => {
                return Err(e);
            },
        };
        return Ok((Statement::ForLoop { binding, iterable, body }, p6));
    }
    if at_kind(toks, pos, TokenKind::While) {
        let (condition, p1) = match parse_expression(toks, pos + 1) {
            Ok(x) => x,
            Err(e) => {
                return Err(e);
            },
        };
        let p2 = match expect_token(toks, p1, TokenKind::CurlyBracketStart) {
            Ok(x) => x,
            Err(e) => {
                return Err(e);
            },
        };
        let (body, p3) = match parse_statement_list(toks, p2) {
            Ok(x) => x,
            Err(e) => {
                return Err(e);
            },
        };
        let p4 = match expect_token(toks, p3, TokenKind::CurlyBracketEnd) {
            Ok(x) => x,
            Err(e) => {
                return Err(e);
            },
        };
        return Ok((Statement::WhileLoop { condition, body }, p4));
    }
    if at_kind(toks, pos, TokenKind::Identifier) {
        let (path, p1) = match parse_accesser(toks, pos) {
            Ok(x) => x,
            Err(e) => {
                return Err(e);
            },
        };
        if at_kind(toks, p1, TokenKind::EqualOpe) {
            let (value, p2) = match parse_expression(toks, p1 + 1) {
                Ok(x) => x,
                Err(e) => {
                    return Err(e);
                },
            };
            let p3 = match expect_token(toks, p2, TokenKind::SemiColon) {
                Ok(x) => x,
                Err(e) => {
                    return Err(e);
                },
            };
            return Ok((Statement::Assignment { target: path, value }, p3));
        }
        if at_kind(toks, p1, TokenKind::BrancketStart) {
            let (arguments, p2) = match parse_call_args(toks, p1) {
                Ok(x) => x,
                Err(e) => {
                    return Err(e);
                },
            };
            let p3 = match expect_token(toks, p2, TokenKind::SemiColon) {
                Ok(x) => x,
                Err(e) => {
                    return Err(e);
                },
            };
            return Ok((Statement::CallStatement { target: path, arguments }, p3));
        }
        // neither an assignment nor a call: rewind to the statement's start
        // and parse it as an expression statement
    }
    let (e, p1) = match parse_expression(toks, pos) {
        Ok(x) => x,
        Err(e) => {
            return Err(e);
        },
    };
    let p2 = match expect_token(toks, p1, TokenKind::SemiColon) {
        Ok(x) => x,
        Err(e) => {
            return Err(e);
        },
    };
    Ok((Statement::ExpressionStatement(e), p2))
}

/// Parses statements until a `}`, the sentinel, or the sequence's end; the
/// closing token is left for the caller.
fn parse_statement_list(toks: &Vec<Token>, pos: usize) -> (r: Result<
    (Vec<Statement>, usize),
    ParseErr,
>)
    requires
        pos <= toks@.len(),
    ensures
        match r {
            Ok((stmts, np)) => pos <= np <= toks@.len() && (np == toks@.len() || spec_token_kind(
                toks@[np as int],
            ) == TokenKind::CurlyBracketEnd || spec_token_kind(toks@[np as int])
                == TokenKind::EndOfInput) && stmts_match(toks@, pos as int, np as int, stmts@),
            Err(e) => e.location <= toks@.len() && (e.err_type is InvalidPattern
                ==> spec_invalid_pattern_at(toks@, e.location as int)),
        },
        (spec_ident_pair_at(toks@, pos as int) && pos + 3 < toks@.len() && spec_token_kind(
            toks@[pos + 3],
        ) == TokenKind::SemiColon && pos + 4 < toks@.len() && spec_token_kind(toks@[pos + 4])
            == TokenKind::CurlyBracketEnd) ==> (r matches Ok(x) && x.1 == pos + 4),
    decreases toks@.len() - pos, 7int,
{
    let mut stmts: Vec<Statement> = Vec::new();
    let mut p = pos;
    loop
        invariant
            pos <= p <= toks@.len(),
            stmts_match(toks@, pos as int, p as int, stmts@),
            (spec_ident_pair_at(toks@, pos as int) && pos + 3 < toks@.len() && spec_token_kind(
                toks@[pos + 3],
            ) == TokenKind::SemiColon && pos + 4 < toks@.len() && spec_token_kind(toks@[pos + 4])
                == TokenKind::CurlyBracketEnd) ==> (p == pos || p == pos + 4),
        decreases toks@.len() - p,
    {
        if !(p < toks.len()) || at_kind(toks, p, TokenKind::CurlyBracketEnd) || at_kind(
            toks,
            p,
            TokenKind::EndOfInput,
        ) {
            return Ok((stmts, p));
        }
        match parse_statement(toks, p) {
            Ok((s, np)) => {
                proof {
                    lemma_stmts_match_push(toks@, pos as int, p as int, np as int, stmts@, s);
                }
                stmts.push(s);
                p = np;
            },
            Err(e) => {
                return Err(e);
            },
        }
    }
}

/// A two-parameter function signature of the simplest shape at `pos`: two
/// single-identifier parameters with primitive types and a primitive return
/// annotation.
pub open spec fn spec_two_param_sig_at(toks: Seq<Token>, pos: int) -> bool {
    &&& 0 <= pos
    &&& pos + 12 < toks.len()
    &&& spec_token_kind(toks[pos]) == TokenKind::Fn
    &&& spec_token_kind(toks[pos + 1]) == TokenKind::Identifier
    &&& spec_token_kind(toks[pos + 2]) == TokenKind::BrancketStart
    &&& spec_ident_atom_at(toks, pos + 3)
    &&& spec_token_kind(toks[pos + 4]) == TokenKind::Colon
    &&& spec_primitive_type_kind(spec_token_kind(toks[pos + 5]))
    &&& spec_token_kind(toks[pos + 6]) == TokenKind::Comma
    &&& spec_ident_atom_at(toks, pos + 7)
    &&& spec_token_kind(toks[pos + 8]) == TokenKind::Colon
    &&& spec_primitive_type_kind(spec_token_kind(toks[pos + 9]))
    &&& spec_token_kind(toks[pos + 10]) == TokenKind::BrancketEnd
    &&& spec_token_kind(toks[pos + 11]) == TokenKind::Colon
    &&& spec_primitive_type_kind(spec_token_kind(toks[pos + 12]))
}

/// A whole function declaration of the simplest shape at `pos`: the
/// signature above and a one-statement `a + b;` body; success is owed on it
/// all the way up.
pub open spec fn spec_simple_fn_at(toks: Seq<Token>, pos: int) -> bool {
    &&& spec_two_param_sig_at(toks, pos)
    &&& pos + 18 < toks.len()
    &&& spec_token_kind(toks[pos + 13]) == TokenKind::CurlyBracketStart
    &&& spec_ident_pair_at(toks, pos + 14)
    &&& spec_token_kind(toks[pos + 17]) == TokenKind::SemiColon
    &&& spec_token_kind(toks[pos + 18]) == TokenKind::CurlyBracketEnd
}

/// Parses a function signature, `pos` at the `fn`: a name, a parenthesized
/// comma-separated list of `pattern ":" type` parameters, and an optional
/// `":" type` return annotation.
fn parse_signature(toks: &Vec<Token>, pos: usize) -> (r: Result<
    (FunctionSignature, usize),
    ParseErr,
>)
    requires
        pos <= toks@.len(),
    ensures
        match r {
            Ok((sig, np)) => pos + 1 < np <= toks@.len() && toks@[pos + 1]@
                == TokenV::Identifier(sig.name@),
            Err(e) => e.location <= toks@.len() && (e.err_type is InvalidPattern
                ==> spec_invalid_pattern_at(toks@, e.location as int)),
        },
        spec_two_param_sig_at(toks@, pos as int) ==> (r matches Ok(x) && x.1 == pos + 13),
    decreases toks@.len() - pos, 0int,
{
    let p0 = match expect_token(toks, pos, TokenKind::Fn) {
        Ok(x) => x,
        Err(e) => {
            return Err(e);
        },
    };
    let (name, p1) = match expect_identifier(toks, p0) {
        Ok(x) => x,
        Err(e) => {
            return Err(e);
        },
    };
    let mut p = match expect_token(toks, p1, TokenKind::BrancketStart) {
        Ok(x) => x,
        Err(e) => {
            return Err(e);
        },
    };
    let mut parameters: Vec<(Pattern, TypeLiteral)> = Vec::new();
    loop
        invariant_except_break
            pos + 3 <= p <= toks@.len(),
            toks@[pos + 1]@ == TokenV::Identifier(name@),
            spec_two_param_sig_at(toks@, pos as int) ==> (p == pos + 3 || p == pos + 7),
        ensures
            pos + 3 <= p <= toks@.len(),
            toks@[pos + 1]@ == TokenV::Identifier(name@),
            spec_two_param_sig_at(toks@, pos as int) ==> p == pos + 11,
        decreases toks@.len() - p,
    {
        if at_kind(toks, p, TokenKind::BrancketEnd) {
            p = p + 1;
            break;
        }
        let (pat, q1) = match parse_pattern(toks, p) {
            Ok(x) => x,
            Err(e) => {
                return Err(e);
            },
        };
        let q2 = match expect_token(toks, q1, TokenKind::Colon) {
            Ok(x) => x,
            Err(e) => {
                return Err(e);
            },
        };
        let (ty, q3) = match parse_type(toks, q2) {
            Ok(x) => x,
            Err(e) => {
                return Err(e);
            },
        };
        parameters.push((pat, ty));
        if at_kind(toks, q3, TokenKind::Comma) {
            p = q3 + 1;
        } else if at_kind(toks, q3, TokenKind::BrancketEnd) {
            p = q3 + 1;
            break;
        } else {
            let mut expected: Vec<TokenKind> = Vec::new();
            expected.push(TokenKind::Comma);
            expected.push(TokenKind::BrancketEnd);
            return Err(parse_err(toks, q3, expected));
        }
    }
    if at_kind(toks, p, TokenKind::Colon) {
        let (ret, np) = match parse_type(toks, p + 1) {
            Ok(x) => x,
            Err(e) => {
                return Err(e);
            },
        };
        Ok((FunctionSignature { name, parameters, return_type: Some(ret) }, np))
    } else {
        Ok((FunctionSignature { name, parameters, return_type: None }, p))
    }
}

/// Parses a function declaration, `pos` at the `fn`: a signature and a
/// braced statement body.
fn parse_function(toks: &Vec<Token>, pos: usize, is_pub: bool) -> (r: Result<
    (FunctionDeclaration, usize),
    ParseErr,
>)
    requires
        pos <= toks@.len(),
    ensures
        match r {
            Ok((f, np)) => pos + 1 < np <= toks@.len() && f.is_pub == is_pub && toks@[pos + 1]@
                == TokenV::Identifier(f.signature.name@) && spec_token_kind(toks@[np - 1])
                == TokenKind::CurlyBracketEnd && exists|b: int|
                #![trigger stmts_match(toks@, b, np - 1, f.inner@)]
                pos + 1 < b < np && spec_token_kind(toks@[b - 1]) == TokenKind::CurlyBracketStart
                    && stmts_match(toks@, b, np - 1, f.inner@),
            Err(e) => e.location <= toks@.len() && (e.err_type is InvalidPattern
                ==> spec_invalid_pattern_at(toks@, e.location as int)),
        },
        spec_simple_fn_at(toks@, pos as int) ==> (r matches Ok(x) && x.1 == pos + 19),
    decreases toks@.len() - pos, 1int,
{
    let (signature, p1) = match parse_signature(toks, pos) {
        Ok(x) => x,
        Err(e) => {
            return Err(e);
        },
    };
    let p2 = match expect_token(toks, p1, TokenKind::CurlyBracketStart) {
        Ok(x) => x,
        Err(e) => {
            return Err(e);
        },
    };
    let (inner, p3) = match parse_statement_list(toks, p2) {
        Ok(x) => x,
        Err(e) => {
            return Err(e);
        },
    };
    let p4 = match expect_token(toks, p3, TokenKind::CurlyBracketEnd) {
        Ok(x) => x,
        Err(e) => {
            return Err(e);
        },
    };
    let f = FunctionDeclaration { is_pub, signature, inner };
    proof {
        assert(stmts_match(toks@, p2 as int, p4 - 1, f.inner@));
        assert(exists|b: int|
            #![trigger stmts_match(toks@, b, p4 - 1, f.inner@)]
            pos + 1 < b < p4 && spec_token_kind(toks@[b - 1]) == TokenKind::CurlyBracketStart
                && stmts_match(toks@, b, p4 - 1, f.inner@));
    }
    Ok((f, p4))
}

/// Parses a static-variable declaration, `pos` just after the `static`:
/// a name, an optional `":" type` annotation, `"="`, the initializer
/// expression, and `";"`.
fn parse_static(toks: &Vec<Token>, pos: usize, is_pub: bool) -> (r: Result<
    (StaticVariableDeclaration, usize),
    ParseErr,
>)
    requires
        pos <= toks@.len(),
    ensures
        match r {
            Ok((d, np)) => pos < np <= toks@.len() && d.is_pub == is_pub && toks@[pos as int]@
                == TokenV::Identifier(d.name@) && (d.type_annotation is Some <==> (pos + 1
                < toks@.len() && spec_token_kind(toks@[pos + 1]) == TokenKind::Colon)) && (match d
                .type_annotation {
                Some(ty) => pos + 2 < toks@.len() ==> {
                    &&& (spec_token_kind(toks@[pos + 2]) == TokenKind::IntType ==> ty
                        == TypeLiteral::IntType)
                    &&& (spec_token_kind(toks@[pos + 2]) == TokenKind::FloatType ==> ty
                        == TypeLiteral::FloatType)
                    &&& (spec_token_kind(toks@[pos + 2]) == TokenKind::CharType ==> ty
                        == TypeLiteral::CharType)
                    &&& (spec_token_kind(toks@[pos + 2]) == TokenKind::BoolType ==> ty
                        == TypeLiteral::BoolType)
                },
                None => true,
            }) && spec_token_kind(toks@[np - 1]) == TokenKind::SemiColon && exists|v: int|
                #![trigger expr_matches(toks@, v, np - 1, d.value)]
                pos < v < np && spec_token_kind(toks@[v - 1]) == TokenKind::EqualOpe
                    && expr_matches(toks@, v, np - 1, d.value),
            Err(e) => e.location <= toks@.len() && (e.err_type is InvalidPattern
                ==> spec_invalid_pattern_at(toks@, e.location as int)),
        },
        (pos + 5 < toks@.len() && spec_token_kind(toks@[pos as int]) == TokenKind::Identifier
            && spec_token_kind(toks@[pos + 1]) == TokenKind::Colon && spec_primitive_type_kind(
            spec_token_kind(toks@[pos + 2]),
        ) && spec_token_kind(toks@[pos + 3]) == TokenKind::EqualOpe && spec_literal_start(
            spec_token_kind(toks@[pos + 4]),
        ) && spec_token_kind(toks@[pos + 5]) == TokenKind::SemiColon) ==> (r matches Ok(x) && x.1
            == pos + 6),
    decreases toks@.len() - pos, 1int,
{
    let (name, p1) = match expect_identifier(toks, pos) {
        Ok(x) => x,
        Err(e) => {
            return Err(e);
        },
    };
    let (type_annotation, p2) = if at_kind(toks, p1, TokenKind::Colon) {
        match parse_type(toks, p1 + 1) {
            Ok((t, np)) => (Some(t), np),
            Err(e) => {
                return Err(e);
            },
        }
    } else {
        (None, p1)
    };
    let p3 = match expect_token(toks, p2, TokenKind::EqualOpe) {
        Ok(x) => x,
        Err(e) => {
            return Err(e);
        },
    };
    let (value, p4) = match parse_expression(toks, p3) {
        Ok(x) => x,
        Err(e) => {
            return Err(e);
        },
    };
    let p5 = match expect_token(toks, p4, TokenKind::SemiColon) {
        Ok(x) => x,
        Err(e) => {
            return Err(e);
        },
    };
    Ok((StaticVariableDeclaration { is_pub, name, type_annotation, value }, p5))
}

/// Parses a namespace declaration, `pos` just after the `namespace`: a name
/// and a braced inner program, parsed recursively.
fn parse_namespace(toks: &Vec<Token>, pos: usize, is_pub: bool) -> (r: Result<
    (NamespaceDeclaration, usize),
    ParseErr,
>)
    requires
        pos <= toks@.len(),
    ensures
        match r {
            Ok((d, np)) => pos < np <= toks@.len() && d.is_pub == is_pub && toks@[pos as int]@
                == TokenV::Identifier(d.name@) && pos + 1 < toks@.len() && spec_token_kind(
                toks@[pos + 1],
            ) == TokenKind::CurlyBracketStart && spec_token_kind(toks@[np - 1])
                == TokenKind::CurlyBracketEnd && program_matches(
                toks@,
                pos + 2,
                np - 1,
                d.inner.declarations@,
            ),
            Err(e) => e.location <= toks@.len() && (e.err_type is InvalidPattern
                ==> spec_invalid_pattern_at(toks@, e.location as int)),
        },
    decreases toks@.len() - pos, 1int,
{
    let (name, p1) = match expect_identifier(toks, pos) {
        Ok(x) => x,
        Err(e) => {
            return Err(e);
        },
    };
    let p2 = match expect_token(toks, p1, TokenKind::CurlyBracketStart) {
        Ok(x) => x,
        Err(e) => {
            return Err(e);
        },
    };
    let (inner, p3) = match parse_program(toks, p2) {
        Ok(x) => x,
        Err(e) => {
            return Err(e);
        },
    };
    let p4 = match expect_token(toks, p3, TokenKind::CurlyBracketEnd) {
        Ok(x) => x,
        Err(e) => {
            return Err(e);
        },
    };
    Ok((NamespaceDeclaration { is_pub, name, inner }, p4))
}

/// Parses a class declaration, `pos` just after the `class`: a name and a
/// braced list of fields and methods, distinguished by whether the member
/// (after its optional `pub`) starts with `fn`.
fn parse_class(toks: &Vec<Token>, pos: usize, is_pub: bool) -> (r: Result<
    (ClassDeclaration, usize),
    ParseErr,
>)
    requires
        pos <= toks@.len(),
    ensures
        match r {
            Ok((d, np)) => pos < np <= toks@.len() && d.is_pub == is_pub && toks@[pos as int]@
                == TokenV::Identifier(d.name@) && pos + 1 < toks@.len() && spec_token_kind(
                toks@[pos + 1],
            ) == TokenKind::CurlyBracketStart && spec_token_kind(toks@[np - 1])
                == TokenKind::CurlyBracketEnd,
            Err(e) => e.location <= toks@.len() && (e.err_type is InvalidPattern
                ==> spec_invalid_pattern_at(toks@, e.location as int)),
        },
    decreases toks@.len() - pos, 1int,
{
    let (name, p1) = match expect_identifier(toks, pos) {
        Ok(x) => x,
        Err(e) => {
            return Err(e);
        },
    };
    let mut p = match expect_token(toks, p1, TokenKind::CurlyBracketStart) {
        Ok(x) => x,
        Err(e) => {
            return Err(e);
        },
    };
    let mut fields: Vec<FieldDeclaration> = Vec::new();
    let mut methods: Vec<FunctionDeclaration> = Vec::new();
    loop
        invariant
            pos < p <= toks@.len(),
            toks@[pos as int]@ == TokenV::Identifier(name@),
            pos + 1 < toks@.len() && spec_token_kind(toks@[pos + 1])
                == TokenKind::CurlyBracketStart,
        decreases toks@.len() - p,
    {
        if at_kind(toks, p, TokenKind::CurlyBracketEnd) {
            return Ok((ClassDeclaration { is_pub, name, fields, methods }, p + 1));
        }
        let (member_pub, q0) = if at_kind(toks, p, TokenKind::Pub) {
            (true, p + 1)
        } else {
            (false, p)
        };
        if at_kind(toks, q0, TokenKind::Fn) {
            match parse_function(toks, q0, member_pub) {
                Ok((f, np)) => {
                    methods.push(f);
                    p = np;
                },
                Err(e) => {
                    return Err(e);
                },
            }
        } else {
            let (fname, q1) = match expect_identifier(toks, q0) {
                Ok(x) => x,
                Err(e) => {
                    return Err(e);
                },
            };
            let q2 = match expect_token(toks, q1, TokenKind::Colon) {
                Ok(x) => x,
                Err(e) => {
                    return Err(e);
                },
            };
            let (ty, q3) = match parse_type(toks, q2) {
                Ok(x) => x,
                Err(e) => {
                    return Err(e);
                },
            };
            let q4 = match expect_token(toks, q3, TokenKind::SemiColon) {
                Ok(x) => x,
                Err(e) => {
                    return Err(e);
                },
            };
            fields.push(FieldDeclaration { is_pub: member_pub, name: fname, type_annotation: ty });
            p = q4;
        }
    }
}

/// Parses a trait declaration, `pos` just after the `trait`: a name and a
/// braced list of bare method signatures and full method definitions; a
/// signature followed by `{` is a definition.
fn parse_trait(toks: &Vec<Token>, pos: usize, is_pub: bool) -> (r: Result<
    (TraitDeclaration, usize),
    ParseErr,
>)
    requires
        pos <= toks@.len(),
    ensures
        match r {
            Ok((d, np)) => pos < np <= toks@.len() && d.is_pub == is_pub && toks@[pos as int]@
                == TokenV::Identifier(d.name@) && pos + 1 < toks@.len() && spec_token_kind(
                toks@[pos + 1],
            ) == TokenKind::CurlyBracketStart && spec_token_kind(toks@[np - 1])
                == TokenKind::CurlyBracketEnd,
            Err(e) => e.location <= toks@.len() && (e.err_type is InvalidPattern
                ==> spec_invalid_pattern_at(toks@, e.location as int)),
        },
    decreases toks@.len() - pos, 1int,
{
    let (name, p1) = match expect_identifier(toks, pos) {
        Ok(x) => x,
        Err(e) => {
            return Err(e);
        },
    };
    let mut p = match expect_token(toks, p1, TokenKind::CurlyBracketStart) {
        Ok(x) => x,
        Err(e) => {
            return Err(e);
        },
    };
    let mut signatures: Vec<FunctionSignature> = Vec::new();
    let mut functions: Vec<FunctionDeclaration> = Vec::new();
    loop
        invariant
            pos < p <= toks@.len(),
            toks@[pos as int]@ == TokenV::Identifier(name@),
            pos + 1 < toks@.len() && spec_token_kind(toks@[pos + 1])
                == TokenKind::CurlyBracketStart,
        decreases toks@.len() - p,
    {
        if at_kind(toks, p, TokenKind::CurlyBracketEnd) {
            return Ok((TraitDeclaration { is_pub, name, signatures, functions }, p + 1));
        }
        let (member_pub, q0) = if at_kind(toks, p, TokenKind::Pub) {
            (true, p + 1)
        } else {
            (false, p)
        };
        let (sig, q1) = match parse_signature(toks, q0) {
            Ok(x) => x,
            Err(e) => {
                return Err(e);
            },
        };
        if at_kind(toks, q1, TokenKind::CurlyBracketStart) {
            let (inner, q2) = match parse_statement_list(toks, q1 + 1) {
                Ok(x) => x,
                Err(e) => {
                    return Err(e);
                },
            };
            let q3 = match expect_token(toks, q2, TokenKind::CurlyBracketEnd) {
                Ok(x) => x,
                Err(e) => {
                    return Err(e);
                },
            };
            functions.push(FunctionDeclaration { is_pub: member_pub, signature: sig, inner });
            p = q3;
        } else if member_pub {
            // only a full definition may carry `pub` inside a trait body
            let mut expected: Vec<TokenKind> = Vec::new();
            expected.push(TokenKind::CurlyBracketStart);
            return Err(parse_err(toks, q1, expected));
        } else {
            signatures.push(sig);
            p = q1;
        }
    }
}

/// Parses an import declaration, `pos` just after the `import`: one name or
/// a brace-list of names, `from`, the source path string, and `";"`.
fn parse_import(toks: &Vec<Token>, pos: usize) -> (r: Result<
    (ImportDeclaration, usize),
    ParseErr,
>)
    requires
        pos <= toks@.len(),
    ensures
        match r {
            Ok((d, np)) => pos < np <= toks@.len() && (spec_token_kind(toks@[pos as int])
                == TokenKind::Identifier ==> {
                &&& d.names@.len() == 1
                &&& toks@[pos as int]@ == TokenV::Identifier(d.names@[0]@)
                &&& pos + 2 < toks@.len()
                &&& toks@[pos + 2]@ == TokenV::StringLiteral(d.path@)
                &&& np == pos + 4
            }),
            Err(e) => e.location <= toks@.len() && (e.err_type is InvalidPattern
                ==> spec_invalid_pattern_at(toks@, e.location as int)),
        },
        (pos + 3 < toks@.len() && spec_token_kind(toks@[pos as int]) == TokenKind::Identifier
            && spec_token_kind(toks@[pos + 1]) == TokenKind::From && spec_token_kind(
            toks@[pos + 2],
        ) == TokenKind::StringLiteral && spec_token_kind(toks@[pos + 3]) == TokenKind::SemiColon)
            ==> r is Ok,
    decreases toks@.len() - pos, 1int,
{
    let mut names: Vec<String> = Vec::new();
    let mut p: usize;
    if at_kind(toks, pos, TokenKind::Identifier) {
        let (n, q) = match expect_identifier(toks, pos) {
            Ok(x) => x,
            Err(e) => {
                return Err(e);
            },
        };
        names.push(n);
        p = q;
    } else if at_kind(toks, pos, TokenKind::CurlyBracketStart) {
        p = pos + 1;
        loop
            invariant
                pos < p <= toks@.len(),
                spec_token_kind(toks@[pos as int]) == TokenKind::CurlyBracketStart,
            decreases toks@.len() - p,
        {
            if at_kind(toks, p, TokenKind::CurlyBracketEnd) {
                p = p + 1;
                break;
            }
            let (n, q) = match expect_identifier(toks, p) {
                Ok(x) => x,
                Err(e) => {
                    return Err(e);
                },
            };
            names.push(n);
            p = q;
        }
    } else {
        let mut expected: Vec<TokenKind> = Vec::new();
        expected.push(TokenKind::Identifier);
        expected.push(TokenKind::CurlyBracketStart);
        return Err(parse_err(toks, pos, expected));
    }
    let p1 = match expect_token(toks, p, TokenKind::From) {
        Ok(x) => x,
        Err(e) => {
            return Err(e);
        },
    };
    if p1 < toks.len() {
        match &toks[p1] {
            Token::StringLiteral(s) => {
                let path = s.clone();
                let p2 = match expect_token(toks, p1 + 1, TokenKind::SemiColon) {
                    Ok(x) => x,
                    Err(e) => {
                        return Err(e);
                    },
                };
                Ok((ImportDeclaration { names, path }, p2))
            },
            _ => {
                let mut expected: Vec<TokenKind> = Vec::new();
                expected.push(TokenKind::StringLiteral);
                Err(parse_err(toks, p1, expected))
            },
        }
    } else {
        let mut expected: Vec<TokenKind> = Vec::new();
        expected.push(TokenKind::StringLiteral);
        Err(parse_err(toks, p1, expected))
    }
}

/// A complete single-name import declaration standing at `pos`, the
/// smallest declaration shape, on which success is owed all the way up.
pub open spec fn spec_single_import_at(toks: Seq<Token>, pos: int) -> bool {
    &&& 0 <= pos
    &&& pos + 4 < toks.len()
    &&& spec_token_kind(toks[pos]) == TokenKind::Import
    &&& spec_token_kind(toks[pos + 1]) == TokenKind::Identifier
    &&& spec_token_kind(toks[pos + 2]) == TokenKind::From
    &&& spec_token_kind(toks[pos + 3]) == TokenKind::StringLiteral
    &&& spec_token_kind(toks[pos + 4]) == TokenKind::SemiColon
}

/// A primitive type name.
pub open spec fn spec_primitive_type_kind(k: TokenKind) -> bool {
    k == TokenKind::IntType || k == TokenKind::FloatType || k == TokenKind::CharType || k
        == TokenKind::BoolType
}

/// A complete static-variable declaration of the simplest shape at `pos`:
/// a primitive annotation and a literal initializer; success is owed on it
/// all the way up.
pub open spec fn spec_simple_static_at(toks: Seq<Token>, pos: int) -> bool {
    &&& 0 <= pos
    &&& pos + 6 < toks.len()
    &&& spec_token_kind(toks[pos]) == TokenKind::Static
    &&& spec_token_kind(toks[pos + 1]) == TokenKind::Identifier
    &&& spec_token_kind(toks[pos + 2]) == TokenKind::Colon
    &&& spec_primitive_type_kind(spec_token_kind(toks[pos + 3]))
    &&& spec_token_kind(toks[pos + 4]) == TokenKind::EqualOpe
    &&& spec_literal_start(spec_token_kind(toks[pos + 5]))
    &&& spec_token_kind(toks[pos + 6]) == TokenKind::SemiColon
}

/// The position a declaration dispatches from: just past a leading `pub`,
/// if one stands at `pos`.
pub open spec fn spec_decl_dispatch_pos(toks: Seq<Token>, pos: int) -> int {
    if pos < toks.len() && spec_token_kind(toks[pos]) == TokenKind::Pub {
        pos + 1
    } else {
        pos
    }
}

/// The keywords that may open a declaration.
pub open spec fn spec_decl_keyword(k: TokenKind) -> bool {
    k == TokenKind::Static || k == TokenKind::NameSpace || k == TokenKind::Fn || k
        == TokenKind::Class || k == TokenKind::Trait || k == TokenKind::Import
}

/// The declaration grammar as a relation between a token span and the node
/// it derives: the dispatch keyword, the declared name, the `pub` flag, and
/// for a static variable its annotation and initializer (for an import, the
/// single-name form in full).  The bodies of functions, classes, traits and
/// namespaces are pinned by their own parsers' contracts.
pub open spec fn decl_matches(toks: Seq<Token>, lo: int, hi: int, d: Declaration) -> bool {
    let q = spec_decl_dispatch_pos(toks, lo);
    &&& 0 <= lo <= q < hi <= toks.len()
    &&& match d {
        Declaration::StaticVariable(s) => {
            &&& spec_token_kind(toks[q]) == TokenKind::Static
            &&& q + 1 < hi
            &&& toks[q + 1]@ == TokenV::Identifier(s.name@)
            &&& s.is_pub == (q != lo)
            &&& (s.type_annotation is Some <==> (q + 2 < toks.len() && spec_token_kind(
                toks[q + 2],
            ) == TokenKind::Colon))
            &&& (match s.type_annotation {
                Some(ty) => q + 3 < toks.len() ==> {
                    &&& (spec_token_kind(toks[q + 3]) == TokenKind::IntType ==> ty
                        == TypeLiteral::IntType)
                    &&& (spec_token_kind(toks[q + 3]) == TokenKind::FloatType ==> ty
                        == TypeLiteral::FloatType)
                    &&& (spec_token_kind(toks[q + 3]) == TokenKind::CharType ==> ty
                        == TypeLiteral::CharType)
                    &&& (spec_token_kind(toks[q + 3]) == TokenKind::BoolType ==> ty
                        == TypeLiteral::BoolType)
                },
                None => true,
            })
            &&& spec_token_kind(toks[hi - 1]) == TokenKind::SemiColon
            &&& exists|v: int|
                #![trigger expr_matches(toks, v, hi - 1, s.value)]
                q + 1 < v < hi && spec_token_kind(toks[v - 1]) == TokenKind::EqualOpe
                    && expr_matches(toks, v, hi - 1, s.value)
        },
        Declaration::Namespace(n) => {
            &&& spec_token_kind(toks[q]) == TokenKind::NameSpace
            &&& q + 2 < hi
            &&& toks[q + 1]@ == TokenV::Identifier(n.name@)
            &&& n.is_pub == (q != lo)
            &&& spec_token_kind(toks[q + 2]) == TokenKind::CurlyBracketStart
            &&& spec_token_kind(toks[hi - 1]) == TokenKind::CurlyBracketEnd
            &&& q + 3 <= hi - 1
        },
        Declaration::Function(f) => {
            &&& spec_token_kind(toks[q]) == TokenKind::Fn
            &&& q + 1 < hi
            &&& toks[q + 1]@ == TokenV::Identifier(f.signature.name@)
            &&& f.is_pub == (q != lo)
            &&& spec_token_kind(toks[hi - 1]) == TokenKind::CurlyBracketEnd
            &&& exists|b: int|
                #![trigger stmts_match(toks, b, hi - 1, f.inner@)]
                q + 1 < b < hi && spec_token_kind(toks[b - 1]) == TokenKind::CurlyBracketStart
                    && stmts_match(toks, b, hi - 1, f.inner@)
        },
        Declaration::Class(c) => {
            &&& spec_token_kind(toks[q]) == TokenKind::Class
            &&& q + 2 < hi
            &&& toks[q + 1]@ == TokenV::Identifier(c.name@)
            &&& c.is_pub == (q != lo)
            &&& spec_token_kind(toks[q + 2]) == TokenKind::CurlyBracketStart
            &&& spec_token_kind(toks[hi - 1]) == TokenKind::CurlyBracketEnd
        },
        Declaration::Trait(tr) => {
            &&& spec_token_kind(toks[q]) == TokenKind::Trait
            &&& q + 2 < hi
            &&& toks[q + 1]@ == TokenV::Identifier(tr.name@)
            &&& tr.is_pub == (q != lo)
            &&& spec_token_kind(toks[q + 2]) == TokenKind::CurlyBracketStart
            &&& spec_token_kind(toks[hi - 1]) == TokenKind::CurlyBracketEnd
        },
        Declaration::Import(i) => {
            &&& spec_token_kind(toks[q]) == TokenKind::Import
            &&& (q + 1 < toks.len() && spec_token_kind(toks[q + 1]) == TokenKind::Identifier ==> {
                &&& i.names@.len() == 1
                &&& toks[q + 1]@ == TokenV::Identifier(i.names@[0]@)
                &&& q + 3 < toks.len()
                &&& toks[q + 3]@ == TokenV::StringLiteral(i.path@)
                &&& hi == q + 5
            })
        },
    }
}

/// A declaration list derives a token span exactly when its declarations
/// derive consecutive sub-spans covering it, in order: complete, none
/// dropped, duplicated or reordered.
pub open spec fn program_matches(toks: Seq<Token>, lo: int, hi: int, ds: Seq<Declaration>) -> bool
    decreases ds.len(),
{
    if ds.len() == 0 {
        lo == hi
    } else {
        exists|k: int|
            #![trigger decl_matches(toks, lo, k, ds[0])]
            lo < k <= hi && decl_matches(toks, lo, k, ds[0]) && program_matches(
                toks,
                k,
                hi,
                ds.subrange(1, ds.len() as int),
            )
    }
}

/// Extending a derived declaration list by one declaration derived from the
/// adjoining span derives the combined span.
proof fn lemma_program_matches_push(
    toks: Seq<Token>,
    lo: int,
    mid: int,
    hi: int,
    ds: Seq<Declaration>,
    d: Declaration,
)
    requires
        0 <= lo <= mid <= hi <= toks.len(),
        program_matches(toks, lo, mid, ds),
        decl_matches(toks, mid, hi, d),
    ensures
        program_matches(toks, lo, hi, ds.push(d)),
    decreases ds.len(),
{
    if ds.len() == 0 {
        assert(lo == mid);
        assert(ds.push(d)[0] == d);
        assert(ds.push(d).subrange(1, 1) =~= Seq::<Declaration>::empty());
        assert(decl_matches(toks, lo, hi, ds.push(d)[0]));
        assert(program_matches(toks, hi, hi, ds.push(d).subrange(1, 1)));
    } else {
        let tail = ds.subrange(1, ds.len() as int);
        let k = choose|k: int|
            #![trigger decl_matches(toks, lo, k, ds[0])]
            lo < k <= mid && decl_matches(toks, lo, k, ds[0]) && program_matches(toks, k, mid, tail);
        lemma_program_matches_push(toks, k, mid, hi, tail, d);
        assert(ds.push(d)[0] == ds[0]);
        assert(ds.push(d).subrange(1, ds.push(d).len() as int) =~= tail.push(d));
        assert(decl_matches(toks, lo, k, ds.push(d)[0]));
    }
}

/// Parses one declaration: an optional leading `pub`, then strict dispatch
/// on the current keyword to one of the six declaration forms; any other
/// token fails with the declaration keywords as the expected set.
fn parse_declaration(toks: &Vec<Token>, pos: usize) -> (r: Result<(Declaration, usize), ParseErr>)
    requires
        pos <= toks@.len(),
    ensures
        match r {
            Ok((d, np)) => pos < np <= toks@.len() && decl_matches(toks@, pos as int, np as int, d)
                && {
                let q = spec_decl_dispatch_pos(toks@, pos as int);
                &&& q < toks@.len()
                &&& (d is StaticVariable <==> spec_token_kind(toks@[q]) == TokenKind::Static)
                &&& (d is Namespace <==> spec_token_kind(toks@[q]) == TokenKind::NameSpace)
                &&& (d is Function <==> spec_token_kind(toks@[q]) == TokenKind::Fn)
                &&& (d is Class <==> spec_token_kind(toks@[q]) == TokenKind::Class)
                &&& (d is Trait <==> spec_token_kind(toks@[q]) == TokenKind::Trait)
                &&& (d is Import <==> spec_token_kind(toks@[q]) == TokenKind::Import)
            },
            Err(e) => e.location <= toks@.len() && (e.err_type is InvalidPattern
                ==> spec_invalid_pattern_at(toks@, e.location as int)),
        },
        ({
            let q = spec_decl_dispatch_pos(toks@, pos as int);
            q == toks@.len() || !spec_decl_keyword(spec_token_kind(toks@[q]))
        }) ==> (r matches Err(e) && e.location == spec_decl_dispatch_pos(toks@, pos as int) && {
            let q = spec_decl_dispatch_pos(toks@, pos as int);
            if q == toks@.len() || toks@[q] is EndOfInput {
                e.err_type is UnexpectedEndOfInput
            } else {
                e.err_type matches ParseErrType::UnexpectedToken { expected, .. } && expected@
                    =~= seq![
                    TokenKind::Static,
                    TokenKind::NameSpace,
                    TokenKind::Fn,
                    TokenKind::Class,
                    TokenKind::Trait,
                    TokenKind::Import,
                ]
            }
        }),
        spec_single_import_at(toks@, pos as int) ==> (r matches Ok(x) && x.1 == pos + 5),
        spec_simple_static_at(toks@, pos as int) ==> (r matches Ok(x) && x.1 == pos + 7),
        spec_simple_fn_at(toks@, pos as int) ==> (r matches Ok(x) && x.1 == pos + 19),
        r matches Ok(x) ==> (match x.0 {
            Declaration::Namespace(n) => {
                let q = spec_decl_dispatch_pos(toks@, pos as int);
                program_matches(toks@, q + 3, x.1 - 1, n.inner.declarations@)
            },
            _ => true,
        }),
    decreases toks@.len() - pos, 2int,
{
    let (is_pub, p) = if at_kind(toks, pos, TokenKind::Pub) {
        (true, pos + 1)
    } else {
        (false, pos)
    };
    if at_kind(toks, p, TokenKind::Static) {
        match parse_static(toks, p + 1, is_pub) {
            Ok((d, np)) => Ok((Declaration::StaticVariable(d), np)),
            Err(e) => Err(e),
        }
    } else if at_kind(toks, p, TokenKind::NameSpace) {
        match parse_namespace(toks, p + 1, is_pub) {
            Ok((d, np)) => Ok((Declaration::Namespace(d), np)),
            Err(e) => Err(e),
        }
    } else if at_kind(toks, p, TokenKind::Fn) {
        match parse_function(toks, p, is_pub) {
            Ok((d, np)) => {
                proof {
                    let b = choose|b: int|
                        #![trigger stmts_match(toks@, b, np - 1, d.inner@)]
                        p + 1 < b < np && spec_token_kind(toks@[b - 1])
                            == TokenKind::CurlyBracketStart && stmts_match(
                            toks@,
                            b,
                            np - 1,
                            d.inner@,
                        );
                    assert(stmts_match(toks@, b, np - 1, d.inner@));
                }
                Ok((Declaration::Function(d), np))
            },
            Err(e) => Err(e),
        }
    } else if at_kind(toks, p, TokenKind::Class) {
        match parse_class(toks, p + 1, is_pub) {
            Ok((d, np)) => Ok((Declaration::Class(d), np)),
            Err(e) => Err(e),
        }
    } else if at_kind(toks, p, TokenKind::Trait) {
        match parse_trait(toks, p + 1, is_pub) {
            Ok((d, np)) => Ok((Declaration::Trait(d), np)),
            Err(e) => Err(e),
        }
    } else if at_kind(toks, p, TokenKind::Import) {
        match parse_import(toks, p + 1) {
            Ok((d, np)) => Ok((Declaration::Import(d), np)),
            Err(e) => Err(e),
        }
    } else {
        let mut expected: Vec<TokenKind> = Vec::new();
        expected.push(TokenKind::Static);
        expected.push(TokenKind::NameSpace);
        expected.push(TokenKind::Fn);
        expected.push(TokenKind::Class);
        expected.push(TokenKind::Trait);
        expected.push(TokenKind::Import);
        proof {
            assert(expected@ =~= seq![
                TokenKind::Static,
                TokenKind::NameSpace,
                TokenKind::Fn,
                TokenKind::Class,
                TokenKind::Trait,
                TokenKind::Import,
            ]);
        }
        Err(parse_err(toks, p, expected))
    }
}

/// Where a declaration list ends: at the sentinel, at a `}` closing an
/// enclosing namespace, or at the end of the token sequence.
pub open spec fn spec_program_stop(toks: Seq<Token>, pos: int) -> bool {
    pos >= toks.len() || spec_token_kind(toks[pos]) == TokenKind::EndOfInput || spec_token_kind(
        toks[pos],
    ) == TokenKind::CurlyBracketEnd
}

/// Parses declarations until the sentinel, a `}` (closing an enclosing
/// namespace), or the sequence's end; the stopping token is left for the
/// caller.
fn parse_program(toks: &Vec<Token>, pos: usize) -> (r: Result<(Program, usize), ParseErr>)
    requires
        pos <= toks@.len(),
    ensures
        match r {
            Ok((prog, np)) => pos <= np <= toks@.len() && spec_program_stop(toks@, np as int) && (
            np == pos <==> prog.declarations@.len() == 0) && program_matches(
                toks@,
                pos as int,
                np as int,
                prog.declarations@,
            ),
            Err(e) => e.location <= toks@.len() && (e.err_type is InvalidPattern
                ==> spec_invalid_pattern_at(toks@, e.location as int)),
        },
        spec_program_stop(toks@, pos as int) ==> match r {
            Ok((prog, np)) => np == pos && prog.declarations@.len() == 0,
            Err(_) => false,
        },
        (spec_single_import_at(toks@, pos as int) && spec_program_stop(toks@, pos + 5)) ==> (
        r matches Ok(x) && x.1 == pos + 5),
        (spec_simple_static_at(toks@, pos as int) && spec_program_stop(toks@, pos + 7)) ==> (
        r matches Ok(x) && x.1 == pos + 7),
        (spec_simple_fn_at(toks@, pos as int) && spec_program_stop(toks@, pos + 19)) ==> (
        r matches Ok(x) && x.1 == pos + 19),
    decreases toks@.len() - pos, 3int,
{
    let mut declarations: Vec<Declaration> = Vec::new();
    let mut p = pos;
    loop
        invariant
            pos <= p <= toks@.len(),
            spec_program_stop(toks@, pos as int) ==> p == pos && declarations@.len() == 0,
            p == pos <==> declarations@.len() == 0,
            program_matches(toks@, pos as int, p as int, declarations@),
            (spec_single_import_at(toks@, pos as int) && spec_program_stop(toks@, pos + 5)) ==> (p
                == pos || p == pos + 5),
            (spec_simple_static_at(toks@, pos as int) && spec_program_stop(toks@, pos + 7)) ==> (p
                == pos || p == pos + 7),
            (spec_simple_fn_at(toks@, pos as int) && spec_program_stop(toks@, pos + 19)) ==> (p
                == pos || p == pos + 19),
        decreases toks@.len() - p,
    {
        if !(p < toks.len()) || at_kind(toks, p, TokenKind::EndOfInput) || at_kind(
            toks,
            p,
            TokenKind::CurlyBracketEnd,
        ) {
            return Ok((Program { declarations }, p));
        }
        match parse_declaration(toks, p) {
            Ok((d, np)) => {
                proof {
                    lemma_program_matches_push(
                        toks@,
                        pos as int,
                        p as int,
                        np as int,
                        declarations@,
                        d,
                    );
                }
                declarations.push(d);
                p = np;
            },
            Err(e) => {
                return Err(e);
            },
        }
    }
}

/// The parser: owns the token sequence for the duration of one parse and a
/// cursor that advances strictly monotonically.
#[derive(Debug)]
pub struct Parser {
    pub input: Vec<Token>,
    pub now_index: usize,
}

impl Parser {
    /// Binds a token sequence, with the cursor at its start.
    pub fn new(input: Vec<Token>) -> (p: Self)
        ensures
            p.input == input,
            p.now_index == 0,
    {
        Parser { input, now_index: 0 }
    }

    /// Parses the whole token sequence into a `Program`, or fails with the
    /// first syntax error and returns no partial tree.  On success the
    /// cursor stands just past the `EndOfInput` sentinel, so everything was
    /// consumed; on failure the error's location is a valid index and the
    /// cursor has not moved.  This function is total: it never panics,
    /// whatever the token sequence.
    pub fn parse(&mut self) -> (r: Result<Program, ParseErr>)
        requires
            old(self).now_index == 0,
        ensures
            final(self).input == old(self).input,
            match r {
                Ok(prog) => 1 <= final(self).now_index <= old(self).input@.len()
                    && spec_token_kind(
                    old(self).input@[final(self).now_index - 1],
                ) == TokenKind::EndOfInput,
                Err(e) => e.location <= old(self).input@.len() && final(self).now_index == old(
                    self,
                ).now_index && (e.err_type is InvalidPattern ==> spec_invalid_pattern_at(
                    old(self).input@,
                    e.location as int,
                )),
            },
            (old(self).input@.len() >= 1 && spec_token_kind(old(self).input@[0])
                == TokenKind::EndOfInput) ==> match r {
                Ok(prog) => prog.declarations@.len() == 0,
                Err(_) => false,
            },
            r matches Ok(prog) ==> (prog.declarations@.len() == 0 <==> spec_token_kind(
                old(self).input@[0],
            ) == TokenKind::EndOfInput) && program_matches(
                old(self).input@,
                0,
                final(self).now_index - 1,
                prog.declarations@,
            ),
            (spec_single_import_at(old(self).input@, 0) && 5 < old(self).input@.len()
                && spec_token_kind(old(self).input@[5]) == TokenKind::EndOfInput) ==> r is Ok,
            (spec_simple_static_at(old(self).input@, 0) && 7 < old(self).input@.len()
                && spec_token_kind(old(self).input@[7]) == TokenKind::EndOfInput) ==> r is Ok,
            (spec_simple_fn_at(old(self).input@, 0) && 19 < old(self).input@.len()
                && spec_token_kind(old(self).input@[19]) == TokenKind::EndOfInput) ==> r is Ok,
    {
        let (prog, p) = match parse_program(&self.input, 0) {
            Ok(x) => x,
            Err(e) => {
                return Err(e);
            },
        };
        match expect_token(&self.input, p, TokenKind::EndOfInput) {
            Ok(np) => {
                self.now_index = np;
                Ok(prog)
            },
            Err(e) => Err(e),
        }
    }

    /// Parses a single expression starting at the cursor, leaving the cursor
    /// just past it; on failure the cursor does not move.
    pub fn parse_expression(&mut self) -> (r: Result<Expression, ParseErr>)
        requires
            old(self).now_index <= old(self).input@.len(),
        ensures
            final(self).input == old(self).input,
            match r {
                Ok(e) => old(self).now_index < final(self).now_index <= old(self).input@.len()
                    && expr_matches(
                    old(self).input@,
                    old(self).now_index as int,
                    final(self).now_index as int,
                    e,
                ),
                Err(e) => e.location <= old(self).input@.len() && final(self).now_index == old(
                    self,
                ).now_index && (e.err_type is InvalidPattern ==> spec_invalid_pattern_at(
                    old(self).input@,
                    e.location as int,
                )),
            },
            spec_lone_literal_at(old(self).input@, old(self).now_index as int) ==> r is Ok,
            spec_lit_chain5_at(old(self).input@, old(self).now_index as int) ==> r is Ok,
            r matches Ok(e) ==> ((old(self).now_index < old(self).input@.len() && spec_token_kind(
                old(self).input@[old(self).now_index as int],
            ) == TokenKind::If) ==> match e {
                Expression::If { condition, .. } => exists|c: int|
                    #![trigger expr_matches(old(self).input@, old(self).now_index + 1, c, *condition)]
                    old(self).now_index + 1 < c < final(self).now_index && expr_matches(
                        old(self).input@,
                        old(self).now_index + 1,
                        c,
                        *condition,
                    ) && spec_token_kind(old(self).input@[c]) == TokenKind::CurlyBracketStart,
                _ => false,
            }),
            r matches Ok(e) ==> ((old(self).now_index < old(self).input@.len() && spec_token_kind(
                old(self).input@[old(self).now_index as int],
            ) == TokenKind::Match) ==> match e {
                Expression::Match { scrutinee, arms } => spec_token_kind(
                    old(self).input@[final(self).now_index - 1],
                ) == TokenKind::CurlyBracketEnd && exists|c: int|
                    #![trigger expr_matches(old(self).input@, old(self).now_index + 1, c, *scrutinee)]
                    old(self).now_index + 1 < c < final(self).now_index && expr_matches(
                        old(self).input@,
                        old(self).now_index + 1,
                        c,
                        *scrutinee,
                    ) && spec_token_kind(old(self).input@[c]) == TokenKind::CurlyBracketStart && (
                    arms@.len() == 0 <==> c + 2 == final(self).now_index),
                _ => false,
            }),
    {
        match parse_expression(&self.input, self.now_index) {
            Ok((e, np)) => {
                self.now_index = np;
                Ok(e)
            },
            Err(e) => Err(e),
        }
    }
}

} // verus!
