//! The abstract syntax tree: the closed set of node shapes that the parser
//! instantiates.  Nodes are built exactly once, bottom-up, during a single
//! parse; ownership is strictly hierarchical, so the tree is acyclic by
//! construction.
//!
//! The grammar, with one parser entry point per production:
//!
//! ```text
//! program      := declaration*
//! declaration  := "pub"? ( static_variable | namespace | function
//!                        | class | trait | import )
//! static_variable := "static" IDENT ( ":" type_literal )? "=" expression ";"
//! namespace    := "namespace" IDENT "{" program "}"
//! function     := signature "{" statement* "}"
//! signature    := "fn" IDENT "(" ( pattern ":" type_literal ),* ")"
//!                 ( ":" type_literal )?
//! class        := "class" IDENT "{" ( field | "pub"? function )* "}"
//! field        := "pub"? IDENT ":" type_literal ";"
//! trait        := "trait" IDENT "{" ( signature | function )* "}"
//! import       := "import" ( IDENT | "{" IDENT* "}" ) "from" STRING ";"
//!
//! statement    := expression ";"
//!               | ( "let" | "const" ) pattern ( ":" type_literal )?
//!                 ( "=" expression )? ";"
//!               | accesser "=" expression ";"
//!               | accesser "(" ( expression ),* ")" ";"
//!               | "for" pattern "in" expression "{" statement* "}"
//!               | "while" expression "{" statement* "}"
//!
//! expression   := level1 ( ("+" | "-") level1 )*      (left-associative)
//! level1       := level2 ( ("*" | "/") level2 )*      (left-associative)
//! level2       := "-" level2 | primary
//! primary      := literal | accesser ( "(" ( expression ),* ")" )?
//!               | "(" expression ")"
//!               | "if" expression "{" statement* "}" ( "else" expression )?
//!               | "match" expression "{" ( pattern "=" ">" expression "," )* "}"
//!               | "{" statement* "}"
//! accesser     := IDENT ( ( "." | "::" ) IDENT )*
//!
//! pattern      := literal | "_" | IDENT | "(" ( pattern ),* ")"
//!               | accesser ( "(" ( pattern ),* ")" )?
//! type_literal := "int" | "float" | "char" | "bool"
//!               | IDENT ( "<" type_literal* ">" )?
//!               | "(" ( type_literal ),* ")"
//! ```
//!
//! The grammar also declares enum, reference, slice, range and or-patterns,
//! but fixes no concrete syntax for a reference, slice, range or or-pattern
//! (the token set has no `&`, `..` or `|`); the parser reports
//! `InvalidPattern` where none of the supported alternatives applies, and
//! those variants stand in `Pattern` only as part of the data model.

use crate::token::FloatLiteral;
use vstd::prelude::*;

verus! {

/// An ordered sequence of declarations; the root of every parse.
#[derive(Debug, PartialEq)]
pub struct Program {
    pub declarations: Vec<Declaration>,
}

/// A top-level (or namespace-level) declaration.
#[derive(Debug, PartialEq)]
pub enum Declaration {
    StaticVariable(StaticVariableDeclaration),
    Namespace(NamespaceDeclaration),
    Function(FunctionDeclaration),
    Class(ClassDeclaration),
    Trait(TraitDeclaration),
    Import(ImportDeclaration),
}

/// `"pub"? "static" IDENT (":" type)? "=" expression ";"`
#[derive(Debug, PartialEq)]
pub struct StaticVariableDeclaration {
    pub is_pub: bool,
    pub name: String,
    pub type_annotation: Option<TypeLiteral>,
    pub value: Expression,
}

/// `"pub"? "namespace" IDENT "{" program "}"`; the inner program is owned
/// recursively, so namespaces form a strict tree.
#[derive(Debug, PartialEq)]
pub struct NamespaceDeclaration {
    pub is_pub: bool,
    pub name: String,
    pub inner: Program,
}

/// `"pub"? signature "{" statement* "}"`
#[derive(Debug, PartialEq)]
pub struct FunctionDeclaration {
    pub is_pub: bool,
    pub signature: FunctionSignature,
    pub inner: Vec<Statement>,
}

/// `"fn" IDENT "(" (pattern ":" type),* ")" (":" type)?`
#[derive(Debug, PartialEq)]
pub struct FunctionSignature {
    pub name: String,
    pub parameters: Vec<(Pattern, TypeLiteral)>,
    pub return_type: Option<TypeLiteral>,
}

/// `"pub"? "class" IDENT "{" (field | method)* "}"`
#[derive(Debug, PartialEq)]
pub struct ClassDeclaration {
    pub is_pub: bool,
    pub name: String,
    pub fields: Vec<FieldDeclaration>,
    pub methods: Vec<FunctionDeclaration>,
}

/// `"pub"? IDENT ":" type ";"`
#[derive(Debug, PartialEq)]
pub struct FieldDeclaration {
    pub is_pub: bool,
    pub name: String,
    pub type_annotation: TypeLiteral,
}

/// `"pub"? "trait" IDENT "{" (signature | function)* "}"`
#[derive(Debug, PartialEq)]
pub struct TraitDeclaration {
    pub is_pub: bool,
    pub name: String,
    pub signatures: Vec<FunctionSignature>,
    pub functions: Vec<FunctionDeclaration>,
}

/// `"import" (IDENT | "{" IDENT* "}") "from" STRING ";"`; a single imported
/// name is kept as a list of one.
#[derive(Debug, PartialEq)]
pub struct ImportDeclaration {
    pub names: Vec<String>,
    pub path: String,
}

/// A type written in source.
#[derive(Debug, PartialEq)]
pub enum TypeLiteral {
    IntType,
    FloatType,
    CharType,
    BoolType,
    CustomType { name: String, type_args: Vec<TypeLiteral> },
    TupleType { inner: Vec<TypeLiteral> },
}

/// A literal value, shared by expressions and patterns.
#[derive(Debug, PartialEq)]
pub enum Literal {
    Integer(u64),
    Float(FloatLiteral),
    Str(String),
    Bool(bool),
}

/// The binary operators, two precedence levels: `+` and `-` bind looser than
/// `*` and `/`; all four are left-associative.
#[derive(Debug, PartialEq, Eq, Structural, Clone, Copy)]
pub enum BinaryOperator {
    Plus,
    Minus,
    Multiply,
    Divide,
}

/// The unary operators; `-` binds tighter than any binary operator.
#[derive(Debug, PartialEq, Eq, Structural, Clone, Copy)]
pub enum UnaryOperator {
    Minus,
}

/// An expression.  Paths (`a.b`, `a::b`) are kept as their ordered segments.
#[derive(Debug, PartialEq)]
pub enum Expression {
    Literal(Literal),
    IdentifierRef(Vec<String>),
    UnaryOp(UnaryOperator, Box<Expression>),
    BinaryOp(Box<Expression>, BinaryOperator, Box<Expression>),
    FunctionCall(Vec<String>, Vec<Expression>),
    If {
        condition: Box<Expression>,
        then_body: Vec<Statement>,
        else_body: Option<Box<Expression>>,
    },
    Match {
        scrutinee: Box<Expression>,
        arms: Vec<(Pattern, Expression)>,
    },
    Block(Vec<Statement>),
}

/// A statement.
#[derive(Debug, PartialEq)]
pub enum Statement {
    ExpressionStatement(Expression),
    VariableDeclaration {
        is_const: bool,
        binding: Pattern,
        type_annotation: Option<TypeLiteral>,
        initializer: Option<Expression>,
    },
    Assignment {
        target: Vec<String>,
        value: Expression,
    },
    CallStatement {
        target: Vec<String>,
        arguments: Vec<Expression>,
    },
    ForLoop {
        binding: Pattern,
        iterable: Expression,
        body: Vec<Statement>,
    },
    WhileLoop {
        condition: Expression,
        body: Vec<Statement>,
    },
}

/// A pattern, as used in `match` arms and bindings.  The reference, slice,
/// range and or alternatives have no concrete syntax in this grammar and are
/// never produced by the parser.
#[derive(Debug, PartialEq)]
pub enum Pattern {
    Literal(Literal),
    Identifier(String),
    Wildcard,
    Tuple(Vec<Pattern>),
    Struct(Vec<String>),
    Enum(Vec<String>, Vec<Pattern>),
    Reference(Box<Pattern>),
    Slice(Vec<Pattern>),
    Range(Box<Pattern>, Box<Pattern>),
    Or(Vec<Pattern>),
}

} // verus!
