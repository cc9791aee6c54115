//! Parsing the remaining declaration forms: namespaces (recursively),
//! classes, traits, imports, and the type and pattern grammars.

use minilang::ast::Declaration;
use minilang::ast::Expression;
use minilang::ast::Literal;
use minilang::ast::Pattern;
use minilang::ast::Program;
use minilang::ast::Statement;
use minilang::ast::TypeLiteral;
use minilang::parser::ParseErr;
use minilang::parser::Parser;
use minilang::tokenize::Tokenizer;

fn parse_source(source: &str) -> Result<Program, ParseErr> {
    let tokens = Tokenizer::new(source).tokenize().unwrap();
    Parser::new(tokens).parse()
}

#[test]
fn empty_program() {
    assert_eq!(parse_source("").unwrap(), Program { declarations: vec![] });
}

#[test]
fn namespace_owns_inner_program_recursively() {
    let program = parse_source(
        "namespace outer { static A = 1; namespace inner { static B = 2; } }",
    )
    .unwrap();
    assert_eq!(program.declarations.len(), 1);
    match &program.declarations[0] {
        Declaration::Namespace(ns) => {
            assert_eq!(ns.name, "outer");
            assert_eq!(ns.inner.declarations.len(), 2);
            match &ns.inner.declarations[1] {
                Declaration::Namespace(inner) => {
                    assert_eq!(inner.name, "inner");
                    assert_eq!(inner.inner.declarations.len(), 1);
                }
                other => panic!("expected a namespace, got {:?}", other),
            }
        }
        other => panic!("expected a namespace, got {:?}", other),
    }
}

#[test]
fn class_with_fields_and_methods() {
    let program = parse_source(
        "class Point { pub x: int; y: int; pub fn norm(): int { x; } fn reset() { } }",
    )
    .unwrap();
    match &program.declarations[0] {
        Declaration::Class(c) => {
            assert_eq!(c.name, "Point");
            assert_eq!(c.fields.len(), 2);
            assert!(c.fields[0].is_pub);
            assert_eq!(c.fields[0].name, "x");
            assert_eq!(c.fields[0].type_annotation, TypeLiteral::IntType);
            assert!(!c.fields[1].is_pub);
            assert_eq!(c.methods.len(), 2);
            assert!(c.methods[0].is_pub);
            assert_eq!(c.methods[0].signature.name, "norm");
            assert!(!c.methods[1].is_pub);
            assert_eq!(c.methods[1].signature.name, "reset");
        }
        other => panic!("expected a class, got {:?}", other),
    }
}

#[test]
fn trait_with_signatures_and_definitions() {
    let program = parse_source(
        "trait Shape { fn area(): int fn name(): char fn zero(): int { 0; } }",
    )
    .unwrap();
    match &program.declarations[0] {
        Declaration::Trait(t) => {
            assert_eq!(t.name, "Shape");
            assert_eq!(t.signatures.len(), 2);
            assert_eq!(t.signatures[0].name, "area");
            assert_eq!(t.signatures[1].name, "name");
            assert_eq!(t.functions.len(), 1);
            assert_eq!(t.functions[0].signature.name, "zero");
            assert_eq!(
                t.functions[0].inner,
                vec![Statement::ExpressionStatement(Expression::Literal(Literal::Integer(0)))]
            );
        }
        other => panic!("expected a trait, got {:?}", other),
    }
}

#[test]
fn import_single_name() {
    let program = parse_source("import util from \"module\";").unwrap();
    match &program.declarations[0] {
        Declaration::Import(i) => {
            assert_eq!(i.names, vec!["util".to_string()]);
            assert_eq!(i.path, "module");
        }
        other => panic!("expected an import, got {:?}", other),
    }
}

#[test]
fn import_brace_list() {
    let program = parse_source("import { util hash } from \"tools\";").unwrap();
    match &program.declarations[0] {
        Declaration::Import(i) => {
            assert_eq!(i.names, vec!["util".to_string(), "hash".to_string()]);
            assert_eq!(i.path, "tools");
        }
        other => panic!("expected an import, got {:?}", other),
    }
}

#[test]
fn type_literals() {
    let program = parse_source(
        "static a: int = 1; static b: float = 2; static c: char = 3; static d: bool = 4; \
         static e: Pair<int bool> = 5; static f: (int, bool) = 6; static g: Name = 7;",
    )
    .unwrap();
    let ty = |i: usize| -> &TypeLiteral {
        match &program.declarations[i] {
            Declaration::StaticVariable(s) => s.type_annotation.as_ref().unwrap(),
            other => panic!("expected a static variable, got {:?}", other),
        }
    };
    assert_eq!(*ty(0), TypeLiteral::IntType);
    assert_eq!(*ty(1), TypeLiteral::FloatType);
    assert_eq!(*ty(2), TypeLiteral::CharType);
    assert_eq!(*ty(3), TypeLiteral::BoolType);
    assert_eq!(
        *ty(4),
        TypeLiteral::CustomType {
            name: "Pair".to_string(),
            type_args: vec![TypeLiteral::IntType, TypeLiteral::BoolType],
        }
    );
    assert_eq!(
        *ty(5),
        TypeLiteral::TupleType { inner: vec![TypeLiteral::IntType, TypeLiteral::BoolType] }
    );
    assert_eq!(*ty(6), TypeLiteral::CustomType { name: "Name".to_string(), type_args: vec![] });
}

#[test]
fn pattern_alternatives() {
    let program = parse_source(
        "fn f() { let x = 1; let _ = 2; let (a, b) = 3; let p::q = 4; let Some(v) = 5; let 7 = 6; }",
    )
    .unwrap();
    match &program.declarations[0] {
        Declaration::Function(f) => {
            let pat = |i: usize| -> &Pattern {
                match &f.inner[i] {
                    Statement::VariableDeclaration { binding, .. } => binding,
                    other => panic!("expected a variable declaration, got {:?}", other),
                }
            };
            assert_eq!(*pat(0), Pattern::Identifier("x".to_string()));
            assert_eq!(*pat(1), Pattern::Wildcard);
            assert_eq!(
                *pat(2),
                Pattern::Tuple(vec![
                    Pattern::Identifier("a".to_string()),
                    Pattern::Identifier("b".to_string()),
                ])
            );
            assert_eq!(*pat(3), Pattern::Struct(vec!["p".to_string(), "q".to_string()]));
            assert_eq!(
                *pat(4),
                Pattern::Enum(
                    vec!["Some".to_string()],
                    vec![Pattern::Identifier("v".to_string())],
                )
            );
            assert_eq!(*pat(5), Pattern::Literal(Literal::Integer(7)));
        }
        other => panic!("expected a function, got {:?}", other),
    }
}

#[test]
fn string_and_bool_literals_in_expressions() {
    let program = parse_source("static s = \"hi\"; static t = true; static u = false;").unwrap();
    let val = |i: usize| -> &Expression {
        match &program.declarations[i] {
            Declaration::StaticVariable(s) => &s.value,
            other => panic!("expected a static variable, got {:?}", other),
        }
    };
    assert_eq!(*val(0), Expression::Literal(Literal::Str("hi".to_string())));
    assert_eq!(*val(1), Expression::Literal(Literal::Bool(true)));
    assert_eq!(*val(2), Expression::Literal(Literal::Bool(false)));
}
