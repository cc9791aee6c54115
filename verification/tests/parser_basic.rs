//! Parsing scenarios: operator precedence, the static-variable and function
//! declarations, and the shapes each statement and expression form takes.

use minilang::ast::BinaryOperator;
use minilang::ast::Declaration;
use minilang::ast::Expression;
use minilang::ast::Literal;
use minilang::ast::Pattern;
use minilang::ast::Program;
use minilang::ast::Statement;
use minilang::ast::StaticVariableDeclaration;
use minilang::ast::TypeLiteral;
use minilang::ast::UnaryOperator;
use minilang::parser::ParseErr;
use minilang::parser::Parser;
use minilang::tokenize::Tokenizer;

fn parse_source(source: &str) -> Result<Program, ParseErr> {
    let tokens = Tokenizer::new(source).tokenize().unwrap();
    Parser::new(tokens).parse()
}

fn parse_expr(source: &str) -> Expression {
    let tokens = Tokenizer::new(source).tokenize().unwrap();
    Parser::new(tokens).parse_expression().unwrap()
}

fn num(v: u64) -> Expression {
    Expression::Literal(Literal::Integer(v))
}

fn binop(l: Expression, op: BinaryOperator, r: Expression) -> Expression {
    Expression::BinaryOp(Box::new(l), op, Box::new(r))
}

#[test]
fn multiplication_binds_tighter_than_addition() {
    // "10 + 23 * 2" parses with multiplication under the addition
    assert_eq!(
        parse_expr("10 + 23 * 2"),
        binop(num(10), BinaryOperator::Plus, binop(num(23), BinaryOperator::Multiply, num(2)))
    );
}

#[test]
fn binary_operators_are_left_associative() {
    assert_eq!(
        parse_expr("1 - 2 - 3"),
        binop(binop(num(1), BinaryOperator::Minus, num(2)), BinaryOperator::Minus, num(3))
    );
    assert_eq!(
        parse_expr("8 / 4 / 2"),
        binop(binop(num(8), BinaryOperator::Divide, num(4)), BinaryOperator::Divide, num(2))
    );
}

#[test]
fn unary_minus_binds_tighter_than_binary() {
    assert_eq!(
        parse_expr("-2 * 3"),
        binop(
            Expression::UnaryOp(UnaryOperator::Minus, Box::new(num(2))),
            BinaryOperator::Multiply,
            num(3)
        )
    );
}

#[test]
fn parentheses_override_precedence() {
    assert_eq!(
        parse_expr("(10 + 23) * 2"),
        binop(binop(num(10), BinaryOperator::Plus, num(23)), BinaryOperator::Multiply, num(2))
    );
}

#[test]
fn static_variable_declaration() {
    // "static X: int = 1;" is one StaticVariable declaration
    let program = parse_source("static X: int = 1;").unwrap();
    assert_eq!(
        program,
        Program {
            declarations: vec![Declaration::StaticVariable(StaticVariableDeclaration {
                is_pub: false,
                name: "X".to_string(),
                type_annotation: Some(TypeLiteral::IntType),
                value: num(1),
            })],
        }
    );
}

#[test]
fn pub_static_variable_declaration() {
    let program = parse_source("pub static X = 2;").unwrap();
    assert_eq!(
        program,
        Program {
            declarations: vec![Declaration::StaticVariable(StaticVariableDeclaration {
                is_pub: true,
                name: "X".to_string(),
                type_annotation: None,
                value: num(2),
            })],
        }
    );
}

#[test]
fn function_declaration() {
    // "fn add(a: int, b: int): int { a + b; }" is one Function declaration
    let program = parse_source("fn add(a: int, b: int): int { a + b; }").unwrap();
    assert_eq!(program.declarations.len(), 1);
    match &program.declarations[0] {
        Declaration::Function(f) => {
            assert!(!f.is_pub);
            assert_eq!(f.signature.name, "add");
            assert_eq!(
                f.signature.parameters,
                vec![
                    (Pattern::Identifier("a".to_string()), TypeLiteral::IntType),
                    (Pattern::Identifier("b".to_string()), TypeLiteral::IntType),
                ]
            );
            assert_eq!(f.signature.return_type, Some(TypeLiteral::IntType));
            assert_eq!(
                f.inner,
                vec![Statement::ExpressionStatement(binop(
                    Expression::IdentifierRef(vec!["a".to_string()]),
                    BinaryOperator::Plus,
                    Expression::IdentifierRef(vec!["b".to_string()]),
                ))]
            );
        }
        other => panic!("expected a function declaration, got {:?}", other),
    }
}

#[test]
fn statement_dispatch() {
    let program = parse_source(
        "fn f(): int {\
           let x: int = 1;\
           const y = 2;\
           x = 3;\
           util.log(x, y);\
           for p in x { x = 4; }\
           while x { x = 5; }\
           x + y;\
         }",
    )
    .unwrap();
    match &program.declarations[0] {
        Declaration::Function(f) => {
            assert_eq!(f.inner.len(), 7);
            assert!(matches!(&f.inner[0], Statement::VariableDeclaration { is_const: false, .. }));
            assert!(matches!(&f.inner[1], Statement::VariableDeclaration { is_const: true, .. }));
            assert_eq!(
                f.inner[2],
                Statement::Assignment { target: vec!["x".to_string()], value: num(3) }
            );
            assert_eq!(
                f.inner[3],
                Statement::CallStatement {
                    target: vec!["util".to_string(), "log".to_string()],
                    arguments: vec![
                        Expression::IdentifierRef(vec!["x".to_string()]),
                        Expression::IdentifierRef(vec!["y".to_string()]),
                    ],
                }
            );
            assert!(matches!(&f.inner[4], Statement::ForLoop { .. }));
            assert!(matches!(&f.inner[5], Statement::WhileLoop { .. }));
            assert!(matches!(&f.inner[6], Statement::ExpressionStatement(_)));
        }
        other => panic!("expected a function declaration, got {:?}", other),
    }
}

#[test]
fn if_else_chain_expression() {
    let e = parse_expr("if x { 1; } else if y { 2; } else { 3; }");
    match e {
        Expression::If { condition, then_body, else_body } => {
            assert_eq!(*condition, Expression::IdentifierRef(vec!["x".to_string()]));
            assert_eq!(then_body, vec![Statement::ExpressionStatement(num(1))]);
            assert!(matches!(*else_body.unwrap(), Expression::If { .. }));
        }
        other => panic!("expected an if-expression, got {:?}", other),
    }
}

#[test]
fn match_expression_with_arms() {
    let e = parse_expr("match x { 1 => 10, _ => 0, }");
    match e {
        Expression::Match { scrutinee, arms } => {
            assert_eq!(*scrutinee, Expression::IdentifierRef(vec!["x".to_string()]));
            assert_eq!(
                arms,
                vec![
                    (Pattern::Literal(Literal::Integer(1)), num(10)),
                    (Pattern::Wildcard, num(0)),
                ]
            );
        }
        other => panic!("expected a match-expression, got {:?}", other),
    }
}

#[test]
fn match_expression_zero_arms_is_legal() {
    let e = parse_expr("match x { }");
    assert!(matches!(e, Expression::Match { .. }));
}

#[test]
fn block_expression_and_function_call() {
    // inside a block a leading path before `(` is a call statement, while in
    // expression position the same shape is a function-call expression
    let e = parse_expr("{ f(1, 2); }");
    assert_eq!(
        e,
        Expression::Block(vec![Statement::CallStatement {
            target: vec!["f".to_string()],
            arguments: vec![num(1), num(2)],
        }])
    );
    assert_eq!(
        parse_expr("1 + f(2)"),
        binop(
            num(1),
            BinaryOperator::Plus,
            Expression::FunctionCall(vec!["f".to_string()], vec![num(2)]),
        )
    );
}
