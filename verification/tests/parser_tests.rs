use spl::ast::{BinaryOperation, BinaryOperationType, Expression, UnaryOperation, UnaryOperationType};
use spl::parser::Parser;

#[test]
fn test_get_next_expression() {
    let mut p = Parser::new("a + b * c + (-d)");
    let e = p.get_next_expression().unwrap().unwrap();

    let a = Expression::Identifier("a".to_string());
    let b = Expression::Identifier("b".to_string());
    let c = Expression::Identifier("c".to_string());
    let d = Expression::Identifier("d".to_string());
    let minus_d = Expression::UnaryOperation(UnaryOperation {
        operation_type: UnaryOperationType::Minus,
        expression: Box::new(d),
    });
    let b_times_c = Expression::BinaryOperation(BinaryOperation {
        operation_type: BinaryOperationType::Multiply,
        left_expression: Box::new(b),
        right_expression: Box::new(c),
    });
    let a_plus_b_times_c = Expression::BinaryOperation(BinaryOperation {
        operation_type: BinaryOperationType::Add,
        left_expression: Box::new(a),
        right_expression: Box::new(b_times_c),
    });
    let a_plus_b_times_c_plus_minus_d = Expression::BinaryOperation(BinaryOperation {
        operation_type: BinaryOperationType::Add,
        left_expression: Box::new(a_plus_b_times_c),
        right_expression: Box::new(minus_d),
    });

    assert_eq!(e, a_plus_b_times_c_plus_minus_d);
}

#[test]
fn test_parse_empty_program_is_empty_block() {
    let mut p = Parser::new("");
    let program = p.get_ast().unwrap().unwrap();
    assert_eq!(program.statements.len(), 0);
}

#[test]
fn test_parse_statement_without_semicolon_is_an_error() {
    let mut p = Parser::new("let x = 1");
    assert!(p.get_ast().is_err());
}

#[test]
fn test_parse_residual_token_is_an_error() {
    let mut p = Parser::new("let x = 1; }");
    assert!(p.get_ast().is_err());
}
