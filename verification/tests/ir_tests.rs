use spl::ast::{
    AssignmentStatement, BinaryOperation, BinaryOperationType, Block, Expression, LetStatement,
    Literal, Statement,
};
use spl::codegen::spill_extra_virtual_registers;
use spl::interp::interpret;
use spl::ir::{
    IRImmediateStatement, IRRegisterStatement, IRStatement, Register, IR,
};
use spl::irgen::get_ir;
use spl::parser::Parser;
use spl::syntax_error::SyntaxError;

fn compile(source: &str) -> IR {
    let mut parser = Parser::new(source);
    let program = parser.get_ast().unwrap().unwrap();
    get_ir(&program).unwrap()
}

fn li(rd: u32, imm: u64) -> IRStatement {
    IRStatement::LoadImmediate(IRImmediateStatement {
        rd: Register(rd),
        imm,
    })
}

fn three(rd: u32, rs1: u32, rs2: u32) -> IRRegisterStatement {
    IRRegisterStatement {
        rd: Register(rd),
        rs1: Register(rs1),
        rs2: Register(rs2),
    }
}

#[test]
fn test_get_ir() {
    let stmt = Statement::LetStatement(LetStatement {
        identifier: "x".to_string(),
        mutable: true,
        expression: Some(Expression::BinaryOperation(BinaryOperation {
            operation_type: BinaryOperationType::Add,
            left_expression: Box::new(Expression::Literal(Literal::IntegerLiteral(1))),
            right_expression: Box::new(Expression::Literal(Literal::IntegerLiteral(2))),
        })),
    });
    let program = Block {
        statements: vec![stmt],
    };
    let ir = get_ir(&program).unwrap();
    assert_eq!(
        ir,
        IR {
            statements: vec![li(1, 1), li(2, 2), IRStatement::Add(three(3, 1, 2))],
        }
    );
}

// An assignment to a variable no `let` declared is an error, so the same
// tree with an assignment in place of the `let` does not lower.
#[test]
fn mod_test_get_ir() {
    let stmt = Statement::Assignment(AssignmentStatement {
        identifier: "x".to_string(),
        expression: Expression::BinaryOperation(BinaryOperation {
            operation_type: BinaryOperationType::Add,
            left_expression: Box::new(Expression::Literal(Literal::IntegerLiteral(1))),
            right_expression: Box::new(Expression::Literal(Literal::IntegerLiteral(2))),
        }),
    });
    let program = Block {
        statements: vec![stmt],
    };
    assert_eq!(
        get_ir(&program).unwrap_err(),
        SyntaxError::AssignedUndeclaredVariable
    );
}

#[test]
fn ir_test_get_ir() {
    let stmt = Statement::Assignment(AssignmentStatement {
        identifier: "x".to_string(),
        expression: Expression::BinaryOperation(BinaryOperation {
            operation_type: BinaryOperationType::Add,
            left_expression: Box::new(Expression::Literal(Literal::IntegerLiteral(1))),
            right_expression: Box::new(Expression::Literal(Literal::IntegerLiteral(2))),
        }),
    });
    let program = Block {
        statements: vec![stmt],
    };
    assert_eq!(
        get_ir(&program).unwrap_err(),
        SyntaxError::AssignedUndeclaredVariable
    );
}

#[test]
fn test_get_ir_simple_if() {
    let ir = compile("if (10 + 20 - 30 | 40 & 50 ^ 60 << 70 >> 80) {};");
    assert!(!ir.statements.is_empty());
}

#[test]
fn mod_test_get_ir_simple_if() {
    let ir = compile("if (10 + 20 - 30 | 40 & 50 ^ 60 << 70 >> 80) {};");
    assert!(!ir.statements.is_empty());
}

#[test]
fn ir_test_get_ir_simple_if() {
    let ir = compile("if (10 + 20 - 30 | 40 & 50 ^ 60 << 70 >> 80) {};");
    assert!(!ir.statements.is_empty());
}

#[test]
fn test_get_ir_simple_loop() {
    let ir = compile("loop { if 1 + 1 { break; }; };");
    assert!(!ir.statements.is_empty());
}

#[test]
fn mod_test_get_ir_simple_loop() {
    let ir = compile("loop { if 1 + 1 { break; }; };");
    assert!(!ir.statements.is_empty());
}

#[test]
fn ir_test_get_ir_simple_loop() {
    let ir = compile("loop { if 1 + 1 { break; }; };");
    assert!(!ir.statements.is_empty());
}

#[test]
fn test_get_ir_branched_assignment() {
    let ir = compile("let x; if 1 { x = 1; } else { x = 2; };");
    assert!(!ir.statements.is_empty());
}

#[test]
fn mod_test_get_ir_branched_assignment() {
    let ir = compile("let x; if 1 { x = 1; } else { x = 2; };");
    assert!(!ir.statements.is_empty());
}

#[test]
fn ir_test_get_ir_branched_assignment() {
    let ir = compile("let x; if 1 { x = 1; } else { x = 2; };");
    assert!(!ir.statements.is_empty());
}

// Empty program: empty syntax tree, empty program, no output.
#[test]
fn test_empty_program_empty_ir_no_output() {
    let mut parser = Parser::new("");
    let program = parser.get_ast().unwrap().unwrap();
    assert!(program.statements.is_empty());
    let ir = get_ir(&program).unwrap();
    assert!(ir.statements.is_empty());
    let (output, last) = interpret(&ir, 1000).unwrap();
    assert!(output.is_empty());
    assert_eq!(last, 0);
}

// `let x = 1 + 2 * 3;` — `*` binds tighter than `+`.
#[test]
fn test_precedence_lowering() {
    let ir = compile("let x = 1 + 2 * 3;");
    assert_eq!(
        ir,
        IR {
            statements: vec![
                li(1, 1),
                li(2, 2),
                li(3, 3),
                IRStatement::Multiply(three(4, 2, 3)),
                IRStatement::Add(three(5, 1, 4)),
            ],
        }
    );
    let (_, last) = interpret(&ir, 1000).unwrap();
    assert_eq!(last, 7);
}

// Unary minus keeps the load-zero-and-subtract structure even for the
// largest literal.
#[test]
fn test_unary_minus_structure() {
    let ir = compile("let x = -18446744073709551615;");
    assert_eq!(
        ir,
        IR {
            statements: vec![
                li(1, 18446744073709551615),
                li(2, 0),
                IRStatement::Subtract(three(3, 2, 1)),
            ],
        }
    );
}

#[test]
fn test_interpret_if_else() {
    let ir = compile("if 1 { print(2); } else { print(3); };");
    let (output, _) = interpret(&ir, 10000).unwrap();
    assert_eq!(output, vec![2]);
}

#[test]
fn test_interpret_while() {
    let ir = compile("let mut i = 0; while i < 3 { print(i); i = i + 1; };");
    let (output, _) = interpret(&ir, 100000).unwrap();
    assert_eq!(output, vec![0, 1, 2]);
}

#[test]
fn test_interpret_loop_break_halts() {
    let ir = compile("loop { if 1 { break; }; };");
    let (output, _) = interpret(&ir, 100000).unwrap();
    assert!(output.is_empty());
}

#[test]
fn test_assign_undeclared_is_an_error() {
    let mut parser = Parser::new("a = 1;");
    let program = parser.get_ast().unwrap().unwrap();
    assert_eq!(
        get_ir(&program).unwrap_err(),
        SyntaxError::AssignedUndeclaredVariable
    );
}

// Allocation with eight physical registers: every operand ends up below
// eight, and the program still computes the same values.
#[test]
fn test_spill_extra_virtual_registers() {
    let mut ir = compile("let a = (1 + 2); let b = (3 + 4); let c = a + b; print(c);");
    let (before_out, before_last) = interpret(&ir, 10000).unwrap();
    assert_eq!(before_out, vec![10]);
    assert_eq!(before_last, 10);
    spill_extra_virtual_registers(&mut ir, 8).unwrap();
    for statement in &ir.statements {
        if let IRStatement::Add(o) = statement {
            assert!(o.rd.0 < 8 && o.rs1.0 < 8 && o.rs2.0 < 8);
        }
        if let IRStatement::LoadImmediate(o) = statement {
            assert!(o.rd.0 < 8);
        }
    }
    let (after_out, after_last) = interpret(&ir, 10000).unwrap();
    assert_eq!(after_out, vec![10]);
    assert_eq!(after_last, 10);
}

// Interpreting the program before and after allocation gives the same
// output.
#[test]
fn test_interpret_agrees_after_allocation() {
    let mut ir = compile("let mut i = 0; while i < 3 { print(i); i = i + 1; };");
    let (before, _) = interpret(&ir, 100000).unwrap();
    spill_extra_virtual_registers(&mut ir, 8).unwrap();
    let (after, _) = interpret(&ir, 100000).unwrap();
    assert_eq!(before, after);
}

// The step budget: too little fuel means no verdict.
#[test]
fn test_interpret_step_budget() {
    let ir = compile("let mut i = 0; while i < 3 { i = i + 1; };");
    assert!(interpret(&ir, 2).is_none());
}

#[test]
fn test_break_outside_loop_is_an_error() {
    let mut parser = Parser::new("break;");
    let program = parser.get_ast().unwrap().unwrap();
    assert_eq!(
        get_ir(&program).unwrap_err(),
        SyntaxError::BreakStatementOutsideLoop
    );
}

#[test]
fn test_continue_outside_loop_is_an_error() {
    let mut parser = Parser::new("continue;");
    let program = parser.get_ast().unwrap().unwrap();
    assert_eq!(
        get_ir(&program).unwrap_err(),
        SyntaxError::ContinueStatementOutsideLoop
    );
}

#[test]
fn test_undefined_reference_is_an_error() {
    let mut parser = Parser::new("let x = y + 1;");
    let program = parser.get_ast().unwrap().unwrap();
    assert_eq!(get_ir(&program).unwrap_err(), SyntaxError::UndefinedReference);
}

// Shadowing: the inner `let x` wins inside its block, and the outer
// binding is visible again after the block exits.
#[test]
fn test_inner_let_shadows_until_block_exits() {
    let ir = compile(
        "let x = 1; if 1 { let x = 2; print(x); }; print(x);",
    );
    let (output, _) = interpret(&ir, 10000).unwrap();
    assert_eq!(output, vec![2, 1]);
}

// Compound assignment desugars to the operation on the old value.
#[test]
fn test_compound_assignment() {
    let ir = compile("let mut x = 6; x += 4; print(x);");
    let (output, _) = interpret(&ir, 10000).unwrap();
    assert_eq!(output, vec![10]);
}

// Before allocation every destination register is written exactly once —
// for programs without assignment statements, whose lowering reuses a
// variable's register.
#[test]
fn test_registers_written_once_without_assignments() {
    let ir = compile("let x = 1 + 2 * 3; print(x); let y = x + 1;");
    assert!(spl::irgen::check_registers_written_once(&ir.statements));
}

#[test]
fn test_assignment_breaks_single_write() {
    let ir = compile("let mut x = 1; x = 2;");
    assert!(!spl::irgen::check_registers_written_once(&ir.statements));
}
