//! The parser: recursive descent over statements and blocks, precedence
//! climbing for expressions.  Speculation works by saving the lexer position
//! and restoring it when a tentative match fails.
//!
//! Every production is specified against a functional model (`sp_get_ast`
//! and the `sp_` functions below), so parsing is a pure function of the
//! input text: the same input always yields the same tree.

use crate::ast::AssignmentStatement;
use crate::ast::BinaryOperation;
use crate::ast::BinaryOperationType;
use crate::ast::Block;
use crate::ast::BlockView;
use crate::ast::BreakStatement;
use crate::ast::ConditionWithBlock;
use crate::ast::ConditionWithBlockView;
use crate::ast::ContinueStatement;
use crate::ast::Expression;
use crate::ast::ExpressionView;
use crate::ast::FunctionCall;
use crate::ast::IfStatement;
use crate::ast::LetStatement;
use crate::ast::Literal;
use crate::ast::LiteralView;
use crate::ast::LoopStatement;
use crate::ast::Statement;
use crate::ast::StatementView;
use crate::ast::UnaryOperation;
use crate::ast::UnaryOperationType;
use crate::ast::WhileStatement;
use crate::lexer::advance;
use crate::lexer::lex_all;
use crate::lexer::next_token_at;
use crate::lexer::skip_ws;
use crate::lexer::Lexer;
use crate::lexer::SimpleToken;
use crate::lexer::Token;
use crate::lexer::TokenView;
use crate::syntax_error::SyntaxError;
use vstd::prelude::*;

verus! {

/// The unary operator denoted by a token, if any.
pub open spec fn spec_unop_of(t: TokenView) -> Option<UnaryOperationType> {
    match t {
        TokenView::SimpleToken(SimpleToken::LogicalNot) => Some(UnaryOperationType::LogicalNot),
        TokenView::SimpleToken(SimpleToken::BitwiseNot) => Some(UnaryOperationType::BitwiseNot),
        TokenView::SimpleToken(SimpleToken::Add) => Some(UnaryOperationType::Plus),
        TokenView::SimpleToken(SimpleToken::Subtract) => Some(UnaryOperationType::Minus),
        _ => None,
    }
}

/// The binary operator denoted by a token, if any.
pub open spec fn spec_binop_of(t: TokenView) -> Option<BinaryOperationType> {
    match t {
        TokenView::SimpleToken(SimpleToken::Add) => Some(BinaryOperationType::Add),
        TokenView::SimpleToken(SimpleToken::Subtract) => Some(BinaryOperationType::Subtract),
        TokenView::SimpleToken(SimpleToken::Multiply) => Some(BinaryOperationType::Multiply),
        TokenView::SimpleToken(SimpleToken::Divide) => Some(BinaryOperationType::Divide),
        TokenView::SimpleToken(SimpleToken::Modulus) => Some(BinaryOperationType::Modulus),
        TokenView::SimpleToken(SimpleToken::Exponentiate) => Some(
            BinaryOperationType::Exponentiate,
        ),
        TokenView::SimpleToken(SimpleToken::Equal) => Some(BinaryOperationType::Equal),
        TokenView::SimpleToken(SimpleToken::NotEqual) => Some(BinaryOperationType::NotEqual),
        TokenView::SimpleToken(SimpleToken::GreaterEqual) => Some(
            BinaryOperationType::GreaterEqual,
        ),
        TokenView::SimpleToken(SimpleToken::LessEqual) => Some(BinaryOperationType::LessEqual),
        TokenView::SimpleToken(SimpleToken::Greater) => Some(BinaryOperationType::Greater),
        TokenView::SimpleToken(SimpleToken::Less) => Some(BinaryOperationType::Less),
        TokenView::SimpleToken(SimpleToken::LogicalAnd) => Some(BinaryOperationType::LogicalAnd),
        TokenView::SimpleToken(SimpleToken::LogicalOr) => Some(BinaryOperationType::LogicalOr),
        TokenView::SimpleToken(SimpleToken::BitwiseAnd) => Some(BinaryOperationType::BitwiseAnd),
        TokenView::SimpleToken(SimpleToken::BitwiseOr) => Some(BinaryOperationType::BitwiseOr),
        TokenView::SimpleToken(SimpleToken::BitwiseXor) => Some(BinaryOperationType::BitwiseXor),
        TokenView::SimpleToken(SimpleToken::LeftShift) => Some(BinaryOperationType::LeftShift),
        TokenView::SimpleToken(SimpleToken::RightShift) => Some(BinaryOperationType::RightShift),
        _ => None,
    }
}

/// The operation a compound assignment token desugars to, if any;
/// `None` for the plain `=`.
pub open spec fn spec_compound_of(t: SimpleToken) -> Option<BinaryOperationType> {
    match t {
        SimpleToken::ExponentiationAssignment => Some(BinaryOperationType::Exponentiate),
        SimpleToken::AdditionAssignment => Some(BinaryOperationType::Add),
        SimpleToken::SubtractionAssignment => Some(BinaryOperationType::Subtract),
        SimpleToken::MultiplicationAssignment => Some(BinaryOperationType::Multiply),
        SimpleToken::DivisionAssignment => Some(BinaryOperationType::Divide),
        SimpleToken::ModulusAssignment => Some(BinaryOperationType::Modulus),
        SimpleToken::BitwiseAndAssignment => Some(BinaryOperationType::BitwiseAnd),
        SimpleToken::BitwiseOrAssignment => Some(BinaryOperationType::BitwiseOr),
        SimpleToken::BitwiseXorAssignment => Some(BinaryOperationType::BitwiseXor),
        SimpleToken::LeftShiftAssignment => Some(BinaryOperationType::LeftShift),
        SimpleToken::RightShiftAssignment => Some(BinaryOperationType::RightShift),
        _ => None,
    }
}

/// Operator precedence, lowest first; all operators group to the left.
pub open spec fn spec_precedence(op: BinaryOperationType) -> u32 {
    match op {
        BinaryOperationType::Exponentiate => 10,
        BinaryOperationType::Multiply => 9,
        BinaryOperationType::Divide => 9,
        BinaryOperationType::Modulus => 9,
        BinaryOperationType::Add => 8,
        BinaryOperationType::Subtract => 8,
        BinaryOperationType::LeftShift => 7,
        BinaryOperationType::RightShift => 7,
        BinaryOperationType::Greater => 6,
        BinaryOperationType::Less => 6,
        BinaryOperationType::GreaterEqual => 6,
        BinaryOperationType::LessEqual => 6,
        BinaryOperationType::Equal => 5,
        BinaryOperationType::NotEqual => 5,
        BinaryOperationType::BitwiseAnd => 4,
        BinaryOperationType::BitwiseXor => 3,
        BinaryOperationType::BitwiseOr => 2,
        BinaryOperationType::LogicalAnd => 1,
        BinaryOperationType::LogicalOr => 0,
    }
}

// ---------------------------------------------------------------------------
// The grammar as functions of the text
//
// Each `sp_` function reads from position `pos` and yields the parsed view
// with the position just after it; `Ok(None)` means the production does not
// start here and nothing is consumed.  The `advance` clamp on every position
// handed onward is the identity for the lexer's actual positions, which
// always move forward; it only serves to make the recursion well-founded.
// ---------------------------------------------------------------------------

/// A `;` token, consumed if present.
pub open spec fn sp_consume_semicolon(s: Seq<char>, pos: int) -> Result<Option<int>, SyntaxError> {
    match next_token_at(s, pos) {
        Err(e) => Err(e),
        Ok(None) => Ok(None),
        Ok(Some((t, q))) => match t {
            TokenView::SimpleToken(SimpleToken::Semicolon) => Ok(Some(q)),
            _ => Ok(None),
        },
    }
}

/// `(` expression `)`.
pub open spec fn sp_parens(s: Seq<char>, pos: int) -> Result<
    Option<(ExpressionView, int)>,
    SyntaxError,
>
    decreases s.len() - pos, 20int, 0int,
{
    match next_token_at(s, pos) {
        Err(e) => Err(e),
        Ok(None) => Ok(None),
        Ok(Some((t, q))) => match t {
            TokenView::SimpleToken(SimpleToken::LParen) => match sp_expression(
                s,
                advance(pos, q, s.len() as int),
            ) {
                Err(e) => Err(e),
                Ok(None) => Err(SyntaxError::NoExpressionAfterLParen),
                Ok(Some((e, q2))) => match next_token_at(s, q2) {
                    Err(err) => Err(err),
                    Ok(None) => Err(SyntaxError::UnmatchedParen),
                    Ok(Some((t2, q3))) => match t2 {
                        TokenView::SimpleToken(SimpleToken::RParen) => Ok(Some((e, q3))),
                        _ => Err(SyntaxError::UnmatchedParen),
                    },
                },
            },
            _ => Ok(None),
        },
    }
}

/// An identifier, a literal, or `name ( expression )` — a call of a
/// built-in function.
pub open spec fn sp_unit(s: Seq<char>, pos: int) -> Result<
    Option<(ExpressionView, int)>,
    SyntaxError,
>
    decreases s.len() - pos, 20int, 0int,
{
    match next_token_at(s, pos) {
        Err(e) => Err(e),
        Ok(None) => Ok(None),
        Ok(Some((t, q))) => match t {
            TokenView::Identifier(w) => match next_token_at(s, q) {
                Err(e) => Err(e),
                Ok(Some((t2, q2))) => match t2 {
                    TokenView::SimpleToken(SimpleToken::LParen) => match sp_expression(
                        s,
                        advance(pos, q2, s.len() as int),
                    ) {
                        Err(e) => Err(e),
                        Ok(None) => Err(SyntaxError::NoExpressionAfterLParen),
                        Ok(Some((arg, q3))) => match next_token_at(s, q3) {
                            Err(e) => Err(e),
                            Ok(None) => Err(SyntaxError::UnmatchedParen),
                            Ok(Some((t3, q4))) => match t3 {
                                TokenView::SimpleToken(SimpleToken::RParen) => Ok(
                                    Some(
                                        (ExpressionView::FunctionCall(w, Box::new(arg)), q4),
                                    ),
                                ),
                                _ => Err(SyntaxError::UnmatchedParen),
                            },
                        },
                    },
                    _ => Ok(Some((ExpressionView::Identifier(w), q))),
                },
                Ok(None) => Ok(Some((ExpressionView::Identifier(w), q))),
            },
            TokenView::IntegerLiteral(n) => Ok(
                Some((ExpressionView::Literal(LiteralView::IntegerLiteral(n)), q)),
            ),
            TokenView::StringLiteral(w) => Ok(
                Some((ExpressionView::Literal(LiteralView::StringLiteral(w)), q)),
            ),
            _ => Ok(None),
        },
    }
}

/// A unary operator applied to a primary.
pub open spec fn sp_unary(s: Seq<char>, pos: int) -> Result<
    Option<(ExpressionView, int)>,
    SyntaxError,
>
    decreases s.len() - pos, 20int, 0int,
{
    match next_token_at(s, pos) {
        Err(e) => Err(e),
        Ok(None) => Ok(None),
        Ok(Some((t, q))) => match spec_unop_of(t) {
            None => Ok(None),
            Some(op) => match sp_primary(s, advance(pos, q, s.len() as int)) {
                Err(e) => Err(e),
                Ok(None) => Err(SyntaxError::NoExpressionAfterUnaryOperator),
                Ok(Some((e, q2))) => Ok(
                    Some((ExpressionView::UnaryOperation(op, Box::new(e)), q2)),
                ),
            },
        },
    }
}

/// A primary: a parenthesised expression, a unit, or a unary operation.
pub open spec fn sp_primary(s: Seq<char>, pos: int) -> Result<
    Option<(ExpressionView, int)>,
    SyntaxError,
>
    decreases s.len() - pos, 30int, 0int,
{
    match sp_parens(s, pos) {
        Err(e) => Err(e),
        Ok(Some(r)) => Ok(Some(r)),
        Ok(None) => match sp_unit(s, pos) {
            Err(e) => Err(e),
            Ok(Some(r)) => Ok(Some(r)),
            Ok(None) => match sp_unary(s, pos) {
                Err(e) => Err(e),
                Ok(Some(r)) => Ok(Some(r)),
                Ok(None) => Ok(None),
            },
        },
    }
}

/// Precedence climbing from `lhs`: while an operator of precedence at least
/// `min_prec` follows, read another primary, greedily fold tighter
/// operators into it, and extend `lhs` to the left.
pub open spec fn sp_expression_1(
    s: Seq<char>,
    pos: int,
    lhs: ExpressionView,
    min_prec: u32,
) -> Result<(ExpressionView, int), SyntaxError>
    decreases s.len() - pos, 40int, 2 * (11 - min_prec) + 1,
{
    match next_token_at(s, pos) {
        Err(e) => Err(e),
        Ok(None) => Ok((lhs, pos)),
        Ok(Some((t, qt))) => match spec_binop_of(t) {
            None => Ok((lhs, pos)),
            Some(op) => {
                let p = spec_precedence(op);
                if !(p >= min_prec) || !(min_prec <= 11) {
                    Ok((lhs, pos))
                } else {
                    match sp_primary(s, advance(pos, qt, s.len() as int)) {
                        Err(e) => Err(e),
                        Ok(None) => Err(SyntaxError::NoExpressionAfterBinaryOperator),
                        Ok(Some((rhs0, qr))) => match sp_expr1_tail(
                            s,
                            advance(pos, qr, s.len() as int),
                            rhs0,
                            p,
                        ) {
                            Err(e) => Err(e),
                            Ok((rhs, qs)) => sp_expression_1(
                                s,
                                advance(pos, qs, s.len() as int),
                                ExpressionView::BinaryOperation(op, Box::new(lhs), Box::new(rhs)),
                                min_prec,
                            ),
                        },
                    }
                }
            },
        },
    }
}

/// The greedy inner fold: while the next operator binds tighter than `p`,
/// climb into the right-hand side at precedence `p + 1`.
pub open spec fn sp_expr1_tail(s: Seq<char>, pos: int, rhs: ExpressionView, p: u32) -> Result<
    (ExpressionView, int),
    SyntaxError,
>
    decreases s.len() - pos, 40int, 2 * (11 - p),
{
    match next_token_at(s, pos) {
        Err(e) => Err(e),
        Ok(None) => Ok((rhs, pos)),
        Ok(Some((t, qt))) => match spec_binop_of(t) {
            None => Ok((rhs, pos)),
            Some(op2) => {
                let p2 = spec_precedence(op2);
                if !(p2 > p) || !(p < 11) {
                    Ok((rhs, pos))
                } else {
                    match sp_expression_1(s, pos, rhs, (p + 1) as u32) {
                        Err(e) => Err(e),
                        Ok((rhs2, q2)) => sp_expr1_tail(
                            s,
                            advance(pos, q2, s.len() as int),
                            rhs2,
                            p,
                        ),
                    }
                }
            },
        },
    }
}

/// An expression: a primary extended by precedence climbing from the lowest
/// precedence.
pub open spec fn sp_expression(s: Seq<char>, pos: int) -> Result<
    Option<(ExpressionView, int)>,
    SyntaxError,
>
    decreases s.len() - pos, 45int, 0int,
{
    if s.len() <= pos {
        // No token can start here; spelled out so the recursion is visibly
        // well-founded.
        Ok(None)
    } else {
        match sp_primary(s, pos) {
        Err(e) => Err(e),
        Ok(None) => Ok(None),
        Ok(Some((e, q))) => match sp_expression_1(s, advance(pos, q, s.len() as int), e, 0) {
            Err(err) => Err(err),
            Ok((e2, q2)) => Ok(Some((e2, q2))),
        },
        }
    }
}

/// `let` `mut`? name (`=` expression)? .
#[verifier::opaque]
pub open spec fn sp_let(s: Seq<char>, pos: int) -> Result<
    Option<(StatementView, int)>,
    SyntaxError,
>
    decreases s.len() - pos, 70int, 0int,
{
    match next_token_at(s, pos) {
        Err(e) => Err(e),
        Ok(None) => Ok(None),
        Ok(Some((t, q1))) => match t {
            TokenView::SimpleToken(SimpleToken::Let) => {
                let p1 = advance(pos, q1, s.len() as int);
                match next_token_at(s, p1) {
                    Err(e) => Err(e),
                    Ok(mt) => {
                        let (mutable, p2) = match mt {
                            Some((t2, q2)) => if t2 == TokenView::SimpleToken(SimpleToken::Mut) {
                                (true, advance(p1, q2, s.len() as int))
                            } else {
                                (false, p1)
                            },
                            None => (false, p1),
                        };
                        match next_token_at(s, p2) {
                            Err(e) => Err(e),
                            Ok(None) => Err(SyntaxError::NoIdentifierInLetStatement),
                            Ok(Some((t3, q3))) => match t3 {
                                TokenView::Identifier(w) => {
                                    let p3 = advance(pos, q3, s.len() as int);
                                    match next_token_at(s, p3) {
                                        Err(e) => Err(e),
                                        Ok(None) => Ok(
                                            Some(
                                                (
                                                    StatementView::Let {
                                                        identifier: w,
                                                        mutable,
                                                        expression: None,
                                                    },
                                                    p3,
                                                ),
                                            ),
                                        ),
                                        Ok(Some((t4, q4))) => if t4 == TokenView::SimpleToken(
                                            SimpleToken::Assignment,
                                        ) {
                                            match sp_expression(
                                                s,
                                                advance(pos, q4, s.len() as int),
                                            ) {
                                                Err(e) => Err(e),
                                                Ok(None) => Err(
                                                    SyntaxError::NoExpressionInLetAssignmentStatement,
                                                ),
                                                Ok(Some((e, p4))) => Ok(
                                                    Some(
                                                        (
                                                            StatementView::Let {
                                                                identifier: w,
                                                                mutable,
                                                                expression: Some(e),
                                                            },
                                                            p4,
                                                        ),
                                                    ),
                                                ),
                                            }
                                        } else {
                                            Ok(
                                                Some(
                                                    (
                                                        StatementView::Let {
                                                            identifier: w,
                                                            mutable,
                                                            expression: None,
                                                        },
                                                        p3,
                                                    ),
                                                ),
                                            )
                                        },
                                    }
                                },
                                _ => Err(SyntaxError::NoIdentifierInLetStatement),
                            },
                        }
                    },
                }
            },
            _ => Ok(None),
        },
    }
}

/// name `=` expression, or a compound assignment `name op= expression`,
/// which desugars to `name = name op expression`.
#[verifier::opaque]
pub open spec fn sp_assignment(s: Seq<char>, pos: int) -> Result<
    Option<(StatementView, int)>,
    SyntaxError,
>
    decreases s.len() - pos, 70int, 0int,
{
    match next_token_at(s, pos) {
        Err(e) => Err(e),
        Ok(None) => Ok(None),
        Ok(Some((t, q1))) => match t {
            TokenView::Identifier(w) => match next_token_at(s, advance(pos, q1, s.len() as int)) {
                Err(e) => Err(e),
                Ok(None) => Ok(None),
                Ok(Some((t2, q2))) => match t2 {
                    TokenView::SimpleToken(st2) => {
                        let compound = spec_compound_of(st2);
                        if st2 != SimpleToken::Assignment && compound is None {
                            Ok(None)
                        } else {
                            match sp_expression(s, advance(pos, q2, s.len() as int)) {
                                Err(e) => Err(e),
                                Ok(None) => Err(SyntaxError::NoExpressionInAssignmentStatement),
                                Ok(Some((e, p))) => {
                                    let rhs = match compound {
                                        None => e,
                                        Some(op) => ExpressionView::BinaryOperation(
                                            op,
                                            Box::new(ExpressionView::Identifier(w)),
                                            Box::new(e),
                                        ),
                                    };
                                    Ok(
                                        Some(
                                            (
                                                StatementView::Assignment {
                                                    identifier: w,
                                                    expression: rhs,
                                                },
                                                p,
                                            ),
                                        ),
                                    )
                                },
                            }
                        }
                    },
                    _ => Ok(None),
                },
            },
            _ => Ok(None),
        },
    }
}

/// `{` statements `}`.
pub open spec fn sp_block(s: Seq<char>, pos: int) -> Result<Option<(BlockView, int)>, SyntaxError>
    decreases s.len() - pos, 50int, 0int,
{
    match next_token_at(s, pos) {
        Err(e) => Err(e),
        Ok(None) => Ok(None),
        Ok(Some((t, q1))) => match t {
            TokenView::SimpleToken(SimpleToken::LBrace) => match sp_statements(
                s,
                advance(pos, q1, s.len() as int),
            ) {
                Err(e) => Err(e),
                Ok((ss, q2)) => match next_token_at(s, q2) {
                    Err(e) => Err(e),
                    Ok(None) => Err(SyntaxError::UnmatchedBrace),
                    Ok(Some((t2, q3))) => match t2 {
                        TokenView::SimpleToken(SimpleToken::RBrace) => Ok(
                            Some((BlockView { statements: ss }, q3)),
                        ),
                        _ => Err(SyntaxError::UnmatchedBrace),
                    },
                },
            },
            _ => Ok(None),
        },
    }
}

/// `if` condition block.
#[verifier::opaque]
pub open spec fn sp_if1(s: Seq<char>, pos: int) -> Result<
    Option<(ConditionWithBlockView, int)>,
    SyntaxError,
>
    decreases s.len() - pos, 60int, 0int,
{
    match next_token_at(s, pos) {
        Err(e) => Err(e),
        Ok(None) => Ok(None),
        Ok(Some((t, q1))) => match t {
            TokenView::SimpleToken(SimpleToken::If) => match sp_expression(
                s,
                advance(pos, q1, s.len() as int),
            ) {
                Err(e) => Err(e),
                Ok(None) => Err(SyntaxError::NoConditionInIfStatement),
                Ok(Some((cond, q2))) => match sp_block(s, advance(pos, q2, s.len() as int)) {
                    Err(e) => Err(e),
                    Ok(None) => Err(SyntaxError::NoBlockInIfStatement),
                    Ok(Some((b, q3))) => Ok(
                        Some((ConditionWithBlockView { condition: cond, block: b }, q3)),
                    ),
                },
            },
            _ => Ok(None),
        },
    }
}

/// `else if` condition block, repeated.
#[verifier::opaque]
pub open spec fn sp_if2(s: Seq<char>, pos: int) -> Result<
    (Seq<ConditionWithBlockView>, int),
    SyntaxError,
>
    decreases s.len() - pos, 60int, 0int,
{
    match next_token_at(s, pos) {
        Err(e) => Err(e),
        Ok(None) => Ok((Seq::empty(), pos)),
        Ok(Some((t, q1))) => match t {
            TokenView::SimpleToken(SimpleToken::Else) => match next_token_at(
                s,
                advance(pos, q1, s.len() as int),
            ) {
                Err(e) => Err(e),
                Ok(None) => Ok((Seq::empty(), pos)),
                Ok(Some((t2, q2))) => match t2 {
                    TokenView::SimpleToken(SimpleToken::If) => match sp_expression(
                        s,
                        advance(pos, q2, s.len() as int),
                    ) {
                        Err(e) => Err(e),
                        Ok(None) => Err(SyntaxError::NoConditionInElseIfStatement),
                        Ok(Some((cond, q3))) => match sp_block(
                            s,
                            advance(pos, q3, s.len() as int),
                        ) {
                            Err(e) => Err(e),
                            Ok(None) => Err(SyntaxError::NoBlockInElseIfStatement),
                            Ok(Some((b, q4))) => match sp_if2(
                                s,
                                advance(pos, q4, s.len() as int),
                            ) {
                                Err(e) => Err(e),
                                Ok((rest, q5)) => Ok(
                                    (
                                        seq![
                                            ConditionWithBlockView {
                                                condition: cond,
                                                block: b,
                                            }
                                        ] + rest,
                                        q5,
                                    ),
                                ),
                            },
                        },
                    },
                    _ => Ok((Seq::empty(), pos)),
                },
            },
            _ => Ok((Seq::empty(), pos)),
        },
    }
}

/// `else` block.
#[verifier::opaque]
pub open spec fn sp_if3(s: Seq<char>, pos: int) -> Result<Option<(BlockView, int)>, SyntaxError>
    decreases s.len() - pos, 60int, 0int,
{
    match next_token_at(s, pos) {
        Err(e) => Err(e),
        Ok(None) => Ok(None),
        Ok(Some((t, q1))) => match t {
            TokenView::SimpleToken(SimpleToken::Else) => match sp_block(
                s,
                advance(pos, q1, s.len() as int),
            ) {
                Err(e) => Err(e),
                Ok(None) => Err(SyntaxError::NoBlockInElseStatement),
                Ok(Some((b, q2))) => Ok(Some((b, q2))),
            },
            _ => Ok(None),
        },
    }
}

/// The whole `if` statement: primary arm, `else if` arms, optional `else`.
#[verifier::opaque]
pub open spec fn sp_if(s: Seq<char>, pos: int) -> Result<
    Option<(StatementView, int)>,
    SyntaxError,
>
    decreases s.len() - pos, 70int, 0int,
{
    if s.len() <= pos {
        // No token can start here; spelled out so the recursion is visibly
        // well-founded.
        Ok(None)
    } else {
        match sp_if1(s, pos) {
        Err(e) => Err(e),
        Ok(None) => Ok(None),
        Ok(Some((primary, q1))) => match sp_if2(s, advance(pos, q1, s.len() as int)) {
            Err(e) => Err(e),
            Ok((arms, q2)) => match sp_if3(s, advance(pos, q2, s.len() as int)) {
                Err(e) => Err(e),
                Ok(None) => Ok(
                    Some((StatementView::If { primary, else_if: arms, _else: None }, q2)),
                ),
                Ok(Some((b, q3))) => Ok(
                    Some((StatementView::If { primary, else_if: arms, _else: Some(b) }, q3)),
                ),
            },
        },
        }
    }
}

/// The keyword `kw` alone, consumed if present.
pub open spec fn sp_keyword(s: Seq<char>, pos: int, kw: SimpleToken) -> Result<
    Option<int>,
    SyntaxError,
> {
    match next_token_at(s, pos) {
        Err(e) => Err(e),
        Ok(None) => Ok(None),
        Ok(Some((t, q))) => if t == TokenView::SimpleToken(kw) {
            Ok(Some(q))
        } else {
            Ok(None)
        },
    }
}

/// `loop` block.
#[verifier::opaque]
pub open spec fn sp_loop(s: Seq<char>, pos: int) -> Result<Option<(BlockView, int)>, SyntaxError>
    decreases s.len() - pos, 70int, 0int,
{
    match sp_keyword(s, pos, SimpleToken::Loop) {
        Err(e) => Err(e),
        Ok(None) => Ok(None),
        Ok(Some(q1)) => match sp_block(s, advance(pos, q1, s.len() as int)) {
            Err(e) => Err(e),
            Ok(None) => Err(SyntaxError::NoBlockInLoopStatement),
            Ok(Some((b, q2))) => Ok(Some((b, q2))),
        },
    }
}

/// `while` condition block.
#[verifier::opaque]
pub open spec fn sp_while(s: Seq<char>, pos: int) -> Result<
    Option<(ExpressionView, BlockView, int)>,
    SyntaxError,
>
    decreases s.len() - pos, 70int, 0int,
{
    match sp_keyword(s, pos, SimpleToken::While) {
        Err(e) => Err(e),
        Ok(None) => Ok(None),
        Ok(Some(q1)) => match sp_expression(s, advance(pos, q1, s.len() as int)) {
            Err(e) => Err(e),
            Ok(None) => Err(SyntaxError::NoConditionInWhileStatement),
            Ok(Some((cond, q2))) => match sp_block(s, advance(pos, q2, s.len() as int)) {
                Err(e) => Err(e),
                Ok(None) => Err(SyntaxError::NoBlockInWhileStatement),
                Ok(Some((b, q3))) => Ok(Some((cond, b, q3))),
            },
        },
    }
}

/// One statement: the forms are tried in order, and a recognised statement
/// must be followed by `;`; a bare `;` is the empty statement.
#[verifier::opaque]
pub open spec fn sp_statement(s: Seq<char>, pos: int) -> Result<
    Option<(StatementView, int)>,
    SyntaxError,
>
    decreases s.len() - pos, 80int, 0int,
{
    let tried: Result<Option<(StatementView, int)>, SyntaxError> = match sp_let(s, pos) {
        Err(e) => Err(e),
        Ok(Some(r)) => Ok(Some(r)),
        Ok(None) => match sp_assignment(s, pos) {
            Err(e) => Err(e),
            Ok(Some(r)) => Ok(Some(r)),
            Ok(None) => match sp_if(s, pos) {
                Err(e) => Err(e),
                Ok(Some(r)) => Ok(Some(r)),
                Ok(None) => match sp_keyword(s, pos, SimpleToken::Break) {
                    Err(e) => Err(e),
                    Ok(Some(q)) => Ok(Some((StatementView::Break, q))),
                    Ok(None) => match sp_keyword(s, pos, SimpleToken::Continue) {
                        Err(e) => Err(e),
                        Ok(Some(q)) => Ok(Some((StatementView::Continue, q))),
                        Ok(None) => match sp_loop(s, pos) {
                            Err(e) => Err(e),
                            Ok(Some((b, q))) => Ok(Some((StatementView::Loop { block: b }, q))),
                            Ok(None) => match sp_while(s, pos) {
                                Err(e) => Err(e),
                                Ok(Some((c, b, q))) => Ok(
                                    Some(
                                        (StatementView::While { condition: c, block: b }, q),
                                    ),
                                ),
                                Ok(None) => match sp_expression(s, pos) {
                                    Err(e) => Err(e),
                                    Ok(Some((e, q))) => Ok(
                                        Some((StatementView::Expression(e), q)),
                                    ),
                                    Ok(None) => Ok(None),
                                },
                            },
                        },
                    },
                },
            },
        },
    };
    match tried {
        Err(e) => Err(e),
        Ok(None) => match sp_consume_semicolon(s, pos) {
            Err(e) => Err(e),
            Ok(None) => Ok(None),
            Ok(Some(q)) => Ok(Some((StatementView::Empty, q))),
        },
        Ok(Some((sv, q))) => match sp_consume_semicolon(s, advance(pos, q, s.len() as int)) {
            Err(e) => Err(e),
            Ok(None) => Err(SyntaxError::StatementWithoutSemicolon),
            Ok(Some(q2)) => Ok(Some((sv, q2))),
        },
    }
}

/// Statements, one after another, until none can be recognised.
pub open spec fn sp_statements(s: Seq<char>, pos: int) -> Result<
    (Seq<StatementView>, int),
    SyntaxError,
>
    decreases s.len() - pos, 90int, 0int,
{
    if s.len() <= pos {
        // No statement can start here; spelled out so the recursion is
        // visibly well-founded.
        match sp_statement(s, pos) {
            Err(e) => Err(e),
            _ => Ok((Seq::empty(), pos)),
        }
    } else {
        match sp_statement(s, pos) {
            Err(e) => Err(e),
            Ok(None) => Ok((Seq::empty(), pos)),
            Ok(Some((sv, q))) => match sp_statements(s, advance(pos, q, s.len() as int)) {
                Err(e) => Err(e),
                Ok((rest, q2)) => Ok((seq![sv] + rest, q2)),
            },
        }
    }
}

/// The whole program: statements until no more can be recognised; any
/// remaining token is an error, so a successful parse has consumed every
/// token of the input.
pub open spec fn sp_get_ast(s: Seq<char>) -> Result<Option<BlockView>, SyntaxError> {
    match sp_statements(s, 0) {
        Err(e) => Err(e),
        Ok((ss, q)) => match next_token_at(s, q) {
            Err(e) => Err(e),
            Ok(Some(_)) => Err(SyntaxError::InvalidToken),
            Ok(None) => Ok(Some(BlockView { statements: ss })),
        },
    }
}

/// Parsing is deterministic: equal inputs yield equal trees.
pub proof fn lemma_parsing_deterministic(s1: Seq<char>, s2: Seq<char>)
    requires
        s1 == s2,
    ensures
        sp_get_ast(s1) == sp_get_ast(s2),
{
}

/// For every well-formed program the parser consumes all tokens: a
/// successful parse ends with no token left in the input, and a residual
/// token makes the parse fail instead.
pub proof fn lemma_parser_consumes_all_tokens(s: Seq<char>)
    ensures
        sp_get_ast(s) matches Ok(Some(b)) ==> exists|q: int|
            sp_statements(s, 0) == Ok::<(Seq<StatementView>, int), SyntaxError>(
                (b.statements, q),
            ) && next_token_at(s, q) == Ok::<Option<(TokenView, int)>, SyntaxError>(None),
        (match sp_statements(s, 0) {
            Ok((ss, q)) => next_token_at(s, q) matches Ok(Some(_)) ==> sp_get_ast(s) == Err::<
                Option<BlockView>,
                SyntaxError,
            >(SyntaxError::InvalidToken),
            Err(_) => true,
        }),
{
    match sp_statements(s, 0) {
        Ok((ss, q)) => {
            match next_token_at(s, q) {
                Ok(None) => {
                    assert(sp_get_ast(s) == Ok::<Option<BlockView>, SyntaxError>(
                        Some(BlockView { statements: ss }),
                    ));
                },
                _ => {},
            }
        },
        Err(_) => {},
    }
}

/// The empty program parses to the empty block.
pub proof fn lemma_empty_program_parses_to_empty_block()
    ensures
        sp_get_ast(Seq::<char>::empty()) == Ok::<Option<BlockView>, SyntaxError>(
            Some(BlockView { statements: Seq::empty() }),
        ),
{
    reveal(sp_statement);
    reveal(sp_let);
    reveal(sp_assignment);
    reveal(sp_if);
    reveal(sp_loop);
    reveal(sp_while);
    let s = Seq::<char>::empty();
    assert(next_token_at(s, 0) == Ok::<Option<(TokenView, int)>, SyntaxError>(None));
    assert(sp_statement(s, 0) == Ok::<Option<(StatementView, int)>, SyntaxError>(None));
    assert(sp_statements(s, 0) == Ok::<(Seq<StatementView>, int), SyntaxError>((Seq::empty(), 0)));
}

// ---------------------------------------------------------------------------
// Position lemmas
// ---------------------------------------------------------------------------

/// Precedence climbing never moves the cursor backwards.
proof fn lemma_sp_expression_1_advances(s: Seq<char>, pos: int, lhs: ExpressionView, min_prec: u32)
    ensures
        sp_expression_1(s, pos, lhs, min_prec) matches Ok((v, q)) ==> q >= pos,
    decreases s.len() - pos, 40int, 2 * (11 - min_prec) + 1,
{
    match next_token_at(s, pos) {
        Err(_) => {},
        Ok(None) => {},
        Ok(Some((t, qt))) => match spec_binop_of(t) {
            None => {},
            Some(op) => {
                let p = spec_precedence(op);
                if p >= min_prec && min_prec <= 11 {
                    match sp_primary(s, advance(pos, qt, s.len() as int)) {
                        Err(_) => {},
                        Ok(None) => {},
                        Ok(Some((rhs0, qr))) => {
                            let pos_t = advance(pos, qr, s.len() as int);
                            lemma_sp_expr1_tail_advances(s, pos_t, rhs0, p);
                            match sp_expr1_tail(s, pos_t, rhs0, p) {
                                Err(_) => {},
                                Ok((rhs, qs)) => {
                                    lemma_sp_expression_1_advances(
                                        s,
                                        advance(pos, qs, s.len() as int),
                                        ExpressionView::BinaryOperation(
                                            op,
                                            Box::new(lhs),
                                            Box::new(rhs),
                                        ),
                                        min_prec,
                                    );
                                },
                            }
                        },
                    }
                }
            },
        },
    }
}

/// The greedy inner fold never moves the cursor backwards.
proof fn lemma_sp_expr1_tail_advances(s: Seq<char>, pos: int, rhs: ExpressionView, p: u32)
    ensures
        sp_expr1_tail(s, pos, rhs, p) matches Ok((v, q)) ==> q >= pos,
    decreases s.len() - pos, 40int, 2 * (11 - p),
{
    match next_token_at(s, pos) {
        Err(_) => {},
        Ok(None) => {},
        Ok(Some((t, qt))) => match spec_binop_of(t) {
            None => {},
            Some(op2) => {
                let p2 = spec_precedence(op2);
                if p2 > p && p < 11 {
                    lemma_sp_expression_1_advances(s, pos, rhs, (p + 1) as u32);
                    match sp_expression_1(s, pos, rhs, (p + 1) as u32) {
                        Err(_) => {},
                        Ok((rhs2, q2)) => {
                            lemma_sp_expr1_tail_advances(
                                s,
                                advance(pos, q2, s.len() as int),
                                rhs2,
                                p,
                            );
                        },
                    }
                }
            },
        },
    }
}

/// Past the end of the text no `if` arm can start.
proof fn lemma_sp_if1_at_end(s: Seq<char>, pos: int)
    requires
        pos >= s.len(),
    ensures
        sp_if1(s, pos) == Ok::<Option<(ConditionWithBlockView, int)>, SyntaxError>(None),
{
    reveal(sp_if1);
}

// ---------------------------------------------------------------------------
// The executable parser
// ---------------------------------------------------------------------------

fn token_to_unary_operation_type(token: &Token) -> (r: Option<UnaryOperationType>)
    ensures
        r == spec_unop_of(token@),
{
    match token {
        Token::SimpleToken(SimpleToken::LogicalNot) => Some(UnaryOperationType::LogicalNot),
        Token::SimpleToken(SimpleToken::BitwiseNot) => Some(UnaryOperationType::BitwiseNot),
        Token::SimpleToken(SimpleToken::Add) => Some(UnaryOperationType::Plus),
        Token::SimpleToken(SimpleToken::Subtract) => Some(UnaryOperationType::Minus),
        _ => None,
    }
}

fn token_to_binary_operation_type(token: &Token) -> (r: Option<BinaryOperationType>)
    ensures
        r == spec_binop_of(token@),
{
    match token {
        Token::SimpleToken(SimpleToken::Add) => Some(BinaryOperationType::Add),
        Token::SimpleToken(SimpleToken::Subtract) => Some(BinaryOperationType::Subtract),
        Token::SimpleToken(SimpleToken::Multiply) => Some(BinaryOperationType::Multiply),
        Token::SimpleToken(SimpleToken::Divide) => Some(BinaryOperationType::Divide),
        Token::SimpleToken(SimpleToken::Modulus) => Some(BinaryOperationType::Modulus),
        Token::SimpleToken(SimpleToken::Exponentiate) => Some(BinaryOperationType::Exponentiate),
        Token::SimpleToken(SimpleToken::Equal) => Some(BinaryOperationType::Equal),
        Token::SimpleToken(SimpleToken::NotEqual) => Some(BinaryOperationType::NotEqual),
        Token::SimpleToken(SimpleToken::GreaterEqual) => Some(BinaryOperationType::GreaterEqual),
        Token::SimpleToken(SimpleToken::LessEqual) => Some(BinaryOperationType::LessEqual),
        Token::SimpleToken(SimpleToken::Greater) => Some(BinaryOperationType::Greater),
        Token::SimpleToken(SimpleToken::Less) => Some(BinaryOperationType::Less),
        Token::SimpleToken(SimpleToken::LogicalAnd) => Some(BinaryOperationType::LogicalAnd),
        Token::SimpleToken(SimpleToken::LogicalOr) => Some(BinaryOperationType::LogicalOr),
        Token::SimpleToken(SimpleToken::BitwiseAnd) => Some(BinaryOperationType::BitwiseAnd),
        Token::SimpleToken(SimpleToken::BitwiseOr) => Some(BinaryOperationType::BitwiseOr),
        Token::SimpleToken(SimpleToken::BitwiseXor) => Some(BinaryOperationType::BitwiseXor),
        Token::SimpleToken(SimpleToken::LeftShift) => Some(BinaryOperationType::LeftShift),
        Token::SimpleToken(SimpleToken::RightShift) => Some(BinaryOperationType::RightShift),
        _ => None,
    }
}

fn get_operator_precedence(op: BinaryOperationType) -> (r: u32)
    ensures
        r == spec_precedence(op),
{
    match op {
        BinaryOperationType::Exponentiate => 10,
        BinaryOperationType::Multiply => 9,
        BinaryOperationType::Divide => 9,
        BinaryOperationType::Modulus => 9,
        BinaryOperationType::Add => 8,
        BinaryOperationType::Subtract => 8,
        BinaryOperationType::LeftShift => 7,
        BinaryOperationType::RightShift => 7,
        BinaryOperationType::Greater => 6,
        BinaryOperationType::Less => 6,
        BinaryOperationType::GreaterEqual => 6,
        BinaryOperationType::LessEqual => 6,
        BinaryOperationType::Equal => 5,
        BinaryOperationType::NotEqual => 5,
        BinaryOperationType::BitwiseAnd => 4,
        BinaryOperationType::BitwiseXor => 3,
        BinaryOperationType::BitwiseOr => 2,
        BinaryOperationType::LogicalAnd => 1,
        BinaryOperationType::LogicalOr => 0,
    }
}

/// The parser: owns the lexer it pulls tokens from.
pub struct Parser {
    pub lexer: Lexer,
}

impl Parser {
    /// The source characters.
    pub open spec fn text(self) -> Seq<char> {
        self.lexer.chars()
    }

    /// How many characters have been consumed.
    pub open spec fn cur(self) -> int {
        self.lexer.cursor()
    }

    pub open spec fn wf(self) -> bool {
        self.lexer.wf()
    }

    pub fn new(input_data: &str) -> (r: Parser)
        ensures
            r.wf(),
            r.text() == input_data@,
            r.cur() == 0,
    {
        Parser { lexer: Lexer::new(input_data) }
    }

    fn get_next_expression_parens(&mut self) -> (r: Result<Option<Expression>, SyntaxError>)
        requires
            old(self).wf(),
        ensures
            final(self).wf(),
            final(self).text() == old(self).text(),
            match sp_parens(old(self).text(), old(self).cur()) {
                Err(e) => r == Err::<Option<Expression>, SyntaxError>(e),
                Ok(None) => r == Ok::<Option<Expression>, SyntaxError>(None) && final(self).cur()
                    == old(self).cur(),
                Ok(Some((v, q))) => {
                    &&& r matches Ok(Some(node)) && node@ == v
                    &&& final(self).cur() == q
                    &&& old(self).cur() < q
                },
            },
        decreases self.text().len() - self.cur(), 20int, 0int,
    {
        let saved = self.lexer.text.pos;
        let next_token = match self.lexer.get_next_token() {
            Err(e) => {
                return Err(e);
            },
            Ok(None) => {
                self.lexer.text.pos = saved;
                return Ok(None);
            },
            Ok(Some(token)) => token,
        };
        match next_token {
            Token::SimpleToken(SimpleToken::LParen) => {},
            _ => {
                self.lexer.text.pos = saved;
                return Ok(None);
            },
        }
        let expression = match self.get_next_expression()? {
            None => {
                return Err(SyntaxError::NoExpressionAfterLParen);
            },
            Some(expression) => expression,
        };
        let last_token = match self.lexer.get_next_token() {
            Err(e) => {
                return Err(e);
            },
            Ok(None) => {
                return Err(SyntaxError::UnmatchedParen);
            },
            Ok(Some(token)) => token,
        };
        match last_token {
            Token::SimpleToken(SimpleToken::RParen) => {},
            _ => {
                return Err(SyntaxError::UnmatchedParen);
            },
        }
        Ok(Some(expression))
    }

    fn get_next_unit(&mut self) -> (r: Result<Option<Expression>, SyntaxError>)
        requires
            old(self).wf(),
        ensures
            final(self).wf(),
            final(self).text() == old(self).text(),
            match sp_unit(old(self).text(), old(self).cur()) {
                Err(e) => r == Err::<Option<Expression>, SyntaxError>(e),
                Ok(None) => r == Ok::<Option<Expression>, SyntaxError>(None) && final(self).cur()
                    == old(self).cur(),
                Ok(Some((v, q))) => {
                    &&& r matches Ok(Some(node)) && node@ == v
                    &&& final(self).cur() == q
                    &&& old(self).cur() < q
                },
            },
        decreases self.text().len() - self.cur(), 20int, 0int,
    {
        let saved = self.lexer.text.pos;
        let token = match self.lexer.get_next_token() {
            Err(e) => {
                return Err(e);
            },
            Ok(None) => {
                self.lexer.text.pos = saved;
                return Ok(None);
            },
            Ok(Some(token)) => token,
        };
        let identifier = match token {
            Token::Identifier(identifier) => identifier,
            Token::IntegerLiteral(literal) => {
                return Ok(Some(Expression::Literal(Literal::IntegerLiteral(literal))));
            },
            Token::StringLiteral(literal) => {
                return Ok(Some(Expression::Literal(Literal::StringLiteral(literal))));
            },
            _ => {
                self.lexer.text.pos = saved;
                return Ok(None);
            },
        };
        // An identifier followed by `(` is a call of a built-in function.
        let after_identifier = self.lexer.text.pos;
        match self.lexer.get_next_token() {
            Err(e) => {
                return Err(e);
            },
            Ok(None) => {
                self.lexer.text.pos = after_identifier;
                return Ok(Some(Expression::Identifier(identifier)));
            },
            Ok(Some(Token::SimpleToken(SimpleToken::LParen))) => {},
            Ok(Some(_)) => {
                self.lexer.text.pos = after_identifier;
                return Ok(Some(Expression::Identifier(identifier)));
            },
        }
        let argument = match self.get_next_expression()? {
            None => {
                return Err(SyntaxError::NoExpressionAfterLParen);
            },
            Some(expression) => expression,
        };
        let last_token = match self.lexer.get_next_token() {
            Err(e) => {
                return Err(e);
            },
            Ok(None) => {
                return Err(SyntaxError::UnmatchedParen);
            },
            Ok(Some(token)) => token,
        };
        match last_token {
            Token::SimpleToken(SimpleToken::RParen) => {},
            _ => {
                return Err(SyntaxError::UnmatchedParen);
            },
        }
        Ok(
            Some(
                Expression::FunctionCall(
                    FunctionCall { function_name: identifier, argument: Box::new(argument) },
                ),
            ),
        )
    }

    fn get_next_unary_operation(&mut self) -> (r: Result<Option<UnaryOperation>, SyntaxError>)
        requires
            old(self).wf(),
        ensures
            final(self).wf(),
            final(self).text() == old(self).text(),
            match sp_unary(old(self).text(), old(self).cur()) {
                Err(e) => r == Err::<Option<UnaryOperation>, SyntaxError>(e),
                Ok(None) => r == Ok::<Option<UnaryOperation>, SyntaxError>(None)
                    && final(self).cur() == old(self).cur(),
                Ok(Some((v, q))) => {
                    &&& r matches Ok(Some(node)) && crate::ast::expr_view(
                        Expression::UnaryOperation(node),
                    ) == v
                    &&& final(self).cur() == q
                    &&& old(self).cur() < q
                },
            },
        decreases self.text().len() - self.cur(), 20int, 0int,
    {
        let saved = self.lexer.text.pos;
        let first_token = match self.lexer.get_next_token() {
            Err(e) => {
                return Err(e);
            },
            Ok(None) => {
                self.lexer.text.pos = saved;
                return Ok(None);
            },
            Ok(Some(token)) => token,
        };
        let operation_type = match token_to_unary_operation_type(&first_token) {
            Some(op) => op,
            None => {
                self.lexer.text.pos = saved;
                return Ok(None);
            },
        };
        let primary = match self.get_next_primary()? {
            None => {
                return Err(SyntaxError::NoExpressionAfterUnaryOperator);
            },
            Some(token) => token,
        };
        Ok(Some(UnaryOperation { operation_type, expression: Box::new(primary) }))
    }

    fn get_next_primary(&mut self) -> (r: Result<Option<Expression>, SyntaxError>)
        requires
            old(self).wf(),
        ensures
            final(self).wf(),
            final(self).text() == old(self).text(),
            match sp_primary(old(self).text(), old(self).cur()) {
                Err(e) => r == Err::<Option<Expression>, SyntaxError>(e),
                Ok(None) => r == Ok::<Option<Expression>, SyntaxError>(None) && final(self).cur()
                    == old(self).cur(),
                Ok(Some((v, q))) => {
                    &&& r matches Ok(Some(node)) && node@ == v
                    &&& final(self).cur() == q
                    &&& old(self).cur() < q
                },
            },
        decreases self.text().len() - self.cur(), 30int, 0int,
    {
        if let Some(expression) = self.get_next_expression_parens()? {
            return Ok(Some(expression));
        }
        if let Some(expression) = self.get_next_unit()? {
            return Ok(Some(expression));
        }
        if let Some(unary_operation) = self.get_next_unary_operation()? {
            return Ok(Some(Expression::UnaryOperation(unary_operation)));
        }
        Ok(None)
    }

    /// The expression beginning at the cursor, if any; the grammar it
    /// follows is `sp_expression`, so the result is a pure function of the
    /// input text.
    pub fn get_next_expression(&mut self) -> (r: Result<Option<Expression>, SyntaxError>)
        requires
            old(self).wf(),
        ensures
            final(self).wf(),
            final(self).text() == old(self).text(),
            match sp_expression(old(self).text(), old(self).cur()) {
                Err(e) => r == Err::<Option<Expression>, SyntaxError>(e),
                Ok(None) => r == Ok::<Option<Expression>, SyntaxError>(None) && final(self).cur()
                    == old(self).cur(),
                Ok(Some((v, q))) => {
                    &&& r matches Ok(Some(node)) && node@ == v
                    &&& final(self).cur() == q
                    &&& old(self).cur() < q
                },
            },
        decreases self.text().len() - self.cur(), 45int, 0int,
    {
        match self.get_next_primary()? {
            Some(primary) => self.get_next_expression_1(primary, 0),
            None => Ok(None),
        }
    }

    /// Precedence climbing from `lhs` at minimum precedence
    /// `min_precedence`: while an operator of at least that precedence
    /// follows, read another primary, fold tighter operators into it, and
    /// extend `lhs` to the left.
    pub fn get_next_expression_1(&mut self, lhs: Expression, min_precedence: u32) -> (r: Result<
        Option<Expression>,
        SyntaxError,
    >)
        requires
            old(self).wf(),
        ensures
            final(self).wf(),
            final(self).text() == old(self).text(),
            match sp_expression_1(old(self).text(), old(self).cur(), lhs@, min_precedence) {
                Err(e) => r == Err::<Option<Expression>, SyntaxError>(e),
                Ok((v, q)) => {
                    &&& r matches Ok(Some(node)) && node@ == v
                    &&& final(self).cur() == q
                    &&& old(self).cur() <= q
                },
            },
            r is Ok ==> (match next_token_at(old(self).text(), old(self).cur()) {
                Ok(Some((t, qt))) => (match spec_binop_of(t) {
                    Some(op) => spec_precedence(op) >= min_precedence ==> old(self).cur()
                        < final(self).cur(),
                    None => true,
                }),
                Ok(None) => true,
                Err(_) => true,
            }),
        decreases self.text().len() - self.cur(), 40int, 2 * (11 - min_precedence) + 1,
    {
        let saved = self.lexer.text.pos;
        let lookahead_token = match self.lexer.get_next_token() {
            Err(e) => {
                return Err(e);
            },
            Ok(None) => {
                self.lexer.text.pos = saved;
                return Ok(Some(lhs));
            },
            Ok(Some(token)) => token,
        };
        let op = match token_to_binary_operation_type(&lookahead_token) {
            Some(op) => op,
            None => {
                self.lexer.text.pos = saved;
                return Ok(Some(lhs));
            },
        };
        let p = get_operator_precedence(op);
        if !(p >= min_precedence) {
            self.lexer.text.pos = saved;
            return Ok(Some(lhs));
        }
        let first_rhs = match self.get_next_primary()? {
            None => {
                return Err(SyntaxError::NoExpressionAfterBinaryOperator);
            },
            Some(primary) => primary,
        };
        let rhs = self.get_next_expression_1_tail(first_rhs, p)?;
        let folded = Expression::BinaryOperation(
            BinaryOperation {
                operation_type: op,
                left_expression: Box::new(lhs),
                right_expression: Box::new(rhs),
            },
        );
        self.get_next_expression_1(folded, min_precedence)
    }

    /// The greedy inner fold: while the next operator binds tighter than
    /// `p`, climb into the right-hand side at precedence `p + 1`.
    fn get_next_expression_1_tail(&mut self, rhs: Expression, p: u32) -> (r: Result<
        Expression,
        SyntaxError,
    >)
        requires
            old(self).wf(),
            p <= 10,
        ensures
            final(self).wf(),
            final(self).text() == old(self).text(),
            match sp_expr1_tail(old(self).text(), old(self).cur(), rhs@, p) {
                Err(e) => r == Err::<Expression, SyntaxError>(e),
                Ok((v, q)) => {
                    &&& r matches Ok(node) && node@ == v
                    &&& final(self).cur() == q
                    &&& old(self).cur() <= q
                },
            },
        decreases self.text().len() - self.cur(), 40int, 2 * (11 - p),
    {
        let saved = self.lexer.text.pos;
        let lookahead_token = match self.lexer.get_next_token() {
            Err(e) => {
                return Err(e);
            },
            Ok(None) => {
                self.lexer.text.pos = saved;
                return Ok(rhs);
            },
            Ok(Some(token)) => token,
        };
        let op2 = match token_to_binary_operation_type(&lookahead_token) {
            Some(op) => op,
            None => {
                self.lexer.text.pos = saved;
                return Ok(rhs);
            },
        };
        let p2 = get_operator_precedence(op2);
        if !(p2 > p) {
            self.lexer.text.pos = saved;
            return Ok(rhs);
        }
        // The lookahead is not consumed: climbing restarts at the operator.
        self.lexer.text.pos = saved;
        let climbed = match self.get_next_expression_1(rhs, p + 1)? {
            None => {
                return Err(SyntaxError::InvalidToken);
            },
            Some(expression) => expression,
        };
        self.get_next_expression_1_tail(climbed, p)
    }

    /// A `;` token, consumed if present; anything else is left in place.
    pub fn consume_semicolon(&mut self) -> (r: Result<Option<()>, SyntaxError>)
        requires
            old(self).wf(),
        ensures
            final(self).wf(),
            final(self).text() == old(self).text(),
            match sp_consume_semicolon(old(self).text(), old(self).cur()) {
                Err(e) => r == Err::<Option<()>, SyntaxError>(e),
                Ok(None) => r == Ok::<Option<()>, SyntaxError>(None) && final(self).cur() == old(self).cur(),
                Ok(Some(q)) => r == Ok::<Option<()>, SyntaxError>(Some(())) && final(self).cur()
                    == q && old(self).cur() < q,
            },
    {
        let saved = self.lexer.text.pos;
        let token = match self.lexer.get_next_token() {
            Err(e) => {
                return Err(e);
            },
            Ok(None) => {
                self.lexer.text.pos = saved;
                return Ok(None);
            },
            Ok(Some(token)) => token,
        };
        match token {
            Token::SimpleToken(SimpleToken::Semicolon) => Ok(Some(())),
            _ => {
                self.lexer.text.pos = saved;
                Ok(None)
            },
        }
    }

    /// The keyword `kw` alone, consumed if present.
    fn consume_keyword(&mut self, kw: SimpleToken) -> (r: Result<Option<()>, SyntaxError>)
        requires
            old(self).wf(),
        ensures
            final(self).wf(),
            final(self).text() == old(self).text(),
            match sp_keyword(old(self).text(), old(self).cur(), kw) {
                Err(e) => r == Err::<Option<()>, SyntaxError>(e),
                Ok(None) => r == Ok::<Option<()>, SyntaxError>(None) && final(self).cur() == old(self).cur(),
                Ok(Some(q)) => r == Ok::<Option<()>, SyntaxError>(Some(())) && final(self).cur()
                    == q && old(self).cur() < q,
            },
    {
        let saved = self.lexer.text.pos;
        let token = match self.lexer.get_next_token() {
            Err(e) => {
                return Err(e);
            },
            Ok(None) => {
                self.lexer.text.pos = saved;
                return Ok(None);
            },
            Ok(Some(token)) => token,
        };
        let found = match (&token, kw) {
            (Token::SimpleToken(st), k) => *st == k,
            _ => false,
        };
        if found {
            Ok(Some(()))
        } else {
            self.lexer.text.pos = saved;
            Ok(None)
        }
    }

    #[verifier::rlimit(100)]
    #[verifier::spinoff_prover]
    fn get_next_let_statement(&mut self) -> (r: Result<Option<LetStatement>, SyntaxError>)
        requires
            old(self).wf(),
        ensures
            final(self).wf(),
            final(self).text() == old(self).text(),
            match sp_let(old(self).text(), old(self).cur()) {
                Err(e) => r == Err::<Option<LetStatement>, SyntaxError>(e),
                Ok(None) => r == Ok::<Option<LetStatement>, SyntaxError>(None) && final(self).cur() == old(self).cur(),
                Ok(Some((v, q))) => {
                    &&& r matches Ok(Some(node)) && crate::ast::stmt_view(
                        Statement::LetStatement(node),
                    ) == v
                    &&& final(self).cur() == q
                    &&& old(self).cur() < q
                },
            },
        decreases self.text().len() - self.cur(), 70int, 0int,
    {
        reveal(sp_let);
        match self.consume_keyword(SimpleToken::Let)? {
            None => {
                return Ok(None);
            },
            Some(_) => {},
        }
        let mutable = match self.consume_keyword(SimpleToken::Mut)? {
            None => false,
            Some(_) => true,
        };
        let next_token = match self.lexer.get_next_token() {
            Err(e) => {
                return Err(e);
            },
            Ok(None) => {
                return Err(SyntaxError::NoIdentifierInLetStatement);
            },
            Ok(Some(token)) => token,
        };
        let identifier = match next_token {
            Token::Identifier(identifier) => identifier,
            _ => {
                return Err(SyntaxError::NoIdentifierInLetStatement);
            },
        };
        let saved = self.lexer.text.pos;
        let expression = match self.lexer.get_next_token() {
            Err(e) => {
                return Err(e);
            },
            Ok(None) => {
                self.lexer.text.pos = saved;
                None
            },
            Ok(Some(Token::SimpleToken(SimpleToken::Assignment))) => {
                match self.get_next_expression()? {
                    None => {
                        return Err(SyntaxError::NoExpressionInLetAssignmentStatement);
                    },
                    Some(expression) => Some(expression),
                }
            },
            Ok(Some(_)) => {
                self.lexer.text.pos = saved;
                None
            },
        };
        Ok(Some(LetStatement { identifier, mutable, expression }))
    }

    #[verifier::rlimit(100)]
    #[verifier::spinoff_prover]
    fn get_next_assignment_statement(&mut self) -> (r: Result<
        Option<AssignmentStatement>,
        SyntaxError,
    >)
        requires
            old(self).wf(),
        ensures
            final(self).wf(),
            final(self).text() == old(self).text(),
            match sp_assignment(old(self).text(), old(self).cur()) {
                Err(e) => r == Err::<Option<AssignmentStatement>, SyntaxError>(e),
                Ok(None) => r == Ok::<Option<AssignmentStatement>, SyntaxError>(None) && final(self).cur() == old(self).cur(),
                Ok(Some((v, q))) => {
                    &&& r matches Ok(Some(node)) && crate::ast::stmt_view(
                        Statement::Assignment(node),
                    ) == v
                    &&& final(self).cur() == q
                    &&& old(self).cur() < q
                },
            },
        decreases self.text().len() - self.cur(), 70int, 0int,
    {
        reveal(sp_assignment);
        reveal_with_fuel(crate::ast::expr_view, 3);
        let saved = self.lexer.text.pos;
        let first_token = match self.lexer.get_next_token() {
            Err(e) => {
                return Err(e);
            },
            Ok(None) => {
                self.lexer.text.pos = saved;
                return Ok(None);
            },
            Ok(Some(token)) => token,
        };
        let identifier = match first_token {
            Token::Identifier(identifier) => identifier,
            _ => {
                self.lexer.text.pos = saved;
                return Ok(None);
            },
        };
        let second_token = match self.lexer.get_next_token() {
            Err(e) => {
                return Err(e);
            },
            Ok(None) => {
                self.lexer.text.pos = saved;
                return Ok(None);
            },
            Ok(Some(token)) => token,
        };
        let simple = match second_token {
            Token::SimpleToken(simple) => simple,
            _ => {
                self.lexer.text.pos = saved;
                return Ok(None);
            },
        };
        let binary_operation_type = match simple {
            SimpleToken::ExponentiationAssignment => Some(BinaryOperationType::Exponentiate),
            SimpleToken::AdditionAssignment => Some(BinaryOperationType::Add),
            SimpleToken::SubtractionAssignment => Some(BinaryOperationType::Subtract),
            SimpleToken::MultiplicationAssignment => Some(BinaryOperationType::Multiply),
            SimpleToken::DivisionAssignment => Some(BinaryOperationType::Divide),
            SimpleToken::ModulusAssignment => Some(BinaryOperationType::Modulus),
            SimpleToken::BitwiseAndAssignment => Some(BinaryOperationType::BitwiseAnd),
            SimpleToken::BitwiseOrAssignment => Some(BinaryOperationType::BitwiseOr),
            SimpleToken::BitwiseXorAssignment => Some(BinaryOperationType::BitwiseXor),
            SimpleToken::LeftShiftAssignment => Some(BinaryOperationType::LeftShift),
            SimpleToken::RightShiftAssignment => Some(BinaryOperationType::RightShift),
            SimpleToken::Assignment => None,
            _ => {
                self.lexer.text.pos = saved;
                return Ok(None);
            },
        };
        let expression = match self.get_next_expression()? {
            None => {
                return Err(SyntaxError::NoExpressionInAssignmentStatement);
            },
            Some(expression) => expression,
        };
        let assignment_statement = match binary_operation_type {
            None => AssignmentStatement { identifier, expression },
            Some(operation_type) => {
                let ident = identifier.as_str().to_owned();
                proof {
                    assert(ident@ == identifier@);
                }
                AssignmentStatement {
                    identifier,
                    expression: Expression::BinaryOperation(
                        BinaryOperation {
                            operation_type,
                            left_expression: Box::new(Expression::Identifier(ident)),
                            right_expression: Box::new(expression),
                        },
                    ),
                }
            },
        };
        Ok(Some(assignment_statement))
    }

    /// The statements of a brace block or of the whole program, one after
    /// another until none can be recognised.
    #[verifier::rlimit(100)]
    #[verifier::spinoff_prover]
    fn get_statement_list(&mut self) -> (r: Result<Vec<Statement>, SyntaxError>)
        requires
            old(self).wf(),
        ensures
            final(self).wf(),
            final(self).text() == old(self).text(),
            match sp_statements(old(self).text(), old(self).cur()) {
                Err(e) => r == Err::<Vec<Statement>, SyntaxError>(e),
                Ok((vs, q)) => {
                    &&& r matches Ok(nodes) && crate::ast::stmts_view(nodes@) == vs
                    &&& final(self).cur() == q
                    &&& old(self).cur() <= q
                },
            },
        decreases self.text().len() - self.cur(), 99int, 0int,
    {
        let ghost s = self.text();
        let ghost pos0 = self.cur();
        let mut statements: Vec<Statement> = Vec::new();
        loop
            invariant
                self.wf(),
                self.text() == s,
                s == old(self).text(),
                pos0 == old(self).cur(),
                pos0 <= self.cur(),
                sp_statements(s, pos0) == (match sp_statements(s, self.cur()) {
                    Ok((rest, q)) => Ok::<(Seq<StatementView>, int), SyntaxError>(
                        (crate::ast::stmts_view(statements@) + rest, q),
                    ),
                    Err(e) => Err(e),
                }),
            ensures
                self.wf(),
                self.text() == s,
                pos0 <= self.cur(),
                sp_statement(s, self.cur()) == Ok::<Option<(StatementView, int)>, SyntaxError>(
                    None,
                ),
                sp_statements(s, pos0) == (match sp_statements(s, self.cur()) {
                    Ok((rest, q)) => Ok::<(Seq<StatementView>, int), SyntaxError>(
                        (crate::ast::stmts_view(statements@) + rest, q),
                    ),
                    Err(e) => Err(e),
                }),
            decreases s.len() - self.cur(),
        {
            match self.get_next_statement() {
                Err(e) => {
                    return Err(e);
                },
                Ok(None) => {
                    break ;
                },
                Ok(Some(statement)) => {
                    proof {
                        crate::ast::lemma_stmts_view_push(statements@, statement);
                        match sp_statements(s, self.cur()) {
                            Ok((rest, q)) => {
                                assert(crate::ast::stmts_view(statements@) + (seq![
                                    crate::ast::stmt_view(statement),
                                ] + rest) =~= crate::ast::stmts_view(statements@).push(
                                    crate::ast::stmt_view(statement),
                                ) + rest);
                            },
                            Err(_) => {},
                        }
                    }
                    statements.push(statement);
                },
            }
        }
        proof {
            assert(sp_statements(s, self.cur()) == Ok::<(Seq<StatementView>, int), SyntaxError>(
                (Seq::empty(), self.cur()),
            ));
            assert(crate::ast::stmts_view(statements@) + Seq::<StatementView>::empty()
                =~= crate::ast::stmts_view(statements@));
        }
        Ok(statements)
    }

    /// A brace block: `{` statements `}`.
    #[verifier::rlimit(100)]
    #[verifier::spinoff_prover]
    pub fn get_next_block(&mut self) -> (r: Result<Option<Block>, SyntaxError>)
        requires
            old(self).wf(),
        ensures
            final(self).wf(),
            final(self).text() == old(self).text(),
            match sp_block(old(self).text(), old(self).cur()) {
                Err(e) => r == Err::<Option<Block>, SyntaxError>(e),
                Ok(None) => r == Ok::<Option<Block>, SyntaxError>(None) && final(self).cur()
                    == old(self).cur(),
                Ok(Some((v, q))) => {
                    &&& r matches Ok(Some(node)) && crate::ast::block_view(node) == v
                    &&& final(self).cur() == q
                    &&& old(self).cur() < q
                },
            },
        decreases self.text().len() - self.cur(), 95int, 0int,
    {
        let saved = self.lexer.text.pos;
        let first_token = match self.lexer.get_next_token() {
            Err(e) => {
                return Err(e);
            },
            Ok(None) => {
                self.lexer.text.pos = saved;
                return Ok(None);
            },
            Ok(Some(token)) => token,
        };
        match first_token {
            Token::SimpleToken(SimpleToken::LBrace) => {},
            _ => {
                self.lexer.text.pos = saved;
                return Ok(None);
            },
        }
        let statements = self.get_statement_list()?;
        let last_token = match self.lexer.get_next_token() {
            Err(e) => {
                return Err(e);
            },
            Ok(None) => {
                return Err(SyntaxError::UnmatchedBrace);
            },
            Ok(Some(token)) => token,
        };
        match last_token {
            Token::SimpleToken(SimpleToken::RBrace) => {},
            _ => {
                return Err(SyntaxError::UnmatchedBrace);
            },
        }
        Ok(Some(Block { statements }))
    }

    #[verifier::rlimit(100)]
    #[verifier::spinoff_prover]
    fn get_next_if_statement_1(&mut self) -> (r: Result<Option<ConditionWithBlock>, SyntaxError>)
        requires
            old(self).wf(),
        ensures
            final(self).wf(),
            final(self).text() == old(self).text(),
            match sp_if1(old(self).text(), old(self).cur()) {
                Err(e) => r == Err::<Option<ConditionWithBlock>, SyntaxError>(e),
                Ok(None) => r == Ok::<Option<ConditionWithBlock>, SyntaxError>(None)
                    && final(self).cur() == old(self).cur(),
                Ok(Some((v, q))) => {
                    &&& r matches Ok(Some(node)) && crate::ast::cwb_view(node) == v
                    &&& final(self).cur() == q
                    &&& old(self).cur() < q
                },
            },
        decreases self.text().len() - self.cur(), 96int, 0int,
    {
        reveal(sp_if1);
        match self.consume_keyword(SimpleToken::If)? {
            None => {
                return Ok(None);
            },
            Some(_) => {},
        }
        let if_condition = match self.get_next_expression()? {
            None => {
                return Err(SyntaxError::NoConditionInIfStatement);
            },
            Some(expression) => expression,
        };
        let if_block = match self.get_next_block()? {
            None => {
                return Err(SyntaxError::NoBlockInIfStatement);
            },
            Some(block) => block,
        };
        Ok(Some(ConditionWithBlock { condition: if_condition, block: if_block }))
    }

    #[verifier::rlimit(100)]
    #[verifier::spinoff_prover]
    fn get_next_if_statement_2(&mut self) -> (r: Result<Vec<ConditionWithBlock>, SyntaxError>)
        requires
            old(self).wf(),
        ensures
            final(self).wf(),
            final(self).text() == old(self).text(),
            match sp_if2(old(self).text(), old(self).cur()) {
                Err(e) => r == Err::<Vec<ConditionWithBlock>, SyntaxError>(e),
                Ok((vs, q)) => {
                    &&& r matches Ok(nodes) && crate::ast::cwbs_view(nodes@) == vs
                    &&& final(self).cur() == q
                    &&& old(self).cur() <= q
                },
            },
        decreases self.text().len() - self.cur(), 96int, 0int,
    {
        let ghost s = self.text();
        let ghost pos0 = self.cur();
        let mut arms: Vec<ConditionWithBlock> = Vec::new();
        loop
            invariant
                self.wf(),
                self.text() == s,
                s == old(self).text(),
                pos0 == old(self).cur(),
                pos0 <= self.cur(),
                sp_if2(s, pos0) == (match sp_if2(s, self.cur()) {
                    Ok((rest, q)) => Ok::<(Seq<ConditionWithBlockView>, int), SyntaxError>(
                        (crate::ast::cwbs_view(arms@) + rest, q),
                    ),
                    Err(e) => Err(e),
                }),
            ensures
                self.wf(),
                self.text() == s,
                pos0 <= self.cur(),
                sp_if2(s, self.cur()) == Ok::<(Seq<ConditionWithBlockView>, int), SyntaxError>(
                    (Seq::empty(), self.cur()),
                ),
                sp_if2(s, pos0) == (match sp_if2(s, self.cur()) {
                    Ok((rest, q)) => Ok::<(Seq<ConditionWithBlockView>, int), SyntaxError>(
                        (crate::ast::cwbs_view(arms@) + rest, q),
                    ),
                    Err(e) => Err(e),
                }),
            decreases s.len() - self.cur(),
        {
            reveal(sp_if2);
            let saved = self.lexer.text.pos;
            let first_token = match self.lexer.get_next_token() {
                Err(e) => {
                    return Err(e);
                },
                Ok(None) => {
                    self.lexer.text.pos = saved;
                    break ;
                },
                Ok(Some(token)) => token,
            };
            match first_token {
                Token::SimpleToken(SimpleToken::Else) => {},
                _ => {
                    self.lexer.text.pos = saved;
                    break ;
                },
            }
            let second_token = match self.lexer.get_next_token() {
                Err(e) => {
                    return Err(e);
                },
                Ok(None) => {
                    self.lexer.text.pos = saved;
                    break ;
                },
                Ok(Some(token)) => token,
            };
            match second_token {
                Token::SimpleToken(SimpleToken::If) => {},
                _ => {
                    self.lexer.text.pos = saved;
                    break ;
                },
            }
            let else_if_condition = match self.get_next_expression()? {
                None => {
                    return Err(SyntaxError::NoConditionInElseIfStatement);
                },
                Some(expression) => expression,
            };
            let else_if_block = match self.get_next_block()? {
                None => {
                    return Err(SyntaxError::NoBlockInElseIfStatement);
                },
                Some(block) => block,
            };
            let arm = ConditionWithBlock { condition: else_if_condition, block: else_if_block };
            proof {
                crate::ast::lemma_cwbs_view_push(arms@, arm);
                match sp_if2(s, self.cur()) {
                    Ok((rest, q)) => {
                        assert(crate::ast::cwbs_view(arms@) + (seq![crate::ast::cwb_view(arm)]
                            + rest) =~= crate::ast::cwbs_view(arms@).push(
                            crate::ast::cwb_view(arm),
                        ) + rest);
                    },
                    Err(_) => {},
                }
            }
            arms.push(arm);
        }
        proof {
            assert(crate::ast::cwbs_view(arms@) + Seq::<ConditionWithBlockView>::empty()
                =~= crate::ast::cwbs_view(arms@));
        }
        Ok(arms)
    }

    #[verifier::rlimit(100)]
    #[verifier::spinoff_prover]
    fn get_next_if_statement_3(&mut self) -> (r: Result<Option<Block>, SyntaxError>)
        requires
            old(self).wf(),
        ensures
            final(self).wf(),
            final(self).text() == old(self).text(),
            match sp_if3(old(self).text(), old(self).cur()) {
                Err(e) => r == Err::<Option<Block>, SyntaxError>(e),
                Ok(None) => r == Ok::<Option<Block>, SyntaxError>(None) && final(self).cur()
                    == old(self).cur(),
                Ok(Some((v, q))) => {
                    &&& r matches Ok(Some(node)) && crate::ast::block_view(node) == v
                    &&& final(self).cur() == q
                    &&& old(self).cur() < q
                },
            },
        decreases self.text().len() - self.cur(), 96int, 0int,
    {
        reveal(sp_if3);
        match self.consume_keyword(SimpleToken::Else)? {
            None => {
                return Ok(None);
            },
            Some(_) => {},
        }
        match self.get_next_block()? {
            None => Err(SyntaxError::NoBlockInElseStatement),
            Some(block) => Ok(Some(block)),
        }
    }

    #[verifier::rlimit(100)]
    #[verifier::spinoff_prover]
    fn get_next_if_statement(&mut self) -> (r: Result<Option<IfStatement>, SyntaxError>)
        requires
            old(self).wf(),
        ensures
            final(self).wf(),
            final(self).text() == old(self).text(),
            match sp_if(old(self).text(), old(self).cur()) {
                Err(e) => r == Err::<Option<IfStatement>, SyntaxError>(e),
                Ok(None) => r == Ok::<Option<IfStatement>, SyntaxError>(None) && final(self).cur()
                    == old(self).cur(),
                Ok(Some((v, q))) => {
                    &&& r matches Ok(Some(node)) && crate::ast::stmt_view(
                        Statement::IfStatement(node),
                    ) == v
                    &&& final(self).cur() == q
                    &&& old(self).cur() < q
                },
            },
        decreases self.text().len() - self.cur(), 97int, 0int,
    {
        reveal(sp_if);
        proof {
            if old(self).cur() >= old(self).text().len() {
                lemma_sp_if1_at_end(old(self).text(), old(self).cur());
            }
        }
        let _if = match self.get_next_if_statement_1()? {
            None => {
                return Ok(None);
            },
            Some(_if) => _if,
        };
        let else_if = self.get_next_if_statement_2()?;
        let _else = self.get_next_if_statement_3()?;
        Ok(Some(IfStatement { _if, else_if, _else }))
    }

    #[verifier::rlimit(100)]
    #[verifier::spinoff_prover]
    fn get_next_loop_statement(&mut self) -> (r: Result<Option<LoopStatement>, SyntaxError>)
        requires
            old(self).wf(),
        ensures
            final(self).wf(),
            final(self).text() == old(self).text(),
            match sp_loop(old(self).text(), old(self).cur()) {
                Err(e) => r == Err::<Option<LoopStatement>, SyntaxError>(e),
                Ok(None) => r == Ok::<Option<LoopStatement>, SyntaxError>(None) && final(self).cur() == old(self).cur(),
                Ok(Some((v, q))) => {
                    &&& r matches Ok(Some(node)) && crate::ast::block_view(node.block) == v
                    &&& final(self).cur() == q
                    &&& old(self).cur() < q
                },
            },
        decreases self.text().len() - self.cur(), 97int, 0int,
    {
        reveal(sp_loop);
        match self.consume_keyword(SimpleToken::Loop)? {
            None => {
                return Ok(None);
            },
            Some(_) => {},
        }
        match self.get_next_block()? {
            None => Err(SyntaxError::NoBlockInLoopStatement),
            Some(block) => Ok(Some(LoopStatement { block })),
        }
    }

    #[verifier::rlimit(100)]
    #[verifier::spinoff_prover]
    fn get_next_while_statement(&mut self) -> (r: Result<Option<WhileStatement>, SyntaxError>)
        requires
            old(self).wf(),
        ensures
            final(self).wf(),
            final(self).text() == old(self).text(),
            match sp_while(old(self).text(), old(self).cur()) {
                Err(e) => r == Err::<Option<WhileStatement>, SyntaxError>(e),
                Ok(None) => r == Ok::<Option<WhileStatement>, SyntaxError>(None) && final(self).cur() == old(self).cur(),
                Ok(Some((c, b, q))) => {
                    &&& r matches Ok(Some(node)) && crate::ast::expr_view(node.condition) == c
                        && crate::ast::block_view(node.block) == b
                    &&& final(self).cur() == q
                    &&& old(self).cur() < q
                },
            },
        decreases self.text().len() - self.cur(), 97int, 0int,
    {
        reveal(sp_while);
        match self.consume_keyword(SimpleToken::While)? {
            None => {
                return Ok(None);
            },
            Some(_) => {},
        }
        let condition = match self.get_next_expression()? {
            None => {
                return Err(SyntaxError::NoConditionInWhileStatement);
            },
            Some(condition) => condition,
        };
        match self.get_next_block()? {
            None => Err(SyntaxError::NoBlockInWhileStatement),
            Some(block) => Ok(Some(WhileStatement { condition, block })),
        }
    }

    /// One statement, if any starts at the cursor; the forms are tried in
    /// order, and a recognised statement must be followed by `;`.  A bare
    /// `;` is the empty statement.
    #[verifier::rlimit(100)]
    #[verifier::spinoff_prover]
    pub fn get_next_statement(&mut self) -> (r: Result<Option<Statement>, SyntaxError>)
        requires
            old(self).wf(),
        ensures
            final(self).wf(),
            final(self).text() == old(self).text(),
            match sp_statement(old(self).text(), old(self).cur()) {
                Err(e) => r == Err::<Option<Statement>, SyntaxError>(e),
                Ok(None) => r == Ok::<Option<Statement>, SyntaxError>(None) && final(self).cur()
                    == old(self).cur(),
                Ok(Some((v, q))) => {
                    &&& r matches Ok(Some(node)) && crate::ast::stmt_view(node) == v
                    &&& final(self).cur() == q
                    &&& old(self).cur() < q
                },
            },
        decreases self.text().len() - self.cur(), 98int, 0int,
    {
        reveal(sp_statement);
        let mut next_statement: Option<Statement> = None;
        if let Some(statement) = self.get_next_let_statement()? {
            next_statement = Some(Statement::LetStatement(statement));
        } else if let Some(statement) = self.get_next_assignment_statement()? {
            next_statement = Some(Statement::Assignment(statement));
        } else if let Some(statement) = self.get_next_if_statement()? {
            next_statement = Some(Statement::IfStatement(statement));
        } else if let Some(_) = self.consume_keyword(SimpleToken::Break)? {
            next_statement = Some(Statement::BreakStatement(BreakStatement));
        } else if let Some(_) = self.consume_keyword(SimpleToken::Continue)? {
            next_statement = Some(Statement::ContinueStatement(ContinueStatement));
        } else if let Some(statement) = self.get_next_loop_statement()? {
            next_statement = Some(Statement::LoopStatement(statement));
        } else if let Some(statement) = self.get_next_while_statement()? {
            next_statement = Some(Statement::WhileStatement(statement));
        } else if let Some(statement) = self.get_next_expression()? {
            next_statement = Some(Statement::Expression(statement));
        }
        match next_statement {
            None => match self.consume_semicolon()? {
                None => Ok(None),
                Some(_) => Ok(Some(Statement::EmptyStatement)),
            },
            Some(statement) => match self.consume_semicolon()? {
                None => Err(SyntaxError::StatementWithoutSemicolon),
                Some(_) => Ok(Some(statement)),
            },
        }
    }

    /// The whole program as one block.  A successful parse has consumed
    /// every token; a residual token is an `InvalidToken` error.
    #[verifier::rlimit(100)]
    #[verifier::spinoff_prover]
    pub fn get_ast(&mut self) -> (r: Result<Option<Block>, SyntaxError>)
        requires
            old(self).wf(),
            old(self).cur() == 0,
        ensures
            final(self).wf(),
            final(self).text() == old(self).text(),
            match sp_get_ast(old(self).text()) {
                Err(e) => r == Err::<Option<Block>, SyntaxError>(e),
                Ok(Some(v)) => r matches Ok(Some(b)) && crate::ast::block_view(b) == v,
                Ok(None) => false,
            },
    {
        let statements = self.get_statement_list()?;
        match self.lexer.get_next_token() {
            Err(e) => Err(e),
            Ok(Some(_)) => Err(SyntaxError::InvalidToken),
            Ok(None) => Ok(Some(Block { statements })),
        }
    }
}

} // verus!
