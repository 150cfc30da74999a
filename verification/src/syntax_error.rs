//! The single error taxonomy of the pipeline: lexical failures, parse
//! failures, and the semantic failures caught while lowering to the
//! intermediate representation.

use vstd::prelude::*;

verus! {

#[derive(Debug, Clone, Copy, PartialEq, Eq, Structural)]
pub enum SyntaxError {
    // Lexical errors
    InvalidToken,
    InvalidEscapeSequenceInStringLiteral,
    InvalidEscapeSequenceInCharLiteral,
    EmptyCharLiteral,
    UnterminatedCharLiteral,
    UnterminatedStringLiteral,
    TooLargeIntegerLiteral,
    // Parse errors
    NoExpressionAfterUnaryOperator,
    NoExpressionAfterBinaryOperator,
    NoExpressionAfterLParen,
    UnmatchedParen,
    UnmatchedBrace,
    StatementWithoutSemicolon,
    NoIdentifierInLetStatement,
    NoExpressionInLetAssignmentStatement,
    NoExpressionInAssignmentStatement,
    NoConditionInIfStatement,
    NoBlockInIfStatement,
    NoConditionInElseIfStatement,
    NoBlockInElseIfStatement,
    NoBlockInElseStatement,
    NoBlockInLoopStatement,
    NoConditionInWhileStatement,
    NoBlockInWhileStatement,
    // Semantic errors caught during lowering
    UndefinedReference,
    AssignedUndeclaredVariable,
    BreakStatementOutsideLoop,
    ContinueStatementOutsideLoop,
    /// A string literal reached expression lowering, which does not handle
    /// strings.
    UnimplementedStringLiteral,
    /// A fatal internal failure: a counter hit its arithmetic limit, or the
    /// built program failed its well-formedness check.
    InternalError,
}

} // verus!
