//! Lowering from the syntax tree to the intermediate representation: a
//! scope chain of name-to-register bindings, monotonically increasing
//! register and label counters, and one walker per syntactic form.
//!
//! Lowering is specified against a functional model (`sp_get_ir` and the
//! `sp_walk_` functions): every walker is proved to return exactly what
//! the model yields and to leave the state the model prescribes, so the
//! produced program is a pure function of the syntax tree.  On top of the
//! model, `get_ir` guarantees of every program it accepts that labels are
//! defined at most once and that every branch targets a defined label.

use crate::ast::AssignmentStatement;
use crate::ast::BinaryOperationType;
use crate::ast::Block;
use crate::ast::ConditionWithBlock;
use crate::ast::Expression;
use crate::ast::FunctionCall;
use crate::ast::IfStatement;
use crate::ast::LetStatement;
use crate::ast::Literal;
use crate::ast::LoopStatement;
use crate::ast::Statement;
use crate::ast::UnaryOperationType;
use crate::ast::WhileStatement;
use crate::ir::branch_targets_defined;
use crate::ir::label_defined;
use crate::ir::labels_unique;
use crate::ir::written_registers_unique;
use crate::ir::IRBranchStatement;
use crate::ir::IRConditionalBranchStatement;
use crate::ir::IRImmediateStatement;
use crate::ir::IRLabelStatement;
use crate::ir::IRRegisterStatement;
use crate::ir::IRStatement;
use crate::ir::Label;
use crate::ir::Register;
use crate::ir::IR;
use crate::syntax_error::SyntaxError;
use vstd::prelude::*;

verus! {

/// One scope frame: name-to-register bindings in the order they were made.
pub type Frame = Vec<(String, u32)>;

/// The lowering state: the statements emitted so far, the scope chain
/// (innermost frame last), the two counters, and the labels a `break` or
/// `continue` currently jumps to.
pub struct IRState {
    pub statements: Vec<IRStatement>,
    pub scope: Vec<Frame>,
    pub current_register: u32,
    pub current_label: u32,
    pub current_loop_continue_label: Option<u32>,
    pub current_loop_break_label: Option<u32>,
}

// ---------------------------------------------------------------------------
// Identifier resolution
// ---------------------------------------------------------------------------

/// The register bound to `id` in one frame: the latest binding wins.
pub open spec fn frame_lookup(f: Seq<(String, u32)>, id: Seq<char>) -> Option<u32>
    decreases f.len(),
{
    if f.len() == 0 {
        None
    } else if f.last().0@ == id {
        Some(f.last().1)
    } else {
        frame_lookup(f.drop_last(), id)
    }
}

/// The register bound to `id` in a scope chain: frames are searched from
/// the innermost outwards, and the first hit wins.
pub open spec fn scope_lookup(frames: Seq<Frame>, id: Seq<char>) -> Option<u32>
    decreases frames.len(),
{
    if frames.len() == 0 {
        None
    } else {
        match frame_lookup(frames.last()@, id) {
            Some(r) => Some(r),
            None => scope_lookup(frames.drop_last(), id),
        }
    }
}

/// Identifier resolution respects block scoping: a binding made last in the
/// innermost frame is the one every lookup of that name finds, whatever any
/// outer frame binds.
pub proof fn lemma_inner_binding_shadows(frames: Seq<Frame>, name: Seq<char>, reg: u32)
    requires
        frames.len() > 0,
        frames.last()@.len() > 0,
        frames.last()@.last().0@ == name,
        frames.last()@.last().1 == reg,
    ensures
        scope_lookup(frames, name) == Some(reg),
{
}

/// A binding of one name leaves the resolution of every other name as it
/// was.
pub proof fn lemma_other_names_unchanged(
    frames: Seq<Frame>,
    inner_before: Seq<(String, u32)>,
    entry: (String, u32),
    other: Seq<char>,
)
    requires
        frames.len() > 0,
        frames.last()@ == inner_before.push(entry),
        entry.0@ != other,
    ensures
        scope_lookup(frames, other) == (match frame_lookup(inner_before, other) {
            Some(r) => Some(r),
            None => scope_lookup(frames.drop_last(), other),
        }),
{
    assert(frames.last()@.drop_last() =~= inner_before);
}

fn get_identifier_register(scope: &Vec<Frame>, identifier: &String) -> (r: Option<u32>)
    ensures
        r == scope_lookup(scope@, identifier@),
{
    proof {
        assert(scope@.subrange(0, scope@.len() as int) =~= scope@);
    }
    let mut fi = scope.len();
    while fi > 0
        invariant
            fi <= scope@.len(),
            scope_lookup(scope@, identifier@) == scope_lookup(
                scope@.subrange(0, fi as int),
                identifier@,
            ),
        decreases fi,
    {
        fi = fi - 1;
        let ghost frames_here = scope@.subrange(0, fi + 1);
        proof {
            assert(frames_here.drop_last() =~= scope@.subrange(0, fi as int));
            assert(frames_here.last() == scope@[fi as int]);
        }
        let frame = &scope[fi];
        proof {
            assert(frame@.subrange(0, frame@.len() as int) =~= frame@);
        }
        let mut ei = frame.len();
        while ei > 0
            invariant
                ei <= frame@.len(),
                frame == &scope@[fi as int],
                fi < scope@.len(),
                frame_lookup(frame@, identifier@) == frame_lookup(
                    frame@.subrange(0, ei as int),
                    identifier@,
                ),
                scope_lookup(scope@, identifier@) == (match frame_lookup(
                    scope@[fi as int]@,
                    identifier@,
                ) {
                    Some(r) => Some(r),
                    None => scope_lookup(scope@.subrange(0, fi as int), identifier@),
                }),
            decreases ei,
        {
            ei = ei - 1;
            let ghost entries_here = frame@.subrange(0, ei + 1);
            proof {
                assert(entries_here.drop_last() =~= frame@.subrange(0, ei as int));
                assert(entries_here.last() == frame@[ei as int]);
            }
            if frame[ei].0 == *identifier {
                return Some(frame[ei].1);
            }
        }
        proof {
            assert(frame@.subrange(0, 0) =~= Seq::<(String, u32)>::empty());
        }
    }
    proof {
        assert(scope@.subrange(0, 0) =~= Seq::<Frame>::empty());
    }
    None
}

// ---------------------------------------------------------------------------
// The lowering as a function of the syntax tree
// ---------------------------------------------------------------------------

/// The mathematical view of the lowering state: identifiers as character
/// sequences, collections as sequences.
#[verifier::ext_equal]
pub struct LowerState {
    pub statements: Seq<IRStatement>,
    pub scope: Seq<Seq<(Seq<char>, u32)>>,
    pub current_register: u32,
    pub current_label: u32,
    pub current_loop_continue_label: Option<u32>,
    pub current_loop_break_label: Option<u32>,
}

pub open spec fn pair_view(p: (String, u32)) -> (Seq<char>, u32) {
    (p.0@, p.1)
}

pub open spec fn frame_view(fs: Seq<(String, u32)>) -> Seq<(Seq<char>, u32)> {
    fs.map_values(|p: (String, u32)| pair_view(p))
}

pub open spec fn scope_view(sc: Seq<Frame>) -> Seq<Seq<(Seq<char>, u32)>> {
    sc.map_values(|f: Frame| frame_view(f@))
}

/// The view of the executable lowering state.
pub open spec fn lower_view(st: IRState) -> LowerState {
    LowerState {
        statements: st.statements@,
        scope: scope_view(st.scope@),
        current_register: st.current_register,
        current_label: st.current_label,
        current_loop_continue_label: st.current_loop_continue_label,
        current_loop_break_label: st.current_loop_break_label,
    }
}

/// `frame_lookup` over the viewed frame.
pub open spec fn g_frame_lookup(fs: Seq<(Seq<char>, u32)>, id: Seq<char>) -> Option<u32>
    decreases fs.len(),
{
    if fs.len() == 0 {
        None
    } else if fs.last().0 == id {
        Some(fs.last().1)
    } else {
        g_frame_lookup(fs.drop_last(), id)
    }
}

/// `scope_lookup` over the viewed chain.
pub open spec fn g_scope_lookup(frames: Seq<Seq<(Seq<char>, u32)>>, id: Seq<char>) -> Option<u32>
    decreases frames.len(),
{
    if frames.len() == 0 {
        None
    } else {
        match g_frame_lookup(frames.last(), id) {
            Some(r) => Some(r),
            None => g_scope_lookup(frames.drop_last(), id),
        }
    }
}

proof fn lemma_frame_lookup_agrees(fs: Seq<(String, u32)>, id: Seq<char>)
    ensures
        frame_lookup(fs, id) == g_frame_lookup(frame_view(fs), id),
    decreases fs.len(),
{
    if fs.len() == 0 {
        assert(frame_view(fs) =~= Seq::<(Seq<char>, u32)>::empty());
    } else {
        assert(frame_view(fs).last() == pair_view(fs.last()));
        assert(frame_view(fs).drop_last() =~= frame_view(fs.drop_last()));
        lemma_frame_lookup_agrees(fs.drop_last(), id);
    }
}

proof fn lemma_scope_lookup_agrees(sc: Seq<Frame>, id: Seq<char>)
    ensures
        scope_lookup(sc, id) == g_scope_lookup(scope_view(sc), id),
    decreases sc.len(),
{
    if sc.len() == 0 {
        assert(scope_view(sc) =~= Seq::<Seq<(Seq<char>, u32)>>::empty());
    } else {
        assert(scope_view(sc).last() == frame_view(sc.last()@));
        assert(scope_view(sc).drop_last() =~= scope_view(sc.drop_last()));
        lemma_frame_lookup_agrees(sc.last()@, id);
        lemma_scope_lookup_agrees(sc.drop_last(), id);
    }
}

/// One statement appended.
pub open spec fn with_stmt(s: LowerState, x: IRStatement) -> LowerState {
    LowerState { statements: s.statements.push(x), ..s }
}

/// The next virtual register; the counter hitting its limit is a fatal
/// internal error.
pub open spec fn sp_alloc(s: LowerState) -> Result<(LowerState, u32), SyntaxError> {
    if s.current_register == u32::MAX {
        Err(SyntaxError::InternalError)
    } else {
        let n = (s.current_register + 1) as u32;
        Ok((LowerState { current_register: n, ..s }, n))
    }
}

/// The three-operand statement a binary operator lowers to.
pub open spec fn binary_statement(
    op: BinaryOperationType,
    rd: u32,
    rs1: u32,
    rs2: u32,
) -> IRStatement {
    let o = IRRegisterStatement { rd: Register(rd), rs1: Register(rs1), rs2: Register(rs2) };
    match op {
        BinaryOperationType::Add => IRStatement::Add(o),
        BinaryOperationType::Subtract => IRStatement::Subtract(o),
        BinaryOperationType::Multiply => IRStatement::Multiply(o),
        BinaryOperationType::Divide => IRStatement::Divide(o),
        BinaryOperationType::Modulus => IRStatement::Modulus(o),
        BinaryOperationType::Exponentiate => IRStatement::Exponentiate(o),
        BinaryOperationType::Equal => IRStatement::Equal(o),
        BinaryOperationType::NotEqual => IRStatement::NotEqual(o),
        BinaryOperationType::GreaterEqual => IRStatement::GreaterEqual(o),
        BinaryOperationType::LessEqual => IRStatement::LessEqual(o),
        BinaryOperationType::Greater => IRStatement::Greater(o),
        BinaryOperationType::Less => IRStatement::Less(o),
        BinaryOperationType::LogicalAnd => IRStatement::LogicalAnd(o),
        BinaryOperationType::LogicalOr => IRStatement::LogicalOr(o),
        BinaryOperationType::BitwiseAnd => IRStatement::BitwiseAnd(o),
        BinaryOperationType::BitwiseOr => IRStatement::BitwiseOr(o),
        BinaryOperationType::BitwiseXor => IRStatement::BitwiseXor(o),
        BinaryOperationType::LeftShift => IRStatement::LeftShift(o),
        BinaryOperationType::RightShift => IRStatement::RightShift(o),
    }
}

/// Expression lowering: the appended code leaves the expression's value in
/// the returned register.  Leaves load immediates or name their bound
/// register; binary operators lower their operands left to right and write
/// a fresh register; `+` is the identity; `-` and `~` load a constant and
/// combine; `!` is one statement; string literals are not lowered.
pub open spec fn sp_walk_expression(s: LowerState, e: Expression) -> Result<
    (LowerState, u32),
    SyntaxError,
>
    decreases e, 0int, 0int,
{
    match e {
        Expression::BinaryOperation(b) => match sp_walk_expression(s, *b.left_expression) {
            Err(e1) => Err(e1),
            Ok((s1, left)) => match sp_walk_expression(s1, *b.right_expression) {
                Err(e2) => Err(e2),
                Ok((s2, right)) => match sp_alloc(s2) {
                    Err(e3) => Err(e3),
                    Ok((s3, rd)) => Ok(
                        (with_stmt(s3, binary_statement(b.operation_type, rd, left, right)), rd),
                    ),
                },
            },
        },
        Expression::UnaryOperation(u) => match sp_walk_expression(s, *u.expression) {
            Err(e1) => Err(e1),
            Ok((s1, operand)) => match u.operation_type {
                UnaryOperationType::Plus => Ok((s1, operand)),
                UnaryOperationType::Minus => match sp_alloc(s1) {
                    Err(e2) => Err(e2),
                    Ok((s2, tmp)) => match sp_alloc(s2) {
                        Err(e3) => Err(e3),
                        Ok((s3, rd)) => Ok(
                            (
                                with_stmt(
                                    with_stmt(
                                        s3,
                                        IRStatement::LoadImmediate(
                                            IRImmediateStatement { rd: Register(tmp), imm: 0 },
                                        ),
                                    ),
                                    IRStatement::Subtract(
                                        IRRegisterStatement {
                                            rd: Register(rd),
                                            rs1: Register(tmp),
                                            rs2: Register(operand),
                                        },
                                    ),
                                ),
                                rd,
                            ),
                        ),
                    },
                },
                UnaryOperationType::BitwiseNot => match sp_alloc(s1) {
                    Err(e2) => Err(e2),
                    Ok((s2, tmp)) => match sp_alloc(s2) {
                        Err(e3) => Err(e3),
                        Ok((s3, rd)) => Ok(
                            (
                                with_stmt(
                                    with_stmt(
                                        s3,
                                        IRStatement::LoadImmediate(
                                            IRImmediateStatement {
                                                rd: Register(tmp),
                                                imm: u64::MAX,
                                            },
                                        ),
                                    ),
                                    IRStatement::BitwiseXor(
                                        IRRegisterStatement {
                                            rd: Register(rd),
                                            rs1: Register(operand),
                                            rs2: Register(tmp),
                                        },
                                    ),
                                ),
                                rd,
                            ),
                        ),
                    },
                },
                UnaryOperationType::LogicalNot => match sp_alloc(s1) {
                    Err(e2) => Err(e2),
                    Ok((s2, rd)) => Ok(
                        (
                            with_stmt(
                                s2,
                                IRStatement::LogicalNot {
                                    rd: Register(rd),
                                    rs1: Register(operand),
                                },
                            ),
                            rd,
                        ),
                    ),
                },
            },
        },
        Expression::Literal(l) => match l {
            Literal::StringLiteral(_) => Err(SyntaxError::UnimplementedStringLiteral),
            Literal::IntegerLiteral(value) => match sp_alloc(s) {
                Err(e1) => Err(e1),
                Ok((s1, rd)) => Ok(
                    (
                        with_stmt(
                            s1,
                            IRStatement::LoadImmediate(
                                IRImmediateStatement { rd: Register(rd), imm: value },
                            ),
                        ),
                        rd,
                    ),
                ),
            },
        },
        Expression::Identifier(name) => match g_scope_lookup(s.scope, name@) {
            None => Err(SyntaxError::UndefinedReference),
            Some(r) => Ok((s, r)),
        },
        Expression::FunctionCall(c) => sp_walk_function_call(s, c),
    }
}

/// Only `print` exists; it lowers its argument and prints that register.
/// Its result names register 1.
pub open spec fn sp_walk_function_call(s: LowerState, c: FunctionCall) -> Result<
    (LowerState, u32),
    SyntaxError,
>
    decreases c, 0int, 0int,
{
    if c.function_name@ == "print"@ {
        match sp_walk_expression(s, *c.argument) {
            Err(e1) => Err(e1),
            Ok((s1, argument)) => Ok(
                (with_stmt(s1, IRStatement::Print { rs1: Register(argument) }), 1u32),
            ),
        }
    } else {
        Err(SyntaxError::UndefinedReference)
    }
}

/// `let` binds the name, in the innermost frame, to the initialiser's
/// result register, or to a fresh register (and emits nothing) without an
/// initialiser.
pub open spec fn sp_walk_let(s: LowerState, l: LetStatement) -> Result<LowerState, SyntaxError>
    decreases l, 0int, 0int,
{
    let lowered = match l.expression {
        None => sp_alloc(s),
        Some(e) => sp_walk_expression(s, e),
    };
    match lowered {
        Err(e1) => Err(e1),
        Ok((s1, register)) => if s1.scope.len() == 0 {
            Err(SyntaxError::InternalError)
        } else {
            Ok(
                LowerState {
                    scope: s1.scope.update(
                        s1.scope.len() - 1,
                        s1.scope.last().push((l.identifier@, register)),
                    ),
                    ..s1
                },
            )
        },
    }
}

/// Assignment resolves the name (an unbound name is the error), lowers the
/// right-hand side to `rs1`, and moves its value into the variable's
/// register by adding a freshly loaded zero.
pub open spec fn sp_walk_assignment(s: LowerState, a: AssignmentStatement) -> Result<
    LowerState,
    SyntaxError,
>
    decreases a, 0int, 0int,
{
    match g_scope_lookup(s.scope, a.identifier@) {
        None => Err(SyntaxError::AssignedUndeclaredVariable),
        Some(rd) => match sp_walk_expression(s, a.expression) {
            Err(e1) => Err(e1),
            Ok((s1, rs1)) => match sp_alloc(s1) {
                Err(e2) => Err(e2),
                Ok((s2, tmp)) => Ok(
                    with_stmt(
                        with_stmt(
                            s2,
                            IRStatement::LoadImmediate(
                                IRImmediateStatement { rd: Register(tmp), imm: 0 },
                            ),
                        ),
                        IRStatement::Add(
                            IRRegisterStatement {
                                rd: Register(rd),
                                rs1: Register(rs1),
                                rs2: Register(tmp),
                            },
                        ),
                    ),
                ),
            },
        },
    }
}

/// `break` is a jump to the innermost loop's break label.
pub open spec fn sp_walk_break(s: LowerState) -> Result<LowerState, SyntaxError> {
    match s.current_loop_break_label {
        Some(l) => Ok(with_stmt(s, IRStatement::Branch(IRBranchStatement { label: Label(l) }))),
        None => Err(SyntaxError::BreakStatementOutsideLoop),
    }
}

/// `continue` is a jump to the innermost loop's continue label.
pub open spec fn sp_walk_continue(s: LowerState) -> Result<LowerState, SyntaxError> {
    match s.current_loop_continue_label {
        Some(l) => Ok(with_stmt(s, IRStatement::Branch(IRBranchStatement { label: Label(l) }))),
        None => Err(SyntaxError::ContinueStatementOutsideLoop),
    }
}

/// One statement lowered.
pub open spec fn sp_walk_statement(s: LowerState, stmt: Statement) -> Result<
    LowerState,
    SyntaxError,
>
    decreases stmt, 0int, 1int,
{
    match stmt {
        Statement::LetStatement(l) => sp_walk_let(s, l),
        Statement::Assignment(a) => sp_walk_assignment(s, a),
        Statement::IfStatement(i) => sp_walk_if(s, i),
        Statement::BreakStatement(_) => sp_walk_break(s),
        Statement::ContinueStatement(_) => sp_walk_continue(s),
        Statement::LoopStatement(l) => sp_walk_loop(s, l),
        Statement::WhileStatement(w) => sp_walk_while(s, w),
        Statement::Expression(e) => match sp_walk_expression(s, e) {
            Err(e1) => Err(e1),
            Ok((s1, _)) => Ok(s1),
        },
        Statement::EmptyStatement => Ok(s),
    }
}

/// A statement list lowered front to back.
pub open spec fn sp_walk_stmts(s: LowerState, ss: Seq<Statement>) -> Result<
    LowerState,
    SyntaxError,
>
    decreases ss, 0int, 0int,
{
    if ss.len() == 0 {
        Ok(s)
    } else {
        match sp_walk_statement(s, ss.first()) {
            Err(e1) => Err(e1),
            Ok(s1) => sp_walk_stmts(s1, ss.drop_first()),
        }
    }
}

/// A block: a fresh innermost frame for its statements, discarded when the
/// block exits, so an inner binding shadows exactly until here.
pub open spec fn sp_walk_block(s: LowerState, b: Block) -> Result<LowerState, SyntaxError>
    decreases b, 0int, 2int,
{
    let entered = LowerState { scope: s.scope.push(Seq::empty()), ..s };
    match sp_walk_stmts(entered, b.statements@) {
        Err(e1) => Err(e1),
        Ok(s1) => Ok(LowerState { scope: s1.scope.drop_last(), ..s1 }),
    }
}

/// The conditions of the `else if` arms: each lowers and branches to its
/// arm's label, labels counting up from `label`.
pub open spec fn sp_if_conditions(
    s: LowerState,
    arms: Seq<ConditionWithBlock>,
    label: u32,
) -> Result<LowerState, SyntaxError>
    decreases arms, 0int, 0int,
{
    if arms.len() == 0 {
        Ok(s)
    } else {
        match sp_walk_expression(s, arms.first().condition) {
            Err(e1) => Err(e1),
            Ok((s1, c)) => sp_if_conditions(
                with_stmt(
                    s1,
                    IRStatement::BranchNotZero(
                        IRConditionalBranchStatement {
                            register: Register(c),
                            label: Label(label),
                        },
                    ),
                ),
                arms.drop_first(),
                if label == u32::MAX {
                    0u32
                } else {
                    (label + 1) as u32
                },
            ),
        }
    }
}

/// The bodies of the `else if` arms: each is its label, its block, and a
/// jump to the join point.
pub open spec fn sp_if_bodies(
    s: LowerState,
    arms: Seq<ConditionWithBlock>,
    label: u32,
    done: u32,
) -> Result<LowerState, SyntaxError>
    decreases arms, 0int, 1int,
{
    if arms.len() == 0 {
        Ok(s)
    } else {
        let headed = with_stmt(s, IRStatement::Label(IRLabelStatement { label: Label(label) }));
        match sp_walk_block(headed, arms.first().block) {
            Err(e1) => Err(e1),
            Ok(s1) => sp_if_bodies(
                with_stmt(s1, IRStatement::Branch(IRBranchStatement { label: Label(done) })),
                arms.drop_first(),
                if label == u32::MAX {
                    0u32
                } else {
                    (label + 1) as u32
                },
                done,
            ),
        }
    }
}

/// The `if` statement: labels for the then-arm, each `else if` arm, the
/// `else` arm and the join point are allocated up front (advancing the
/// label counter by the arm count plus three); each condition branches to
/// its arm, every arm jumps to the join point, and the `else` label is
/// emitted whether or not an `else` block exists.
pub open spec fn sp_walk_if(s: LowerState, i: IfStatement) -> Result<LowerState, SyntaxError>
    decreases i, 0int, 1int,
{
    if i.else_if@.len() >= u32::MAX || s.current_label + 3 + i.else_if@.len() > u32::MAX {
        Err(SyntaxError::InternalError)
    } else {
        let if_label = (s.current_label + 1) as u32;
        let first_else_if_label = (if_label + 1) as u32;
        let else_label = (first_else_if_label + i.else_if@.len()) as u32;
        let done_label = (else_label + 1) as u32;
        let s0 = LowerState { current_label: done_label, ..s };
        match sp_walk_expression(s0, i._if.condition) {
            Err(e1) => Err(e1),
            Ok((s1, c)) => {
                let s2 = with_stmt(
                    s1,
                    IRStatement::BranchNotZero(
                        IRConditionalBranchStatement {
                            register: Register(c),
                            label: Label(if_label),
                        },
                    ),
                );
                match sp_if_conditions(s2, i.else_if@, first_else_if_label) {
                    Err(e2) => Err(e2),
                    Ok(s3) => {
                        let arm_or_done = if i._else is Some {
                            else_label
                        } else {
                            done_label
                        };
                        let s4 = with_stmt(
                            s3,
                            IRStatement::Branch(IRBranchStatement { label: Label(arm_or_done) }),
                        );
                        let s5 = with_stmt(
                            s4,
                            IRStatement::Label(IRLabelStatement { label: Label(if_label) }),
                        );
                        match sp_walk_block(s5, i._if.block) {
                            Err(e3) => Err(e3),
                            Ok(s6) => {
                                let s7 = with_stmt(
                                    s6,
                                    IRStatement::Branch(
                                        IRBranchStatement { label: Label(done_label) },
                                    ),
                                );
                                match sp_if_bodies(
                                    s7,
                                    i.else_if@,
                                    first_else_if_label,
                                    done_label,
                                ) {
                                    Err(e4) => Err(e4),
                                    Ok(s8) => {
                                        let s9 = with_stmt(
                                            s8,
                                            IRStatement::Label(
                                                IRLabelStatement { label: Label(else_label) },
                                            ),
                                        );
                                        let after_else = match i._else {
                                            None => Ok(s9),
                                            Some(b) => sp_walk_block(s9, b),
                                        };
                                        match after_else {
                                            Err(e5) => Err(e5),
                                            Ok(s10) => Ok(
                                                with_stmt(
                                                    s10,
                                                    IRStatement::Label(
                                                        IRLabelStatement {
                                                            label: Label(done_label),
                                                        },
                                                    ),
                                                ),
                                            ),
                                        }
                                    },
                                }
                            },
                        }
                    },
                }
            },
        }
    }
}

/// `loop`: start, continue and break labels; the body is lowered with the
/// loop context installed and the previous context restored after; the
/// tail is the continue label, the jump back to the start, and the break
/// label.
pub open spec fn sp_walk_loop(s: LowerState, l: LoopStatement) -> Result<LowerState, SyntaxError>
    decreases l, 0int, 1int,
{
    if s.current_label + 3 > u32::MAX {
        Err(SyntaxError::InternalError)
    } else {
        let start = (s.current_label + 1) as u32;
        let cont = (start + 1) as u32;
        let brk = (cont + 1) as u32;
        let s0 = LowerState { current_label: brk, ..s };
        let s1 = with_stmt(s0, IRStatement::Label(IRLabelStatement { label: Label(start) }));
        let entered = LowerState {
            current_loop_continue_label: Some(cont),
            current_loop_break_label: Some(brk),
            ..s1
        };
        match sp_walk_block(entered, l.block) {
            Err(e1) => Err(e1),
            Ok(s2) => {
                let restored = LowerState {
                    current_loop_continue_label: s.current_loop_continue_label,
                    current_loop_break_label: s.current_loop_break_label,
                    ..s2
                };
                Ok(
                    with_stmt(
                        with_stmt(
                            with_stmt(
                                restored,
                                IRStatement::Label(IRLabelStatement { label: Label(cont) }),
                            ),
                            IRStatement::Branch(IRBranchStatement { label: Label(start) }),
                        ),
                        IRStatement::Label(IRLabelStatement { label: Label(brk) }),
                    ),
                )
            },
        }
    }
}

/// `while`: as `loop`, with the condition lowered at the start and a
/// branch past the end when it is zero.
pub open spec fn sp_walk_while(s: LowerState, w: WhileStatement) -> Result<LowerState, SyntaxError>
    decreases w, 0int, 1int,
{
    if s.current_label + 3 > u32::MAX {
        Err(SyntaxError::InternalError)
    } else {
        let start = (s.current_label + 1) as u32;
        let cont = (start + 1) as u32;
        let brk = (cont + 1) as u32;
        let s0 = LowerState { current_label: brk, ..s };
        let s1 = with_stmt(s0, IRStatement::Label(IRLabelStatement { label: Label(start) }));
        match sp_walk_expression(s1, w.condition) {
            Err(e1) => Err(e1),
            Ok((s2, c)) => {
                let s3 = with_stmt(
                    s2,
                    IRStatement::BranchZero(
                        IRConditionalBranchStatement {
                            register: Register(c),
                            label: Label(brk),
                        },
                    ),
                );
                let entered = LowerState {
                    current_loop_continue_label: Some(cont),
                    current_loop_break_label: Some(brk),
                    ..s3
                };
                match sp_walk_block(entered, w.block) {
                    Err(e2) => Err(e2),
                    Ok(s4) => {
                        let restored = LowerState {
                            current_loop_continue_label: s.current_loop_continue_label,
                            current_loop_break_label: s.current_loop_break_label,
                            ..s4
                        };
                        Ok(
                            with_stmt(
                                with_stmt(
                                    with_stmt(
                                        restored,
                                        IRStatement::Label(
                                            IRLabelStatement { label: Label(cont) },
                                        ),
                                    ),
                                    IRStatement::Branch(
                                        IRBranchStatement { label: Label(start) },
                                    ),
                                ),
                                IRStatement::Label(IRLabelStatement { label: Label(brk) }),
                            ),
                        )
                    },
                }
            },
        }
    }
}

/// The initial lowering state.
pub open spec fn initial_lower_state() -> LowerState {
    LowerState {
        statements: Seq::empty(),
        scope: Seq::empty(),
        current_register: 0,
        current_label: 0,
        current_loop_continue_label: None,
        current_loop_break_label: None,
    }
}

/// A whole program lowered from the empty state, then held to the
/// well-formedness check `get_ir` performs.
pub open spec fn sp_get_ir(b: Block) -> Result<Seq<IRStatement>, SyntaxError> {
    match sp_walk_block(initial_lower_state(), b) {
        Err(e) => Err(e),
        Ok(s) => if labels_unique(s.statements) && branch_targets_defined(s.statements) {
            Ok(s.statements)
        } else {
            Err(SyntaxError::InternalError)
        },
    }
}

/// An empty block lowers to the empty program: no statements, and the
/// well-formedness check passes vacuously.
pub proof fn lemma_empty_block_lowers_to_empty(b: Block)
    requires
        b.statements@.len() == 0,
    ensures
        sp_get_ir(b) == Ok::<Seq<IRStatement>, SyntaxError>(Seq::empty()),
{
    let init = initial_lower_state();
    let entered = LowerState { scope: init.scope.push(Seq::empty()), ..init };
    assert(sp_walk_stmts(entered, b.statements@) == Ok::<LowerState, SyntaxError>(entered));
    assert(entered.scope.drop_last() =~= init.scope);
    assert(sp_walk_block(init, b) matches Ok(s) && s.statements =~= Seq::<IRStatement>::empty());
    assert(labels_unique(Seq::<IRStatement>::empty()));
    assert(branch_targets_defined(Seq::<IRStatement>::empty()));
}

// ---------------------------------------------------------------------------
// Walkers
// ---------------------------------------------------------------------------

/// The scope discipline of a statement walker: the chain keeps its depth,
/// and only the innermost frame may gain bindings.
pub open spec fn scope_shape_kept(pre: IRState, post: IRState) -> bool {
    &&& post.scope@.len() == pre.scope@.len()
    &&& forall|i: int| 0 <= i < pre.scope@.len() - 1 ==> post.scope@[i] == pre.scope@[i]
}

/// The loop context of a walker: what `break` and `continue` jump to is
/// the same before and after.
pub open spec fn loop_labels_kept(pre: IRState, post: IRState) -> bool {
    &&& post.current_loop_continue_label == pre.current_loop_continue_label
    &&& post.current_loop_break_label == pre.current_loop_break_label
}

/// Allocates the next virtual register.
fn alloc_register(st: &mut IRState) -> (r: Result<u32, SyntaxError>)
    ensures
        final(st).statements == old(st).statements,
        final(st).scope == old(st).scope,
        loop_labels_kept(*old(st), *final(st)),
        final(st).current_label == old(st).current_label,
        r is Err ==> *final(st) == *old(st),
        match sp_alloc(lower_view(*old(st))) {
            Err(e) => r == Err::<u32, SyntaxError>(e),
            Ok((s2, n)) => r == Ok::<u32, SyntaxError>(n) && lower_view(*final(st)) == s2,
        },
{
    match st.current_register.checked_add(1) {
        Some(n) => {
            st.current_register = n;
            Ok(n)
        },
        None => Err(SyntaxError::InternalError),
    }
}

/// Emits one three-operand statement into a fresh register.
fn push_binary_statement(st: &mut IRState, op: BinaryOperationType, rs1: u32, rs2: u32) -> (r:
    Result<u32, SyntaxError>)
    ensures
        final(st).scope == old(st).scope,
        loop_labels_kept(*old(st), *final(st)),
        final(st).current_label == old(st).current_label,
        r is Err ==> *final(st) == *old(st),
        match sp_alloc(lower_view(*old(st))) {
            Err(e) => r == Err::<u32, SyntaxError>(e),
            Ok((s2, rd)) => r == Ok::<u32, SyntaxError>(rd) && lower_view(*final(st)) == with_stmt(
                s2,
                binary_statement(op, rd, rs1, rs2),
            ),
        },
{
    let rd = alloc_register(st)?;
    let operands = IRRegisterStatement {
        rd: Register(rd),
        rs1: Register(rs1),
        rs2: Register(rs2),
    };
    let statement = match op {
        BinaryOperationType::Add => IRStatement::Add(operands),
        BinaryOperationType::Subtract => IRStatement::Subtract(operands),
        BinaryOperationType::Multiply => IRStatement::Multiply(operands),
        BinaryOperationType::Divide => IRStatement::Divide(operands),
        BinaryOperationType::Modulus => IRStatement::Modulus(operands),
        BinaryOperationType::Exponentiate => IRStatement::Exponentiate(operands),
        BinaryOperationType::Equal => IRStatement::Equal(operands),
        BinaryOperationType::NotEqual => IRStatement::NotEqual(operands),
        BinaryOperationType::GreaterEqual => IRStatement::GreaterEqual(operands),
        BinaryOperationType::LessEqual => IRStatement::LessEqual(operands),
        BinaryOperationType::Greater => IRStatement::Greater(operands),
        BinaryOperationType::Less => IRStatement::Less(operands),
        BinaryOperationType::LogicalAnd => IRStatement::LogicalAnd(operands),
        BinaryOperationType::LogicalOr => IRStatement::LogicalOr(operands),
        BinaryOperationType::BitwiseAnd => IRStatement::BitwiseAnd(operands),
        BinaryOperationType::BitwiseOr => IRStatement::BitwiseOr(operands),
        BinaryOperationType::BitwiseXor => IRStatement::BitwiseXor(operands),
        BinaryOperationType::LeftShift => IRStatement::LeftShift(operands),
        BinaryOperationType::RightShift => IRStatement::RightShift(operands),
    };
    st.statements.push(statement);
    Ok(rd)
}

/// Lowers an expression, exactly as `sp_walk_expression` prescribes; the
/// result names the register holding the expression's value.
pub fn walk_expression(st: &mut IRState, expression: &Expression) -> (r: Result<u32, SyntaxError>)
    ensures
        final(st).scope == old(st).scope,
        loop_labels_kept(*old(st), *final(st)),
        r != Err::<u32, SyntaxError>(SyntaxError::AssignedUndeclaredVariable),
        match sp_walk_expression(lower_view(*old(st)), *expression) {
            Err(e) => r == Err::<u32, SyntaxError>(e),
            Ok((s2, reg)) => r == Ok::<u32, SyntaxError>(reg) && lower_view(*final(st)) == s2,
        },
    decreases *expression, 0int, 0int,
{
    match expression {
        Expression::BinaryOperation(binary_op) => {
            let left = walk_expression(st, &*binary_op.left_expression)?;
            let right = walk_expression(st, &*binary_op.right_expression)?;
            push_binary_statement(st, binary_op.operation_type, left, right)
        },
        Expression::UnaryOperation(unary_op) => {
            let operand = walk_expression(st, &*unary_op.expression)?;
            match unary_op.operation_type {
                UnaryOperationType::Plus => Ok(operand),
                UnaryOperationType::Minus => {
                    let tmp = alloc_register(st)?;
                    let rd = alloc_register(st)?;
                    st.statements.push(
                        IRStatement::LoadImmediate(
                            IRImmediateStatement { rd: Register(tmp), imm: 0 },
                        ),
                    );
                    st.statements.push(
                        IRStatement::Subtract(
                            IRRegisterStatement {
                                rd: Register(rd),
                                rs1: Register(tmp),
                                rs2: Register(operand),
                            },
                        ),
                    );
                    Ok(rd)
                },
                UnaryOperationType::BitwiseNot => {
                    let tmp = alloc_register(st)?;
                    let rd = alloc_register(st)?;
                    st.statements.push(
                        IRStatement::LoadImmediate(
                            IRImmediateStatement { rd: Register(tmp), imm: u64::MAX },
                        ),
                    );
                    st.statements.push(
                        IRStatement::BitwiseXor(
                            IRRegisterStatement {
                                rd: Register(rd),
                                rs1: Register(operand),
                                rs2: Register(tmp),
                            },
                        ),
                    );
                    Ok(rd)
                },
                UnaryOperationType::LogicalNot => {
                    let rd = alloc_register(st)?;
                    st.statements.push(
                        IRStatement::LogicalNot { rd: Register(rd), rs1: Register(operand) },
                    );
                    Ok(rd)
                },
            }
        },
        Expression::Literal(literal) => match literal {
            Literal::StringLiteral(_) => Err(SyntaxError::UnimplementedStringLiteral),
            Literal::IntegerLiteral(value) => {
                let rd = alloc_register(st)?;
                st.statements.push(
                    IRStatement::LoadImmediate(
                        IRImmediateStatement { rd: Register(rd), imm: *value },
                    ),
                );
                Ok(rd)
            },
        },
        Expression::Identifier(identifier) => {
            proof {
                lemma_scope_lookup_agrees(st.scope@, identifier@);
            }
            match get_identifier_register(&st.scope, identifier) {
                None => Err(SyntaxError::UndefinedReference),
                Some(register) => Ok(register),
            }
        },
        Expression::FunctionCall(call) => walk_function_call(st, call),
    }
}

/// Lowers a call of a built-in function; only `print` exists.
fn walk_function_call(st: &mut IRState, call: &FunctionCall) -> (r: Result<u32, SyntaxError>)
    ensures
        final(st).scope == old(st).scope,
        loop_labels_kept(*old(st), *final(st)),
        r != Err::<u32, SyntaxError>(SyntaxError::AssignedUndeclaredVariable),
        match sp_walk_function_call(lower_view(*old(st)), *call) {
            Err(e) => r == Err::<u32, SyntaxError>(e),
            Ok((s2, reg)) => r == Ok::<u32, SyntaxError>(reg) && lower_view(*final(st)) == s2,
        },
    decreases *call, 0int, 1int,
{
    proof {
        reveal_strlit("print");
    }
    let print_name: String = "print".to_owned();
    if call.function_name == print_name {
        let argument = walk_expression(st, &*call.argument)?;
        st.statements.push(IRStatement::Print { rs1: Register(argument) });
        Ok(1)
    } else {
        Err(SyntaxError::UndefinedReference)
    }
}

/// Lowers a `let`, exactly as `sp_walk_let` prescribes: the name is bound
/// in the innermost frame to the initialiser's result register, or to a
/// fresh one.
pub fn walk_let_statement(st: &mut IRState, let_statement: &LetStatement) -> (r: Result<
    (),
    SyntaxError,
>)
    ensures
        r is Ok ==> scope_shape_kept(*old(st), *final(st)),
        loop_labels_kept(*old(st), *final(st)),
        match sp_walk_let(lower_view(*old(st)), *let_statement) {
            Err(e) => r == Err::<(), SyntaxError>(e),
            Ok(s2) => r is Ok && lower_view(*final(st)) == s2,
        },
    decreases *let_statement, 0int, 0int,
{
    let register = match &let_statement.expression {
        None => alloc_register(st)?,
        Some(expression) => walk_expression(st, expression)?,
    };
    let name = let_statement.identifier.as_str().to_owned();
    let mut frame = match st.scope.pop() {
        Some(frame) => frame,
        None => {
            return Err(SyntaxError::InternalError);
        },
    };
    let ghost frame0 = frame@;
    let ghost scope_before = st.scope@.push(frame);
    frame.push((name, register));
    st.scope.push(frame);
    proof {
        assert(frame_view(frame0.push((name, register))) =~= frame_view(frame0).push(
            (let_statement.identifier@, register),
        ));
        assert(scope_view(st.scope@) =~~= scope_view(scope_before).update(
            scope_view(scope_before).len() - 1,
            scope_view(scope_before).last().push((let_statement.identifier@, register)),
        ));
    }
    Ok(())
}

/// Lowers an assignment, exactly as `sp_walk_assignment` prescribes: an
/// unbound name is the error `AssignedUndeclaredVariable` (and nothing is
/// emitted then); otherwise the right-hand side's value is moved into the
/// variable's register by adding a freshly loaded zero.
pub fn walk_assignment_statement(st: &mut IRState, assignment_statement: &AssignmentStatement) -> (r:
    Result<(), SyntaxError>)
    ensures
        final(st).scope == old(st).scope,
        loop_labels_kept(*old(st), *final(st)),
        r == Err::<(), SyntaxError>(SyntaxError::AssignedUndeclaredVariable) <==> scope_lookup(
            old(st).scope@,
            assignment_statement.identifier@,
        ) is None,
        scope_lookup(old(st).scope@, assignment_statement.identifier@) is None
            ==> final(st).statements == old(st).statements,
        match sp_walk_assignment(lower_view(*old(st)), *assignment_statement) {
            Err(e) => r == Err::<(), SyntaxError>(e),
            Ok(s2) => r is Ok && lower_view(*final(st)) == s2,
        },
    decreases *assignment_statement, 0int, 0int,
{
    proof {
        lemma_scope_lookup_agrees(st.scope@, assignment_statement.identifier@);
    }
    let rd = match get_identifier_register(&st.scope, &assignment_statement.identifier) {
        None => {
            return Err(SyntaxError::AssignedUndeclaredVariable);
        },
        Some(symbol) => symbol,
    };
    let rs1 = walk_expression(st, &assignment_statement.expression)?;
    let tmp = alloc_register(st)?;
    st.statements.push(
        IRStatement::LoadImmediate(IRImmediateStatement { rd: Register(tmp), imm: 0 }),
    );
    st.statements.push(
        IRStatement::Add(
            IRRegisterStatement { rd: Register(rd), rs1: Register(rs1), rs2: Register(tmp) },
        ),
    );
    Ok(())
}

/// Lowers `break`: a jump to the innermost loop's break label, or the
/// outside-a-loop error, exactly one or the other.
pub fn walk_break_statement(st: &mut IRState) -> (r: Result<(), SyntaxError>)
    ensures
        final(st).scope == old(st).scope,
        loop_labels_kept(*old(st), *final(st)),
        match sp_walk_break(lower_view(*old(st))) {
            Err(e) => r == Err::<(), SyntaxError>(e) && final(st).statements == old(st).statements,
            Ok(s2) => r is Ok && lower_view(*final(st)) == s2,
        },
{
    match st.current_loop_break_label {
        Some(label) => {
            st.statements.push(IRStatement::Branch(IRBranchStatement { label: Label(label) }));
            Ok(())
        },
        None => Err(SyntaxError::BreakStatementOutsideLoop),
    }
}

/// Lowers `continue`: a jump to the innermost loop's continue label, or
/// the outside-a-loop error, exactly one or the other.
pub fn walk_continue_statement(st: &mut IRState) -> (r: Result<(), SyntaxError>)
    ensures
        final(st).scope == old(st).scope,
        loop_labels_kept(*old(st), *final(st)),
        match sp_walk_continue(lower_view(*old(st))) {
            Err(e) => r == Err::<(), SyntaxError>(e) && final(st).statements == old(st).statements,
            Ok(s2) => r is Ok && lower_view(*final(st)) == s2,
        },
{
    match st.current_loop_continue_label {
        Some(label) => {
            st.statements.push(IRStatement::Branch(IRBranchStatement { label: Label(label) }));
            Ok(())
        },
        None => Err(SyntaxError::ContinueStatementOutsideLoop),
    }
}

/// Lowers one statement, exactly as `sp_walk_statement` prescribes.
pub fn walk_statement(st: &mut IRState, statement: &Statement) -> (r: Result<(), SyntaxError>)
    ensures
        r is Ok ==> scope_shape_kept(*old(st), *final(st)),
        loop_labels_kept(*old(st), *final(st)),
        match sp_walk_statement(lower_view(*old(st)), *statement) {
            Err(e) => r == Err::<(), SyntaxError>(e),
            Ok(s2) => r is Ok && lower_view(*final(st)) == s2,
        },
    decreases *statement, 0int, 3int,
{
    match statement {
        Statement::LetStatement(let_stmt) => walk_let_statement(st, let_stmt),
        Statement::Assignment(assignment_stmt) => walk_assignment_statement(st, assignment_stmt),
        Statement::IfStatement(if_stmt) => walk_if_statement(st, if_stmt),
        Statement::BreakStatement(_) => walk_break_statement(st),
        Statement::ContinueStatement(_) => walk_continue_statement(st),
        Statement::LoopStatement(loop_stmt) => walk_loop_statement(st, loop_stmt),
        Statement::WhileStatement(while_stmt) => walk_while_statement(st, while_stmt),
        Statement::Expression(expr) => match walk_expression(st, expr) {
            Ok(_) => Ok(()),
            Err(e) => Err(e),
        },
        Statement::EmptyStatement => Ok(()),
    }
}

/// Lowers the statements of a block from position `k` on.
fn walk_statements(st: &mut IRState, statements: &Vec<Statement>, k: usize) -> (r: Result<
    (),
    SyntaxError,
>)
    requires
        k <= statements@.len(),
    ensures
        r is Ok ==> scope_shape_kept(*old(st), *final(st)),
        loop_labels_kept(*old(st), *final(st)),
        match sp_walk_stmts(lower_view(*old(st)), statements@.skip(k as int)) {
            Err(e) => r == Err::<(), SyntaxError>(e),
            Ok(s2) => r is Ok && lower_view(*final(st)) == s2,
        },
    decreases *statements, statements@.len() - k, 0int,
{
    let ghost suffix = statements@.skip(k as int);
    if k == statements.len() {
        proof {
            assert(suffix.len() == 0);
        }
        return Ok(());
    }
    proof {
        assert(suffix.first() == statements@[k as int]);
        assert(suffix.drop_first() =~= statements@.skip(k + 1));
    }
    let statement = &statements[k];
    match walk_statement(st, statement) {
        Err(e) => {
            return Err(e);
        },
        Ok(_) => {},
    }
    walk_statements(st, statements, k + 1)
}

/// Lowers a block, exactly as `sp_walk_block` prescribes: a fresh
/// innermost frame for its statements, discarded when the block exits, so
/// the chain is exactly as it was — an inner `let` shadows only until
/// here.
pub fn walk_block(st: &mut IRState, block: &Block) -> (r: Result<(), SyntaxError>)
    ensures
        r is Ok ==> final(st).scope@ == old(st).scope@,
        loop_labels_kept(*old(st), *final(st)),
        match sp_walk_block(lower_view(*old(st)), *block) {
            Err(e) => r == Err::<(), SyntaxError>(e),
            Ok(s2) => r is Ok && lower_view(*final(st)) == s2,
        },
    decreases *block, 0int, 4int,
{
    let ghost pre = lower_view(*st);
    let ghost scope0 = st.scope@;
    st.scope.push(Vec::new());
    proof {
        assert(scope_view(st.scope@) =~~= scope_view(scope0).push(
            Seq::<(Seq<char>, u32)>::empty(),
        ));
        assert(lower_view(*st) =~~= LowerState { scope: pre.scope.push(Seq::empty()), ..pre });
        assert(block.statements@.skip(0) =~= block.statements@);
    }
    match walk_statements(st, &block.statements, 0) {
        Err(e) => {
            return Err(e);
        },
        Ok(_) => {},
    }
    let ghost before_pop = st.scope@;
    st.scope.pop();
    proof {
        assert(st.scope@ =~= scope0);
        assert(scope_view(before_pop).drop_last() =~~= scope_view(before_pop.drop_last()));
    }
    Ok(())
}

/// Lowers the conditions of the `else if` arms from position `k` on, each
/// branching to its arm's label.
fn walk_if_conditions(
    st: &mut IRState,
    arms: &Vec<ConditionWithBlock>,
    k: usize,
    label: u32,
) -> (r: Result<(), SyntaxError>)
    requires
        k <= arms@.len(),
    ensures
        final(st).scope == old(st).scope,
        loop_labels_kept(*old(st), *final(st)),
        match sp_if_conditions(lower_view(*old(st)), arms@.skip(k as int), label) {
            Err(e) => r == Err::<(), SyntaxError>(e),
            Ok(s2) => r is Ok && lower_view(*final(st)) == s2,
        },
    decreases arms@.len() - k,
{
    let ghost suffix = arms@.skip(k as int);
    if k == arms.len() {
        proof {
            assert(suffix.len() == 0);
        }
        return Ok(());
    }
    proof {
        assert(suffix.first() == arms@[k as int]);
        assert(suffix.drop_first() =~= arms@.skip(k + 1));
    }
    let arm = &arms[k];
    let condition_register = walk_expression(st, &arm.condition)?;
    st.statements.push(
        IRStatement::BranchNotZero(
            IRConditionalBranchStatement {
                register: Register(condition_register),
                label: Label(label),
            },
        ),
    );
    let next_label = if label == u32::MAX {
        0
    } else {
        label + 1
    };
    walk_if_conditions(st, arms, k + 1, next_label)
}

/// Lowers the bodies of the `else if` arms from position `k` on: label,
/// block, jump to the join point.
fn walk_if_bodies(
    st: &mut IRState,
    arms: &Vec<ConditionWithBlock>,
    k: usize,
    label: u32,
    done: u32,
) -> (r: Result<(), SyntaxError>)
    requires
        k <= arms@.len(),
    ensures
        r is Ok ==> final(st).scope@ == old(st).scope@,
        loop_labels_kept(*old(st), *final(st)),
        match sp_if_bodies(lower_view(*old(st)), arms@.skip(k as int), label, done) {
            Err(e) => r == Err::<(), SyntaxError>(e),
            Ok(s2) => r is Ok && lower_view(*final(st)) == s2,
        },
    decreases *arms, arms@.len() - k, 0int,
{
    let ghost suffix = arms@.skip(k as int);
    if k == arms.len() {
        proof {
            assert(suffix.len() == 0);
        }
        return Ok(());
    }
    proof {
        assert(suffix.first() == arms@[k as int]);
        assert(suffix.drop_first() =~= arms@.skip(k + 1));
    }
    let arm = &arms[k];
    st.statements.push(IRStatement::Label(IRLabelStatement { label: Label(label) }));
    match walk_block(st, &arm.block) {
        Err(e) => {
            return Err(e);
        },
        Ok(_) => {},
    }
    st.statements.push(IRStatement::Branch(IRBranchStatement { label: Label(done) }));
    let next_label = if label == u32::MAX {
        0
    } else {
        label + 1
    };
    walk_if_bodies(st, arms, k + 1, next_label, done)
}

/// Lowers an `if`, exactly as `sp_walk_if` prescribes: labels for the
/// then-arm, each `else if` arm, the `else` arm and the join point are
/// allocated up front; each condition branches to its arm, every arm
/// jumps to the join point, and the `else` label is emitted whether or
/// not an `else` block exists.
#[verifier::rlimit(100)]
#[verifier::spinoff_prover]
pub fn walk_if_statement(st: &mut IRState, if_statement: &IfStatement) -> (r: Result<
    (),
    SyntaxError,
>)
    ensures
        r is Ok ==> final(st).scope@ == old(st).scope@,
        loop_labels_kept(*old(st), *final(st)),
        match sp_walk_if(lower_view(*old(st)), *if_statement) {
            Err(e) => r == Err::<(), SyntaxError>(e),
            Ok(s2) => r is Ok && lower_view(*final(st)) == s2,
        },
    decreases *if_statement, 0int, 2int,
{
    let n_arms = if_statement.else_if.len();
    if n_arms >= u32::MAX as usize {
        return Err(SyntaxError::InternalError);
    }
    let arms32 = n_arms as u32;
    let if_label = match st.current_label.checked_add(1) {
        Some(l) => l,
        None => {
            return Err(SyntaxError::InternalError);
        },
    };
    let else_label = match if_label.checked_add(1 + arms32) {
        Some(l) => l,
        None => {
            return Err(SyntaxError::InternalError);
        },
    };
    let first_else_if_label = if_label + 1;
    let done_label = match else_label.checked_add(1) {
        Some(l) => l,
        None => {
            return Err(SyntaxError::InternalError);
        },
    };
    st.current_label = done_label;
    // Conditions
    let if_condition = walk_expression(st, &if_statement._if.condition)?;
    st.statements.push(
        IRStatement::BranchNotZero(
            IRConditionalBranchStatement {
                register: Register(if_condition),
                label: Label(if_label),
            },
        ),
    );
    proof {
        assert(if_statement.else_if@.skip(0) =~= if_statement.else_if@);
    }
    walk_if_conditions(st, &if_statement.else_if, 0, first_else_if_label)?;
    // Branch to else or done
    match if_statement._else {
        Some(_) => st.statements.push(
            IRStatement::Branch(IRBranchStatement { label: Label(else_label) }),
        ),
        None => st.statements.push(
            IRStatement::Branch(IRBranchStatement { label: Label(done_label) }),
        ),
    }
    // Then-arm
    st.statements.push(IRStatement::Label(IRLabelStatement { label: Label(if_label) }));
    walk_block(st, &if_statement._if.block)?;
    st.statements.push(IRStatement::Branch(IRBranchStatement { label: Label(done_label) }));
    // Else-if arms
    walk_if_bodies(st, &if_statement.else_if, 0, first_else_if_label, done_label)?;
    // Else arm; the label is emitted whether or not an else block exists
    st.statements.push(IRStatement::Label(IRLabelStatement { label: Label(else_label) }));
    match &if_statement._else {
        None => {},
        Some(block) => {
            walk_block(st, block)?;
        },
    }
    st.statements.push(IRStatement::Label(IRLabelStatement { label: Label(done_label) }));
    Ok(())
}

/// Lowers `loop`, exactly as `sp_walk_loop` prescribes: start, continue
/// and break labels; the body jumps back to the start, and `break` leaves
/// past the end; the enclosing loop's context is restored after.
pub fn walk_loop_statement(st: &mut IRState, loop_statement: &LoopStatement) -> (r: Result<
    (),
    SyntaxError,
>)
    ensures
        r is Ok ==> final(st).scope@ == old(st).scope@,
        loop_labels_kept(*old(st), *final(st)),
        match sp_walk_loop(lower_view(*old(st)), *loop_statement) {
            Err(e) => r == Err::<(), SyntaxError>(e),
            Ok(s2) => r is Ok && lower_view(*final(st)) == s2,
        },
    decreases *loop_statement, 0int, 2int,
{
    let loop_start_label = match st.current_label.checked_add(3) {
        Some(top) => top - 2,
        None => {
            return Err(SyntaxError::InternalError);
        },
    };
    let loop_continue_label = loop_start_label + 1;
    let loop_break_label = loop_continue_label + 1;
    st.current_label = loop_break_label;
    st.statements.push(IRStatement::Label(IRLabelStatement { label: Label(loop_start_label) }));
    let old_continue = st.current_loop_continue_label;
    let old_break = st.current_loop_break_label;
    st.current_loop_continue_label = Some(loop_continue_label);
    st.current_loop_break_label = Some(loop_break_label);
    let body = walk_block(st, &loop_statement.block);
    st.current_loop_continue_label = old_continue;
    st.current_loop_break_label = old_break;
    match body {
        Ok(_) => {},
        Err(e) => {
            return Err(e);
        },
    }
    st.statements.push(IRStatement::Label(IRLabelStatement { label: Label(loop_continue_label) }));
    st.statements.push(IRStatement::Branch(IRBranchStatement { label: Label(loop_start_label) }));
    st.statements.push(IRStatement::Label(IRLabelStatement { label: Label(loop_break_label) }));
    Ok(())
}

/// Lowers `while`, exactly as `sp_walk_while` prescribes: as `loop`, with
/// the condition tested at the start and a branch out when it is zero.
pub fn walk_while_statement(st: &mut IRState, while_statement: &WhileStatement) -> (r: Result<
    (),
    SyntaxError,
>)
    ensures
        r is Ok ==> final(st).scope@ == old(st).scope@,
        loop_labels_kept(*old(st), *final(st)),
        match sp_walk_while(lower_view(*old(st)), *while_statement) {
            Err(e) => r == Err::<(), SyntaxError>(e),
            Ok(s2) => r is Ok && lower_view(*final(st)) == s2,
        },
    decreases *while_statement, 0int, 2int,
{
    let loop_start_label = match st.current_label.checked_add(3) {
        Some(top) => top - 2,
        None => {
            return Err(SyntaxError::InternalError);
        },
    };
    let loop_continue_label = loop_start_label + 1;
    let loop_break_label = loop_continue_label + 1;
    st.current_label = loop_break_label;
    st.statements.push(IRStatement::Label(IRLabelStatement { label: Label(loop_start_label) }));
    let condition_register = walk_expression(st, &while_statement.condition)?;
    st.statements.push(
        IRStatement::BranchZero(
            IRConditionalBranchStatement {
                register: Register(condition_register),
                label: Label(loop_break_label),
            },
        ),
    );
    let old_continue = st.current_loop_continue_label;
    let old_break = st.current_loop_break_label;
    st.current_loop_continue_label = Some(loop_continue_label);
    st.current_loop_break_label = Some(loop_break_label);
    let body = walk_block(st, &while_statement.block);
    st.current_loop_continue_label = old_continue;
    st.current_loop_break_label = old_break;
    match body {
        Ok(_) => {},
        Err(e) => {
            return Err(e);
        },
    }
    st.statements.push(IRStatement::Label(IRLabelStatement { label: Label(loop_continue_label) }));
    st.statements.push(IRStatement::Branch(IRBranchStatement { label: Label(loop_start_label) }));
    st.statements.push(IRStatement::Label(IRLabelStatement { label: Label(loop_break_label) }));
    Ok(())
}


// ---------------------------------------------------------------------------
// Well-formedness of a finished program
// ---------------------------------------------------------------------------

fn defined_label_of(statement: &IRStatement) -> (r: Option<Label>)
    ensures
        r == statement.spec_defined_label(),
{
    match statement {
        IRStatement::Label(l) => Some(l.label),
        _ => None,
    }
}

fn branch_target_of(statement: &IRStatement) -> (r: Option<Label>)
    ensures
        r == statement.spec_branch_target(),
{
    match statement {
        IRStatement::Branch(b) => Some(b.label),
        IRStatement::BranchNotZero(b) => Some(b.label),
        IRStatement::BranchZero(b) => Some(b.label),
        _ => None,
    }
}

fn written_register_of(statement: &IRStatement) -> (r: Option<Register>)
    ensures
        r == statement.spec_written_register(),
{
    match statement {
        IRStatement::LoadImmediate(s) => Some(s.rd),
        IRStatement::Add(s) => Some(s.rd),
        IRStatement::Subtract(s) => Some(s.rd),
        IRStatement::Multiply(s) => Some(s.rd),
        IRStatement::Divide(s) => Some(s.rd),
        IRStatement::Modulus(s) => Some(s.rd),
        IRStatement::Exponentiate(s) => Some(s.rd),
        IRStatement::Equal(s) => Some(s.rd),
        IRStatement::NotEqual(s) => Some(s.rd),
        IRStatement::GreaterEqual(s) => Some(s.rd),
        IRStatement::LessEqual(s) => Some(s.rd),
        IRStatement::Greater(s) => Some(s.rd),
        IRStatement::Less(s) => Some(s.rd),
        IRStatement::LogicalAnd(s) => Some(s.rd),
        IRStatement::LogicalOr(s) => Some(s.rd),
        IRStatement::LogicalNot { rd, .. } => Some(*rd),
        IRStatement::BitwiseAnd(s) => Some(s.rd),
        IRStatement::BitwiseOr(s) => Some(s.rd),
        IRStatement::BitwiseXor(s) => Some(s.rd),
        IRStatement::LeftShift(s) => Some(s.rd),
        IRStatement::RightShift(s) => Some(s.rd),
        IRStatement::Branch(..) => None,
        IRStatement::BranchNotZero(..) => None,
        IRStatement::BranchZero(..) => None,
        IRStatement::Label(..) => None,
        IRStatement::Print { .. } => None,
        IRStatement::Push(..) => None,
        IRStatement::Pop(s) => Some(s.register),
    }
}

/// Decides whether no two `Label` statements define the same label.
pub fn check_labels_unique(stmts: &Vec<IRStatement>) -> (r: bool)
    ensures
        r == labels_unique(stmts@),
{
    let n = stmts.len();
    let mut i: usize = 0;
    while i < n
        invariant
            n == stmts@.len(),
            i <= n,
            forall|a: int, b: int|
                0 <= a < b < n && a < i && #[trigger] stmts@[a].spec_defined_label() is Some
                    && #[trigger] stmts@[b].spec_defined_label() is Some ==> stmts@[
                    a
                ].spec_defined_label() != stmts@[b].spec_defined_label(),
        decreases n - i,
    {
        if let Some(la) = defined_label_of(&stmts[i]) {
            let mut j: usize = i + 1;
            while j < n
                invariant
                    n == stmts@.len(),
                    i < j <= n,
                    stmts@[i as int].spec_defined_label() == Some(la),
                    forall|b: int|
                        i < b < j && #[trigger] stmts@[b].spec_defined_label() is Some ==> stmts@[
                            b
                        ].spec_defined_label() != Some(la),
                decreases n - j,
            {
                if let Some(lb) = defined_label_of(&stmts[j]) {
                    if la.0 == lb.0 {
                        return false;
                    }
                }
                j = j + 1;
            }
        }
        i = i + 1;
    }
    true
}

/// Decides whether every branch targets a label that some `Label`
/// statement defines.
pub fn check_branch_targets_defined(stmts: &Vec<IRStatement>) -> (r: bool)
    ensures
        r == branch_targets_defined(stmts@),
{
    let n = stmts.len();
    let mut i: usize = 0;
    while i < n
        invariant
            n == stmts@.len(),
            i <= n,
            forall|a: int|
                0 <= a < i && stmts@[a].spec_branch_target() is Some ==> #[trigger] label_defined(
                    stmts@,
                    stmts@[a].spec_branch_target()->0,
                ),
        decreases n - i,
    {
        if let Some(target) = branch_target_of(&stmts[i]) {
            let mut found = false;
            let mut j: usize = 0;
            while j < n
                invariant
                    n == stmts@.len(),
                    j <= n,
                    found ==> label_defined(stmts@, target),
                    !found ==> forall|b: int|
                        0 <= b < j ==> #[trigger] stmts@[b].spec_defined_label() != Some(target),
                decreases n - j,
            {
                if !found {
                    if let Some(l) = defined_label_of(&stmts[j]) {
                        if l.0 == target.0 {
                            proof {
                                assert(stmts@[j as int].spec_defined_label() == Some(target));
                            }
                            found = true;
                        }
                    }
                }
                j = j + 1;
            }
            if !found {
                proof {
                    assert(!label_defined(stmts@, target));
                }
                return false;
            }
            proof {
                assert(stmts@[i as int].spec_branch_target()->0 == target);
            }
        }
        i = i + 1;
    }
    true
}

/// Decides whether no two statements write the same register — the
/// static-single-assignment shape that holds of programs without
/// assignment statements.
pub fn check_registers_written_once(stmts: &Vec<IRStatement>) -> (r: bool)
    ensures
        r == written_registers_unique(stmts@),
{
    let n = stmts.len();
    let mut i: usize = 0;
    while i < n
        invariant
            n == stmts@.len(),
            i <= n,
            forall|a: int, b: int|
                0 <= a < b < n && a < i && #[trigger] stmts@[a].spec_written_register() is Some
                    && #[trigger] stmts@[b].spec_written_register() is Some ==> stmts@[
                    a
                ].spec_written_register() != stmts@[b].spec_written_register(),
        decreases n - i,
    {
        if let Some(ra) = written_register_of(&stmts[i]) {
            let mut j: usize = i + 1;
            while j < n
                invariant
                    n == stmts@.len(),
                    i < j <= n,
                    stmts@[i as int].spec_written_register() == Some(ra),
                    forall|b: int|
                        i < b < j && #[trigger] stmts@[b].spec_written_register() is Some ==> stmts@[
                            b
                        ].spec_written_register() != Some(ra),
                decreases n - j,
            {
                if let Some(rb) = written_register_of(&stmts[j]) {
                    if ra.0 == rb.0 {
                        return false;
                    }
                }
                j = j + 1;
            }
        }
        i = i + 1;
    }
    true
}

/// Lowers a whole program.  Every program this accepts is well formed:
/// labels are defined at most once and every branch targets a defined
/// label — established by the verified check at the end, which no program
/// the walkers build should ever fail.
/// Lowers a whole program, exactly as `sp_get_ir` prescribes.  Every
/// program this accepts is also well formed — labels defined at most once,
/// every branch targeting a defined label — established by the verified
/// check at the end, which the model mirrors.
pub fn get_ir(program: &Block) -> (r: Result<IR, SyntaxError>)
    ensures
        match sp_get_ir(*program) {
            Err(e) => r == Err::<IR, SyntaxError>(e),
            Ok(stmts) => r matches Ok(ir) && ir.statements@ == stmts,
        },
        r matches Ok(ir) ==> labels_unique(ir.statements@) && branch_targets_defined(
            ir.statements@,
        ),
{
    let mut st = IRState {
        statements: Vec::new(),
        scope: Vec::new(),
        current_register: 0,
        current_label: 0,
        current_loop_continue_label: None,
        current_loop_break_label: None,
    };
    proof {
        assert(scope_view(st.scope@) =~= Seq::<Seq<(Seq<char>, u32)>>::empty());
        assert(lower_view(st) =~~= initial_lower_state());
    }
    match walk_block(&mut st, program) {
        Err(e) => {
            return Err(e);
        },
        Ok(_) => {},
    }
    let ir = IR { statements: st.statements };
    if !check_labels_unique(&ir.statements) {
        return Err(SyntaxError::InternalError);
    }
    if !check_branch_targets_defined(&ir.statements) {
        return Err(SyntaxError::InternalError);
    }
    Ok(ir)
}

} // verus!
