//! The abstract syntax tree: blocks of statements, statements, and
//! expressions, together with their mathematical views (identifier text as
//! character sequences, statement lists as sequences).

use vstd::prelude::*;

verus! {

/// A block: an ordered sequence of statements.
#[derive(Debug, PartialEq)]
pub struct Block {
    pub statements: Vec<Statement>,
}

/// One statement.
#[derive(Debug, PartialEq)]
pub enum Statement {
    LetStatement(LetStatement),
    Assignment(AssignmentStatement),
    IfStatement(IfStatement),
    BreakStatement(BreakStatement),
    ContinueStatement(ContinueStatement),
    LoopStatement(LoopStatement),
    WhileStatement(WhileStatement),
    Expression(Expression),
    EmptyStatement,
}

/// `let` `mut`? name (`=` expression)? — without an initialiser the name is
/// bound to a fresh register whose value is undefined.
#[derive(Debug, PartialEq)]
pub struct LetStatement {
    pub identifier: String,
    pub mutable: bool,
    pub expression: Option<Expression>,
}

/// name `=` expression.  Compound assignments desugar to this form at parse
/// time: `x op= e` becomes `x = x op e`.
#[derive(Debug, PartialEq)]
pub struct AssignmentStatement {
    pub identifier: String,
    pub expression: Expression,
}

/// `if` condition block, any number of `else if` arms, and an optional
/// `else` block.
#[derive(Debug, PartialEq)]
pub struct IfStatement {
    pub _if: ConditionWithBlock,
    pub else_if: Vec<ConditionWithBlock>,
    pub _else: Option<Block>,
}

/// A condition together with the block it guards.
#[derive(Debug, PartialEq)]
pub struct ConditionWithBlock {
    pub condition: Expression,
    pub block: Block,
}

#[derive(Debug, PartialEq)]
pub struct BreakStatement;

#[derive(Debug, PartialEq)]
pub struct ContinueStatement;

/// `loop` block.
#[derive(Debug, PartialEq)]
pub struct LoopStatement {
    pub block: Block,
}

/// `while` condition block.
#[derive(Debug, PartialEq)]
pub struct WhileStatement {
    pub condition: Expression,
    pub block: Block,
}

/// One expression; subtrees are owned exclusively, so the tree has no
/// sharing and no cycles.
#[derive(Debug, PartialEq)]
pub enum Expression {
    BinaryOperation(BinaryOperation),
    UnaryOperation(UnaryOperation),
    Literal(Literal),
    Identifier(String),
    FunctionCall(FunctionCall),
}

#[derive(Debug, PartialEq, Eq, Clone, Copy, Structural)]
pub enum BinaryOperationType {
    Add,
    Subtract,
    Multiply,
    Divide,
    Modulus,
    Exponentiate,
    Equal,
    NotEqual,
    GreaterEqual,
    LessEqual,
    Greater,
    Less,
    LogicalAnd,
    LogicalOr,
    BitwiseAnd,
    BitwiseOr,
    BitwiseXor,
    LeftShift,
    RightShift,
}

#[derive(Debug, PartialEq)]
pub struct BinaryOperation {
    pub operation_type: BinaryOperationType,
    pub left_expression: Box<Expression>,
    pub right_expression: Box<Expression>,
}

#[derive(Debug, PartialEq, Eq, Clone, Copy, Structural)]
pub enum UnaryOperationType {
    LogicalNot,
    BitwiseNot,
    Plus,
    Minus,
}

#[derive(Debug, PartialEq)]
pub struct UnaryOperation {
    pub operation_type: UnaryOperationType,
    pub expression: Box<Expression>,
}

#[derive(Debug, PartialEq)]
pub enum Literal {
    StringLiteral(String),
    IntegerLiteral(u64),
}

/// A call of a built-in function; only `print` is recognised when the tree
/// is lowered.
#[derive(Debug, PartialEq)]
pub struct FunctionCall {
    pub function_name: String,
    pub argument: Box<Expression>,
}

// ---------------------------------------------------------------------------
// Views
// ---------------------------------------------------------------------------

pub enum LiteralView {
    StringLiteral(Seq<char>),
    IntegerLiteral(u64),
}

pub enum ExpressionView {
    BinaryOperation(BinaryOperationType, Box<ExpressionView>, Box<ExpressionView>),
    UnaryOperation(UnaryOperationType, Box<ExpressionView>),
    Literal(LiteralView),
    Identifier(Seq<char>),
    FunctionCall(Seq<char>, Box<ExpressionView>),
}

pub struct ConditionWithBlockView {
    pub condition: ExpressionView,
    pub block: BlockView,
}

pub enum StatementView {
    Let { identifier: Seq<char>, mutable: bool, expression: Option<ExpressionView> },
    Assignment { identifier: Seq<char>, expression: ExpressionView },
    If { primary: ConditionWithBlockView, else_if: Seq<ConditionWithBlockView>, _else: Option<BlockView> },
    Break,
    Continue,
    Loop { block: BlockView },
    While { condition: ExpressionView, block: BlockView },
    Expression(ExpressionView),
    Empty,
}

pub struct BlockView {
    pub statements: Seq<StatementView>,
}

pub open spec fn literal_view(l: Literal) -> LiteralView {
    match l {
        Literal::StringLiteral(s) => LiteralView::StringLiteral(s@),
        Literal::IntegerLiteral(n) => LiteralView::IntegerLiteral(n),
    }
}

pub open spec fn expr_view(e: Expression) -> ExpressionView
    decreases e,
{
    match e {
        Expression::BinaryOperation(b) => ExpressionView::BinaryOperation(
            b.operation_type,
            Box::new(expr_view(*b.left_expression)),
            Box::new(expr_view(*b.right_expression)),
        ),
        Expression::UnaryOperation(u) => ExpressionView::UnaryOperation(
            u.operation_type,
            Box::new(expr_view(*u.expression)),
        ),
        Expression::Literal(l) => ExpressionView::Literal(literal_view(l)),
        Expression::Identifier(s) => ExpressionView::Identifier(s@),
        Expression::FunctionCall(f) => ExpressionView::FunctionCall(
            f.function_name@,
            Box::new(expr_view(*f.argument)),
        ),
    }
}

pub open spec fn cwb_view(c: ConditionWithBlock) -> ConditionWithBlockView
    decreases c,
{
    ConditionWithBlockView { condition: expr_view(c.condition), block: block_view(c.block) }
}

pub open spec fn cwbs_view(cs: Seq<ConditionWithBlock>) -> Seq<ConditionWithBlockView>
    decreases cs,
{
    if cs.len() == 0 {
        Seq::empty()
    } else {
        seq![cwb_view(cs[0])] + cwbs_view(cs.drop_first())
    }
}

pub open spec fn stmt_view(s: Statement) -> StatementView
    decreases s,
{
    match s {
        Statement::LetStatement(l) => StatementView::Let {
            identifier: l.identifier@,
            mutable: l.mutable,
            expression: match l.expression {
                None => None,
                Some(e) => Some(expr_view(e)),
            },
        },
        Statement::Assignment(a) => StatementView::Assignment {
            identifier: a.identifier@,
            expression: expr_view(a.expression),
        },
        Statement::IfStatement(i) => StatementView::If {
            primary: cwb_view(i._if),
            else_if: cwbs_view(i.else_if@),
            _else: match i._else {
                None => None,
                Some(b) => Some(block_view(b)),
            },
        },
        Statement::BreakStatement(_) => StatementView::Break,
        Statement::ContinueStatement(_) => StatementView::Continue,
        Statement::LoopStatement(l) => StatementView::Loop { block: block_view(l.block) },
        Statement::WhileStatement(w) => StatementView::While {
            condition: expr_view(w.condition),
            block: block_view(w.block),
        },
        Statement::Expression(e) => StatementView::Expression(expr_view(e)),
        Statement::EmptyStatement => StatementView::Empty,
    }
}

pub open spec fn stmts_view(ss: Seq<Statement>) -> Seq<StatementView>
    decreases ss,
{
    if ss.len() == 0 {
        Seq::empty()
    } else {
        seq![stmt_view(ss[0])] + stmts_view(ss.drop_first())
    }
}

pub open spec fn block_view(b: Block) -> BlockView
    decreases b,
{
    BlockView { statements: stmts_view(b.statements@) }
}

impl View for Expression {
    type V = ExpressionView;

    open spec fn view(&self) -> ExpressionView {
        expr_view(*self)
    }
}

impl View for Statement {
    type V = StatementView;

    open spec fn view(&self) -> StatementView {
        stmt_view(*self)
    }
}

impl View for Block {
    type V = BlockView;

    open spec fn view(&self) -> BlockView {
        block_view(*self)
    }
}

/// The view of a statement list indexes pointwise.
pub proof fn lemma_stmts_view_index(ss: Seq<Statement>, i: int)
    requires
        0 <= i < ss.len(),
    ensures
        stmts_view(ss).len() == ss.len(),
        stmts_view(ss)[i] == stmt_view(ss[i]),
    decreases ss,
{
    lemma_stmts_view_len(ss);
    if i > 0 {
        lemma_stmts_view_index(ss.drop_first(), i - 1);
    }
}

/// The view of a statement list keeps its length.
pub proof fn lemma_stmts_view_len(ss: Seq<Statement>)
    ensures
        stmts_view(ss).len() == ss.len(),
    decreases ss,
{
    if ss.len() > 0 {
        lemma_stmts_view_len(ss.drop_first());
    }
}

/// The view of a statement list distributes over push.
pub proof fn lemma_stmts_view_push(ss: Seq<Statement>, s: Statement)
    ensures
        stmts_view(ss.push(s)) == stmts_view(ss).push(stmt_view(s)),
    decreases ss,
{
    if ss.len() == 0 {
        assert(ss.push(s).drop_first() =~= ss);
        assert(stmts_view(ss.push(s)) =~= stmts_view(ss).push(stmt_view(s)));
    } else {
        assert(ss.push(s).drop_first() =~= ss.drop_first().push(s));
        lemma_stmts_view_push(ss.drop_first(), s);
        assert(stmts_view(ss.push(s)) =~= stmts_view(ss).push(stmt_view(s)));
    }
}

/// The view of an else-if list indexes pointwise.
pub proof fn lemma_cwbs_view_index(cs: Seq<ConditionWithBlock>, i: int)
    requires
        0 <= i < cs.len(),
    ensures
        cwbs_view(cs).len() == cs.len(),
        cwbs_view(cs)[i] == cwb_view(cs[i]),
    decreases cs,
{
    lemma_cwbs_view_len(cs);
    if i > 0 {
        lemma_cwbs_view_index(cs.drop_first(), i - 1);
    }
}

/// The view of an else-if list keeps its length.
pub proof fn lemma_cwbs_view_len(cs: Seq<ConditionWithBlock>)
    ensures
        cwbs_view(cs).len() == cs.len(),
    decreases cs,
{
    if cs.len() > 0 {
        lemma_cwbs_view_len(cs.drop_first());
    }
}

/// The view of an else-if list distributes over push.
pub proof fn lemma_cwbs_view_push(cs: Seq<ConditionWithBlock>, c: ConditionWithBlock)
    ensures
        cwbs_view(cs.push(c)) == cwbs_view(cs).push(cwb_view(c)),
    decreases cs,
{
    if cs.len() == 0 {
        assert(cs.push(c).drop_first() =~= cs);
        assert(cwbs_view(cs.push(c)) =~= cwbs_view(cs).push(cwb_view(c)));
    } else {
        assert(cs.push(c).drop_first() =~= cs.drop_first().push(c));
        lemma_cwbs_view_push(cs.drop_first(), c);
        assert(cwbs_view(cs.push(c)) =~= cwbs_view(cs).push(cwb_view(c)));
    }
}

} // verus!
