//! The linear intermediate representation: numbered registers and labels,
//! three-operand statements, branches, and a flat program.

use vstd::prelude::*;

verus! {

/// A virtual (or, after allocation, physical) register, identified by number.
#[derive(Debug, Clone, Copy, PartialEq, Eq, Hash, Structural)]
pub struct Register(pub u32);

/// A branch target, identified by number; labels and registers are distinct
/// namespaces.
#[derive(Debug, Clone, Copy, PartialEq, Eq, Hash, Structural)]
pub struct Label(pub u32);

/// Loads a constant into `rd`.
#[derive(Debug, Clone, Copy, PartialEq, Eq, Structural)]
pub struct IRImmediateStatement {
    pub rd: Register,
    pub imm: u64,
}

/// A three-operand statement: `rd` receives a function of `rs1` and `rs2`.
#[derive(Debug, Clone, Copy, PartialEq, Eq, Structural)]
pub struct IRRegisterStatement {
    pub rd: Register,
    pub rs1: Register,
    pub rs2: Register,
}

/// An unconditional jump.
#[derive(Debug, Clone, Copy, PartialEq, Eq, Structural)]
pub struct IRBranchStatement {
    pub label: Label,
}

/// A jump taken or not depending on the value held in `register`.
#[derive(Debug, Clone, Copy, PartialEq, Eq, Structural)]
pub struct IRConditionalBranchStatement {
    pub register: Register,
    pub label: Label,
}

/// Defines a branch target at the position this statement occupies.
#[derive(Debug, Clone, Copy, PartialEq, Eq, Structural)]
pub struct IRLabelStatement {
    pub label: Label,
}

/// Saves the value held in `register` onto the runtime stack.
#[derive(Debug, Clone, Copy, PartialEq, Eq, Structural)]
pub struct IRPushStatement {
    pub register: Register,
}

/// Restores the most recently saved stack value into `register`.
#[derive(Debug, Clone, Copy, PartialEq, Eq, Structural)]
pub struct IRPopStatement {
    pub register: Register,
}

/// One statement of the intermediate representation.
///
/// Comparisons write 0 or 1; the logical operations treat any nonzero value
/// as true and write 0 or 1.
#[derive(Debug, Clone, Copy, PartialEq, Eq, Structural)]
pub enum IRStatement {
    LoadImmediate(IRImmediateStatement),
    Add(IRRegisterStatement),
    Subtract(IRRegisterStatement),
    Multiply(IRRegisterStatement),
    Divide(IRRegisterStatement),
    Modulus(IRRegisterStatement),
    Exponentiate(IRRegisterStatement),
    Equal(IRRegisterStatement),
    NotEqual(IRRegisterStatement),
    GreaterEqual(IRRegisterStatement),
    LessEqual(IRRegisterStatement),
    Greater(IRRegisterStatement),
    Less(IRRegisterStatement),
    LogicalAnd(IRRegisterStatement),
    LogicalOr(IRRegisterStatement),
    LogicalNot { rd: Register, rs1: Register },
    BitwiseAnd(IRRegisterStatement),
    BitwiseOr(IRRegisterStatement),
    BitwiseXor(IRRegisterStatement),
    LeftShift(IRRegisterStatement),
    RightShift(IRRegisterStatement),
    Branch(IRBranchStatement),
    BranchNotZero(IRConditionalBranchStatement),
    BranchZero(IRConditionalBranchStatement),
    Label(IRLabelStatement),
    Print { rs1: Register },
    Push(IRPushStatement),
    Pop(IRPopStatement),
}

/// A whole program in the intermediate representation.
#[derive(Debug, Clone, PartialEq, Eq)]
pub struct IR {
    pub statements: Vec<IRStatement>,
}

impl View for IR {
    type V = Seq<IRStatement>;

    open spec fn view(&self) -> Seq<IRStatement> {
        self.statements@
    }
}

impl IRStatement {
    /// The register this statement writes, if any.
    pub open spec fn spec_written_register(self) -> Option<Register> {
        match self {
            IRStatement::LoadImmediate(s) => Some(s.rd),
            IRStatement::Add(s) => Some(s.rd),
            IRStatement::Subtract(s) => Some(s.rd),
            IRStatement::Multiply(s) => Some(s.rd),
            IRStatement::Divide(s) => Some(s.rd),
            IRStatement::Modulus(s) => Some(s.rd),
            IRStatement::Exponentiate(s) => Some(s.rd),
            IRStatement::Equal(s) => Some(s.rd),
            IRStatement::NotEqual(s) => Some(s.rd),
            IRStatement::GreaterEqual(s) => Some(s.rd),
            IRStatement::LessEqual(s) => Some(s.rd),
            IRStatement::Greater(s) => Some(s.rd),
            IRStatement::Less(s) => Some(s.rd),
            IRStatement::LogicalAnd(s) => Some(s.rd),
            IRStatement::LogicalOr(s) => Some(s.rd),
            IRStatement::LogicalNot { rd, .. } => Some(rd),
            IRStatement::BitwiseAnd(s) => Some(s.rd),
            IRStatement::BitwiseOr(s) => Some(s.rd),
            IRStatement::BitwiseXor(s) => Some(s.rd),
            IRStatement::LeftShift(s) => Some(s.rd),
            IRStatement::RightShift(s) => Some(s.rd),
            IRStatement::Branch(..) => None,
            IRStatement::BranchNotZero(..) => None,
            IRStatement::BranchZero(..) => None,
            IRStatement::Label(..) => None,
            IRStatement::Print { .. } => None,
            IRStatement::Push(..) => None,
            IRStatement::Pop(s) => Some(s.register),
        }
    }

    /// The label this statement jumps to, if it is a branch.
    pub open spec fn spec_branch_target(self) -> Option<Label> {
        match self {
            IRStatement::Branch(s) => Some(s.label),
            IRStatement::BranchNotZero(s) => Some(s.label),
            IRStatement::BranchZero(s) => Some(s.label),
            _ => None,
        }
    }

    /// The label this statement defines, if it is a label definition.
    pub open spec fn spec_defined_label(self) -> Option<Label> {
        match self {
            IRStatement::Label(s) => Some(s.label),
            _ => None,
        }
    }
}

/// Every branch in `stmts` targets a label that some `Label` statement in
/// `stmts` defines.
pub open spec fn branch_targets_defined(stmts: Seq<IRStatement>) -> bool {
    forall|i: int|
        0 <= i < stmts.len() && stmts[i].spec_branch_target() is Some
            ==> #[trigger] label_defined(stmts, stmts[i].spec_branch_target()->0)
}

/// Some `Label` statement in `stmts` defines `l`.
pub open spec fn label_defined(stmts: Seq<IRStatement>, l: Label) -> bool {
    exists|i: int| 0 <= i < stmts.len() && #[trigger] stmts[i].spec_defined_label() == Some(l)
}

/// No two `Label` statements in `stmts` define the same label.
pub open spec fn labels_unique(stmts: Seq<IRStatement>) -> bool {
    forall|i: int, j: int|
        0 <= i < j < stmts.len() && #[trigger] stmts[i].spec_defined_label() is Some
            && #[trigger] stmts[j].spec_defined_label() is Some
            ==> stmts[i].spec_defined_label() != stmts[j].spec_defined_label()
}

/// No two statements of `stmts` write the same register.
pub open spec fn written_registers_unique(stmts: Seq<IRStatement>) -> bool {
    forall|i: int, j: int|
        0 <= i < j < stmts.len() && #[trigger] stmts[i].spec_written_register() is Some
            && #[trigger] stmts[j].spec_written_register() is Some
            ==> stmts[i].spec_written_register() != stmts[j].spec_written_register()
}

} // verus!
