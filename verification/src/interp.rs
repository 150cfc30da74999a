//! The interpreter: executes a program of the intermediate representation
//! directly against a register map and a label index.
//!
//! Execution is specified by a step-indexed functional model (`run`,
//! `spec_interpret`): the interpreter is proved to return exactly what the
//! model yields, so a run is a pure function of the program and the step
//! budget.  The result carries the printed values in order and the value
//! most recently written to a register; `None` is a run that failed (an
//! unassigned register was read, a branch targeted no label, a division by
//! zero) or did not finish within the budget.
//!
//! Arithmetic wraps; shifting by 64 or more yields zero; exponentiation
//! multiplies wrapping, with the exponent truncated to 32 bits.

use crate::ir::IRStatement;
use crate::ir::Label;
use crate::ir::Register;
use crate::ir::IR;
use std::collections::HashMap;
use vstd::prelude::*;

verus! {

broadcast use vstd::std_specs::hash::group_hash_axioms;

use vstd::wrapping::u64_specs;

/// The position the interpreter's label index gives a label: the position
/// of its last definition.
pub open spec fn label_loc(stmts: Seq<IRStatement>, l: Label) -> Option<int>
    decreases stmts.len(),
{
    if stmts.len() == 0 {
        None
    } else if stmts.last().spec_defined_label() == Some(l) {
        Some(stmts.len() - 1)
    } else {
        label_loc(stmts.drop_last(), l)
    }
}

/// The value a register holds, if it has been written.
pub open spec fn reg_read(regs: Map<u32, u64>, r: Register) -> Option<u64> {
    if regs.contains_key(r.0) {
        Some(regs[r.0])
    } else {
        None
    }
}

/// Left shift with shifts of 64 or more defined as zero.
pub open spec fn shl_value(a: u64, b: u64) -> u64 {
    if b >= 64 {
        0
    } else {
        a << b
    }
}

/// Right shift with shifts of 64 or more defined as zero.
pub open spec fn shr_value(a: u64, b: u64) -> u64 {
    if b >= 64 {
        0
    } else {
        a >> b
    }
}

/// Wrapping exponentiation by repeated multiplication.
pub open spec fn pow_wrap(base: u64, exp: u32) -> u64
    decreases exp,
{
    if exp == 0 {
        1
    } else {
        u64_specs::wrapping_mul(base, pow_wrap(base, (exp - 1) as u32))
    }
}

/// The value a three-operand statement computes, or `None` for a division
/// or modulus by zero.
pub open spec fn binary_value(s: IRStatement, a: u64, b: u64) -> Option<u64> {
    match s {
        IRStatement::Add(_) => Some(u64_specs::wrapping_add(a, b)),
        IRStatement::Subtract(_) => Some(u64_specs::wrapping_sub(a, b)),
        IRStatement::Multiply(_) => Some(u64_specs::wrapping_mul(a, b)),
        IRStatement::Divide(_) => if b == 0 {
            None
        } else {
            Some(a / b)
        },
        IRStatement::Modulus(_) => if b == 0 {
            None
        } else {
            Some(a % b)
        },
        IRStatement::Exponentiate(_) => Some(pow_wrap(a, b as u32)),
        IRStatement::Equal(_) => Some(if a == b { 1u64 } else { 0u64 }),
        IRStatement::NotEqual(_) => Some(if a != b { 1u64 } else { 0u64 }),
        IRStatement::GreaterEqual(_) => Some(if a >= b { 1u64 } else { 0u64 }),
        IRStatement::LessEqual(_) => Some(if a <= b { 1u64 } else { 0u64 }),
        IRStatement::Greater(_) => Some(if a > b { 1u64 } else { 0u64 }),
        IRStatement::Less(_) => Some(if a < b { 1u64 } else { 0u64 }),
        IRStatement::LogicalAnd(_) => Some(if a != 0 && b != 0 { 1u64 } else { 0u64 }),
        IRStatement::LogicalOr(_) => Some(if a != 0 || b != 0 { 1u64 } else { 0u64 }),
        IRStatement::BitwiseAnd(_) => Some(a & b),
        IRStatement::BitwiseOr(_) => Some(a | b),
        IRStatement::BitwiseXor(_) => Some(a ^ b),
        IRStatement::LeftShift(_) => Some(shl_value(a, b)),
        IRStatement::RightShift(_) => Some(shr_value(a, b)),
        _ => None,
    }
}

/// The two source registers of a three-operand statement.
pub open spec fn binary_sources(s: IRStatement) -> Option<(Register, Register)> {
    match s {
        IRStatement::Add(o) => Some((o.rs1, o.rs2)),
        IRStatement::Subtract(o) => Some((o.rs1, o.rs2)),
        IRStatement::Multiply(o) => Some((o.rs1, o.rs2)),
        IRStatement::Divide(o) => Some((o.rs1, o.rs2)),
        IRStatement::Modulus(o) => Some((o.rs1, o.rs2)),
        IRStatement::Exponentiate(o) => Some((o.rs1, o.rs2)),
        IRStatement::Equal(o) => Some((o.rs1, o.rs2)),
        IRStatement::NotEqual(o) => Some((o.rs1, o.rs2)),
        IRStatement::GreaterEqual(o) => Some((o.rs1, o.rs2)),
        IRStatement::LessEqual(o) => Some((o.rs1, o.rs2)),
        IRStatement::Greater(o) => Some((o.rs1, o.rs2)),
        IRStatement::Less(o) => Some((o.rs1, o.rs2)),
        IRStatement::LogicalAnd(o) => Some((o.rs1, o.rs2)),
        IRStatement::LogicalOr(o) => Some((o.rs1, o.rs2)),
        IRStatement::BitwiseAnd(o) => Some((o.rs1, o.rs2)),
        IRStatement::BitwiseOr(o) => Some((o.rs1, o.rs2)),
        IRStatement::BitwiseXor(o) => Some((o.rs1, o.rs2)),
        IRStatement::LeftShift(o) => Some((o.rs1, o.rs2)),
        IRStatement::RightShift(o) => Some((o.rs1, o.rs2)),
        _ => None,
    }
}

/// One run of the interpreter from the given state, for at most `fuel`
/// steps: the printed values and the last value written to a register, or
/// `None` for a failed or unfinished run.
pub open spec fn run(
    stmts: Seq<IRStatement>,
    regs: Map<u32, u64>,
    stack: Seq<u64>,
    pc: int,
    out: Seq<u64>,
    last: u64,
    fuel: nat,
) -> Option<(Seq<u64>, u64)>
    decreases fuel,
{
    if pc < 0 || pc >= stmts.len() {
        Some((out, last))
    } else if fuel == 0 {
        None
    } else {
        let s = stmts[pc];
        match s {
            IRStatement::LoadImmediate(o) => run(
                stmts,
                regs.insert(o.rd.0, o.imm),
                stack,
                pc + 1,
                out,
                o.imm,
                (fuel - 1) as nat,
            ),
            IRStatement::Branch(o) => match label_loc(stmts, o.label) {
                None => None,
                Some(ix) => run(stmts, regs, stack, ix, out, last, (fuel - 1) as nat),
            },
            IRStatement::BranchNotZero(o) => match reg_read(regs, o.register) {
                None => None,
                Some(v) => if v != 0 {
                    match label_loc(stmts, o.label) {
                        None => None,
                        Some(ix) => run(stmts, regs, stack, ix, out, last, (fuel - 1) as nat),
                    }
                } else {
                    run(stmts, regs, stack, pc + 1, out, last, (fuel - 1) as nat)
                },
            },
            IRStatement::BranchZero(o) => match reg_read(regs, o.register) {
                None => None,
                Some(v) => if v == 0 {
                    match label_loc(stmts, o.label) {
                        None => None,
                        Some(ix) => run(stmts, regs, stack, ix, out, last, (fuel - 1) as nat),
                    }
                } else {
                    run(stmts, regs, stack, pc + 1, out, last, (fuel - 1) as nat)
                },
            },
            IRStatement::Label(_) => run(stmts, regs, stack, pc + 1, out, last, (fuel - 1) as nat),
            IRStatement::Print { rs1 } => match reg_read(regs, rs1) {
                None => None,
                Some(v) => run(stmts, regs, stack, pc + 1, out.push(v), last, (fuel - 1) as nat),
            },
            IRStatement::LogicalNot { rd, rs1 } => match reg_read(regs, rs1) {
                None => None,
                Some(v) => {
                    let value = if v == 0 {
                        1u64
                    } else {
                        0u64
                    };
                    run(
                        stmts,
                        regs.insert(rd.0, value),
                        stack,
                        pc + 1,
                        out,
                        value,
                        (fuel - 1) as nat,
                    )
                },
            },
            IRStatement::Push(o) => match reg_read(regs, o.register) {
                None => None,
                Some(v) => run(
                    stmts,
                    regs,
                    stack.push(v),
                    pc + 1,
                    out,
                    last,
                    (fuel - 1) as nat,
                ),
            },
            IRStatement::Pop(o) => if stack.len() == 0 {
                None
            } else {
                run(
                    stmts,
                    regs.insert(o.register.0, stack.last()),
                    stack.drop_last(),
                    pc + 1,
                    out,
                    stack.last(),
                    (fuel - 1) as nat,
                )
            },
            _ => match binary_sources(s) {
                None => None,
                Some((rs1, rs2)) => match (reg_read(regs, rs1), reg_read(regs, rs2)) {
                    (Some(a), Some(b)) => match binary_value(s, a, b) {
                        None => None,
                        Some(value) => {
                            let rd = s.spec_written_register()->0;
                            run(
                                stmts,
                                regs.insert(rd.0, value),
                                stack,
                                pc + 1,
                                out,
                                value,
                                (fuel - 1) as nat,
                            )
                        },
                    },
                    _ => None,
                },
            },
        }
    }
}

/// A whole run of a program from the empty state.
pub open spec fn spec_interpret(stmts: Seq<IRStatement>, max_steps: u64) -> Option<
    (Seq<u64>, u64),
> {
    run(stmts, Map::empty(), Seq::empty(), 0, Seq::empty(), 0, max_steps as nat)
}

/// The empty program runs to completion at once: nothing is printed and
/// the last value is zero.
pub proof fn lemma_empty_program_runs_to_nothing(max_steps: u64)
    ensures
        spec_interpret(Seq::<IRStatement>::empty(), max_steps) == Some(
            (Seq::<u64>::empty(), 0u64),
        ),
{
}

/// Interpreting is deterministic: equal programs and budgets give equal
/// outcomes.
pub proof fn lemma_interpret_deterministic(s1: Seq<IRStatement>, s2: Seq<IRStatement>, n: u64)
    requires
        s1 == s2,
    ensures
        spec_interpret(s1, n) == spec_interpret(s2, n),
{
}

fn read_reg(regs: &HashMap<u32, u64>, r: Register) -> (v: Option<u64>)
    ensures
        v == reg_read(regs@, r),
{
    match regs.get(&r.0) {
        Some(v) => Some(*v),
        None => None,
    }
}

fn pow_wrapping(base: u64, exp: u32) -> (r: u64)
    ensures
        r == pow_wrap(base, exp),
{
    let mut acc: u64 = 1;
    let mut i: u32 = 0;
    while i < exp
        invariant
            i <= exp,
            acc == pow_wrap(base, i),
        decreases exp - i,
    {
        acc = base.wrapping_mul(acc);
        i = i + 1;
    }
    acc
}

/// Executes `ir` for at most `max_steps` steps; exactly the model's
/// outcome: the printed values in order and the last value written, or
/// `None` for a failed or unfinished run.
#[verifier::rlimit(100)]
#[verifier::spinoff_prover]
pub fn interpret(ir: &IR, max_steps: u64) -> (r: Option<(Vec<u64>, u64)>)
    ensures
        match spec_interpret(ir@, max_steps) {
            None => r is None,
            Some((souts, slast)) => r matches Some((outs, last)) && outs@ == souts && last
                == slast,
        },
{
    let n = ir.statements.len();
    // Label index: the last definition of each label wins.
    let mut label_locations: HashMap<u32, usize> = HashMap::new();
    let mut i: usize = 0;
    while i < n
        invariant
            n == ir@.len(),
            i <= n,
            forall|lv: u32| #[trigger]
                label_locations@.contains_key(lv) <==> label_loc(
                    ir@.subrange(0, i as int),
                    Label(lv),
                ) is Some,
            forall|lv: u32| #[trigger]
                label_locations@.contains_key(lv) ==> label_locations@[lv] as int == label_loc(
                    ir@.subrange(0, i as int),
                    Label(lv),
                )->0 && label_locations@[lv] < n,
        decreases n - i,
    {
        proof {
            assert(ir@.subrange(0, i + 1).drop_last() =~= ir@.subrange(0, i as int));
            assert(ir@.subrange(0, i + 1).last() == ir@[i as int]);
        }
        match &ir.statements[i] {
            IRStatement::Label(l) => {
                label_locations.insert(l.label.0, i);
            },
            _ => {},
        }
        i = i + 1;
    }
    proof {
        assert(ir@.subrange(0, n as int) =~= ir@);
    }
    let mut registers: HashMap<u32, u64> = HashMap::new();
    let mut stack: Vec<u64> = Vec::new();
    let mut out: Vec<u64> = Vec::new();
    let mut last: u64 = 0;
    let mut pc: usize = 0;
    let mut fuel: u64 = max_steps;
    loop
        invariant
            n == ir@.len(),
            forall|lv: u32| #[trigger]
                label_locations@.contains_key(lv) <==> label_loc(ir@, Label(lv)) is Some,
            forall|lv: u32| #[trigger]
                label_locations@.contains_key(lv) ==> label_locations@[lv] as int == label_loc(
                    ir@,
                    Label(lv),
                )->0 && label_locations@[lv] < n,
            spec_interpret(ir@, max_steps) == run(
                ir@,
                registers@,
                stack@,
                pc as int,
                out@,
                last,
                fuel as nat,
            ),
        decreases fuel,
    {
        if pc >= n {
            return Some((out, last));
        }
        if fuel == 0 {
            return None;
        }
        let statement = ir.statements[pc];
        proof {
            assert(ir@[pc as int] == statement);
        }
        fuel = fuel - 1;
        match statement {
            IRStatement::LoadImmediate(o) => {
                registers.insert(o.rd.0, o.imm);
                last = o.imm;
                pc = pc + 1;
            },
            IRStatement::Branch(o) => {
                match label_locations.get(&o.label.0) {
                    None => {
                        return None;
                    },
                    Some(ix) => {
                        pc = *ix;
                    },
                }
            },
            IRStatement::BranchNotZero(o) => {
                let v = match read_reg(&registers, o.register) {
                    None => {
                        return None;
                    },
                    Some(v) => v,
                };
                if v != 0 {
                    match label_locations.get(&o.label.0) {
                        None => {
                            return None;
                        },
                        Some(ix) => {
                            pc = *ix;
                        },
                    }
                } else {
                    pc = pc + 1;
                }
            },
            IRStatement::BranchZero(o) => {
                let v = match read_reg(&registers, o.register) {
                    None => {
                        return None;
                    },
                    Some(v) => v,
                };
                if v == 0 {
                    match label_locations.get(&o.label.0) {
                        None => {
                            return None;
                        },
                        Some(ix) => {
                            pc = *ix;
                        },
                    }
                } else {
                    pc = pc + 1;
                }
            },
            IRStatement::Label(_) => {
                pc = pc + 1;
            },
            IRStatement::Print { rs1 } => {
                let v = match read_reg(&registers, rs1) {
                    None => {
                        return None;
                    },
                    Some(v) => v,
                };
                out.push(v);
                pc = pc + 1;
            },
            IRStatement::LogicalNot { rd, rs1 } => {
                let v = match read_reg(&registers, rs1) {
                    None => {
                        return None;
                    },
                    Some(v) => v,
                };
                let value = if v == 0 {
                    1u64
                } else {
                    0u64
                };
                registers.insert(rd.0, value);
                last = value;
                pc = pc + 1;
            },
            IRStatement::Push(o) => {
                let v = match read_reg(&registers, o.register) {
                    None => {
                        return None;
                    },
                    Some(v) => v,
                };
                stack.push(v);
                pc = pc + 1;
            },
            IRStatement::Pop(o) => {
                let v = match stack.pop() {
                    None => {
                        return None;
                    },
                    Some(v) => v,
                };
                registers.insert(o.register.0, v);
                last = v;
                pc = pc + 1;
            },
            _ => {
                let (rs1, rs2) = match statement {
                    IRStatement::Add(o) => (o.rs1, o.rs2),
                    IRStatement::Subtract(o) => (o.rs1, o.rs2),
                    IRStatement::Multiply(o) => (o.rs1, o.rs2),
                    IRStatement::Divide(o) => (o.rs1, o.rs2),
                    IRStatement::Modulus(o) => (o.rs1, o.rs2),
                    IRStatement::Exponentiate(o) => (o.rs1, o.rs2),
                    IRStatement::Equal(o) => (o.rs1, o.rs2),
                    IRStatement::NotEqual(o) => (o.rs1, o.rs2),
                    IRStatement::GreaterEqual(o) => (o.rs1, o.rs2),
                    IRStatement::LessEqual(o) => (o.rs1, o.rs2),
                    IRStatement::Greater(o) => (o.rs1, o.rs2),
                    IRStatement::Less(o) => (o.rs1, o.rs2),
                    IRStatement::LogicalAnd(o) => (o.rs1, o.rs2),
                    IRStatement::LogicalOr(o) => (o.rs1, o.rs2),
                    IRStatement::BitwiseAnd(o) => (o.rs1, o.rs2),
                    IRStatement::BitwiseOr(o) => (o.rs1, o.rs2),
                    IRStatement::BitwiseXor(o) => (o.rs1, o.rs2),
                    IRStatement::LeftShift(o) => (o.rs1, o.rs2),
                    IRStatement::RightShift(o) => (o.rs1, o.rs2),
                    _ => {
                        return None;
                    },
                };
                let a = match read_reg(&registers, rs1) {
                    None => {
                        return None;
                    },
                    Some(v) => v,
                };
                let b = match read_reg(&registers, rs2) {
                    None => {
                        return None;
                    },
                    Some(v) => v,
                };
                let value = match statement {
                    IRStatement::Add(_) => a.wrapping_add(b),
                    IRStatement::Subtract(_) => a.wrapping_sub(b),
                    IRStatement::Multiply(_) => a.wrapping_mul(b),
                    IRStatement::Divide(_) => {
                        if b == 0 {
                            return None;
                        }
                        a / b
                    },
                    IRStatement::Modulus(_) => {
                        if b == 0 {
                            return None;
                        }
                        a % b
                    },
                    IRStatement::Exponentiate(_) => pow_wrapping(a, b as u32),
                    IRStatement::Equal(_) => if a == b {
                        1u64
                    } else {
                        0u64
                    },
                    IRStatement::NotEqual(_) => if a != b {
                        1u64
                    } else {
                        0u64
                    },
                    IRStatement::GreaterEqual(_) => if a >= b {
                        1u64
                    } else {
                        0u64
                    },
                    IRStatement::LessEqual(_) => if a <= b {
                        1u64
                    } else {
                        0u64
                    },
                    IRStatement::Greater(_) => if a > b {
                        1u64
                    } else {
                        0u64
                    },
                    IRStatement::Less(_) => if a < b {
                        1u64
                    } else {
                        0u64
                    },
                    IRStatement::LogicalAnd(_) => if a != 0 && b != 0 {
                        1u64
                    } else {
                        0u64
                    },
                    IRStatement::LogicalOr(_) => if a != 0 || b != 0 {
                        1u64
                    } else {
                        0u64
                    },
                    IRStatement::BitwiseAnd(_) => a & b,
                    IRStatement::BitwiseOr(_) => a | b,
                    IRStatement::BitwiseXor(_) => a ^ b,
                    IRStatement::LeftShift(_) => if b >= 64 {
                        0u64
                    } else {
                        a << b
                    },
                    IRStatement::RightShift(_) => if b >= 64 {
                        0u64
                    } else {
                        a >> b
                    },
                    _ => {
                        return None;
                    },
                };
                let rd = match statement {
                    IRStatement::Add(o) => o.rd,
                    IRStatement::Subtract(o) => o.rd,
                    IRStatement::Multiply(o) => o.rd,
                    IRStatement::Divide(o) => o.rd,
                    IRStatement::Modulus(o) => o.rd,
                    IRStatement::Exponentiate(o) => o.rd,
                    IRStatement::Equal(o) => o.rd,
                    IRStatement::NotEqual(o) => o.rd,
                    IRStatement::GreaterEqual(o) => o.rd,
                    IRStatement::LessEqual(o) => o.rd,
                    IRStatement::Greater(o) => o.rd,
                    IRStatement::Less(o) => o.rd,
                    IRStatement::LogicalAnd(o) => o.rd,
                    IRStatement::LogicalOr(o) => o.rd,
                    IRStatement::BitwiseAnd(o) => o.rd,
                    IRStatement::BitwiseOr(o) => o.rd,
                    IRStatement::BitwiseXor(o) => o.rd,
                    IRStatement::LeftShift(o) => o.rd,
                    IRStatement::RightShift(o) => o.rd,
                    _ => {
                        return None;
                    },
                };
                registers.insert(rd.0, value);
                last = value;
                pc = pc + 1;
            },
        }
    }
}

} // verus!
