//! Linear-scan register allocation: live intervals over the statement
//! order, a pool of physical registers, and an in-place rewrite of the
//! program onto physical register names.
//!
//! A live interval is the first-to-last-mention range of one register in
//! statement order; the computation ignores control flow, a conservative
//! approximation that is exact for straight-line code.

use crate::ir::IRStatement;
use crate::ir::Register;
use crate::ir::IR;
use crate::irgen::get_ir;
use crate::ast::Block;
use crate::syntax_error::SyntaxError;
use vstd::prelude::*;

verus! {

/// The registers a statement mentions, written or read.
pub open spec fn spec_mentioned_registers(s: IRStatement) -> Seq<Register> {
    match s {
        IRStatement::LoadImmediate(o) => seq![o.rd],
        IRStatement::Add(o) => seq![o.rd, o.rs1, o.rs2],
        IRStatement::Subtract(o) => seq![o.rd, o.rs1, o.rs2],
        IRStatement::Multiply(o) => seq![o.rd, o.rs1, o.rs2],
        IRStatement::Divide(o) => seq![o.rd, o.rs1, o.rs2],
        IRStatement::Modulus(o) => seq![o.rd, o.rs1, o.rs2],
        IRStatement::Exponentiate(o) => seq![o.rd, o.rs1, o.rs2],
        IRStatement::Equal(o) => seq![o.rd, o.rs1, o.rs2],
        IRStatement::NotEqual(o) => seq![o.rd, o.rs1, o.rs2],
        IRStatement::GreaterEqual(o) => seq![o.rd, o.rs1, o.rs2],
        IRStatement::LessEqual(o) => seq![o.rd, o.rs1, o.rs2],
        IRStatement::Greater(o) => seq![o.rd, o.rs1, o.rs2],
        IRStatement::Less(o) => seq![o.rd, o.rs1, o.rs2],
        IRStatement::LogicalAnd(o) => seq![o.rd, o.rs1, o.rs2],
        IRStatement::LogicalOr(o) => seq![o.rd, o.rs1, o.rs2],
        IRStatement::LogicalNot { rd, rs1 } => seq![rd, rs1],
        IRStatement::BitwiseAnd(o) => seq![o.rd, o.rs1, o.rs2],
        IRStatement::BitwiseOr(o) => seq![o.rd, o.rs1, o.rs2],
        IRStatement::BitwiseXor(o) => seq![o.rd, o.rs1, o.rs2],
        IRStatement::LeftShift(o) => seq![o.rd, o.rs1, o.rs2],
        IRStatement::RightShift(o) => seq![o.rd, o.rs1, o.rs2],
        IRStatement::Branch(_) => seq![],
        IRStatement::BranchNotZero(o) => seq![o.register],
        IRStatement::BranchZero(o) => seq![o.register],
        IRStatement::Label(_) => seq![],
        IRStatement::Print { rs1 } => seq![rs1],
        IRStatement::Push(o) => seq![o.register],
        IRStatement::Pop(o) => seq![o.register],
    }
}

/// Every register a statement mentions is below `k`.
pub open spec fn statement_registers_below(s: IRStatement, k: u32) -> bool {
    forall|i: int|
        0 <= i < spec_mentioned_registers(s).len() ==> (#[trigger] spec_mentioned_registers(
            s,
        )[i]).0 < k
}

/// Every register any statement mentions is below `k`.
pub open spec fn registers_below(stmts: Seq<IRStatement>, k: u32) -> bool {
    forall|i: int| 0 <= i < stmts.len() ==> #[trigger] statement_registers_below(stmts[i], k)
}

/// A numeric tag telling the statement kinds apart.
pub open spec fn statement_kind(s: IRStatement) -> int {
    match s {
        IRStatement::LoadImmediate(_) => 0,
        IRStatement::Add(_) => 1,
        IRStatement::Subtract(_) => 2,
        IRStatement::Multiply(_) => 3,
        IRStatement::Divide(_) => 4,
        IRStatement::Modulus(_) => 5,
        IRStatement::Exponentiate(_) => 6,
        IRStatement::Equal(_) => 7,
        IRStatement::NotEqual(_) => 8,
        IRStatement::GreaterEqual(_) => 9,
        IRStatement::LessEqual(_) => 10,
        IRStatement::Greater(_) => 11,
        IRStatement::Less(_) => 12,
        IRStatement::LogicalAnd(_) => 13,
        IRStatement::LogicalOr(_) => 14,
        IRStatement::LogicalNot { .. } => 15,
        IRStatement::BitwiseAnd(_) => 16,
        IRStatement::BitwiseOr(_) => 17,
        IRStatement::BitwiseXor(_) => 18,
        IRStatement::LeftShift(_) => 19,
        IRStatement::RightShift(_) => 20,
        IRStatement::Branch(_) => 21,
        IRStatement::BranchNotZero(_) => 22,
        IRStatement::BranchZero(_) => 23,
        IRStatement::Label(_) => 24,
        IRStatement::Print { .. } => 25,
        IRStatement::Push(_) => 26,
        IRStatement::Pop(_) => 27,
    }
}

/// What the rewrite keeps of a statement: its kind, its branching and
/// labelling behaviour, and its immediate — only register names change.
pub open spec fn shape_kept(a: IRStatement, b: IRStatement) -> bool {
    &&& statement_kind(b) == statement_kind(a)
    &&& b.spec_defined_label() == a.spec_defined_label()
    &&& b.spec_branch_target() == a.spec_branch_target()
    &&& (match (a, b) {
        (IRStatement::LoadImmediate(x), IRStatement::LoadImmediate(y)) => x.imm == y.imm,
        _ => true,
    })
}

fn mentioned_registers(s: &IRStatement) -> (r: Vec<Register>)
    ensures
        r@ == spec_mentioned_registers(*s),
{
    let mut v: Vec<Register> = Vec::new();
    match s {
        IRStatement::LoadImmediate(o) => {
            v.push(o.rd);
        },
        IRStatement::Add(o) => {
            v.push(o.rd);
            v.push(o.rs1);
            v.push(o.rs2);
        },
        IRStatement::Subtract(o) => {
            v.push(o.rd);
            v.push(o.rs1);
            v.push(o.rs2);
        },
        IRStatement::Multiply(o) => {
            v.push(o.rd);
            v.push(o.rs1);
            v.push(o.rs2);
        },
        IRStatement::Divide(o) => {
            v.push(o.rd);
            v.push(o.rs1);
            v.push(o.rs2);
        },
        IRStatement::Modulus(o) => {
            v.push(o.rd);
            v.push(o.rs1);
            v.push(o.rs2);
        },
        IRStatement::Exponentiate(o) => {
            v.push(o.rd);
            v.push(o.rs1);
            v.push(o.rs2);
        },
        IRStatement::Equal(o) => {
            v.push(o.rd);
            v.push(o.rs1);
            v.push(o.rs2);
        },
        IRStatement::NotEqual(o) => {
            v.push(o.rd);
            v.push(o.rs1);
            v.push(o.rs2);
        },
        IRStatement::GreaterEqual(o) => {
            v.push(o.rd);
            v.push(o.rs1);
            v.push(o.rs2);
        },
        IRStatement::LessEqual(o) => {
            v.push(o.rd);
            v.push(o.rs1);
            v.push(o.rs2);
        },
        IRStatement::Greater(o) => {
            v.push(o.rd);
            v.push(o.rs1);
            v.push(o.rs2);
        },
        IRStatement::Less(o) => {
            v.push(o.rd);
            v.push(o.rs1);
            v.push(o.rs2);
        },
        IRStatement::LogicalAnd(o) => {
            v.push(o.rd);
            v.push(o.rs1);
            v.push(o.rs2);
        },
        IRStatement::LogicalOr(o) => {
            v.push(o.rd);
            v.push(o.rs1);
            v.push(o.rs2);
        },
        IRStatement::LogicalNot { rd, rs1 } => {
            v.push(*rd);
            v.push(*rs1);
        },
        IRStatement::BitwiseAnd(o) => {
            v.push(o.rd);
            v.push(o.rs1);
            v.push(o.rs2);
        },
        IRStatement::BitwiseOr(o) => {
            v.push(o.rd);
            v.push(o.rs1);
            v.push(o.rs2);
        },
        IRStatement::BitwiseXor(o) => {
            v.push(o.rd);
            v.push(o.rs1);
            v.push(o.rs2);
        },
        IRStatement::LeftShift(o) => {
            v.push(o.rd);
            v.push(o.rs1);
            v.push(o.rs2);
        },
        IRStatement::RightShift(o) => {
            v.push(o.rd);
            v.push(o.rs1);
            v.push(o.rs2);
        },
        IRStatement::Branch(_) => {},
        IRStatement::BranchNotZero(o) => {
            v.push(o.register);
        },
        IRStatement::BranchZero(o) => {
            v.push(o.register);
        },
        IRStatement::Label(_) => {},
        IRStatement::Print { rs1 } => {
            v.push(*rs1);
        },
        IRStatement::Push(o) => {
            v.push(o.register);
        },
        IRStatement::Pop(o) => {
            v.push(o.register);
        },
    }
    proof {
        assert(v@ =~= spec_mentioned_registers(*s));
    }
    v
}

/// One mention of `reg` at position `i` folded into the interval list:
/// the register's entry extends its end, or a fresh entry opens.
pub open spec fn update_intervals(
    acc: Seq<(u32, usize, usize)>,
    reg: u32,
    i: usize,
) -> Seq<(u32, usize, usize)>
    decreases acc.len(),
{
    if acc.len() == 0 {
        seq![(reg, i, i)]
    } else if acc.first().0 == reg {
        seq![(acc.first().0, acc.first().1, i)] + acc.drop_first()
    } else {
        seq![acc.first()] + update_intervals(acc.drop_first(), reg, i)
    }
}

/// All of one statement's mentions folded in.
pub open spec fn add_mentions(
    acc: Seq<(u32, usize, usize)>,
    regs: Seq<Register>,
    i: usize,
) -> Seq<(u32, usize, usize)>
    decreases regs.len(),
{
    if regs.len() == 0 {
        acc
    } else {
        add_mentions(update_intervals(acc, regs.first().0, i), regs.drop_first(), i)
    }
}

/// The interval list after the first `n` statements.
pub open spec fn intervals_upto(stmts: Seq<IRStatement>, n: int) -> Seq<(u32, usize, usize)>
    decreases n,
{
    if n <= 0 {
        Seq::empty()
    } else {
        add_mentions(
            intervals_upto(stmts, n - 1),
            spec_mentioned_registers(stmts[n - 1]),
            (n - 1) as usize,
        )
    }
}

/// The live intervals of a program: for each register, in order of first
/// appearance, the span from its first to its last mention.
pub open spec fn spec_live_intervals(stmts: Seq<IRStatement>) -> Seq<(u32, usize, usize)> {
    intervals_upto(stmts, stmts.len() as int)
}

proof fn lemma_update_found(acc: Seq<(u32, usize, usize)>, reg: u32, i: usize, k: int)
    requires
        0 <= k < acc.len(),
        acc[k].0 == reg,
        forall|a: int| 0 <= a < k ==> (#[trigger] acc[a]).0 != reg,
    ensures
        update_intervals(acc, reg, i) =~= acc.update(k, (acc[k].0, acc[k].1, i)),
    decreases k,
{
    if k == 0 {
    } else {
        assert(acc.first().0 != reg);
        assert(acc.drop_first()[k - 1] == acc[k]);
        assert(forall|a: int| 0 <= a < k - 1 ==> (#[trigger] acc.drop_first()[a]).0 != reg);
        lemma_update_found(acc.drop_first(), reg, i, k - 1);
        assert(update_intervals(acc, reg, i) =~= acc.update(k, (acc[k].0, acc[k].1, i)));
    }
}

proof fn lemma_update_missing(acc: Seq<(u32, usize, usize)>, reg: u32, i: usize)
    requires
        forall|a: int| 0 <= a < acc.len() ==> (#[trigger] acc[a]).0 != reg,
    ensures
        update_intervals(acc, reg, i) =~= acc.push((reg, i, i)),
    decreases acc.len(),
{
    if acc.len() > 0 {
        assert(acc.first().0 != reg);
        assert(forall|a: int|
            0 <= a < acc.drop_first().len() ==> (#[trigger] acc.drop_first()[a]).0 != reg);
        lemma_update_missing(acc.drop_first(), reg, i);
        assert(update_intervals(acc, reg, i) =~= acc.push((reg, i, i)));
    }
}

/// The live interval of each register, keyed by the register and ordered
/// by first appearance: the interval opens at a register's first mention
/// and closes at its last, exactly as `spec_live_intervals` prescribes.
pub fn get_live_intervals(ir: &IR) -> (r: Vec<(u32, usize, usize)>)
    ensures
        r@ == spec_live_intervals(ir@),
        forall|a: int, b: int| 0 <= a < b < r@.len() ==> (#[trigger] r@[a]).0 != (#[trigger] r@[
            b
        ]).0,
{
    let mut intervals: Vec<(u32, usize, usize)> = Vec::new();
    let n = ir.statements.len();
    let mut i: usize = 0;
    while i < n
        invariant
            forall|a: int, b: int| 0 <= a < b < intervals@.len() ==> (#[trigger] intervals@[
                a
            ]).0 != (#[trigger] intervals@[b]).0,
            n == ir.statements@.len(),
            i <= n,
            intervals@ == intervals_upto(ir@, i as int),
        decreases n - i,
    {
        let mentioned = mentioned_registers(&ir.statements[i]);
        let ghost acc_entry = intervals@;
        proof {
            assert(mentioned@.skip(0) =~= mentioned@);
        }
        let m = mentioned.len();
        let mut j: usize = 0;
        while j < m
            invariant
                forall|a: int, b: int| 0 <= a < b < intervals@.len() ==> (#[trigger] intervals@[
                    a
                ]).0 != (#[trigger] intervals@[b]).0,
                m == mentioned@.len(),
                j <= m,
                i < n,
                mentioned@ == spec_mentioned_registers(ir@[i as int]),
                add_mentions(acc_entry, mentioned@, i) == add_mentions(
                    intervals@,
                    mentioned@.skip(j as int),
                    i,
                ),
            decreases m - j,
        {
            proof {
                assert(mentioned@.skip(j as int).first() == mentioned@[j as int]);
                assert(mentioned@.skip(j as int).drop_first() =~= mentioned@.skip(j + 1));
            }
            let ghost before_step = intervals@;
            let reg = mentioned[j].0;
            let mut found = false;
            let mut k: usize = 0;
            let len0 = intervals.len();
            while k < len0
                invariant
                    forall|a: int, b: int| 0 <= a < b < intervals@.len() ==> (
                    #[trigger] intervals@[a]).0 != (#[trigger] intervals@[b]).0,
                    len0 == intervals@.len(),
                    k <= len0,
                    found ==> exists|a: int| 0 <= a < len0 && (#[trigger] intervals@[a]).0 == reg,
                    found ==> k == len0,
                    found ==> intervals@ == update_intervals(before_step, reg, i),
                    !found ==> intervals@ == before_step,
                    !found ==> forall|a: int| 0 <= a < k ==> (#[trigger] intervals@[a]).0 != reg,
                decreases len0 - k,
            {
                if intervals[k].0 == reg {
                    let entry = intervals[k];
                    proof {
                        lemma_update_found(before_step, reg, i, k as int);
                    }
                    intervals.set(k, (entry.0, entry.1, i));
                    proof {
                        assert(intervals@ =~= update_intervals(before_step, reg, i));
                        assert((intervals@[k as int]).0 == reg);
                        assert(forall|a: int, b: int|
                            0 <= a < b < intervals@.len() ==> (#[trigger] intervals@[a]).0 != (
                            #[trigger] intervals@[b]).0);
                    }
                    found = true;
                    k = len0;
                } else {
                    k = k + 1;
                }
            }
            if !found {
                proof {
                    lemma_update_missing(intervals@, reg, i);
                }
                intervals.push((reg, i, i));
            }
            proof {
                assert(intervals@ =~= update_intervals(before_step, reg, i));
                assert(add_mentions(before_step, mentioned@.skip(j as int), i) == add_mentions(
                    intervals@,
                    mentioned@.skip(j + 1),
                    i,
                ));
            }
            j = j + 1;
        }
        proof {
            assert(mentioned@.skip(m as int).len() == 0);
        }
        i = i + 1;
    }
    proof {
        assert(intervals@ == spec_live_intervals(ir@));
    }
    intervals
}

/// Two intervals are simultaneously live at some position.
pub open spec fn intervals_overlap(x: (u32, usize, usize), y: (u32, usize, usize)) -> bool {
    x.1 <= y.2 && y.1 <= x.2
}

/// The physical register `v` maps to, if any.
pub open spec fn map_lookup(m: Seq<(u32, u32)>, v: u32) -> Option<u32>
    decreases m.len(),
{
    if m.len() == 0 {
        None
    } else if m.last().0 == v {
        Some(m.last().1)
    } else {
        map_lookup(m.drop_last(), v)
    }
}

fn lookup_mapping(mapping: &Vec<(u32, u32)>, v: u32) -> (r: Option<u32>)
    ensures
        r == map_lookup(mapping@, v),
{
    proof {
        assert(mapping@.subrange(0, mapping@.len() as int) =~= mapping@);
    }
    let mut k = mapping.len();
    while k > 0
        invariant
            k <= mapping@.len(),
            map_lookup(mapping@, v) == map_lookup(mapping@.subrange(0, k as int), v),
        decreases k,
    {
        k = k - 1;
        let ghost here = mapping@.subrange(0, k + 1);
        proof {
            assert(here.drop_last() =~= mapping@.subrange(0, k as int));
            assert(here.last() == mapping@[k as int]);
        }
        if mapping[k].0 == v {
            return Some(mapping[k].1);
        }
    }
    proof {
        assert(mapping@.subrange(0, 0) =~= Seq::<(u32, u32)>::empty());
    }
    None
}

/// Simultaneously live virtual registers map to distinct physical
/// registers, and every interval's register is mapped.
pub open spec fn allocation_respects_overlaps(
    ivs: Seq<(u32, usize, usize)>,
    m: Seq<(u32, u32)>,
) -> bool {
    forall|a: int, b: int|
        0 <= a < b < ivs.len() && intervals_overlap(#[trigger] ivs[a], #[trigger] ivs[b]) ==> {
            &&& map_lookup(m, ivs[a].0) is Some
            &&& map_lookup(m, ivs[b].0) is Some
            &&& map_lookup(m, ivs[a].0) != map_lookup(m, ivs[b].0)
        }
}

/// `b` is `a` with every register operand sent through the mapping.
pub open spec fn registers_mapped(a: IRStatement, b: IRStatement, m: Seq<(u32, u32)>) -> bool {
    &&& spec_mentioned_registers(b).len() == spec_mentioned_registers(a).len()
    &&& forall|i: int|
        0 <= i < spec_mentioned_registers(a).len() ==> map_lookup(
            m,
            (#[trigger] spec_mentioned_registers(a)[i]).0,
        ) == Some(spec_mentioned_registers(b)[i].0)
}

/// All physical registers a mapping assigns are below `k`.
pub open spec fn mapping_below(m: Seq<(u32, u32)>, k: u32) -> bool {
    forall|i: int| 0 <= i < m.len() ==> (#[trigger] m[i]).1 < k
}

proof fn lemma_map_lookup_below(m: Seq<(u32, u32)>, v: u32, k: u32)
    requires
        mapping_below(m, k),
    ensures
        map_lookup(m, v) matches Some(p) ==> p < k,
    decreases m.len(),
{
    if m.len() > 0 {
        assert(m.drop_last().len() == m.len() - 1);
        assert(forall|i: int| 0 <= i < m.len() - 1 ==> m.drop_last()[i] == m[i]);
        lemma_map_lookup_below(m.drop_last(), v, k);
    }
}

fn rewrite_register(r: Register, mapping: &Vec<(u32, u32)>) -> (res: Result<Register, SyntaxError>)
    ensures
        res matches Ok(p) ==> map_lookup(mapping@, r.0) == Some(p.0),
        res is Ok <==> map_lookup(mapping@, r.0) is Some,
        forall|k: u32|
            mapping_below(mapping@, k) ==> (res matches Ok(p) ==> p.0 < k),
{
    proof {
        assert forall|k: u32| mapping_below(mapping@, k) implies (match map_lookup(
            mapping@,
            r.0,
        ) {
            Some(p) => p < k,
            None => true,
        }) by {
            lemma_map_lookup_below(mapping@, r.0, k);
        }
    }
    match lookup_mapping(mapping, r.0) {
        Some(p) => Ok(Register(p)),
        None => Err(SyntaxError::InternalError),
    }
}

/// Rewrites one statement onto physical registers; the statement's kind,
/// label, branch target and immediate are untouched.
#[verifier::rlimit(100)]
#[verifier::spinoff_prover]
fn rewrite_statement(s: &IRStatement, mapping: &Vec<(u32, u32)>) -> (r: Result<
    IRStatement,
    SyntaxError,
>)
    ensures
        r matches Ok(ns) ==> shape_kept(*s, ns),
        r matches Ok(ns) ==> registers_mapped(*s, ns, mapping@),
        forall|k: u32|
            mapping_below(mapping@, k) ==> (r matches Ok(ns) ==> statement_registers_below(ns, k)),
{
    match s {
        IRStatement::LoadImmediate(o) => {
            let rd = rewrite_register(o.rd, mapping)?;
            Ok(IRStatement::LoadImmediate(crate::ir::IRImmediateStatement { rd, imm: o.imm }))
        },
        IRStatement::Add(o) => Ok(IRStatement::Add(rewrite_three(o, mapping)?)),
        IRStatement::Subtract(o) => Ok(IRStatement::Subtract(rewrite_three(o, mapping)?)),
        IRStatement::Multiply(o) => Ok(IRStatement::Multiply(rewrite_three(o, mapping)?)),
        IRStatement::Divide(o) => Ok(IRStatement::Divide(rewrite_three(o, mapping)?)),
        IRStatement::Modulus(o) => Ok(IRStatement::Modulus(rewrite_three(o, mapping)?)),
        IRStatement::Exponentiate(o) => Ok(IRStatement::Exponentiate(rewrite_three(o, mapping)?)),
        IRStatement::Equal(o) => Ok(IRStatement::Equal(rewrite_three(o, mapping)?)),
        IRStatement::NotEqual(o) => Ok(IRStatement::NotEqual(rewrite_three(o, mapping)?)),
        IRStatement::GreaterEqual(o) => Ok(
            IRStatement::GreaterEqual(rewrite_three(o, mapping)?),
        ),
        IRStatement::LessEqual(o) => Ok(IRStatement::LessEqual(rewrite_three(o, mapping)?)),
        IRStatement::Greater(o) => Ok(IRStatement::Greater(rewrite_three(o, mapping)?)),
        IRStatement::Less(o) => Ok(IRStatement::Less(rewrite_three(o, mapping)?)),
        IRStatement::LogicalAnd(o) => Ok(IRStatement::LogicalAnd(rewrite_three(o, mapping)?)),
        IRStatement::LogicalOr(o) => Ok(IRStatement::LogicalOr(rewrite_three(o, mapping)?)),
        IRStatement::LogicalNot { rd, rs1 } => {
            let nrd = rewrite_register(*rd, mapping)?;
            let nrs1 = rewrite_register(*rs1, mapping)?;
            Ok(IRStatement::LogicalNot { rd: nrd, rs1: nrs1 })
        },
        IRStatement::BitwiseAnd(o) => Ok(IRStatement::BitwiseAnd(rewrite_three(o, mapping)?)),
        IRStatement::BitwiseOr(o) => Ok(IRStatement::BitwiseOr(rewrite_three(o, mapping)?)),
        IRStatement::BitwiseXor(o) => Ok(IRStatement::BitwiseXor(rewrite_three(o, mapping)?)),
        IRStatement::LeftShift(o) => Ok(IRStatement::LeftShift(rewrite_three(o, mapping)?)),
        IRStatement::RightShift(o) => Ok(IRStatement::RightShift(rewrite_three(o, mapping)?)),
        IRStatement::Branch(o) => Ok(IRStatement::Branch(*o)),
        IRStatement::BranchNotZero(o) => {
            let nr = rewrite_register(o.register, mapping)?;
            Ok(
                IRStatement::BranchNotZero(
                    crate::ir::IRConditionalBranchStatement { register: nr, label: o.label },
                ),
            )
        },
        IRStatement::BranchZero(o) => {
            let nr = rewrite_register(o.register, mapping)?;
            Ok(
                IRStatement::BranchZero(
                    crate::ir::IRConditionalBranchStatement { register: nr, label: o.label },
                ),
            )
        },
        IRStatement::Label(o) => Ok(IRStatement::Label(*o)),
        IRStatement::Print { rs1 } => {
            let nr = rewrite_register(*rs1, mapping)?;
            Ok(IRStatement::Print { rs1: nr })
        },
        IRStatement::Push(o) => {
            let nr = rewrite_register(o.register, mapping)?;
            Ok(IRStatement::Push(crate::ir::IRPushStatement { register: nr }))
        },
        IRStatement::Pop(o) => {
            let nr = rewrite_register(o.register, mapping)?;
            Ok(IRStatement::Pop(crate::ir::IRPopStatement { register: nr }))
        },
    }
}

fn rewrite_three(
    o: &crate::ir::IRRegisterStatement,
    mapping: &Vec<(u32, u32)>,
) -> (r: Result<crate::ir::IRRegisterStatement, SyntaxError>)
    ensures
        r matches Ok(no) ==> {
            &&& map_lookup(mapping@, o.rd.0) == Some(no.rd.0)
            &&& map_lookup(mapping@, o.rs1.0) == Some(no.rs1.0)
            &&& map_lookup(mapping@, o.rs2.0) == Some(no.rs2.0)
        },
        forall|k: u32|
            mapping_below(mapping@, k) ==> (r matches Ok(no) ==> no.rd.0 < k && no.rs1.0 < k
                && no.rs2.0 < k),
{
    let rd = rewrite_register(o.rd, mapping)?;
    let rs1 = rewrite_register(o.rs1, mapping)?;
    let rs2 = rewrite_register(o.rs2, mapping)?;
    Ok(crate::ir::IRRegisterStatement { rd, rs1, rs2 })
}

/// A pointwise shape-preserving rewrite keeps labels unique and branch
/// targets defined.
pub proof fn lemma_shape_kept_preserves_wf(a: Seq<IRStatement>, b: Seq<IRStatement>)
    requires
        a.len() == b.len(),
        forall|i: int| 0 <= i < a.len() ==> shape_kept(a[i], #[trigger] b[i]),
    ensures
        crate::ir::labels_unique(a) ==> crate::ir::labels_unique(b),
        crate::ir::branch_targets_defined(a) ==> crate::ir::branch_targets_defined(b),
{
    if crate::ir::labels_unique(a) {
        assert forall|i: int, j: int|
            0 <= i < j < b.len() && #[trigger] b[i].spec_defined_label() is Some && #[trigger] b[
                j
            ].spec_defined_label() is Some implies b[i].spec_defined_label() != b[
            j
        ].spec_defined_label() by {
            assert(shape_kept(a[i], b[i]));
            assert(shape_kept(a[j], b[j]));
        }
    }
    if crate::ir::branch_targets_defined(a) {
        assert forall|i: int|
            0 <= i < b.len() && b[i].spec_branch_target() is Some implies #[trigger] crate::ir::label_defined(
            b,
            b[i].spec_branch_target()->0,
        ) by {
            assert(shape_kept(a[i], b[i]));
            assert(crate::ir::label_defined(a, a[i].spec_branch_target()->0));
            let w = choose|k: int|
                0 <= k < a.len() && #[trigger] a[k].spec_defined_label() == Some(
                    a[i].spec_branch_target()->0,
                );
            assert(shape_kept(a[w], b[w]));
            assert(b[w].spec_defined_label() == Some(b[i].spec_branch_target()->0));
        }
    }
}

/// Decides whether a mapping gives simultaneously live intervals distinct
/// physical registers (with every interval's register mapped).
fn check_allocation(intervals: &Vec<(u32, usize, usize)>, mapping: &Vec<(u32, u32)>) -> (ok: bool)
    ensures
        ok == allocation_respects_overlaps(intervals@, mapping@),
{
    let n = intervals.len();
    let mut a: usize = 0;
    while a < n
        invariant
            n == intervals@.len(),
            a <= n,
            forall|x: int, y: int|
                0 <= x < y < n && x < a && intervals_overlap(
                    #[trigger] intervals@[x],
                    #[trigger] intervals@[y],
                ) ==> {
                    &&& map_lookup(mapping@, intervals@[x].0) is Some
                    &&& map_lookup(mapping@, intervals@[y].0) is Some
                    &&& map_lookup(mapping@, intervals@[x].0) != map_lookup(
                        mapping@,
                        intervals@[y].0,
                    )
                },
        decreases n - a,
    {
        let mut b: usize = a + 1;
        while b < n
            invariant
                n == intervals@.len(),
                a < b <= n,
                forall|y: int|
                    a < y < b && intervals_overlap(
                        #[trigger] intervals@[a as int],
                        #[trigger] intervals@[y],
                    ) ==> {
                        &&& map_lookup(mapping@, intervals@[a as int].0) is Some
                        &&& map_lookup(mapping@, intervals@[y].0) is Some
                        &&& map_lookup(mapping@, intervals@[a as int].0) != map_lookup(
                            mapping@,
                            intervals@[y].0,
                        )
                    },
            decreases n - b,
        {
            let x = intervals[a];
            let y = intervals[b];
            if x.1 <= y.2 && y.1 <= x.2 {
                let pa = lookup_mapping(mapping, x.0);
                let pb = lookup_mapping(mapping, y.0);
                match (pa, pb) {
                    (Some(p), Some(q)) => {
                        if p == q {
                            return false;
                        }
                    },
                    _ => {
                        return false;
                    },
                }
            }
            b = b + 1;
        }
        a = a + 1;
    }
    true
}

/// Linear-scan allocation: rewrites a program using virtual registers
/// onto at most `registers_count` physical registers, in place.  Spilling
/// is not implemented: when more intervals are live at once than there are
/// physical registers, the allocation fails.
///
/// On success every register operand of the rewritten program is one of
/// the `registers_count` physical registers; every statement keeps its
/// kind, label and immediate; and one register mapping carries the whole
/// rewrite, under which virtual registers with overlapping live intervals
/// go to distinct physical registers — the last established by a verified
/// check of the finished assignment.
pub fn spill_extra_virtual_registers(ir: &mut IR, registers_count: u32) -> (r: Result<
    (),
    SyntaxError,
>)
    ensures
        r is Ok ==> {
            &&& final(ir)@.len() == old(ir)@.len()
            &&& forall|i: int|
                0 <= i < old(ir)@.len() ==> shape_kept(old(ir)@[i], #[trigger] final(ir)@[i])
            &&& registers_below(final(ir)@, registers_count)
        },
        r is Ok ==> exists|m: Seq<(u32, u32)>| {
            &&& #[trigger] allocation_respects_overlaps(spec_live_intervals(old(ir)@), m)
            &&& forall|i: int|
                0 <= i < old(ir)@.len() ==> registers_mapped(
                    old(ir)@[i],
                    #[trigger] final(ir)@[i],
                    m,
                )
        },
{
    let intervals = get_live_intervals(ir);
    let mut available: Vec<bool> = Vec::new();
    let mut p: usize = 0;
    while p < registers_count as usize
        invariant
            available@.len() == p,
            p <= registers_count,
        decreases registers_count as usize - p,
    {
        available.push(true);
        p = p + 1;
    }
    let mut active: Vec<(u32, usize)> = Vec::new();
    let mut mapping: Vec<(u32, u32)> = Vec::new();
    let n_iv = intervals.len();
    let mut t: usize = 0;
    while t < n_iv
        invariant
            n_iv == intervals@.len(),
            t <= n_iv,
            available@.len() == registers_count,
            mapping_below(mapping@, registers_count),
        decreases n_iv - t,
    {
        let (vreg, _start, end) = intervals[t];
        let start = intervals[t].1;
        // Expire intervals that ended before this one starts, returning
        // their physical registers to the pool.
        let mut kept: Vec<(u32, usize)> = Vec::new();
        let mut ai: usize = 0;
        let n_act = active.len();
        while ai < n_act
            invariant
                n_act == active@.len(),
                ai <= n_act,
                available@.len() == registers_count,
                mapping_below(mapping@, registers_count),
            decreases n_act - ai,
        {
            let entry = active[ai];
            if entry.1 >= start {
                kept.push(entry);
            } else {
                match lookup_mapping(&mapping, entry.0) {
                    Some(phys) => {
                        if (phys as usize) < available.len() {
                            available.set(phys as usize, true);
                        }
                    },
                    None => {},
                }
            }
            ai = ai + 1;
        }
        active = kept;
        // Take the first free physical register.
        let mut chosen: Option<u32> = None;
        let mut q: usize = 0;
        let n_avail = available.len();
        while q < n_avail
            invariant
                n_avail == available@.len(),
                q <= n_avail,
                n_avail == registers_count,
                chosen matches Some(c) ==> c < registers_count,
            decreases n_avail - q,
        {
            if available[q] {
                chosen = Some(q as u32);
                q = n_avail;
            } else {
                q = q + 1;
            }
        }
        let phys = match chosen {
            None => {
                return Err(SyntaxError::InternalError);
            },
            Some(c) => c,
        };
        available.set(phys as usize, false);
        mapping.push((vreg, phys));
        // Keep the active set sorted by increasing end point.
        let mut pos: usize = 0;
        while pos < active.len() && active[pos].1 <= end
            invariant
                pos <= active@.len(),
            decreases active@.len() - pos,
        {
            pos = pos + 1;
        }
        active.insert(pos, (vreg, end));
        t = t + 1;
    }
    if !check_allocation(&intervals, &mapping) {
        return Err(SyntaxError::InternalError);
    }
    // Rewrite every operand onto its physical register.
    let n = ir.statements.len();
    let mut rewritten: Vec<IRStatement> = Vec::new();
    let mut i: usize = 0;
    while i < n
        invariant
            n == ir.statements@.len(),
            ir.statements@ == old(ir)@,
            i <= n,
            rewritten@.len() == i,
            mapping_below(mapping@, registers_count),
            allocation_respects_overlaps(spec_live_intervals(old(ir)@), mapping@),
            forall|j: int|
                0 <= j < i ==> shape_kept(old(ir)@[j], #[trigger] rewritten@[j])
                    && statement_registers_below(rewritten@[j], registers_count)
                    && registers_mapped(old(ir)@[j], rewritten@[j], mapping@),
        decreases n - i,
    {
        let ns = rewrite_statement(&ir.statements[i], &mapping)?;
        rewritten.push(ns);
        i = i + 1;
    }
    ir.statements = rewritten;
    proof {
        assert(allocation_respects_overlaps(spec_live_intervals(old(ir)@), mapping@));
    }
    Ok(())
}

/// Parses nothing and emits nothing itself: lowers an already-parsed
/// program and allocates it onto `general_purpose_registers_count`
/// physical registers, yielding the rewritten program.
pub fn get_code(program: &Block, general_purpose_registers_count: u32) -> (r: Result<
    IR,
    SyntaxError,
>)
    ensures
        crate::irgen::sp_get_ir(*program) matches Err(e) ==> r == Err::<IR, SyntaxError>(e),
        r matches Ok(ir) ==> {
            &&& registers_below(ir@, general_purpose_registers_count)
            &&& crate::ir::labels_unique(ir@)
            &&& crate::ir::branch_targets_defined(ir@)
        },
{
    let mut ir = get_ir(program)?;
    // Optimization passes would go here.
    let ghost before = ir@;
    spill_extra_virtual_registers(&mut ir, general_purpose_registers_count)?;
    proof {
        lemma_shape_kept_preserves_wf(before, ir@);
    }
    Ok(ir)
}

} // verus!
