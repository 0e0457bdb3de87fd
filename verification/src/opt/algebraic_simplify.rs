//! Algebraic simplification: identity and absorbing elements.
//!
//! At the top level of each block, an assignment whose value is a binary
//! operation with an identity or absorbing constant, or a double `!` or
//! `-`, becomes an assignment of the simplified operand:
//! `x + 0`, `0 + x`, `x - 0`, `x * 1`, `1 * x`, `x / 1`, `x | 0`, `0 | x`,
//! `x ^ 0`, `0 ^ x`, `x << 0`, `x >> 0` give `x`; `x * 0`, `0 * x`,
//! `x & 0`, `0 & x` give `0`; `x && true`, `true && x`, `x || false`,
//! `false || x` give `x`; `x && false` gives `false` and `x || true` gives
//! `true`; `!!x` and `--x` give `x`. Zero and one are `i32` or `i64`
//! constants.
use vstd::prelude::*;

use crate::mir::{
    blocks_view, clone_operand, clone_place, clone_stmt, stmt_view, stmts_view, BasicBlock, BinOp,
    BlockView, MirFunction, MirStmt, Operand, OperandView, Rvalue, RvalueView, StmtView, UnaryOp,
};
use crate::opt::desugar::same_header;
use crate::opt::summary::{zero_summary, OptimizationSummary};

verus! {

pub open spec fn is_zero32(o: OperandView) -> bool {
    o == OperandView::ConstI32(0)
}

pub open spec fn is_zero64(o: OperandView) -> bool {
    o == OperandView::ConstI64(0)
}

pub open spec fn is_zero(o: OperandView) -> bool {
    is_zero32(o) || is_zero64(o)
}

pub open spec fn is_one(o: OperandView) -> bool {
    o == OperandView::ConstI32(1) || o == OperandView::ConstI64(1)
}

/// What `lhs op rhs` simplifies to, if anything.
pub open spec fn simplify_binop(op: BinOp, lhs: OperandView, rhs: OperandView) -> Option<
    OperandView,
> {
    match op {
        BinOp::Add => if is_zero(rhs) {
            Some(lhs)
        } else if is_zero(lhs) {
            Some(rhs)
        } else {
            None
        },
        BinOp::Sub => if is_zero(rhs) {
            Some(lhs)
        } else {
            None
        },
        BinOp::Mul => if is_one(rhs) {
            Some(lhs)
        } else if is_one(lhs) {
            Some(rhs)
        } else if is_zero32(rhs) || is_zero32(lhs) {
            Some(OperandView::ConstI32(0))
        } else if is_zero64(rhs) || is_zero64(lhs) {
            Some(OperandView::ConstI64(0))
        } else {
            None
        },
        BinOp::Div => if is_one(rhs) {
            Some(lhs)
        } else {
            None
        },
        BinOp::BitAnd => if is_zero32(rhs) || is_zero32(lhs) {
            Some(OperandView::ConstI32(0))
        } else if is_zero64(rhs) || is_zero64(lhs) {
            Some(OperandView::ConstI64(0))
        } else {
            None
        },
        BinOp::BitOr | BinOp::BitXor => if is_zero(rhs) {
            Some(lhs)
        } else if is_zero(lhs) {
            Some(rhs)
        } else {
            None
        },
        BinOp::And => if rhs == OperandView::ConstBool(true) {
            Some(lhs)
        } else if lhs == OperandView::ConstBool(true) {
            Some(rhs)
        } else if rhs == OperandView::ConstBool(false) || lhs == OperandView::ConstBool(false) {
            Some(OperandView::ConstBool(false))
        } else {
            None
        },
        BinOp::Or => if rhs == OperandView::ConstBool(false) {
            Some(lhs)
        } else if lhs == OperandView::ConstBool(false) {
            Some(rhs)
        } else if rhs == OperandView::ConstBool(true) || lhs == OperandView::ConstBool(true) {
            Some(OperandView::ConstBool(true))
        } else {
            None
        },
        BinOp::Shl | BinOp::Shr => if is_zero(rhs) {
            Some(lhs)
        } else {
            None
        },
        _ => None,
    }
}

/// What an rvalue simplifies to, if anything.
pub open spec fn simplify_rvalue(r: RvalueView) -> Option<OperandView> {
    match r {
        RvalueView::BinaryOp(op, a, b) => simplify_binop(op, a, b),
        RvalueView::UnaryOp(op, a) => match a {
            OperandView::UnaryOp(op2, inner) => if (op == UnaryOp::Not && op2 == UnaryOp::Not) || (
            op == UnaryOp::Neg && op2 == UnaryOp::Neg) {
                Some(*inner)
            } else {
                None
            },
            _ => None,
        },
        _ => None,
    }
}

pub open spec fn alg_simplified(s: StmtView) -> StmtView {
    match s {
        StmtView::Assign(p, r) => match simplify_rvalue(r) {
            Some(o) => StmtView::Assign(p, RvalueView::Use(o)),
            None => s,
        },
        _ => s,
    }
}

pub open spec fn alg_simplifiable(s: StmtView) -> bool {
    match s {
        StmtView::Assign(_, r) => simplify_rvalue(r) is Some,
        _ => false,
    }
}

pub open spec fn alg_block(b: BlockView) -> BlockView {
    BlockView { stmts: b.stmts.map_values(|s: StmtView| alg_simplified(s)), ..b }
}

pub open spec fn alg_count_stmts(ss: Seq<StmtView>) -> nat
    decreases ss.len(),
{
    if ss.len() == 0 {
        0
    } else {
        alg_count_stmts(ss.drop_last()) + if alg_simplifiable(ss.last()) {
            1nat
        } else {
            0nat
        }
    }
}

pub open spec fn alg_total(bv: Seq<BlockView>) -> nat
    decreases bv.len(),
{
    if bv.len() == 0 {
        0
    } else {
        alg_total(bv.drop_last()) + alg_count_stmts(bv.last().stmts)
    }
}

proof fn lemma_alg_total_prefix(bv: Seq<BlockView>, n: int)
    requires
        0 <= n <= bv.len(),
    ensures
        alg_total(bv.take(n)) <= alg_total(bv),
    decreases bv.len() - n,
{
    if n < bv.len() {
        assert(bv.take(n + 1).drop_last() =~= bv.take(n));
        lemma_alg_total_prefix(bv, n + 1);
    } else {
        assert(bv.take(n) =~= bv);
    }
}

fn zero32(o: &Operand) -> (r: bool)
    ensures
        r == is_zero32(o@),
{
    match o {
        Operand::ConstI32(v) => *v == 0,
        _ => false,
    }
}

fn zero64(o: &Operand) -> (r: bool)
    ensures
        r == is_zero64(o@),
{
    match o {
        Operand::ConstI64(v) => *v == 0,
        _ => false,
    }
}

fn one(o: &Operand) -> (r: bool)
    ensures
        r == is_one(o@),
{
    match o {
        Operand::ConstI32(v) => *v == 1,
        Operand::ConstI64(v) => *v == 1,
        _ => false,
    }
}

fn const_bool(o: &Operand, b: bool) -> (r: bool)
    ensures
        r == (o@ == OperandView::ConstBool(b)),
{
    match o {
        Operand::ConstBool(v) => *v == b,
        _ => false,
    }
}

/// Simplify `lhs op rhs` by the identity and absorbing rules.
fn try_algebraic_simplify_binop(op: BinOp, lhs: &Operand, rhs: &Operand) -> (r: Option<Operand>)
    ensures
        match r {
            Some(o) => simplify_binop(op, lhs@, rhs@) == Some(o@),
            None => simplify_binop(op, lhs@, rhs@) is None,
        },
{
    match op {
        BinOp::Add => {
            if zero32(rhs) || zero64(rhs) {
                Some(clone_operand(lhs))
            } else if zero32(lhs) || zero64(lhs) {
                Some(clone_operand(rhs))
            } else {
                None
            }
        },
        BinOp::Sub => {
            if zero32(rhs) || zero64(rhs) {
                Some(clone_operand(lhs))
            } else {
                None
            }
        },
        BinOp::Mul => {
            if one(rhs) {
                Some(clone_operand(lhs))
            } else if one(lhs) {
                Some(clone_operand(rhs))
            } else if zero32(rhs) || zero32(lhs) {
                Some(Operand::ConstI32(0))
            } else if zero64(rhs) || zero64(lhs) {
                Some(Operand::ConstI64(0))
            } else {
                None
            }
        },
        BinOp::Div => {
            if one(rhs) {
                Some(clone_operand(lhs))
            } else {
                None
            }
        },
        BinOp::BitAnd => {
            if zero32(rhs) || zero32(lhs) {
                Some(Operand::ConstI32(0))
            } else if zero64(rhs) || zero64(lhs) {
                Some(Operand::ConstI64(0))
            } else {
                None
            }
        },
        BinOp::BitOr | BinOp::BitXor => {
            if zero32(rhs) || zero64(rhs) {
                Some(clone_operand(lhs))
            } else if zero32(lhs) || zero64(lhs) {
                Some(clone_operand(rhs))
            } else {
                None
            }
        },
        BinOp::And => {
            if const_bool(rhs, true) {
                Some(clone_operand(lhs))
            } else if const_bool(lhs, true) {
                Some(clone_operand(rhs))
            } else if const_bool(rhs, false) || const_bool(lhs, false) {
                Some(Operand::ConstBool(false))
            } else {
                None
            }
        },
        BinOp::Or => {
            if const_bool(rhs, false) {
                Some(clone_operand(lhs))
            } else if const_bool(lhs, false) {
                Some(clone_operand(rhs))
            } else if const_bool(rhs, true) || const_bool(lhs, true) {
                Some(Operand::ConstBool(true))
            } else {
                None
            }
        },
        BinOp::Shl | BinOp::Shr => {
            if zero32(rhs) || zero64(rhs) {
                Some(clone_operand(lhs))
            } else {
                None
            }
        },
        _ => None,
    }
}

fn try_algebraic_simplify_rvalue(rvalue: &Rvalue) -> (r: Option<Operand>)
    ensures
        match r {
            Some(o) => simplify_rvalue(rvalue@) == Some(o@),
            None => simplify_rvalue(rvalue@) is None,
        },
{
    match rvalue {
        Rvalue::BinaryOp(op, lhs, rhs) => try_algebraic_simplify_binop(*op, lhs, rhs),
        Rvalue::UnaryOp(op, Operand::UnaryOp(op2, inner)) => {
            let same = match (op, op2) {
                (UnaryOp::Not, UnaryOp::Not) => true,
                (UnaryOp::Neg, UnaryOp::Neg) => true,
                _ => false,
            };
            if same {
                Some(clone_operand(inner))
            } else {
                None
            }
        },
        _ => None,
    }
}

fn simplify_stmt(s: &MirStmt) -> (r: (MirStmt, bool))
    ensures
        r.0@ == alg_simplified(s@),
        r.1 == alg_simplifiable(s@),
{
    if let MirStmt::Assign(place, rvalue) = s {
        if let Some(simplified) = try_algebraic_simplify_rvalue(rvalue) {
            return (MirStmt::Assign(clone_place(place), Rvalue::Use(simplified)), true);
        }
    }
    (clone_stmt(s), false)
}

fn simplify_block(b: &BasicBlock) -> (r: (BasicBlock, usize))
    ensures
        r.0@ == alg_block(b@),
        r.1 == alg_count_stmts(b@.stmts),
{
    let ghost ss = b@.stmts;
    let mut out: Vec<MirStmt> = Vec::new();
    let mut count: usize = 0;
    let mut i: usize = 0;
    proof {
        crate::mir::lemma_stmts_view(b.stmts@);
        assert(stmts_view(out@) =~= ss.take(0).map_values(|s: StmtView| alg_simplified(s)));
    }
    while i < b.stmts.len()
        invariant
            i <= b.stmts.len(),
            ss == stmts_view(b.stmts@),
            ss.len() == b.stmts@.len(),
            stmts_view(out@) == ss.take(i as int).map_values(|s: StmtView| alg_simplified(s)),
            count == alg_count_stmts(ss.take(i as int)),
            count <= i,
        decreases b.stmts.len() - i,
    {
        proof {
            crate::mir::lemma_stmts_view(b.stmts@);
            assert(ss.take(i + 1).drop_last() =~= ss.take(i as int));
            assert(ss.take(i + 1).last() == stmt_view(b.stmts@[i as int]));
        }
        let (ns, c) = simplify_stmt(&b.stmts[i]);
        let ghost before = out@;
        out.push(ns);
        if c {
            count = count + 1;
        }
        proof {
            assert(out@.drop_last() =~= before);
            assert(stmts_view(out@) =~= ss.take(i + 1).map_values(|s: StmtView| alg_simplified(s)));
        }
        i = i + 1;
    }
    proof {
        assert(ss.take(b.stmts.len() as int) =~= ss);
        assert(stmts_view(out@) == alg_block(b@).stmts);
    }
    (
        BasicBlock {
            id: b.id,
            stmts: out,
            terminator: crate::mir::clone_terminator(&b.terminator),
            source: b.source,
        },
        count,
    )
}

/// Simplify assignments at the top level of each block by the algebraic
/// rules above; reports how many were simplified.
pub fn algebraic_simplify(function: &mut MirFunction) -> (summary: OptimizationSummary)
    requires
        alg_total(blocks_view(old(function).blocks@)) <= usize::MAX,
    ensures
        same_header(*old(function), *final(function)),
        final(function).locals == old(function).locals,
        final(function).blocks@.len() == old(function).blocks@.len(),
        forall|i: int|
            0 <= i < old(function).blocks@.len() ==> #[trigger] final(function).blocks@[i]@
                == alg_block(old(function).blocks@[i]@),
        summary == (OptimizationSummary {
            algebraic_simplified: alg_total(blocks_view(old(function).blocks@)) as usize,
            ..zero_summary()
        }),
{
    let ghost f0 = *function;
    let ghost bv = blocks_view(function.blocks@);
    let mut summary = OptimizationSummary::default();
    let mut new_blocks: Vec<BasicBlock> = Vec::new();
    let mut i: usize = 0;
    while i < function.blocks.len()
        invariant
            i <= function.blocks.len(),
            function.blocks == f0.blocks,
            bv == blocks_view(f0.blocks@),
            alg_total(bv) <= usize::MAX,
            new_blocks@.len() == i,
            forall|j: int| 0 <= j < i ==> #[trigger] new_blocks@[j]@ == alg_block(f0.blocks@[j]@),
            summary == (OptimizationSummary {
                algebraic_simplified: alg_total(bv.take(i as int)) as usize,
                ..zero_summary()
            }),
        decreases function.blocks.len() - i,
    {
        proof {
            assert(bv.take(i + 1).drop_last() =~= bv.take(i as int));
            assert(bv.take(i + 1).last() == function.blocks@[i as int]@);
            lemma_alg_total_prefix(bv, i + 1);
        }
        let (nb, c) = simplify_block(&function.blocks[i]);
        summary.algebraic_simplified = summary.algebraic_simplified + c;
        new_blocks.push(nb);
        i = i + 1;
    }
    proof {
        assert(bv.take(function.blocks.len() as int) =~= bv);
    }
    function.blocks = new_blocks;
    summary
}
} // verus!
