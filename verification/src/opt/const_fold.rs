//! Constant folding of binary operations on constants.
//!
//! At the top level of each block, `x = a op b` with both operands
//! constants becomes `x = c` when the pair is one the pass knows: `+`, `-`,
//! `*` and `==` on `i32` constants, and `==` on `bool` constants.
use vstd::prelude::*;

use crate::mir::{
    blocks_view, clone_place, clone_stmt, stmt_view, stmts_view, BasicBlock, BinOp, BlockView,
    MirFunction, MirStmt, Operand, OperandView, Rvalue, RvalueView, StmtView,
};
use crate::opt::desugar::same_header;
use crate::opt::summary::{zero_summary, OptimizationSummary};

verus! {

/// The constant `l op r` folds to, if the pass folds it.
pub open spec fn fold_spec(op: BinOp, l: OperandView, r: OperandView) -> Option<OperandView> {
    match l {
        OperandView::ConstI32(a) => match r {
            OperandView::ConstI32(b) => match op {
                BinOp::Add => Some(OperandView::ConstI32((a + b) as i32)),
                BinOp::Sub => Some(OperandView::ConstI32((a - b) as i32)),
                BinOp::Mul => Some(OperandView::ConstI32((a * b) as i32)),
                BinOp::Eq => Some(OperandView::ConstBool(a == b)),
                _ => None,
            },
            _ => None,
        },
        OperandView::ConstBool(a) => match r {
            OperandView::ConstBool(b) => if op == BinOp::Eq {
                Some(OperandView::ConstBool(a == b))
            } else {
                None
            },
            _ => None,
        },
        _ => None,
    }
}

/// Folding `l op r` stays within `i32`.
pub open spec fn fold_fits(op: BinOp, l: OperandView, r: OperandView) -> bool {
    match l {
        OperandView::ConstI32(a) => match r {
            OperandView::ConstI32(b) => match op {
                BinOp::Add => i32::MIN <= a + b <= i32::MAX,
                BinOp::Sub => i32::MIN <= a - b <= i32::MAX,
                BinOp::Mul => i32::MIN <= a * b <= i32::MAX,
                _ => true,
            },
            _ => true,
        },
        _ => true,
    }
}

pub open spec fn stmt_fits(s: StmtView) -> bool {
    match s {
        StmtView::Assign(_, r) => match r {
            RvalueView::BinaryOp(op, a, b) => fold_fits(op, a, b),
            _ => true,
        },
        _ => true,
    }
}

/// Every foldable statement at the top level of the blocks folds without
/// overflow.
pub open spec fn folds_fit(bv: Seq<BlockView>) -> bool {
    forall|i: int, k: int|
        0 <= i < bv.len() && 0 <= k < bv[i].stmts.len() ==> stmt_fits(#[trigger] bv[i].stmts[k])
}

pub open spec fn const_folded(s: StmtView) -> StmtView {
    match s {
        StmtView::Assign(p, r) => match r {
            RvalueView::BinaryOp(op, a, b) => match fold_spec(op, a, b) {
                Some(c) => StmtView::Assign(p, RvalueView::Use(c)),
                None => s,
            },
            _ => s,
        },
        _ => s,
    }
}

pub open spec fn foldable_stmt(s: StmtView) -> bool {
    match s {
        StmtView::Assign(_, r) => match r {
            RvalueView::BinaryOp(op, a, b) => fold_spec(op, a, b) is Some,
            _ => false,
        },
        _ => false,
    }
}

pub open spec fn fold_block(b: BlockView) -> BlockView {
    BlockView { stmts: b.stmts.map_values(|s: StmtView| const_folded(s)), ..b }
}

pub open spec fn fold_count_stmts(ss: Seq<StmtView>) -> nat
    decreases ss.len(),
{
    if ss.len() == 0 {
        0
    } else {
        fold_count_stmts(ss.drop_last()) + if foldable_stmt(ss.last()) {
            1nat
        } else {
            0nat
        }
    }
}

pub open spec fn fold_total(bv: Seq<BlockView>) -> nat
    decreases bv.len(),
{
    if bv.len() == 0 {
        0
    } else {
        fold_total(bv.drop_last()) + fold_count_stmts(bv.last().stmts)
    }
}

proof fn lemma_fold_total_prefix(bv: Seq<BlockView>, n: int)
    requires
        0 <= n <= bv.len(),
    ensures
        fold_total(bv.take(n)) <= fold_total(bv),
    decreases bv.len() - n,
{
    if n < bv.len() {
        assert(bv.take(n + 1).drop_last() =~= bv.take(n));
        lemma_fold_total_prefix(bv, n + 1);
    } else {
        assert(bv.take(n) =~= bv);
    }
}

/// Fold `lhs op rhs` when both are constants the pass knows.
fn fold_binary(op: BinOp, lhs: &Operand, rhs: &Operand) -> (r: Option<Operand>)
    requires
        fold_fits(op, lhs@, rhs@),
    ensures
        match r {
            Some(c) => fold_spec(op, lhs@, rhs@) == Some(c@),
            None => fold_spec(op, lhs@, rhs@) is None,
        },
{
    match (lhs, rhs) {
        (Operand::ConstI32(a), Operand::ConstI32(b)) => match op {
            BinOp::Add => Some(Operand::ConstI32(*a + *b)),
            BinOp::Sub => Some(Operand::ConstI32(*a - *b)),
            BinOp::Mul => Some(Operand::ConstI32(*a * *b)),
            BinOp::Eq => Some(Operand::ConstBool(*a == *b)),
            _ => None,
        },
        (Operand::ConstBool(a), Operand::ConstBool(b)) => match op {
            BinOp::Eq => Some(Operand::ConstBool(*a == *b)),
            _ => None,
        },
        _ => None,
    }
}

fn fold_stmt(s: &MirStmt) -> (r: (MirStmt, bool))
    requires
        stmt_fits(s@),
    ensures
        r.0@ == const_folded(s@),
        r.1 == foldable_stmt(s@),
{
    if let MirStmt::Assign(place, Rvalue::BinaryOp(op, lhs, rhs)) = s {
        if let Some(folded) = fold_binary(*op, lhs, rhs) {
            return (MirStmt::Assign(clone_place(place), Rvalue::Use(folded)), true);
        }
    }
    (clone_stmt(s), false)
}

fn fold_in_block(b: &BasicBlock) -> (r: (BasicBlock, usize))
    requires
        forall|k: int| 0 <= k < b@.stmts.len() ==> stmt_fits(#[trigger] b@.stmts[k]),
    ensures
        r.0@ == fold_block(b@),
        r.1 == fold_count_stmts(b@.stmts),
{
    let ghost ss = b@.stmts;
    let mut out: Vec<MirStmt> = Vec::new();
    let mut count: usize = 0;
    let mut i: usize = 0;
    proof {
        crate::mir::lemma_stmts_view(b.stmts@);
        assert(stmts_view(out@) =~= ss.take(0).map_values(|s: StmtView| const_folded(s)));
    }
    while i < b.stmts.len()
        invariant
            i <= b.stmts.len(),
            ss == stmts_view(b.stmts@),
            ss.len() == b.stmts@.len(),
            forall|k: int| 0 <= k < ss.len() ==> stmt_fits(#[trigger] ss[k]),
            stmts_view(out@) == ss.take(i as int).map_values(|s: StmtView| const_folded(s)),
            count == fold_count_stmts(ss.take(i as int)),
            count <= i,
        decreases b.stmts.len() - i,
    {
        proof {
            crate::mir::lemma_stmts_view(b.stmts@);
            assert(ss.take(i + 1).drop_last() =~= ss.take(i as int));
            assert(ss.take(i + 1).last() == stmt_view(b.stmts@[i as int]));
            assert(stmt_fits(ss[i as int]));
        }
        let (ns, c) = fold_stmt(&b.stmts[i]);
        let ghost before = out@;
        out.push(ns);
        if c {
            count = count + 1;
        }
        proof {
            assert(out@.drop_last() =~= before);
            assert(stmts_view(out@) =~= ss.take(i + 1).map_values(|s: StmtView| const_folded(s)));
        }
        i = i + 1;
    }
    proof {
        assert(ss.take(b.stmts.len() as int) =~= ss);
        assert(stmts_view(out@) == fold_block(b@).stmts);
    }
    (
        BasicBlock {
            id: b.id,
            stmts: out,
            terminator: crate::mir::clone_terminator(&b.terminator),
            source: b.source,
        },
        count,
    )
}

/// Fold constant binary operations at the top level of each block;
/// reports how many were folded.
pub fn const_fold(function: &mut MirFunction) -> (summary: OptimizationSummary)
    requires
        folds_fit(blocks_view(old(function).blocks@)),
        fold_total(blocks_view(old(function).blocks@)) <= usize::MAX,
    ensures
        same_header(*old(function), *final(function)),
        final(function).locals == old(function).locals,
        final(function).blocks@.len() == old(function).blocks@.len(),
        forall|i: int|
            0 <= i < old(function).blocks@.len() ==> #[trigger] final(function).blocks@[i]@
                == fold_block(old(function).blocks@[i]@),
        summary == (OptimizationSummary {
            const_folded: fold_total(blocks_view(old(function).blocks@)) as usize,
            ..zero_summary()
        }),
{
    let ghost f0 = *function;
    let ghost bv = blocks_view(function.blocks@);
    let mut summary = OptimizationSummary::default();
    let mut new_blocks: Vec<BasicBlock> = Vec::new();
    let mut i: usize = 0;
    while i < function.blocks.len()
        invariant
            i <= function.blocks.len(),
            function.blocks == f0.blocks,
            bv == blocks_view(f0.blocks@),
            folds_fit(bv),
            fold_total(bv) <= usize::MAX,
            new_blocks@.len() == i,
            forall|j: int| 0 <= j < i ==> #[trigger] new_blocks@[j]@ == fold_block(f0.blocks@[j]@),
            summary == (OptimizationSummary {
                const_folded: fold_total(bv.take(i as int)) as usize,
                ..zero_summary()
            }),
        decreases function.blocks.len() - i,
    {
        proof {
            assert(bv.take(i + 1).drop_last() =~= bv.take(i as int));
            assert(bv.take(i + 1).last() == function.blocks@[i as int]@);
            lemma_fold_total_prefix(bv, i + 1);
            assert forall|k: int| 0 <= k < function.blocks@[i as int]@.stmts.len() implies stmt_fits(
                #[trigger] function.blocks@[i as int]@.stmts[k],
            ) by {
                assert(bv[i as int].stmts[k] == function.blocks@[i as int]@.stmts[k]);
            }
        }
        let (nb, c) = fold_in_block(&function.blocks[i]);
        summary.const_folded = summary.const_folded + c;
        new_blocks.push(nb);
        i = i + 1;
    }
    proof {
        assert(bv.take(function.blocks.len() as int) =~= bv);
    }
    function.blocks = new_blocks;
    summary
}
} // verus!
