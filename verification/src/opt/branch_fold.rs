//! Branch folding: an `if` on a constant boolean becomes a `goto`.
use vstd::prelude::*;

use crate::mir::{
    blocks_view, clone_block, BasicBlock, BlockView, MirFunction, Operand, OperandView,
    Terminator, TerminatorView,
};
use crate::opt::desugar::same_header;
use crate::opt::summary::{zero_summary, OptimizationSummary};

verus! {

/// The terminator after folding: `if true`/`if false` jumps straight to
/// its then/else block.
pub open spec fn folded(t: TerminatorView) -> TerminatorView {
    match t {
        TerminatorView::If { cond, then_block, else_block, .. } => match cond {
            OperandView::ConstBool(v) => TerminatorView::Goto(
                if v {
                    then_block
                } else {
                    else_block
                },
            ),
            _ => t,
        },
        _ => t,
    }
}

pub open spec fn foldable(t: TerminatorView) -> bool {
    match t {
        TerminatorView::If { cond, .. } => cond is ConstBool,
        _ => false,
    }
}

pub open spec fn fold_count(bv: Seq<BlockView>) -> nat
    decreases bv.len(),
{
    if bv.len() == 0 {
        0
    } else {
        fold_count(bv.drop_last()) + if foldable(bv.last().terminator) {
            1nat
        } else {
            0nat
        }
    }
}

proof fn lemma_fold_count_bound(bv: Seq<BlockView>)
    ensures
        fold_count(bv) <= bv.len(),
    decreases bv.len(),
{
    if bv.len() > 0 {
        lemma_fold_count_bound(bv.drop_last());
    }
}

/// Fold every `if` on a constant boolean into a `goto`; reports how many.
pub fn branch_fold(function: &mut MirFunction) -> (summary: OptimizationSummary)
    ensures
        same_header(*old(function), *final(function)),
        final(function).locals == old(function).locals,
        final(function).blocks@.len() == old(function).blocks@.len(),
        forall|i: int|
            0 <= i < old(function).blocks@.len() ==> #[trigger] final(function).blocks@[i]@ == (BlockView {
                terminator: folded(old(function).blocks@[i]@.terminator),
                ..old(function).blocks@[i]@
            }),
        summary == (OptimizationSummary {
            branch_folded: fold_count(blocks_view(old(function).blocks@)) as usize,
            ..zero_summary()
        }),
{
    let ghost f0 = *function;
    let ghost bv = blocks_view(function.blocks@);
    let mut summary = OptimizationSummary::default();
    let mut new_blocks: Vec<BasicBlock> = Vec::new();
    let mut i: usize = 0;
    while i < function.blocks.len()
        invariant
            i <= function.blocks.len(),
            function.blocks == f0.blocks,
            bv == blocks_view(f0.blocks@),
            new_blocks@.len() == i,
            forall|j: int|
                0 <= j < i ==> #[trigger] new_blocks@[j]@ == (BlockView {
                    terminator: folded(f0.blocks@[j]@.terminator),
                    ..f0.blocks@[j]@
                }),
            summary == (OptimizationSummary {
                branch_folded: fold_count(bv.take(i as int)) as usize,
                ..zero_summary()
            }),
        decreases function.blocks.len() - i,
    {
        proof {
            assert(bv.take(i + 1).drop_last() =~= bv.take(i as int));
            assert(bv.take(i + 1).last() == function.blocks@[i as int]@);
            lemma_fold_count_bound(bv.take(i as int));
        }
        let block = &function.blocks[i];
        let mut nb = clone_block(block);
        if let Terminator::If { cond: Operand::ConstBool(v), then_block, else_block, .. } = &block.terminator {
            nb.terminator = Terminator::Goto(
                if *v {
                    *then_block
                } else {
                    *else_block
                },
            );
            summary.branch_folded = summary.branch_folded + 1;
        }
        new_blocks.push(nb);
        i = i + 1;
    }
    proof {
        assert(bv.take(function.blocks.len() as int) =~= bv);
    }
    function.blocks = new_blocks;
    summary
}
} // verus!
