//! Control-flow simplification: count the blocks that only jump onward.
//!
//! A block with no statements whose terminator is `goto` could be merged
//! into its successor; the pass reports how many there are and leaves the
//! function as it is.
use vstd::prelude::*;

use crate::mir::{blocks_view, BlockView, MirFunction, Terminator, TerminatorView};
use crate::opt::summary::{zero_summary, OptimizationSummary};

verus! {

pub open spec fn forwarding_block(b: BlockView) -> bool {
    b.stmts.len() == 0 && b.terminator is Goto
}

/// The number of forwarding blocks among `bv`.
pub open spec fn forwarding_count(bv: Seq<BlockView>) -> nat
    decreases bv.len(),
{
    if bv.len() == 0 {
        0
    } else {
        forwarding_count(bv.drop_last()) + if forwarding_block(bv.last()) {
            1nat
        } else {
            0nat
        }
    }
}

proof fn lemma_forwarding_count_bound(bv: Seq<BlockView>)
    ensures
        forwarding_count(bv) <= bv.len(),
    decreases bv.len(),
{
    if bv.len() > 0 {
        lemma_forwarding_count_bound(bv.drop_last());
    }
}

/// Count the forwarding blocks of `function`, which is left unchanged.
pub fn cfg_simplify(function: &mut MirFunction) -> (summary: OptimizationSummary)
    ensures
        *final(function) == *old(function),
        summary == (OptimizationSummary {
            cfg_simplified: forwarding_count(blocks_view(old(function).blocks@)) as usize,
            ..zero_summary()
        }),
{
    let ghost bv = blocks_view(function.blocks@);
    let mut summary = OptimizationSummary::default();
    let mut i: usize = 0;
    while i < function.blocks.len()
        invariant
            i <= function.blocks.len(),
            bv == blocks_view(function.blocks@),
            summary == (OptimizationSummary {
                cfg_simplified: forwarding_count(bv.take(i as int)) as usize,
                ..zero_summary()
            }),
        decreases function.blocks.len() - i,
    {
        proof {
            assert(bv.take(i + 1).drop_last() =~= bv.take(i as int));
            assert(bv.take(i + 1).last() == function.blocks@[i as int]@);
            lemma_forwarding_count_bound(bv.take(i as int));
            crate::mir::lemma_stmts_view(function.blocks@[i as int].stmts@);
        }
        let block = &function.blocks[i];
        if let Terminator::Goto(_) = &block.terminator {
            if block.stmts.len() == 0 {
                summary.cfg_simplified = summary.cfg_simplified + 1;
            }
        }
        i = i + 1;
    }
    proof {
        assert(bv.take(function.blocks.len() as int) =~= bv);
    }
    summary
}
} // verus!
