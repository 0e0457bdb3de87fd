//! Aggregate simplification: an aggregate of a single operand is that
//! operand.
use vstd::prelude::*;

use crate::mir::{
    blocks_view, clone_operand, clone_place, clone_stmt, stmt_view, stmts_view, BasicBlock,
    BlockView, MirFunction, MirStmt, Rvalue, RvalueView, StmtView,
};
use crate::opt::desugar::same_header;
use crate::opt::summary::{zero_summary, OptimizationSummary};

verus! {

/// `x = agg(o)` with a single operand becomes `x = o`; other statements
/// stay.
pub open spec fn agg_simplified(s: StmtView) -> StmtView {
    match s {
        StmtView::Assign(p, r) => match r {
            RvalueView::Aggregate(_, ops) => if ops.len() == 1 {
                StmtView::Assign(p, RvalueView::Use(ops[0]))
            } else {
                s
            },
            _ => s,
        },
        _ => s,
    }
}

/// A block after aggregate simplification.
pub open spec fn agg_block(b: BlockView) -> BlockView {
    BlockView { stmts: b.stmts.map_values(|s: StmtView| agg_simplified(s)), ..b }
}

pub open spec fn agg_simplifiable(s: StmtView) -> bool {
    match s {
        StmtView::Assign(_, r) => match r {
            RvalueView::Aggregate(_, ops) => ops.len() == 1,
            _ => false,
        },
        _ => false,
    }
}

pub open spec fn agg_count_stmts(ss: Seq<StmtView>) -> nat
    decreases ss.len(),
{
    if ss.len() == 0 {
        0
    } else {
        agg_count_stmts(ss.drop_last()) + if agg_simplifiable(ss.last()) {
            1nat
        } else {
            0nat
        }
    }
}

pub open spec fn agg_count(bv: Seq<BlockView>) -> nat
    decreases bv.len(),
{
    if bv.len() == 0 {
        0
    } else {
        agg_count(bv.drop_last()) + agg_count_stmts(bv.last().stmts)
    }
}

proof fn lemma_agg_count_prefix(bv: Seq<BlockView>, n: int)
    requires
        0 <= n <= bv.len(),
    ensures
        agg_count(bv.take(n)) <= agg_count(bv),
    decreases bv.len() - n,
{
    if n < bv.len() {
        assert(bv.take(n + 1).drop_last() =~= bv.take(n));
        lemma_agg_count_prefix(bv, n + 1);
    } else {
        assert(bv.take(n) =~= bv);
    }
}

fn simplify_stmt(s: &MirStmt) -> (r: (MirStmt, bool))
    ensures
        r.0@ == agg_simplified(s@),
        r.1 == agg_simplifiable(s@),
{
    if let MirStmt::Assign(place, Rvalue::Aggregate(_, operands)) = s {
        proof {
            crate::mir::lemma_operands_view(operands@);
        }
        if operands.len() == 1 {
            return (MirStmt::Assign(clone_place(place), Rvalue::Use(clone_operand(&operands[0]))), true);
        }
    }
    (clone_stmt(s), false)
}

fn simplify_block(b: &BasicBlock) -> (r: (BasicBlock, usize))
    ensures
        r.0@ == agg_block(b@),
        r.1 == agg_count_stmts(b@.stmts),
{
    let ghost ss = b@.stmts;
    let mut out: Vec<MirStmt> = Vec::new();
    let mut count: usize = 0;
    let mut i: usize = 0;
    proof {
        crate::mir::lemma_stmts_view(b.stmts@);
        assert(ss.take(0) =~= Seq::<StmtView>::empty());
        assert(stmts_view(out@) =~= ss.take(0).map_values(|s: StmtView| agg_simplified(s)));
    }
    while i < b.stmts.len()
        invariant
            i <= b.stmts.len(),
            ss == stmts_view(b.stmts@),
            ss.len() == b.stmts@.len(),
            stmts_view(out@) == ss.take(i as int).map_values(|s: StmtView| agg_simplified(s)),
            count == agg_count_stmts(ss.take(i as int)),
            count <= i,
        decreases b.stmts.len() - i,
    {
        proof {
            crate::mir::lemma_stmts_view(b.stmts@);
            assert(ss.take(i + 1).drop_last() =~= ss.take(i as int));
            assert(ss.take(i + 1).last() == stmt_view(b.stmts@[i as int]));
        }
        let (ns, c) = simplify_stmt(&b.stmts[i]);
        let ghost before = out@;
        out.push(ns);
        if c {
            count = count + 1;
        }
        proof {
            assert(out@.drop_last() =~= before);
            assert(stmts_view(out@) =~= ss.take(i + 1).map_values(|s: StmtView| agg_simplified(s)));
        }
        i = i + 1;
    }
    proof {
        assert(ss.take(b.stmts.len() as int) =~= ss);
        assert(stmts_view(out@) == agg_block(b@).stmts);
    }
    (BasicBlock { id: b.id, stmts: out, terminator: crate::mir::clone_terminator(&b.terminator), source: b.source }, count)
}

/// Replace each single-operand aggregate assignment at the top level of a
/// block by an assignment of its operand; reports how many.
pub fn aggregate_simplify(function: &mut MirFunction) -> (summary: OptimizationSummary)
    requires
        agg_count(blocks_view(old(function).blocks@)) <= usize::MAX,
    ensures
        same_header(*old(function), *final(function)),
        final(function).locals == old(function).locals,
        final(function).blocks@.len() == old(function).blocks@.len(),
        forall|i: int|
            0 <= i < old(function).blocks@.len() ==> #[trigger] final(function).blocks@[i]@
                == agg_block(old(function).blocks@[i]@),
        summary == (OptimizationSummary {
            aggregate_simplified: agg_count(blocks_view(old(function).blocks@)) as usize,
            ..zero_summary()
        }),
{
    let ghost f0 = *function;
    let ghost bv = blocks_view(function.blocks@);
    let mut summary = OptimizationSummary::default();
    let mut new_blocks: Vec<BasicBlock> = Vec::new();
    let mut i: usize = 0;
    while i < function.blocks.len()
        invariant
            i <= function.blocks.len(),
            function.blocks == f0.blocks,
            bv == blocks_view(f0.blocks@),
            agg_count(bv) <= usize::MAX,
            new_blocks@.len() == i,
            forall|j: int|
                0 <= j < i ==> #[trigger] new_blocks@[j]@ == agg_block(f0.blocks@[j]@),
            summary == (OptimizationSummary {
                aggregate_simplified: agg_count(bv.take(i as int)) as usize,
                ..zero_summary()
            }),
        decreases function.blocks.len() - i,
    {
        proof {
            assert(bv.take(i + 1).drop_last() =~= bv.take(i as int));
            assert(bv.take(i + 1).last() == function.blocks@[i as int]@);
            lemma_agg_count_prefix(bv, i + 1);
        }
        let (nb, c) = simplify_block(&function.blocks[i]);
        summary.aggregate_simplified = summary.aggregate_simplified + c;
        new_blocks.push(nb);
        i = i + 1;
    }
    proof {
        assert(bv.take(function.blocks.len() as int) =~= bv);
    }
    function.blocks = new_blocks;
    summary
}
} // verus!
