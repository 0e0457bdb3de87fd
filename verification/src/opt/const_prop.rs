//! Constant propagation within each block.
//!
//! Walking a block's statements in order, an assignment `x = c` of an
//! `i32`, `i64` or `bool` constant records `c` for `x` (before the
//! statement itself is rewritten); every statement and the terminator then
//! have the recorded constants substituted. A record is never forgotten
//! within the block.
use vstd::prelude::*;

use crate::mir::{
    blocks_view, clone_operand, stmt_view, stmts_view, BasicBlock, BlockView, MirFunction, MirStmt,
    Operand, OperandView, Place, PlaceView, Rvalue, RvalueView, StmtView,
};
use crate::opt::desugar::same_header;
use crate::opt::helpers::{ch_stmt, ch_term, reps_map, rp_stmt, rp_term, rw_stmt, rw_term};
use crate::opt::summary::{zero_summary, OptimizationSummary};

verus! {

/// The constants recorded after statement `s`.
pub open spec fn const_step(m: Map<u32, OperandView>, s: StmtView) -> Map<u32, OperandView> {
    match s {
        StmtView::Assign(p, r) => match p {
            PlaceView::Local(dest) => match r {
                RvalueView::Use(v) => if v is ConstI32 || v is ConstI64 || v is ConstBool {
                    m.insert(dest.0, v)
                } else {
                    m
                },
                _ => m,
            },
            _ => m,
        },
        _ => m,
    }
}

/// The constants recorded after the first `n` statements of `ss`.
pub open spec fn const_map(ss: Seq<StmtView>, n: int) -> Map<u32, OperandView>
    decreases n,
{
    if n <= 0 {
        Map::empty()
    } else {
        const_step(const_map(ss, n - 1), ss[n - 1])
    }
}

/// A block after constant propagation.
pub open spec fn const_prop_block(b: BlockView) -> BlockView {
    BlockView {
        stmts: Seq::new(b.stmts.len(), |k: int| rp_stmt(b.stmts[k], const_map(b.stmts, k + 1))),
        terminator: rp_term(b.terminator, const_map(b.stmts, b.stmts.len() as int)),
        ..b
    }
}

/// The number of statements among the first `n` that a substitution
/// changed.
pub open spec fn const_stmt_count(ss: Seq<StmtView>, n: int) -> nat
    decreases n,
{
    if n <= 0 {
        0
    } else {
        const_stmt_count(ss, n - 1) + if ch_stmt(ss[n - 1], const_map(ss, n)) {
            1nat
        } else {
            0nat
        }
    }
}

/// The number of statements and terminators of a block that a
/// substitution changed.
pub open spec fn const_prop_count(b: BlockView) -> nat {
    const_stmt_count(b.stmts, b.stmts.len() as int) + if ch_term(
        b.terminator,
        const_map(b.stmts, b.stmts.len() as int),
    ) {
        1nat
    } else {
        0nat
    }
}

/// The number of changes constant propagation makes in the blocks `bv`.
pub open spec fn const_prop_total(bv: Seq<BlockView>) -> nat
    decreases bv.len(),
{
    if bv.len() == 0 {
        0
    } else {
        const_prop_total(bv.drop_last()) + const_prop_count(bv.last())
    }
}

proof fn lemma_const_prop_total_prefix(bv: Seq<BlockView>, n: int)
    requires
        0 <= n <= bv.len(),
    ensures
        const_prop_total(bv.take(n)) <= const_prop_total(bv),
    decreases bv.len() - n,
{
    if n < bv.len() {
        assert(bv.take(n + 1).drop_last() =~= bv.take(n));
        lemma_const_prop_total_prefix(bv, n + 1);
    } else {
        assert(bv.take(n) =~= bv);
    }
}

fn record_constant(s: &MirStmt, reps: &mut Vec<(u32, Operand)>)
    ensures
        reps_map(final(reps)@) == const_step(reps_map(old(reps)@), s@),
{
    match s {
        MirStmt::Assign(p, r) => {
            proof {
                assert(s@ == StmtView::Assign(p@, r@));
            }
            match p {
                Place::Local(dest) => match r {
                    Rvalue::Use(v) => match v {
                        Operand::ConstI32(_) | Operand::ConstI64(_) | Operand::ConstBool(_) => {
                            let ghost before = reps@;
                            reps.push((dest.0, clone_operand(v)));
                            proof {
                                assert(reps@.drop_last() =~= before);
                            }
                        },
                        _ => {},
                    },
                    _ => {},
                },
                _ => {},
            }
        },
        _ => {},
    }
}

fn const_prop_in_block(b: &BasicBlock) -> (r: (BasicBlock, usize))
    requires
        const_prop_count(b@) <= usize::MAX,
    ensures
        r.0@ == const_prop_block(b@),
        r.1 == const_prop_count(b@),
{
    let ghost ss = b@.stmts;
    let mut reps: Vec<(u32, Operand)> = Vec::new();
    let mut out: Vec<MirStmt> = Vec::new();
    let mut count: usize = 0;
    let mut i: usize = 0;
    proof {
        crate::mir::lemma_stmts_view(b.stmts@);
        assert(reps_map(reps@) =~= const_map(ss, 0));
    }
    while i < b.stmts.len()
        invariant
            i <= b.stmts.len(),
            ss == stmts_view(b.stmts@),
            ss.len() == b.stmts@.len(),
            reps_map(reps@) == const_map(ss, i as int),
            stmts_view(out@).len() == i,
            forall|k: int|
                0 <= k < i ==> #[trigger] stmts_view(out@)[k] == rp_stmt(ss[k], const_map(ss, k + 1)),
            count == const_stmt_count(ss, i as int),
            count <= i,
        decreases b.stmts.len() - i,
    {
        proof {
            crate::mir::lemma_stmts_view(b.stmts@);
            assert(ss[i as int] == stmt_view(b.stmts@[i as int]));
        }
        record_constant(&b.stmts[i], &mut reps);
        proof {
            assert(reps_map(reps@) == const_map(ss, i + 1));
        }
        let (ns, c) = rw_stmt(&b.stmts[i], &reps);
        let ghost before = out@;
        out.push(ns);
        if c {
            count = count + 1;
        }
        proof {
            crate::mir::lemma_stmts_view(out@);
            crate::mir::lemma_stmts_view(before);
            assert(stmts_view(out@)[i as int] == ns@);
            assert(ns@ == rp_stmt(ss[i as int], const_map(ss, i + 1)));
            assert forall|k: int| 0 <= k < i + 1 implies #[trigger] stmts_view(out@)[k] == rp_stmt(
                ss[k],
                const_map(ss, k + 1),
            ) by {
                if k < i {
                    assert(out@[k] == before[k]);
                    assert(stmts_view(before)[k] == stmt_view(before[k]));
                }
            }
        }
        i = i + 1;
    }
    let (nt, c) = rw_term(&b.terminator, &reps);
    if c {
        count = count + 1;
    }
    proof {
        assert(stmts_view(out@) =~= const_prop_block(b@).stmts);
    }
    (BasicBlock { id: b.id, stmts: out, terminator: nt, source: b.source }, count)
}

/// Propagate constants within each block (see the module documentation);
/// reports the number of statements and terminators changed.
pub fn const_prop(function: &mut MirFunction) -> (summary: OptimizationSummary)
    requires
        const_prop_total(blocks_view(old(function).blocks@)) <= usize::MAX,
    ensures
        same_header(*old(function), *final(function)),
        final(function).locals == old(function).locals,
        final(function).blocks@.len() == old(function).blocks@.len(),
        forall|i: int|
            0 <= i < old(function).blocks@.len() ==> #[trigger] final(function).blocks@[i]@
                == const_prop_block(old(function).blocks@[i]@),
        summary == (OptimizationSummary {
            const_propagated: const_prop_total(blocks_view(old(function).blocks@)) as usize,
            ..zero_summary()
        }),
{
    let ghost f0 = *function;
    let ghost bv = blocks_view(function.blocks@);
    let mut summary = OptimizationSummary::default();
    let mut new_blocks: Vec<BasicBlock> = Vec::new();
    let mut i: usize = 0;
    proof {
        assert(bv.take(0) =~= Seq::<BlockView>::empty());
    }
    while i < function.blocks.len()
        invariant
            i <= function.blocks.len(),
            function.blocks == f0.blocks,
            bv == blocks_view(f0.blocks@),
            const_prop_total(bv) <= usize::MAX,
            new_blocks@.len() == i,
            forall|j: int|
                0 <= j < i ==> #[trigger] new_blocks@[j]@ == const_prop_block(f0.blocks@[j]@),
            summary == (OptimizationSummary {
                const_propagated: const_prop_total(bv.take(i as int)) as usize,
                ..zero_summary()
            }),
        decreases function.blocks.len() - i,
    {
        proof {
            assert(bv.take(i + 1).drop_last() =~= bv.take(i as int));
            assert(bv.take(i + 1).last() == function.blocks@[i as int]@);
            lemma_const_prop_total_prefix(bv, i + 1);
        }
        let (nb, c) = const_prop_in_block(&function.blocks[i]);
        summary.const_propagated = summary.const_propagated + c;
        new_blocks.push(nb);
        i = i + 1;
    }
    proof {
        assert(bv.take(function.blocks.len() as int) =~= bv);
    }
    function.blocks = new_blocks;
    summary
}
} // verus!
