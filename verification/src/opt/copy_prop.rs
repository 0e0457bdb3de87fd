//! Copy propagation within each block.
//!
//! Walking a block's statements in order, a copy `x = y` between locals is
//! kept as it is and records `y` for `x`. Every other statement has the
//! recorded copies substituted; after a `while` loop, the locals its body
//! assigns are forgotten. The terminator has the remaining copies
//! substituted. The pass reports the number of copies it recorded.
use vstd::prelude::*;

use crate::mir::{
    blocks_view, clone_stmt, stmt_view, stmts_view, BasicBlock, BlockView, LocalId, MirFunction,
    MirStmt, Operand, OperandView, Place, PlaceView, Rvalue, RvalueView, StmtView,
};
use crate::opt::desugar::same_header;
use crate::opt::helpers::{
    assigned_set, collect_assigned_locals, reps_map, reps_without, rp_stmt, rp_term, rw_stmt,
    rw_term,
};
use crate::opt::summary::{zero_summary, OptimizationSummary};

verus! {

/// The target and source of a copy `x = y` between locals.
pub open spec fn copy_src(s: StmtView) -> Option<(u32, u32)> {
    match s {
        StmtView::Assign(p, r) => match p {
            PlaceView::Local(d) => match r {
                RvalueView::Use(v) => match v {
                    OperandView::Place(q) => match q {
                        PlaceView::Local(src) => Some((d.0, src.0)),
                        _ => None,
                    },
                    _ => None,
                },
                _ => None,
            },
            _ => None,
        },
        _ => None,
    }
}

/// The copies known after the first `n` statements of `ss`.
pub open spec fn copy_map(ss: Seq<StmtView>, n: int) -> Map<u32, OperandView>
    decreases n,
{
    if n <= 0 {
        Map::empty()
    } else {
        let m = copy_map(ss, n - 1);
        match copy_src(ss[n - 1]) {
            Some(c) => m.insert(c.0, OperandView::Place(PlaceView::Local(LocalId(c.1)))),
            None => match rp_stmt(ss[n - 1], m) {
                StmtView::WhileStmt { body, .. } => m.remove_keys(assigned_set(body)),
                _ => m,
            },
        }
    }
}

/// Statement `k` of `ss` after copy propagation.
pub open spec fn copy_out(ss: Seq<StmtView>, k: int) -> StmtView {
    if copy_src(ss[k]) is Some {
        ss[k]
    } else {
        rp_stmt(ss[k], copy_map(ss, k))
    }
}

/// A block after copy propagation.
pub open spec fn copy_prop_block(b: BlockView) -> BlockView {
    BlockView {
        stmts: Seq::new(b.stmts.len(), |k: int| copy_out(b.stmts, k)),
        terminator: rp_term(b.terminator, copy_map(b.stmts, b.stmts.len() as int)),
        ..b
    }
}

/// The number of copies among the first `n` statements.
pub open spec fn copy_count(ss: Seq<StmtView>, n: int) -> nat
    decreases n,
{
    if n <= 0 {
        0
    } else {
        copy_count(ss, n - 1) + if copy_src(ss[n - 1]) is Some {
            1nat
        } else {
            0nat
        }
    }
}

pub open spec fn copy_prop_total(bv: Seq<BlockView>) -> nat
    decreases bv.len(),
{
    if bv.len() == 0 {
        0
    } else {
        copy_prop_total(bv.drop_last()) + copy_count(bv.last().stmts, bv.last().stmts.len() as int)
    }
}

proof fn lemma_copy_prop_total_prefix(bv: Seq<BlockView>, n: int)
    requires
        0 <= n <= bv.len(),
    ensures
        copy_prop_total(bv.take(n)) <= copy_prop_total(bv),
    decreases bv.len() - n,
{
    if n < bv.len() {
        assert(bv.take(n + 1).drop_last() =~= bv.take(n));
        lemma_copy_prop_total_prefix(bv, n + 1);
    } else {
        assert(bv.take(n) =~= bv);
    }
}

fn copy_of(s: &MirStmt) -> (r: Option<(u32, u32)>)
    ensures
        r == copy_src(s@),
{
    match s {
        MirStmt::Assign(p, rv) => {
            proof {
                assert(s@ == StmtView::Assign(p@, rv@));
            }
            match p {
                Place::Local(d) => match rv {
                    Rvalue::Use(v) => match v {
                        Operand::Place(q) => {
                            proof {
                                assert(v@ == OperandView::Place(q@));
                            }
                            match q {
                                Place::Local(src) => Some((d.0, src.0)),
                                _ => None,
                            }
                        },
                        _ => None,
                    },
                    _ => None,
                },
                _ => None,
            }
        },
        _ => None,
    }
}

fn copy_prop_in_block(b: &BasicBlock) -> (r: (BasicBlock, usize))
    ensures
        r.0@ == copy_prop_block(b@),
        r.1 == copy_count(b@.stmts, b@.stmts.len() as int),
{
    let ghost ss = b@.stmts;
    let mut reps: Vec<(u32, Operand)> = Vec::new();
    let mut out: Vec<MirStmt> = Vec::new();
    let mut count: usize = 0;
    let mut i: usize = 0;
    proof {
        crate::mir::lemma_stmts_view(b.stmts@);
        assert(reps_map(reps@) =~= copy_map(ss, 0));
    }
    while i < b.stmts.len()
        invariant
            i <= b.stmts.len(),
            ss == stmts_view(b.stmts@),
            ss.len() == b.stmts@.len(),
            reps_map(reps@) == copy_map(ss, i as int),
            stmts_view(out@).len() == i,
            forall|k: int| 0 <= k < i ==> #[trigger] stmts_view(out@)[k] == copy_out(ss, k),
            count == copy_count(ss, i as int),
            count <= i,
        decreases b.stmts.len() - i,
    {
        proof {
            crate::mir::lemma_stmts_view(b.stmts@);
            assert(ss[i as int] == stmt_view(b.stmts@[i as int]));
        }
        let ghost before = out@;
        let ghost m0 = reps_map(reps@);
        let ns = match copy_of(&b.stmts[i]) {
            Some((d, src)) => {
                let ghost r0 = reps@;
                reps.push((d, Operand::Place(Place::Local(LocalId(src)))));
                proof {
                    assert(reps@.drop_last() =~= r0);
                }
                count = count + 1;
                proof {
                    reveal_with_fuel(crate::mir::operand_view, 2);
                    assert(reps@.last().1@ == OperandView::Place(PlaceView::Local(LocalId(src))));
                    assert(reps_map(reps@) == copy_map(ss, i + 1));
                }
                clone_stmt(&b.stmts[i])
            },
            None => {
                let (ns, _) = rw_stmt(&b.stmts[i], &reps);
                match &ns {
                    MirStmt::WhileStmt { cond, body } => {
                        let ids = collect_assigned_locals(body);
                        reps = reps_without(&reps, &ids);
                        proof {
                            assert(ids@.to_set() =~= assigned_set(stmts_view(body@)));
                            assert(ns@ == StmtView::WhileStmt { cond: cond@, body: stmts_view(body@) });
                            assert(reps_map(reps@) == copy_map(ss, i + 1));
                        }
                    },
                    _ => {
                        proof {
                            assert(!(ns@ is WhileStmt));
                            assert(reps_map(reps@) == copy_map(ss, i + 1));
                        }
                    },
                }
                ns
            },
        };
        out.push(ns);
        proof {
            assert(reps_map(reps@) == copy_map(ss, i + 1));
            crate::mir::lemma_stmts_view(out@);
            crate::mir::lemma_stmts_view(before);
            assert(stmts_view(out@)[i as int] == ns@);
            assert forall|k: int| 0 <= k < i + 1 implies #[trigger] stmts_view(out@)[k] == copy_out(
                ss,
                k,
            ) by {
                if k < i {
                    assert(out@[k] == before[k]);
                    assert(stmts_view(before)[k] == stmt_view(before[k]));
                }
            }
        }
        i = i + 1;
    }
    let (nt, _) = rw_term(&b.terminator, &reps);
    proof {
        assert(stmts_view(out@) =~= copy_prop_block(b@).stmts);
    }
    (BasicBlock { id: b.id, stmts: out, terminator: nt, source: b.source }, count)
}

/// Propagate copies within each block (see the module documentation);
/// reports the number of copies recorded.
pub fn copy_prop(function: &mut MirFunction) -> (summary: OptimizationSummary)
    requires
        copy_prop_total(blocks_view(old(function).blocks@)) <= usize::MAX,
    ensures
        same_header(*old(function), *final(function)),
        final(function).locals == old(function).locals,
        final(function).blocks@.len() == old(function).blocks@.len(),
        forall|i: int|
            0 <= i < old(function).blocks@.len() ==> #[trigger] final(function).blocks@[i]@
                == copy_prop_block(old(function).blocks@[i]@),
        summary == (OptimizationSummary {
            copy_propagated: copy_prop_total(blocks_view(old(function).blocks@)) as usize,
            ..zero_summary()
        }),
{
    let ghost f0 = *function;
    let ghost bv = blocks_view(function.blocks@);
    let mut summary = OptimizationSummary::default();
    let mut new_blocks: Vec<BasicBlock> = Vec::new();
    let mut i: usize = 0;
    proof {
        assert(bv.take(0) =~= Seq::<BlockView>::empty());
    }
    while i < function.blocks.len()
        invariant
            i <= function.blocks.len(),
            function.blocks == f0.blocks,
            bv == blocks_view(f0.blocks@),
            copy_prop_total(bv) <= usize::MAX,
            new_blocks@.len() == i,
            forall|j: int|
                0 <= j < i ==> #[trigger] new_blocks@[j]@ == copy_prop_block(f0.blocks@[j]@),
            summary == (OptimizationSummary {
                copy_propagated: copy_prop_total(bv.take(i as int)) as usize,
                ..zero_summary()
            }),
        decreases function.blocks.len() - i,
    {
        proof {
            assert(bv.take(i + 1).drop_last() =~= bv.take(i as int));
            assert(bv.take(i + 1).last() == function.blocks@[i as int]@);
            lemma_copy_prop_total_prefix(bv, i + 1);
        }
        let (nb, c) = copy_prop_in_block(&function.blocks[i]);
        summary.copy_propagated = summary.copy_propagated + c;
        new_blocks.push(nb);
        i = i + 1;
    }
    proof {
        assert(bv.take(function.blocks.len() as int) =~= bv);
    }
    function.blocks = new_blocks;
    summary
}
} // verus!
