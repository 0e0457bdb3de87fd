//! Dead local elimination: drop the locals that nothing mentions.
//!
//! A local is kept when some parameter has its id or some statement or
//! terminator of the function mentions it (see [`u_stmt`], [`u_term`]).
//! Parameters themselves are never touched.
use vstd::prelude::*;

use crate::mir::{blocks_view, clone_local, locals_view, BasicBlock, BlockView, LocalView, MirFunction, MirLocal};
use crate::opt::desugar::same_header;
use crate::opt::escape_analysis::in_ids;
use crate::opt::helpers::{collect_stmt_locals, collect_terminator_locals, u_blocks, u_stmts, u_term};
use crate::opt::summary::{zero_summary, OptimizationSummary};

verus! {

/// Whether `f` uses local `x`: as a parameter, or anywhere in its blocks.
pub open spec fn local_used(f: MirFunction, x: u32) -> bool {
    (exists|k: int| 0 <= k < f.params@.len() && #[trigger] f.params@[k].id.0 == x) || u_blocks(
        x,
        blocks_view(f.blocks@),
    )
}

fn used_locals(f: &MirFunction) -> (r: Vec<u32>)
    ensures
        forall|y: u32| #![trigger r@.contains(y)] r@.contains(y) <==> local_used(*f, y),
{
    let mut used: Vec<u32> = Vec::new();
    let mut i: usize = 0;
    while i < f.params.len()
        invariant
            i <= f.params.len(),
            forall|y: u32|
                #![trigger used@.contains(y)]
                used@.contains(y) <==> exists|k: int| 0 <= k < i && #[trigger] f.params@[k].id.0 == y,
        decreases f.params.len() - i,
    {
        let ghost before = used@;
        used.push(f.params[i].id.0);
        proof {
            assert forall|y: u32|
                #![trigger used@.contains(y)]
                used@.contains(y) <==> exists|k: int| 0 <= k < i + 1 && #[trigger] f.params@[k].id.0 == y by {
                vstd::seq_lib::lemma_seq_contains_after_push(before, f.params@[i as int].id.0, y);
                if used@.contains(y) && !before.contains(y) {
                    assert(f.params@[i as int].id.0 == y);
                }
                if exists|k: int| 0 <= k < i + 1 && #[trigger] f.params@[k].id.0 == y {
                    let k = choose|k: int| 0 <= k < i + 1 && #[trigger] f.params@[k].id.0 == y;
                    if k < i {
                        assert(before.contains(y));
                    }
                }
            }
        }
        i = i + 1;
    }
    let ghost p0 = used@;
    let ghost bv = blocks_view(f.blocks@);
    let mut j: usize = 0;
    proof {
        assert(bv.take(0) =~= Seq::<BlockView>::empty());
    }
    while j < f.blocks.len()
        invariant
            j <= f.blocks.len(),
            bv == blocks_view(f.blocks@),
            forall|y: u32|
                #![trigger p0.contains(y)]
                p0.contains(y) <==> exists|k: int| 0 <= k < f.params@.len() && #[trigger] f.params@[k].id.0 == y,
            forall|y: u32|
                #![trigger used@.contains(y)]
                used@.contains(y) <==> p0.contains(y) || u_blocks(y, bv.take(j as int)),
        decreases f.blocks.len() - j,
    {
        let ghost o1 = used@;
        let mut k: usize = 0;
        while k < f.blocks[j].stmts.len()
            invariant
                j < f.blocks.len(),
                k <= f.blocks[j as int].stmts.len(),
                forall|y: u32|
                    #![trigger used@.contains(y)]
                    used@.contains(y) <==> o1.contains(y) || u_stmts(
                        y,
                        crate::mir::stmts_view(f.blocks@[j as int].stmts@.take(k as int)),
                    ),
            decreases f.blocks[j as int].stmts.len() - k,
        {
            proof {
                crate::mir::lemma_stmts_view_take(f.blocks@[j as int].stmts@, k as int);
            }
            let ghost o2 = used@;
            collect_stmt_locals(&f.blocks[j].stmts[k], &mut used);
            proof {
                let s0 = crate::mir::stmts_view(f.blocks@[j as int].stmts@.take(k as int));
                let s1 = crate::mir::stmts_view(f.blocks@[j as int].stmts@.take(k + 1));
                assert(s1.drop_last() =~= s0);
                assert forall|y: u32|
                    #![trigger used@.contains(y)]
                    used@.contains(y) <==> o1.contains(y) || u_stmts(y, s1) by {
                    assert(o2.contains(y) <==> o1.contains(y) || u_stmts(y, s0));
                }
            }
            k = k + 1;
        }
        let ghost o3 = used@;
        collect_terminator_locals(&f.blocks[j].terminator, &mut used);
        proof {
            assert(f.blocks@[j as int].stmts@.take(f.blocks@[j as int].stmts@.len() as int)
                =~= f.blocks@[j as int].stmts@);
            assert(bv.take(j + 1).drop_last() =~= bv.take(j as int));
            assert(bv.take(j + 1).last() == f.blocks@[j as int]@);
            assert forall|y: u32|
                #![trigger used@.contains(y)]
                used@.contains(y) <==> p0.contains(y) || u_blocks(y, bv.take(j + 1)) by {
                assert(o3.contains(y) <==> o1.contains(y) || u_stmts(
                    y,
                    crate::mir::stmts_view(f.blocks@[j as int].stmts@),
                ));
                assert(o1.contains(y) <==> p0.contains(y) || u_blocks(y, bv.take(j as int)));
            }
        }
        j = j + 1;
    }
    proof {
        assert(bv.take(f.blocks.len() as int) =~= bv);
        assert forall|y: u32| #![trigger used@.contains(y)] used@.contains(y) <==> local_used(*f, y) by {
            assert(p0.contains(y) <==> exists|k: int|
                0 <= k < f.params@.len() && #[trigger] f.params@[k].id.0 == y);
        }
    }
    used
}

/// Remove the locals of `function` that it does not use (see
/// [`local_used`]); reports how many were removed.
pub fn dead_local_elim(function: &mut MirFunction) -> (summary: OptimizationSummary)
    ensures
        same_header(*old(function), *final(function)),
        final(function).blocks == old(function).blocks,
        locals_view(final(function).locals@) == locals_view(old(function).locals@).filter(
            |l: LocalView| local_used(*old(function), l.id.0),
        ),
        summary == (OptimizationSummary {
            dead_locals_removed: (old(function).locals@.len() - final(function).locals@.len()) as usize,
            ..zero_summary()
        }),
{
    let ghost f0 = *function;
    let used = used_locals(function);
    let ghost pred = |l: LocalView| local_used(f0, l.id.0);
    let ghost lv = locals_view(function.locals@);
    let mut kept: Vec<MirLocal> = Vec::new();
    let mut i: usize = 0;
    proof {
        reveal(Seq::filter);
        assert(lv.take(0) =~= Seq::<LocalView>::empty());
        assert(locals_view(kept@) =~= lv.take(0).filter(pred));
    }
    while i < function.locals.len()
        invariant
            i <= function.locals.len(),
            *function == f0,
            lv == locals_view(f0.locals@),
            lv.len() == f0.locals@.len(),
            forall|y: u32| #![trigger used@.contains(y)] used@.contains(y) <==> local_used(f0, y),
            locals_view(kept@) == lv.take(i as int).filter(pred),
            pred == (|l: LocalView| local_used(f0, l.id.0)),
            kept@.len() <= i,
        decreases function.locals.len() - i,
    {
        let ghost before = kept@;
        proof {
            reveal(Seq::filter);
            assert(lv.take(i + 1).drop_last() =~= lv.take(i as int));
            assert(lv.take(i + 1).last() == function.locals@[i as int]@);
        }
        if in_ids(&used, function.locals[i].id.0) {
            kept.push(clone_local(&function.locals[i]));
            proof {
                assert(used@.contains(function.locals@[i as int].id.0));
                assert(local_used(f0, function.locals@[i as int].id.0));
                assert(lv.take(i + 1).last().id == function.locals@[i as int].id);
                assert(pred(lv.take(i + 1).last()));
                assert(locals_view(kept@) =~= locals_view(before).push(function.locals@[i as int]@));
                assert(lv.take(i + 1).filter(pred) == lv.take(i as int).filter(pred).push(
                    lv.take(i + 1).last(),
                ));
            }
        } else {
            proof {
                assert(!pred(lv.take(i + 1).last()));
                assert(lv.take(i + 1).filter(pred) == lv.take(i as int).filter(pred));
            }
        }
        i = i + 1;
    }
    proof {
        assert(lv.take(function.locals.len() as int) =~= lv);
    }
    let removed = function.locals.len() - kept.len();
    function.locals = kept;
    OptimizationSummary { dead_locals_removed: removed, ..OptimizationSummary::default() }
}
} // verus!
