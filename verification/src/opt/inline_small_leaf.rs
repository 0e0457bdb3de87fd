//! Inlining of the identity builtin in small functions.
//!
//! In a function with at most eight statements at the top level of its
//! blocks, each call `identity(a)` of the builtin with one argument becomes
//! the assignment `_0 = a`.
use vstd::prelude::*;

use crate::mir::{
    blocks_view, clone_operand, clone_stmt, stmt_view, stmts_view, BasicBlock, BlockView, LocalId,
    MirFunction, MirStmt, Place, PlaceView, Rvalue, RvalueView, StmtView,
};
use crate::opt::desugar::same_header;
use crate::opt::summary::{zero_summary, OptimizationSummary};
use crate::strutil::str_eq;

verus! {

/// The largest number of top-level statements a function may have for the
/// pass to apply.
pub const INLINE_SMALL_LEAF_BUDGET: usize = 8;

/// The number of top-level statements of the blocks `bv`.
pub open spec fn stmt_total(bv: Seq<BlockView>) -> nat
    decreases bv.len(),
{
    if bv.len() == 0 {
        0
    } else {
        stmt_total(bv.drop_last()) + bv.last().stmts.len()
    }
}

pub open spec fn identity_call(s: StmtView) -> bool {
    match s {
        StmtView::CallBuiltin { name, args, .. } => name == "identity"@ && args.len() == 1,
        _ => false,
    }
}

/// `identity(a)` becomes `_0 = a`; other statements stay.
pub open spec fn leaf_inlined(s: StmtView) -> StmtView {
    match s {
        StmtView::CallBuiltin { name, args, .. } => if name == "identity"@ && args.len() == 1 {
            StmtView::Assign(PlaceView::Local(LocalId(0)), RvalueView::Use(args[0]))
        } else {
            s
        },
        _ => s,
    }
}

pub open spec fn leaf_block(b: BlockView) -> BlockView {
    BlockView { stmts: b.stmts.map_values(|s: StmtView| leaf_inlined(s)), ..b }
}

pub open spec fn identity_count_stmts(ss: Seq<StmtView>) -> nat
    decreases ss.len(),
{
    if ss.len() == 0 {
        0
    } else {
        identity_count_stmts(ss.drop_last()) + if identity_call(ss.last()) {
            1nat
        } else {
            0nat
        }
    }
}

proof fn lemma_identity_count_bound(ss: Seq<StmtView>)
    ensures
        identity_count_stmts(ss) <= ss.len(),
    decreases ss.len(),
{
    if ss.len() > 0 {
        lemma_identity_count_bound(ss.drop_last());
    }
}

pub open spec fn identity_count(bv: Seq<BlockView>) -> nat
    decreases bv.len(),
{
    if bv.len() == 0 {
        0
    } else {
        identity_count(bv.drop_last()) + identity_count_stmts(bv.last().stmts)
    }
}

proof fn lemma_identity_count_total(bv: Seq<BlockView>)
    ensures
        identity_count(bv) <= stmt_total(bv),
    decreases bv.len(),
{
    if bv.len() > 0 {
        lemma_identity_count_total(bv.drop_last());
        lemma_identity_count_bound(bv.last().stmts);
    }
}

fn inline_stmt(s: &MirStmt) -> (r: (MirStmt, bool))
    ensures
        r.0@ == leaf_inlined(s@),
        r.1 == identity_call(s@),
{
    if let MirStmt::CallBuiltin { name, args, .. } = s {
        proof {
            crate::mir::lemma_operands_view(args@);
        }
        if str_eq(name.as_str(), "identity") && args.len() == 1 {
            return (
                MirStmt::Assign(Place::Local(LocalId(0)), Rvalue::Use(clone_operand(&args[0]))),
                true,
            );
        }
    }
    (clone_stmt(s), false)
}

fn inline_block(b: &BasicBlock) -> (r: (BasicBlock, usize))
    ensures
        r.0@ == leaf_block(b@),
        r.1 == identity_count_stmts(b@.stmts),
{
    let ghost ss = b@.stmts;
    let mut out: Vec<MirStmt> = Vec::new();
    let mut count: usize = 0;
    let mut i: usize = 0;
    proof {
        crate::mir::lemma_stmts_view(b.stmts@);
        assert(stmts_view(out@) =~= ss.take(0).map_values(|s: StmtView| leaf_inlined(s)));
    }
    while i < b.stmts.len()
        invariant
            i <= b.stmts.len(),
            ss == stmts_view(b.stmts@),
            ss.len() == b.stmts@.len(),
            stmts_view(out@) == ss.take(i as int).map_values(|s: StmtView| leaf_inlined(s)),
            count == identity_count_stmts(ss.take(i as int)),
            count <= i,
        decreases b.stmts.len() - i,
    {
        proof {
            crate::mir::lemma_stmts_view(b.stmts@);
            assert(ss.take(i + 1).drop_last() =~= ss.take(i as int));
            assert(ss.take(i + 1).last() == stmt_view(b.stmts@[i as int]));
            lemma_identity_count_bound(ss.take(i as int));
        }
        let (ns, c) = inline_stmt(&b.stmts[i]);
        let ghost before = out@;
        out.push(ns);
        if c {
            count = count + 1;
        }
        proof {
            assert(out@.drop_last() =~= before);
            assert(stmts_view(out@) =~= ss.take(i + 1).map_values(|s: StmtView| leaf_inlined(s)));
        }
        i = i + 1;
    }
    proof {
        assert(ss.take(b.stmts.len() as int) =~= ss);
        assert(stmts_view(out@) == leaf_block(b@).stmts);
    }
    (
        BasicBlock {
            id: b.id,
            stmts: out,
            terminator: crate::mir::clone_terminator(&b.terminator),
            source: b.source,
        },
        count,
    )
}

/// Whether the blocks hold more top-level statements than the budget.
fn over_budget(blocks: &Vec<BasicBlock>) -> (r: bool)
    ensures
        r == (stmt_total(blocks_view(blocks@)) > INLINE_SMALL_LEAF_BUDGET),
{
    let ghost bv = blocks_view(blocks@);
    let mut total: usize = 0;
    let mut i: usize = 0;
    while i < blocks.len()
        invariant
            i <= blocks.len(),
            bv == blocks_view(blocks@),
            total == stmt_total(bv.take(i as int)),
            total <= INLINE_SMALL_LEAF_BUDGET,
        decreases blocks.len() - i,
    {
        proof {
            assert(bv.take(i + 1).drop_last() =~= bv.take(i as int));
            assert(bv.take(i + 1).last() == blocks@[i as int]@);
            crate::mir::lemma_stmts_view(blocks@[i as int].stmts@);
        }
        let n = blocks[i].stmts.len();
        if n > INLINE_SMALL_LEAF_BUDGET - total {
            proof {
                lemma_stmt_total_prefix(bv, i + 1);
            }
            return true;
        }
        total = total + n;
        i = i + 1;
    }
    proof {
        assert(bv.take(blocks.len() as int) =~= bv);
    }
    false
}

proof fn lemma_stmt_total_prefix(bv: Seq<BlockView>, n: int)
    requires
        0 <= n <= bv.len(),
    ensures
        stmt_total(bv.take(n)) <= stmt_total(bv),
    decreases bv.len() - n,
{
    if n < bv.len() {
        assert(bv.take(n + 1).drop_last() =~= bv.take(n));
        lemma_stmt_total_prefix(bv, n + 1);
    } else {
        assert(bv.take(n) =~= bv);
    }
}

/// Replace calls of the `identity` builtin by an assignment to `_0`, in a
/// function within the statement budget; reports how many were replaced.
pub fn inline_small_leaf(function: &mut MirFunction) -> (summary: OptimizationSummary)
    ensures
        stmt_total(blocks_view(old(function).blocks@)) > INLINE_SMALL_LEAF_BUDGET ==> *final(function)
            == *old(function) && summary == zero_summary(),
        stmt_total(blocks_view(old(function).blocks@)) <= INLINE_SMALL_LEAF_BUDGET ==> {
            &&& same_header(*old(function), *final(function))
            &&& final(function).locals == old(function).locals
            &&& final(function).blocks@.len() == old(function).blocks@.len()
            &&& forall|i: int|
                0 <= i < old(function).blocks@.len() ==> #[trigger] final(function).blocks@[i]@
                    == leaf_block(old(function).blocks@[i]@)
            &&& summary == (OptimizationSummary {
                inline_small_leaf: identity_count(blocks_view(old(function).blocks@)) as usize,
                ..zero_summary()
            })
        },
{
    let mut summary = OptimizationSummary::default();
    if over_budget(&function.blocks) {
        return summary;
    }
    let ghost f0 = *function;
    let ghost bv = blocks_view(function.blocks@);
    proof {
        lemma_identity_count_total(bv);
    }
    let mut new_blocks: Vec<BasicBlock> = Vec::new();
    let mut i: usize = 0;
    while i < function.blocks.len()
        invariant
            i <= function.blocks.len(),
            function.blocks == f0.blocks,
            bv == blocks_view(f0.blocks@),
            identity_count(bv) <= INLINE_SMALL_LEAF_BUDGET,
            new_blocks@.len() == i,
            forall|j: int| 0 <= j < i ==> #[trigger] new_blocks@[j]@ == leaf_block(f0.blocks@[j]@),
            summary == (OptimizationSummary {
                inline_small_leaf: identity_count(bv.take(i as int)) as usize,
                ..zero_summary()
            }),
        decreases function.blocks.len() - i,
    {
        proof {
            assert(bv.take(i + 1).drop_last() =~= bv.take(i as int));
            assert(bv.take(i + 1).last() == function.blocks@[i as int]@);
            lemma_identity_count_prefix(bv, i + 1);
        }
        let (nb, c) = inline_block(&function.blocks[i]);
        summary.inline_small_leaf = summary.inline_small_leaf + c;
        new_blocks.push(nb);
        i = i + 1;
    }
    proof {
        assert(bv.take(function.blocks.len() as int) =~= bv);
    }
    function.blocks = new_blocks;
    summary
}

proof fn lemma_identity_count_prefix(bv: Seq<BlockView>, n: int)
    requires
        0 <= n <= bv.len(),
    ensures
        identity_count(bv.take(n)) <= identity_count(bv),
    decreases bv.len() - n,
{
    if n < bv.len() {
        assert(bv.take(n + 1).drop_last() =~= bv.take(n));
        lemma_identity_count_prefix(bv, n + 1);
    } else {
        assert(bv.take(n) =~= bv);
    }
}
} // verus!
