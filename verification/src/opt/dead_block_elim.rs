//! Dead block elimination: drop the blocks control cannot reach.
//!
//! Reachability starts at the entry id and follows the successors of a
//! block (its `goto` target, both branches of an `if`, every arm and the
//! default of a `switch`). A block id is looked up as the first block with
//! that id. Every block whose id is reachable is kept, in order.
use vstd::prelude::*;

use crate::mir::{blocks_view, clone_block, BasicBlock, BlockId, BlockView, MirFunction, Terminator, TerminatorView};
use crate::opt::desugar::same_header;
use crate::opt::summary::{zero_summary, OptimizationSummary};

verus! {

/// The block ids control may pass to after a terminator.
pub open spec fn succ_ids(t: TerminatorView) -> Seq<BlockId> {
    match t {
        TerminatorView::Goto(b) => seq![b],
        TerminatorView::If { then_block, else_block, .. } => seq![then_block, else_block],
        TerminatorView::Switch { arms, default, .. } => arms.map_values(|a: (i64, BlockId)| a.1).push(
            default,
        ),
        _ => Seq::empty(),
    }
}

/// Block `k` is the first with id `id`.
pub open spec fn is_first(bv: Seq<BlockView>, id: BlockId, k: int) -> bool {
    &&& 0 <= k < bv.len()
    &&& bv[k].id == id
    &&& forall|j: int| 0 <= j < k ==> bv[j].id != id
}

/// The index of the first block with id `id`, or -1.
pub open spec fn first_index(bv: Seq<BlockView>, id: BlockId) -> int {
    if exists|k: int| is_first(bv, id, k) {
        choose|k: int| is_first(bv, id, k)
    } else {
        -1
    }
}

/// The ids `prev` holds, with the successors of their first blocks added.
pub open spec fn step(bv: Seq<BlockView>, prev: Set<BlockId>) -> Set<BlockId> {
    prev.union(
        Set::new(
            |id: BlockId|
                exists|src: BlockId|
                    #[trigger] prev.contains(src) && first_index(bv, src) >= 0 && succ_ids(
                        bv[first_index(bv, src)].terminator,
                    ).contains(id),
        ),
    )
}

/// The block ids reachable from `entry` in at most `n` steps.
pub open spec fn reach_set(bv: Seq<BlockView>, entry: BlockId, n: nat) -> Set<BlockId>
    decreases n,
{
    if n == 0 {
        set![entry]
    } else {
        step(bv, reach_set(bv, entry, (n - 1) as nat))
    }
}

/// Block id `id` is reachable from `entry`.
pub open spec fn reachable(bv: Seq<BlockView>, entry: BlockId, id: BlockId) -> bool {
    exists|n: nat| #[trigger] reach_set(bv, entry, n).contains(id)
}

proof fn lemma_first_unique(bv: Seq<BlockView>, id: BlockId, k: int)
    requires
        is_first(bv, id, k),
    ensures
        first_index(bv, id) == k,
{
    let c = choose|c: int| is_first(bv, id, c);
    assert(is_first(bv, id, c));
    if c < k {
        assert(bv[c].id != id);
    }
    if k < c {
        assert(bv[k].id != id);
    }
}

fn find_first(blocks: &Vec<BasicBlock>, id: BlockId) -> (r: Option<usize>)
    ensures
        match r {
            Some(k) => first_index(blocks_view(blocks@), id) == k as int,
            None => first_index(blocks_view(blocks@), id) == -1,
        },
{
    let ghost bv = blocks_view(blocks@);
    let mut k: usize = 0;
    while k < blocks.len()
        invariant
            k <= blocks.len(),
            bv == blocks_view(blocks@),
            forall|j: int| 0 <= j < k ==> bv[j].id != id,
        decreases blocks.len() - k,
    {
        if blocks[k].id == id {
            proof {
                assert(is_first(bv, id, k as int));
                lemma_first_unique(bv, id, k as int);
            }
            return Some(k);
        }
        k = k + 1;
    }
    proof {
        assert(!exists|c: int| is_first(bv, id, c));
    }
    None
}

fn successors(t: &Terminator) -> (r: Vec<BlockId>)
    ensures
        r@ == succ_ids(t@),
{
    match t {
        Terminator::Goto(b) => {
            let mut v = Vec::new();
            v.push(*b);
            proof {
                assert(v@ =~= seq![*b]);
            }
            v
        },
        Terminator::If { then_block, else_block, .. } => {
            let mut v = Vec::new();
            v.push(*then_block);
            v.push(*else_block);
            proof {
                assert(v@ =~= seq![*then_block, *else_block]);
            }
            v
        },
        Terminator::Switch { arms, default, .. } => {
            let mut v: Vec<BlockId> = Vec::new();
            let mut i: usize = 0;
            while i < arms.len()
                invariant
                    i <= arms.len(),
                    v@ == arms@.take(i as int).map_values(|a: (i64, BlockId)| a.1),
                decreases arms.len() - i,
            {
                v.push(arms[i].1);
                proof {
                    assert(v@ =~= arms@.take(i + 1).map_values(|a: (i64, BlockId)| a.1));
                }
                i = i + 1;
            }
            proof {
                assert(arms@.take(arms.len() as int) =~= arms@);
            }
            v.push(*default);
            v
        },
        _ => {
            let v: Vec<BlockId> = Vec::new();
            proof {
                assert(v@ =~= Seq::<BlockId>::empty());
            }
            v
        },
    }
}

/// The number of unset flags.
pub open spec fn unset(s: Seq<bool>) -> nat
    decreases s.len(),
{
    if s.len() == 0 {
        0
    } else {
        unset(s.drop_last()) + if s.last() {
            0nat
        } else {
            1nat
        }
    }
}

proof fn lemma_unset_set(s: Seq<bool>, j: int)
    requires
        0 <= j < s.len(),
        !s[j],
    ensures
        unset(s.update(j, true)) + 1 == unset(s),
    decreases s.len(),
{
    if j < s.len() - 1 {
        assert(s.update(j, true).drop_last() =~= s.drop_last().update(j, true));
        lemma_unset_set(s.drop_last(), j);
    } else {
        assert(s.update(j, true).drop_last() =~= s.drop_last());
    }
}

/// Flag `k` set means: block `k` is the first with its id, and that id is
/// reachable.
pub open spec fn flags_sound(bv: Seq<BlockView>, entry: BlockId, f: Seq<bool>) -> bool {
    &&& f.len() == bv.len()
    &&& forall|k: int|
        0 <= k < f.len() && #[trigger] f[k] ==> first_index(bv, bv[k].id) == k && reachable(
            bv,
            entry,
            bv[k].id,
        )
}

/// Every successor of a flagged block among the first `n` is flagged.
pub open spec fn flags_closed(bv: Seq<BlockView>, f: Seq<bool>, n: int) -> bool {
    forall|k: int, t: BlockId|
        0 <= k < n && #[trigger] f[k] && succ_ids(bv[k].terminator).contains(t) && first_index(
            bv,
            t,
        ) >= 0 ==> #[trigger] f[first_index(bv, t)]
}

proof fn lemma_reach_step(bv: Seq<BlockView>, entry: BlockId, k: int, t: BlockId)
    requires
        0 <= k < bv.len(),
        first_index(bv, bv[k].id) == k,
        reachable(bv, entry, bv[k].id),
        succ_ids(bv[k].terminator).contains(t),
    ensures
        reachable(bv, entry, t),
{
    let n = choose|n: nat| #[trigger] reach_set(bv, entry, n).contains(bv[k].id);
    let prev = reach_set(bv, entry, n);
    assert(prev.contains(bv[k].id));
    let m = (n + 1) as nat;
    assert(reach_set(bv, entry, m) == step(bv, prev));
    assert(step(bv, prev).contains(t));
    assert(reach_set(bv, entry, m).contains(t));
}

proof fn lemma_first_index(bv: Seq<BlockView>, id: BlockId)
    ensures
        first_index(bv, id) >= 0 ==> is_first(bv, id, first_index(bv, id)),
        first_index(bv, id) >= -1,
{
}

proof fn lemma_complete(bv: Seq<BlockView>, entry: BlockId, f: Seq<bool>, id: BlockId, n: nat)
    requires
        f.len() == bv.len(),
        flags_closed(bv, f, bv.len() as int),
        first_index(bv, entry) >= 0 ==> f[first_index(bv, entry)],
        reach_set(bv, entry, n).contains(id),
        first_index(bv, id) >= 0,
    ensures
        f[first_index(bv, id)],
    decreases n,
{
    lemma_first_index(bv, id);
    lemma_first_index(bv, entry);
    if n == 0 {
        assert(id == entry);
    } else {
        let prev = reach_set(bv, entry, (n - 1) as nat);
        assert(reach_set(bv, entry, n) == step(bv, prev));
        if prev.contains(id) {
            lemma_complete(bv, entry, f, id, (n - 1) as nat);
        } else {
            let src = choose|src: BlockId|
                #[trigger] prev.contains(src) && first_index(bv, src) >= 0 && succ_ids(
                    bv[first_index(bv, src)].terminator,
                ).contains(id);
            lemma_complete(bv, entry, f, src, (n - 1) as nat);
            let k = first_index(bv, src);
            lemma_first_index(bv, src);
            assert(f[k]);
        }
    }
}

fn reachable_flags(blocks: &Vec<BasicBlock>, entry: BlockId) -> (r: Vec<bool>)
    ensures
        flags_sound(blocks_view(blocks@), entry, r@),
        flags_closed(blocks_view(blocks@), r@, blocks@.len() as int),
        first_index(blocks_view(blocks@), entry) >= 0 ==> r@[first_index(blocks_view(blocks@), entry)],
{
    let ghost bv = blocks_view(blocks@);
    let mut flags: Vec<bool> = Vec::new();
    let mut i: usize = 0;
    while i < blocks.len()
        invariant
            i <= blocks.len(),
            flags@.len() == i,
            forall|k: int| 0 <= k < i ==> !#[trigger] flags@[k],
        decreases blocks.len() - i,
    {
        flags.push(false);
        i = i + 1;
    }
    if let Some(j) = find_first(blocks, entry) {
        flags.set(j, true);
        proof {
            assert(reach_set(bv, entry, 0).contains(entry));
            lemma_first_index(bv, entry);
        }
    }
    let mut changed = true;
    while changed
        invariant
            bv == blocks_view(blocks@),
            flags_sound(bv, entry, flags@),
            first_index(bv, entry) >= 0 ==> flags@[first_index(bv, entry)],
            !changed ==> flags_closed(bv, flags@, bv.len() as int),
        decreases unset(flags@) + if changed {
            1nat
        } else {
            0nat
        },
    {
        let ghost start = flags@;
        changed = false;
        let mut k: usize = 0;
        while k < blocks.len()
            invariant
                k <= blocks.len(),
                bv == blocks_view(blocks@),
                flags_sound(bv, entry, flags@),
                first_index(bv, entry) >= 0 ==> flags@[first_index(bv, entry)],
                !changed ==> flags@ == start,
                !changed ==> flags_closed(bv, flags@, k as int),
                changed ==> unset(flags@) < unset(start),
                unset(flags@) <= unset(start),
            decreases blocks.len() - k,
        {
            if flags[k] {
                let succ = successors(&blocks[k].terminator);
                let mut s: usize = 0;
                while s < succ.len()
                    invariant
                        k < blocks.len(),
                        s <= succ.len(),
                        succ@ == succ_ids(bv[k as int].terminator),
                        bv == blocks_view(blocks@),
                        flags@[k as int],
                        flags_sound(bv, entry, flags@),
                        first_index(bv, entry) >= 0 ==> flags@[first_index(bv, entry)],
                        !changed ==> flags@ == start,
                        !changed ==> flags_closed(bv, flags@, k as int),
                        !changed ==> forall|q: int|
                            0 <= q < s && first_index(bv, #[trigger] succ@[q]) >= 0 ==> flags@[first_index(
                                bv,
                                succ@[q],
                            )],
                        changed ==> unset(flags@) < unset(start),
                        unset(flags@) <= unset(start),
                    decreases succ.len() - s,
                {
                    let t = succ[s];
                    if let Some(j) = find_first(blocks, t) {
                        if !flags[j] {
                            proof {
                                lemma_unset_set(flags@, j as int);
                                assert(succ_ids(bv[k as int].terminator).contains(t)) by {
                                    assert(succ@[s as int] == t);
                                }
                                lemma_reach_step(bv, entry, k as int, t);
                                let c = choose|c: int| is_first(bv, t, c);
                                assert(is_first(bv, t, c));
                                assert(bv[j as int].id == t);
                            }
                            flags.set(j, true);
                            changed = true;
                        }
                    }
                    s = s + 1;
                }
                proof {
                    if !changed {
                        assert forall|kk: int, t: BlockId|
                            0 <= kk < k + 1 && #[trigger] flags@[kk] && succ_ids(
                                bv[kk].terminator,
                            ).contains(t) && first_index(bv, t) >= 0 implies #[trigger] flags@[first_index(
                            bv,
                            t,
                        )] by {
                            if kk == k {
                                let q = choose|q: int| 0 <= q < succ@.len() && succ@[q] == t;
                                assert(first_index(bv, succ@[q]) >= 0);
                            }
                        }
                    }
                }
            } else {
                proof {
                    if !changed {
                        assert forall|kk: int, t: BlockId|
                            0 <= kk < k + 1 && #[trigger] flags@[kk] && succ_ids(
                                bv[kk].terminator,
                            ).contains(t) && first_index(bv, t) >= 0 implies #[trigger] flags@[first_index(
                            bv,
                            t,
                        )] by {
                            assert(kk != k);
                        }
                    }
                }
            }
            k = k + 1;
        }
    }
    flags
}

/// Remove the blocks whose id is not reachable from the entry; reports how
/// many were removed.
pub fn dead_block_elim(function: &mut MirFunction) -> (summary: OptimizationSummary)
    ensures
        same_header(*old(function), *final(function)),
        final(function).locals == old(function).locals,
        blocks_view(final(function).blocks@) == blocks_view(old(function).blocks@).filter(
            |b: BlockView| reachable(blocks_view(old(function).blocks@), old(function).entry, b.id),
        ),
        summary == (OptimizationSummary {
            dead_blocks_removed: (old(function).blocks@.len() - final(function).blocks@.len()) as usize,
            ..zero_summary()
        }),
{
    let ghost f0 = *function;
    let ghost bv = blocks_view(function.blocks@);
    let ghost pred = |b: BlockView| reachable(bv, f0.entry, b.id);
    let flags = reachable_flags(&function.blocks, function.entry);
    let mut kept: Vec<BasicBlock> = Vec::new();
    let mut i: usize = 0;
    proof {
        reveal(Seq::filter);
        assert(bv.take(0) =~= Seq::<BlockView>::empty());
        assert(blocks_view(kept@) =~= bv.take(0).filter(pred));
    }
    while i < function.blocks.len()
        invariant
            i <= function.blocks.len(),
            *function == f0,
            bv == blocks_view(f0.blocks@),
            pred == (|b: BlockView| reachable(bv, f0.entry, b.id)),
            flags_sound(bv, f0.entry, flags@),
            flags_closed(bv, flags@, bv.len() as int),
            first_index(bv, f0.entry) >= 0 ==> flags@[first_index(bv, f0.entry)],
            blocks_view(kept@) == bv.take(i as int).filter(pred),
            kept@.len() <= i,
        decreases function.blocks.len() - i,
    {
        let ghost before = kept@;
        proof {
            reveal(Seq::filter);
            assert(bv.take(i + 1).drop_last() =~= bv.take(i as int));
            assert(bv.take(i + 1).last() == function.blocks@[i as int]@);
        }
        let f = find_first(&function.blocks, function.blocks[i].id);
        let keep = match f {
            Some(j) => flags[j],
            None => false,
        };
        proof {
            let id = bv[i as int].id;
            lemma_exists_first(bv, id, i as int);
            if keep {
                assert(pred(bv[i as int]));
            } else {
                if pred(bv[i as int]) {
                    let n = choose|n: nat| #[trigger] reach_set(bv, f0.entry, n).contains(id);
                    lemma_complete(bv, f0.entry, flags@, id, n);
                }
                assert(!pred(bv[i as int]));
            }
        }
        if keep {
            kept.push(clone_block(&function.blocks[i]));
            proof {
                assert(blocks_view(kept@) =~= blocks_view(before).push(function.blocks@[i as int]@));
                assert(bv.take(i + 1).filter(pred) == bv.take(i as int).filter(pred).push(
                    bv.take(i + 1).last(),
                ));
            }
        } else {
            proof {
                assert(bv.take(i + 1).filter(pred) == bv.take(i as int).filter(pred));
            }
        }
        i = i + 1;
    }
    proof {
        assert(bv.take(function.blocks.len() as int) =~= bv);
    }
    let removed = function.blocks.len() - kept.len();
    function.blocks = kept;
    OptimizationSummary { dead_blocks_removed: removed, ..OptimizationSummary::default() }
}

proof fn lemma_exists_first(bv: Seq<BlockView>, id: BlockId, i: int)
    requires
        0 <= i < bv.len(),
        bv[i].id == id,
    ensures
        exists|c: int| is_first(bv, id, c),
    decreases i,
{
    if forall|j: int| 0 <= j < i ==> bv[j].id != id {
        assert(is_first(bv, id, i));
    } else {
        let j = choose|j: int| 0 <= j < i && bv[j].id == id;
        lemma_exists_first(bv, id, j);
    }
}
} // verus!
