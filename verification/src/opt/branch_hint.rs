//! Branch-hint inference: a branch that leads to a panic path is unlikely.
//!
//! A block is a panic path when it ends in `Unreachable` or one of its
//! statements calls a function whose name, in lowercase, holds `panic`,
//! `abort`, `unwrap_failed`, `expect_failed` or `assert`.
use vstd::prelude::*;

use crate::mir::{
    blocks_view, stmt_view, stmts_view, BasicBlock, BlockId, BlockView, BranchHint, MirFunction,
    MirStmt, Operand, OperandView, Rvalue, RvalueView, StmtView, Terminator, TerminatorView,
};
use crate::opt::desugar::same_header;
use crate::opt::summary::{zero_summary, OptimizationSummary};
use crate::strutil::{lowercase, seq_contains, str_contains, to_lowercase};

verus! {

// ---------------------------------------------------------------------------
// Panic paths
// ---------------------------------------------------------------------------
/// Whether a function name, in lowercase, marks a panic path.
pub open spec fn panic_name(name: Seq<char>) -> bool {
    let l = lowercase(name);
    seq_contains(l, "panic"@) || seq_contains(l, "abort"@) || seq_contains(l, "unwrap_failed"@)
        || seq_contains(l, "expect_failed"@) || seq_contains(l, "assert"@)
}

pub open spec fn operand_calls_panic_spec(o: OperandView) -> bool {
    match o {
        OperandView::Call(name, _) => panic_name(name),
        _ => false,
    }
}

pub open spec fn rvalue_calls_panic_spec(r: RvalueView) -> bool {
    match r {
        RvalueView::Use(o) => operand_calls_panic_spec(o),
        _ => false,
    }
}

/// A statement that itself calls a panicking function. A call by function
/// id cannot be named, so it never counts.
pub open spec fn stmt_is_panic_spec(s: StmtView) -> bool {
    match s {
        StmtView::CallBuiltin { name, .. } => panic_name(name),
        StmtView::Assign(_, r) => rvalue_calls_panic_spec(r),
        _ => false,
    }
}

/// A statement that may panic, looking inside nested bodies and returns.
pub open spec fn stmt_may_panic(s: StmtView) -> bool
    decreases s,
{
    stmt_is_panic_spec(s) || match s {
        StmtView::IfStmt { then_body, else_body, .. } => any_may_panic(then_body) || any_may_panic(
            else_body,
        ),
        StmtView::WhileStmt { body, .. } => any_may_panic(body),
        StmtView::Return(Some(op)) => operand_calls_panic_spec(op),
        _ => false,
    }
}

pub open spec fn any_may_panic(s: Seq<StmtView>) -> bool
    decreases s,
{
    if s.len() == 0 {
        false
    } else {
        any_may_panic(s.drop_last()) || stmt_may_panic(s.last())
    }
}

/// The hint for an `if` whose branches are `then_panic` and `else_panic`
/// panic paths: unlikely when only the then branch panics, likely when only
/// the else branch does.
pub open spec fn hint_for(then_panic: bool, else_panic: bool) -> Option<BranchHint> {
    if then_panic && !else_panic {
        Some(BranchHint::Unlikely)
    } else if else_panic && !then_panic {
        Some(BranchHint::Likely)
    } else {
        None
    }
}

/// Whether the function name, in lowercase, marks a panic path.
pub fn is_panic_name(name: &str) -> (r: bool)
    ensures
        r == panic_name(name@),
{
    let lower = to_lowercase(name);
    let l = lower.as_str();
    str_contains(l, "panic") || str_contains(l, "abort") || str_contains(l, "unwrap_failed")
        || str_contains(l, "expect_failed") || str_contains(l, "assert")
}

fn operand_calls_panic(op: &Operand) -> (r: bool)
    ensures
        r == operand_calls_panic_spec(op@),
{
    match op {
        Operand::Call(name, _) => is_panic_name(name.as_str()),
        _ => false,
    }
}

/// Whether the rvalue is a direct call of a panicking function.
pub fn rvalue_calls_panic(rvalue: &Rvalue) -> (r: bool)
    ensures
        r == rvalue_calls_panic_spec(rvalue@),
{
    match rvalue {
        Rvalue::Use(op) => operand_calls_panic(op),
        _ => false,
    }
}

fn stmt_is_panic(stmt: &MirStmt) -> (r: bool)
    ensures
        r == stmt_is_panic_spec(stmt@),
{
    match stmt {
        MirStmt::CallBuiltin { name, .. } => is_panic_name(name.as_str()),
        MirStmt::Assign(_, rvalue) => rvalue_calls_panic(rvalue),
        _ => false,
    }
}

fn stmt_may_be_panic(stmt: &MirStmt) -> (r: bool)
    ensures
        r == stmt_may_panic(stmt@),
    decreases stmt,
{
    if stmt_is_panic(stmt) {
        return true;
    }
    match stmt {
        MirStmt::IfStmt { then_body, else_body, .. } => stmts_look_like_panic_path(then_body)
            || stmts_look_like_panic_path(else_body),
        MirStmt::WhileStmt { body, .. } => stmts_look_like_panic_path(body),
        MirStmt::Return(Some(op)) => operand_calls_panic(op),
        _ => false,
    }
}

proof fn lemma_any_prefix(s: Seq<StmtView>, n: int)
    requires
        0 <= n <= s.len(),
        any_may_panic(s.take(n)),
    ensures
        any_may_panic(s),
    decreases s.len() - n,
{
    if n < s.len() {
        assert(s.take(n + 1).drop_last() =~= s.take(n));
        lemma_any_prefix(s, n + 1);
    } else {
        assert(s.take(n) =~= s);
    }
}

fn stmts_look_like_panic_path(stmts: &Vec<MirStmt>) -> (r: bool)
    ensures
        r == any_may_panic(stmts_view(stmts@)),
    decreases stmts,
{
    let ghost sv = stmts_view(stmts@);
    proof {
        crate::mir::lemma_stmts_view(stmts@);
        assert(sv.take(0) =~= Seq::<StmtView>::empty());
    }
    let mut i: usize = 0;
    #[verifier::loop_isolation(false)]
    while i < stmts.len()
        invariant
            i <= stmts.len(),
            sv == stmts_view(stmts@),
            sv.len() == stmts.len(),
            !any_may_panic(sv.take(i as int)),
        decreases stmts.len() - i,
    {
        proof {
            broadcast use vstd::std_specs::vec::axiom_vec_index_decreases;

            assert(decreases_to!(stmts => stmts[i as int]));
            crate::mir::lemma_stmts_view(stmts@);
            assert(sv.take(i + 1).drop_last() =~= sv.take(i as int));
            assert(sv.take(i + 1).last() == stmt_view(stmts@[i as int]));
        }
        if stmt_may_be_panic(&stmts[i]) {
            proof {
                lemma_any_prefix(sv, i + 1);
            }
            return true;
        }
        i = i + 1;
    }
    proof {
        assert(sv.take(stmts.len() as int) =~= sv);
    }
    false
}

fn slice_looks_like_panic_path(stmts: &[MirStmt]) -> (r: bool)
    ensures
        r == any_may_panic(stmts_view(stmts@)),
{
    let ghost sv = stmts_view(stmts@);
    proof {
        crate::mir::lemma_stmts_view(stmts@);
        assert(sv.take(0) =~= Seq::<StmtView>::empty());
    }
    let mut i: usize = 0;
    while i < stmts.len()
        invariant
            i <= stmts.len(),
            sv == stmts_view(stmts@),
            sv.len() == stmts@.len(),
            !any_may_panic(sv.take(i as int)),
        decreases stmts.len() - i,
    {
        proof {
            crate::mir::lemma_stmts_view(stmts@);
            assert(sv.take(i + 1).drop_last() =~= sv.take(i as int));
            assert(sv.take(i + 1).last() == stmt_view(stmts@[i as int]));
        }
        if stmt_may_be_panic(&stmts[i]) {
            proof {
                lemma_any_prefix(sv, i + 1);
            }
            return true;
        }
        i = i + 1;
    }
    proof {
        assert(sv.take(stmts@.len() as int) =~= sv);
    }
    false
}

/// Infer the hint for a statement-level `if`, with the panic-path heuristic
/// used for `if` terminators (statements inside nested bodies and returned
/// calls count too).
pub fn infer_if_stmt_branch_hint(then_body: &[MirStmt], else_body: &[MirStmt]) -> (r: Option<
    BranchHint,
>)
    ensures
        r == hint_for(any_may_panic(stmts_view(then_body@)), any_may_panic(stmts_view(else_body@))),
{
    let then_panic = slice_looks_like_panic_path(then_body);
    let else_panic = slice_looks_like_panic_path(else_body);
    if then_panic && !else_panic {
        Some(BranchHint::Unlikely)
    } else if else_panic && !then_panic {
        Some(BranchHint::Likely)
    } else {
        None
    }
}


// ---------------------------------------------------------------------------
// Hints on `if` terminators
// ---------------------------------------------------------------------------
pub open spec fn any_is_panic(s: Seq<StmtView>) -> bool
    decreases s.len(),
{
    if s.len() == 0 {
        false
    } else {
        any_is_panic(s.drop_last()) || stmt_is_panic_spec(s.last())
    }
}

/// A block that ends in `Unreachable` or holds a panicking call.
pub open spec fn panic_block(b: BlockView) -> bool {
    b.terminator == TerminatorView::Unreachable || any_is_panic(b.stmts)
}

/// Some block with id `id` is a panic path.
pub open spec fn panic_id(bv: Seq<BlockView>, id: BlockId) -> bool {
    exists|i: int| 0 <= i < bv.len() && #[trigger] bv[i].id == id && panic_block(bv[i])
}

/// The terminator with a hint added, when it is an `if` without one and
/// exactly one branch is a panic path.
pub open spec fn hinted(bv: Seq<BlockView>, t: TerminatorView) -> TerminatorView {
    match t {
        TerminatorView::If { cond, then_block, else_block, hint } => {
            if hint is None && hint_for(panic_id(bv, then_block), panic_id(bv, else_block)) is Some {
                TerminatorView::If {
                    cond,
                    then_block,
                    else_block,
                    hint: hint_for(panic_id(bv, then_block), panic_id(bv, else_block)),
                }
            } else {
                t
            }
        },
        _ => t,
    }
}

pub open spec fn gets_hint(bv: Seq<BlockView>, t: TerminatorView) -> bool {
    match t {
        TerminatorView::If { then_block, else_block, hint, .. } => hint is None && hint_for(
            panic_id(bv, then_block),
            panic_id(bv, else_block),
        ) is Some,
        _ => false,
    }
}

pub open spec fn hint_count(bv: Seq<BlockView>, n: int) -> nat
    decreases n,
{
    if n <= 0 {
        0
    } else {
        hint_count(bv, n - 1) + if gets_hint(bv, bv[n - 1].terminator) {
            1nat
        } else {
            0nat
        }
    }
}

fn is_panic_block(block: &BasicBlock) -> (r: bool)
    ensures
        r == panic_block(block@),
{
    if let Terminator::Unreachable = &block.terminator {
        return true;
    }
    let ghost sv = stmts_view(block.stmts@);
    proof {
        crate::mir::lemma_stmts_view(block.stmts@);
        assert(sv.take(0) =~= Seq::<StmtView>::empty());
    }
    let mut i: usize = 0;
    while i < block.stmts.len()
        invariant
            i <= block.stmts.len(),
            sv == stmts_view(block.stmts@),
            sv.len() == block.stmts.len(),
            !any_is_panic(sv.take(i as int)),
        decreases block.stmts.len() - i,
    {
        proof {
            crate::mir::lemma_stmts_view(block.stmts@);
            assert(sv.take(i + 1).drop_last() =~= sv.take(i as int));
            assert(sv.take(i + 1).last() == stmt_view(block.stmts@[i as int]));
        }
        if stmt_is_panic(&block.stmts[i]) {
            proof {
                lemma_any_is_panic_prefix(sv, i + 1);
            }
            return true;
        }
        i = i + 1;
    }
    proof {
        assert(sv.take(block.stmts.len() as int) =~= sv);
    }
    false
}

proof fn lemma_any_is_panic_prefix(s: Seq<StmtView>, n: int)
    requires
        0 <= n <= s.len(),
        any_is_panic(s.take(n)),
    ensures
        any_is_panic(s),
    decreases s.len() - n,
{
    if n < s.len() {
        assert(s.take(n + 1).drop_last() =~= s.take(n));
        lemma_any_is_panic_prefix(s, n + 1);
    } else {
        assert(s.take(n) =~= s);
    }
}

fn panic_block_ids(blocks: &Vec<BasicBlock>) -> (r: Vec<BlockId>)
    ensures
        forall|id: BlockId| r@.contains(id) <==> panic_id(blocks_view(blocks@), id),
{
    let ghost bv = blocks_view(blocks@);
    let mut ids: Vec<BlockId> = Vec::new();
    let mut i: usize = 0;
    while i < blocks.len()
        invariant
            i <= blocks.len(),
            bv == blocks_view(blocks@),
            forall|id: BlockId|
                ids@.contains(id) <==> exists|j: int|
                    0 <= j < i && #[trigger] bv[j].id == id && panic_block(bv[j]),
        decreases blocks.len() - i,
    {
        proof {
            assert(bv[i as int] == blocks@[i as int]@);
        }
        if is_panic_block(&blocks[i]) {
            let ghost before = ids@;
            ids.push(blocks[i].id);
            proof {
                assert forall|id: BlockId| ids@.contains(id) <==> exists|j: int|
                    0 <= j < i + 1 && #[trigger] bv[j].id == id && panic_block(bv[j]) by {
                    vstd::seq_lib::lemma_seq_contains_after_push(before, blocks@[i as int].id, id);
                    if ids@.contains(id) && !before.contains(id) {
                        assert(bv[i as int].id == id && panic_block(bv[i as int]));
                    }
                }
            }
        } else {
            proof {
                assert forall|id: BlockId| ids@.contains(id) <==> exists|j: int|
                    0 <= j < i + 1 && #[trigger] bv[j].id == id && panic_block(bv[j]) by {
                    if exists|j: int| 0 <= j < i + 1 && #[trigger] bv[j].id == id && panic_block(bv[j]) {
                        let j = choose|j: int| 0 <= j < i + 1 && #[trigger] bv[j].id == id && panic_block(bv[j]);
                        assert(j != i);
                    }
                }
            }
        }
        i = i + 1;
    }
    ids
}

fn contains_id(ids: &Vec<BlockId>, id: BlockId) -> (r: bool)
    ensures
        r == ids@.contains(id),
{
    let mut i: usize = 0;
    while i < ids.len()
        invariant
            i <= ids.len(),
            forall|j: int| 0 <= j < i ==> ids@[j] != id,
        decreases ids.len() - i,
    {
        if ids[i] == id {
            assert(ids@[i as int] == id);
            return true;
        }
        i = i + 1;
    }
    false
}

/// Add branch hints to `if` terminators: unlikely when only the then
/// branch leads to a panic path, likely when only the else branch does;
/// existing hints are kept. Reports the number of hints added.
pub fn branch_hint_infer(function: &mut MirFunction) -> (summary: OptimizationSummary)
    ensures
        same_header(*old(function), *final(function)),
        final(function).locals == old(function).locals,
        final(function).blocks@.len() == old(function).blocks@.len(),
        forall|i: int|
            0 <= i < old(function).blocks@.len() ==> #[trigger] final(function).blocks@[i]@ == (BlockView {
                terminator: hinted(
                    blocks_view(old(function).blocks@),
                    old(function).blocks@[i]@.terminator,
                ),
                ..old(function).blocks@[i]@
            }),
        summary == (OptimizationSummary {
            branch_hinted: hint_count(
                blocks_view(old(function).blocks@),
                old(function).blocks@.len() as int,
            ) as usize,
            ..zero_summary()
        }),
{
    let ghost f0 = *function;
    let ghost bv = blocks_view(function.blocks@);
    let mut summary = OptimizationSummary::default();
    let panic_ids = panic_block_ids(&function.blocks);
    let mut new_blocks: Vec<BasicBlock> = Vec::new();
    let mut i: usize = 0;
    while i < function.blocks.len()
        invariant
            i <= function.blocks.len(),
            function.blocks == f0.blocks,
            bv == blocks_view(f0.blocks@),
            forall|id: BlockId| panic_ids@.contains(id) <==> panic_id(bv, id),
            new_blocks@.len() == i,
            forall|j: int|
                0 <= j < i ==> #[trigger] new_blocks@[j]@ == (BlockView {
                    terminator: hinted(bv, f0.blocks@[j]@.terminator),
                    ..f0.blocks@[j]@
                }),
            summary == (OptimizationSummary { branch_hinted: hint_count(bv, i as int) as usize, ..zero_summary() }),
            hint_count(bv, i as int) <= i,
        decreases function.blocks.len() - i,
    {
        let block = &function.blocks[i];
        proof {
            assert(bv[i as int] == block@);
        }
        let terminator = match &block.terminator {
            Terminator::If { cond, then_block, else_block, hint } => {
                let then_panic = contains_id(&panic_ids, *then_block);
                let else_panic = contains_id(&panic_ids, *else_block);
                if hint.is_none() && then_panic && !else_panic {
                    summary.branch_hinted = summary.branch_hinted + 1;
                    Terminator::If {
                        cond: crate::mir::clone_operand(cond),
                        then_block: *then_block,
                        else_block: *else_block,
                        hint: Some(BranchHint::Unlikely),
                    }
                } else if hint.is_none() && else_panic && !then_panic {
                    summary.branch_hinted = summary.branch_hinted + 1;
                    Terminator::If {
                        cond: crate::mir::clone_operand(cond),
                        then_block: *then_block,
                        else_block: *else_block,
                        hint: Some(BranchHint::Likely),
                    }
                } else {
                    crate::mir::clone_terminator(&block.terminator)
                }
            },
            _ => crate::mir::clone_terminator(&block.terminator),
        };
        let nb = BasicBlock {
            id: block.id,
            stmts: crate::mir::clone_stmts(&block.stmts),
            terminator,
            source: block.source,
        };
        new_blocks.push(nb);
        i = i + 1;
    }
    function.blocks = new_blocks;
    summary
}

/// Inferring hints twice adds nothing the second time: a hinted block keeps
/// its hint, and which blocks are panic paths does not change.
pub proof fn law_branch_hint_idempotent(bv: Seq<BlockView>, after: Seq<BlockView>)
    requires
        after.len() == bv.len(),
        forall|i: int|
            0 <= i < bv.len() ==> #[trigger] after[i] == (BlockView {
                terminator: hinted(bv, bv[i].terminator),
                ..bv[i]
            }),
    ensures
        forall|i: int|
            0 <= i < after.len() ==> hinted(after, #[trigger] after[i].terminator) == after[i].terminator,
        hint_count(after, after.len() as int) == 0,
{
    assert forall|i: int| 0 <= i < bv.len() implies panic_block(#[trigger] after[i]) == panic_block(bv[i]) by {
        match bv[i].terminator {
            TerminatorView::If { .. } => {},
            _ => {},
        }
    }
    assert forall|id: BlockId| panic_id(after, id) == panic_id(bv, id) by {
        if panic_id(after, id) {
            let j = choose|j: int| 0 <= j < after.len() && #[trigger] after[j].id == id && panic_block(after[j]);
            assert(bv[j].id == id && panic_block(bv[j]));
        }
        if panic_id(bv, id) {
            let j = choose|j: int| 0 <= j < bv.len() && #[trigger] bv[j].id == id && panic_block(bv[j]);
            assert(after[j].id == id && panic_block(after[j]));
        }
    }
    assert forall|i: int| 0 <= i < after.len() implies hinted(after, #[trigger] after[i].terminator)
        == after[i].terminator && !gets_hint(after, after[i].terminator) by {
        match bv[i].terminator {
            TerminatorView::If { then_block, else_block, .. } => {
                assert(panic_id(after, then_block) == panic_id(bv, then_block));
                assert(panic_id(after, else_block) == panic_id(bv, else_block));
            },
            _ => {},
        }
    }
    lemma_hint_count_zero(after, after.len() as int);
}

proof fn lemma_hint_count_zero(bv: Seq<BlockView>, n: int)
    requires
        0 <= n <= bv.len(),
        forall|i: int| 0 <= i < bv.len() ==> !gets_hint(bv, #[trigger] bv[i].terminator),
    ensures
        hint_count(bv, n) == 0,
    decreases n,
{
    if n > 0 {
        lemma_hint_count_zero(bv, n - 1);
        assert(!gets_hint(bv, bv[n - 1].terminator));
    }
}
} // verus!
