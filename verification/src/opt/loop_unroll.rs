//! MIR optimisation pass that unrolls small loops with statically known
//! iteration counts: at most four iterations, a body of at most eight
//! statements in a single block, no nested loop.
//!
//! The loops recognised have the shape
//!
//! ```text
//!   header:  i = INIT; if i < BOUND -> body, exit
//!   body:    ...; i = i + STEP; goto header
//! ```
//!
//! with the comparison `<`, `<=`, `>` or `>=`, either operand order, and the
//! body on either branch.
use vstd::prelude::*;

use crate::mir::{
    blocks_view, clone_stmts, stmts_view, BasicBlock, BinOp, BlockId, BlockView, MirFunction,
    MirStmt, Operand, OperandView, Place, PlaceView, Rvalue, RvalueView, StmtView, Terminator,
    TerminatorView,
};
use crate::mir_ops::{max_block_id, next_available_block_id_in, next_block_id_spec};
use crate::opt::desugar::same_header;
use crate::opt::summary::{zero_summary, OptimizationSummary};

verus! {

/// Loops with more iterations than this are left alone.
pub const MAX_UNROLL_ITERATIONS: usize = 4;

/// Loops whose body holds more statements than this are left alone.
pub const MAX_BODY_STMTS: usize = 8;

// ---------------------------------------------------------------------------
// Recognising the counter
// ---------------------------------------------------------------------------
pub open spec fn local_of(o: OperandView) -> Option<u32> {
    match o {
        OperandView::Place(PlaceView::Local(id)) => Some(id.0),
        _ => None,
    }
}

/// The value of an integer constant as an `i64` (wrapping for `u64`).
pub open spec fn const_of(o: OperandView) -> Option<i64> {
    match o {
        OperandView::ConstI32(v) => Some(v as i64),
        OperandView::ConstI64(v) => Some(v),
        OperandView::ConstU32(v) => Some(v as i64),
        OperandView::ConstU64(v) => Some(v as i64),
        OperandView::ConstI8(v) => Some(v as i64),
        OperandView::ConstI16(v) => Some(v as i64),
        OperandView::ConstU8(v) => Some(v as i64),
        OperandView::ConstU16(v) => Some(v as i64),
        _ => None,
    }
}

pub open spec fn is_ordering(op: BinOp) -> bool {
    op == BinOp::Lt || op == BinOp::Le || op == BinOp::Gt || op == BinOp::Ge
}

/// The comparison with its operands swapped (`a < b` is `b > a`).
pub open spec fn flip_spec(op: BinOp) -> BinOp {
    match op {
        BinOp::Lt => BinOp::Gt,
        BinOp::Le => BinOp::Ge,
        BinOp::Gt => BinOp::Lt,
        BinOp::Ge => BinOp::Le,
        _ => op,
    }
}

/// The comparison that holds exactly when `op` does not.
pub open spec fn negate_spec(op: BinOp) -> BinOp {
    match op {
        BinOp::Lt => BinOp::Ge,
        BinOp::Le => BinOp::Gt,
        BinOp::Gt => BinOp::Le,
        BinOp::Ge => BinOp::Lt,
        _ => op,
    }
}

/// `local OP bound` read off a comparison of a local with a constant.
pub open spec fn compare_of(cond: OperandView) -> Option<(u32, i64, BinOp)> {
    match cond {
        OperandView::BinOp(op, lhs, rhs) => {
            if !is_ordering(op) {
                None
            } else if local_of(*lhs) is Some && const_of(*rhs) is Some {
                Some((local_of(*lhs).unwrap(), const_of(*rhs).unwrap(), op))
            } else if const_of(*lhs) is Some && local_of(*rhs) is Some {
                Some((local_of(*rhs).unwrap(), const_of(*lhs).unwrap(), flip_spec(op)))
            } else {
                None
            }
        },
        _ => None,
    }
}

/// The step of `ind = ind + STEP` (or `STEP + ind`) in a statement.
pub open spec fn step_in(s: StmtView, ind: u32) -> Option<i64> {
    match s {
        StmtView::Assign(PlaceView::Local(dest), RvalueView::BinaryOp(BinOp::Add, lhs, rhs)) => {
            if dest.0 != ind {
                None
            } else if local_of(lhs) == Some(ind) && const_of(rhs) is Some {
                const_of(rhs)
            } else if const_of(lhs) is Some && local_of(rhs) == Some(ind) {
                const_of(lhs)
            } else {
                None
            }
        },
        _ => None,
    }
}

/// The step of the first statement of `stmts` that increments `ind`.
pub open spec fn induction_step(stmts: Seq<StmtView>, ind: u32) -> Option<i64>
    decreases stmts.len(),
{
    if stmts.len() == 0 {
        None
    } else if step_in(stmts[0], ind) is Some {
        step_in(stmts[0], ind)
    } else {
        induction_step(stmts.drop_first(), ind)
    }
}

/// The constant the first assignment `id = <operand>` of `stmts` stores, if
/// that operand is an integer constant.
pub open spec fn const_assign(stmts: Seq<StmtView>, id: u32) -> Option<i64>
    decreases stmts.len(),
{
    if stmts.len() == 0 {
        None
    } else {
        match stmts[0] {
            StmtView::Assign(PlaceView::Local(dest), RvalueView::Use(val)) if dest.0 == id => {
                const_of(val)
            },
            _ => const_assign(stmts.drop_first(), id),
        }
    }
}

// ---------------------------------------------------------------------------
// Trip counts
// ---------------------------------------------------------------------------
/// The number of values the counter takes while the body runs, before it
/// is compared: the length of the range the condition admits. The counter
/// only grows, so a loop that runs while it is above the bound never runs
/// or never stops, and has no range.
pub open spec fn trip_range(init: i64, bound: i64, op: BinOp) -> Option<int> {
    match op {
        BinOp::Lt => Some(bound - init),
        BinOp::Le => Some(bound - init + 1),
        _ => None,
    }
}

pub open spec fn effective_op(op: BinOp, body_is_then: bool) -> BinOp {
    if body_is_then {
        op
    } else {
        negate_spec(op)
    }
}

/// The number of iterations of a loop counting from `init` by `step` while
/// `counter OP bound` holds (or fails, when the body is the else branch):
/// the range length divided by the step, rounded up; `None` when the step
/// is not positive, the loop never runs or never stops, or it runs more
/// than [`MAX_UNROLL_ITERATIONS`] times.
pub open spec fn trip_count_spec(
    init: i64,
    bound: i64,
    step: i64,
    op: BinOp,
    body_is_then: bool,
) -> Option<nat> {
    if step <= 0 {
        None
    } else {
        match trip_range(init, bound, effective_op(op, body_is_then)) {
            Some(range) => {
                if range <= 0 {
                    None
                } else {
                    let iters = (range + step - 1) / (step as int);
                    if 1 <= iters <= 4 {
                        Some(iters as nat)
                    } else {
                        None
                    }
                }
            },
            None => None,
        }
    }
}

/// The inputs of the trip-count computation for a header and body, when
/// the loop has the recognised shape.
pub open spec fn trip_inputs(
    header: BlockView,
    body: BlockView,
    cond: OperandView,
) -> Option<(i64, i64, i64, BinOp)> {
    match compare_of(cond) {
        Some((ind, bound, op)) => match induction_step(body.stmts, ind) {
            Some(step) => if step == 0 {
                None
            } else {
                match const_assign(header.stmts, ind) {
                    Some(init) => Some((init, bound, step, op)),
                    None => None,
                }
            },
            None => None,
        },
        None => None,
    }
}

pub open spec fn deduce_spec(
    header: BlockView,
    body: BlockView,
    cond: OperandView,
    body_is_then: bool,
) -> Option<nat> {
    match trip_inputs(header, body, cond) {
        Some((init, bound, step, op)) => trip_count_spec(init, bound, step, op, body_is_then),
        None => None,
    }
}

fn operand_local(op: &Operand) -> (r: Option<u32>)
    ensures
        r == local_of(op@),
{
    proof {
        reveal_with_fuel(crate::mir::operand_view, 2);
    }
    match op {
        Operand::Place(Place::Local(id)) => Some(id.0),
        _ => None,
    }
}

fn operand_const_i64(op: &Operand) -> (r: Option<i64>)
    ensures
        r == const_of(op@),
{
    match op {
        Operand::ConstI32(v) => Some(*v as i64),
        Operand::ConstI64(v) => Some(*v),
        Operand::ConstU32(v) => Some(*v as i64),
        Operand::ConstU64(v) => Some(*v as i64),
        Operand::ConstI8(v) => Some(*v as i64),
        Operand::ConstI16(v) => Some(*v as i64),
        Operand::ConstU8(v) => Some(*v as i64),
        Operand::ConstU16(v) => Some(*v as i64),
        _ => None,
    }
}

/// Extract `(local, bound, comparison)` from `local OP const` or
/// `const OP local` (the latter with the comparison flipped).
fn extract_compare(cond: &Operand) -> (r: Option<(u32, i64, BinOp)>)
    ensures
        r == compare_of(cond@),
{
    match cond {
        Operand::BinOp(op, lhs, rhs) => {
            match op {
                BinOp::Lt | BinOp::Le | BinOp::Gt | BinOp::Ge => {},
                _ => return None,
            }
            let l = operand_local(lhs);
            let c = operand_const_i64(rhs);
            if l.is_some() && c.is_some() {
                return Some((l.unwrap(), c.unwrap(), *op));
            }
            let c2 = operand_const_i64(lhs);
            let l2 = operand_local(rhs);
            if c2.is_some() && l2.is_some() {
                let flipped = match op {
                    BinOp::Lt => BinOp::Gt,
                    BinOp::Le => BinOp::Ge,
                    BinOp::Gt => BinOp::Lt,
                    BinOp::Ge => BinOp::Le,
                    other => *other,
                };
                return Some((l2.unwrap(), c2.unwrap(), flipped));
            }
            None
        },
        _ => None,
    }
}

/// The step of the first `ind = ind + STEP` (or `STEP + ind`) in `body`.
fn find_induction_step(body: &BasicBlock, ind: u32) -> (r: Option<i64>)
    ensures
        r == induction_step(stmts_view(body.stmts@), ind),
{
    let ghost sv = stmts_view(body.stmts@);
    proof {
        crate::mir::lemma_stmts_view(body.stmts@);
        assert(sv.skip(0) =~= sv);
    }
    let mut i: usize = 0;
    while i < body.stmts.len()
        invariant
            i <= body.stmts.len(),
            sv == stmts_view(body.stmts@),
            sv.len() == body.stmts.len(),
            induction_step(sv, ind) == induction_step(sv.skip(i as int), ind),
        decreases body.stmts.len() - i,
    {
        proof {
            crate::mir::lemma_stmts_view(body.stmts@);
            assert(sv.skip(i as int)[0] == sv[i as int]);
            assert(sv.skip(i as int).drop_first() =~= sv.skip(i + 1));
            reveal_with_fuel(crate::mir::stmt_view, 2);
        }
        if let MirStmt::Assign(Place::Local(dest), Rvalue::BinaryOp(BinOp::Add, lhs, rhs)) =
            &body.stmts[i] {
            if dest.0 == ind {
                let l = operand_local(lhs);
                let r = operand_const_i64(rhs);
                if l.is_some() && r.is_some() && l.unwrap() == ind {
                    return r;
                }
                let l2 = operand_const_i64(lhs);
                let r2 = operand_local(rhs);
                if l2.is_some() && r2.is_some() && r2.unwrap() == ind {
                    return l2;
                }
            }
        }
        i = i + 1;
    }
    None
}

/// The constant stored by the first assignment `id = <operand>` in `block`.
fn find_const_assign_in_block(block: &BasicBlock, id: u32) -> (r: Option<i64>)
    ensures
        r == const_assign(stmts_view(block.stmts@), id),
{
    let ghost sv = stmts_view(block.stmts@);
    proof {
        crate::mir::lemma_stmts_view(block.stmts@);
        assert(sv.skip(0) =~= sv);
    }
    let mut i: usize = 0;
    while i < block.stmts.len()
        invariant
            i <= block.stmts.len(),
            sv == stmts_view(block.stmts@),
            sv.len() == block.stmts.len(),
            const_assign(sv, id) == const_assign(sv.skip(i as int), id),
        decreases block.stmts.len() - i,
    {
        proof {
            crate::mir::lemma_stmts_view(block.stmts@);
            assert(sv.skip(i as int)[0] == sv[i as int]);
            assert(sv.skip(i as int).drop_first() =~= sv.skip(i + 1));
            reveal_with_fuel(crate::mir::stmt_view, 2);
        }
        if let MirStmt::Assign(Place::Local(dest), Rvalue::Use(val)) = &block.stmts[i] {
            if dest.0 == id {
                return operand_const_i64(val);
            }
        }
        i = i + 1;
    }
    None
}

/// The number of iterations of a counting loop: see [`trip_count_spec`].
pub fn compute_trip_count(
    init: i64,
    bound: i64,
    step: i64,
    op: BinOp,
    body_is_then: bool,
) -> (r: Option<usize>)
    ensures
        match r {
            Some(n) => trip_count_spec(init, bound, step, op, body_is_then) == Some(n as nat),
            None => trip_count_spec(init, bound, step, op, body_is_then) is None,
        },
{
    if step <= 0 {
        return None;
    }
    let effective_op = if body_is_then {
        op
    } else {
        match op {
            BinOp::Lt => BinOp::Ge,
            BinOp::Le => BinOp::Gt,
            BinOp::Gt => BinOp::Le,
            BinOp::Ge => BinOp::Lt,
            other => other,
        }
    };
    let range: i128 = match effective_op {
        BinOp::Lt => bound as i128 - init as i128,
        BinOp::Le => bound as i128 - init as i128 + 1,
        _ => {
            return None;
        },
    };
    if range <= 0 {
        return None;
    }
    let iters: i128 = (range + step as i128 - 1) / (step as i128);
    if iters >= 1 && iters <= 4 {
        Some(iters as usize)
    } else {
        None
    }
}

/// The trip count of the loop `header`/`body` with condition `cond`.
fn deduce_trip_count(header: &BasicBlock, body: &BasicBlock, cond: &Operand, body_is_then: bool) -> (r: Option<usize>)
    ensures
        match r {
            Some(n) => deduce_spec(header@, body@, cond@, body_is_then) == Some(n as nat),
            None => deduce_spec(header@, body@, cond@, body_is_then) is None,
        },
{
    let (ind, bound, op) = match extract_compare(cond) {
        Some(t) => t,
        None => {
            return None;
        },
    };
    let step = match find_induction_step(body, ind) {
        Some(s) => s,
        None => {
            return None;
        },
    };
    if step == 0 {
        return None;
    }
    let init = match find_const_assign_in_block(header, ind) {
        Some(v) => v,
        None => {
            return None;
        },
    };
    compute_trip_count(init, bound, step, op, body_is_then)
}


// ---------------------------------------------------------------------------
// Loop detection
// ---------------------------------------------------------------------------
pub open spec fn stmt_has_loop(s: StmtView) -> bool
    decreases s,
{
    match s {
        StmtView::WhileStmt { .. } | StmtView::Break | StmtView::Continue => true,
        StmtView::IfStmt { then_body, else_body, .. } => has_loop_construct(then_body)
            || has_loop_construct(else_body),
        _ => false,
    }
}

/// Whether the statements hold a loop, a `break` or a `continue`, directly
/// or inside an `if`.
pub open spec fn has_loop_construct(s: Seq<StmtView>) -> bool
    decreases s,
{
    if s.len() == 0 {
        false
    } else {
        has_loop_construct(s.drop_last()) || stmt_has_loop(s.last())
    }
}

/// The position of the first block with id `id`, or -1.
pub open spec fn block_index(bv: Seq<BlockView>, id: BlockId) -> int
    decreases bv.len(),
{
    if bv.len() == 0 {
        -1
    } else if block_index(bv.drop_last(), id) >= 0 {
        block_index(bv.drop_last(), id)
    } else if bv.last().id == id {
        bv.len() - 1
    } else {
        -1
    }
}

/// The loop whose header is block `h`, with the body on the then branch
/// (`o == 0`) or the else branch: (body position, exit block, trip count).
pub open spec fn orient_candidate(bv: Seq<BlockView>, h: int, o: int) -> Option<(int, BlockId, nat)> {
    match bv[h].terminator {
        TerminatorView::If { cond, then_block, else_block, .. } => {
            let body_id = if o == 0 {
                then_block
            } else {
                else_block
            };
            let exit_id = if o == 0 {
                else_block
            } else {
                then_block
            };
            let b = block_index(bv, body_id);
            if b < 0 {
                None
            } else if bv[b].terminator != TerminatorView::Goto(bv[h].id) {
                None
            } else if bv[b].stmts.len() > 8 {
                None
            } else if has_loop_construct(bv[b].stmts) {
                None
            } else {
                match deduce_spec(bv[h], bv[b], cond, body_id == then_block) {
                    Some(t) => if 1 <= t <= 4 {
                        Some((b, exit_id, t))
                    } else {
                        None
                    },
                    None => None,
                }
            }
        },
        _ => None,
    }
}

pub open spec fn header_candidate(bv: Seq<BlockView>, h: int) -> Option<(int, BlockId, nat)> {
    match orient_candidate(bv, h, 0) {
        Some(c) => Some(c),
        None => orient_candidate(bv, h, 1),
    }
}

/// A loop to unroll: header position, body position, exit block, trip count.
pub type LoopView = (int, int, BlockId, nat);

/// The loops of the first `n` blocks, at most one per header, in order.
pub open spec fn loop_cands(bv: Seq<BlockView>, n: int) -> Seq<LoopView>
    decreases n,
{
    if n <= 0 {
        Seq::empty()
    } else {
        loop_cands(bv, n - 1) + match header_candidate(bv, n - 1) {
            Some(c) => seq![(n - 1, c.0, c.1, c.2)],
            None => Seq::empty(),
        }
    }
}

// ---------------------------------------------------------------------------
// Unrolling
// ---------------------------------------------------------------------------
/// One loop unrolled: the header jumps to the first of `trip` fresh copies
/// of the body (numbered from the next free block id), each copy jumps to
/// the next and the last to the exit; the old body is emptied and made
/// unreachable.
pub open spec fn unroll_spec(bv: Seq<BlockView>, c: LoopView) -> Seq<BlockView> {
    let start = next_block_id_spec(bv) as nat;
    let body = bv[c.1].stmts;
    let src = bv[c.0].source;
    let copies = Seq::new(c.3, |i: int| body_copy(start, c.3, c.2, body, src, i));
    let b1 = bv.update(c.0, BlockView { terminator: TerminatorView::Goto(BlockId(start as u32)), ..bv[c.0] });
    let b2 = b1.update(c.1, BlockView { stmts: Seq::empty(), terminator: TerminatorView::Unreachable, ..b1[c.1] });
    b2 + copies
}

pub open spec fn unroll_all(bv: Seq<BlockView>, cs: Seq<LoopView>) -> Seq<BlockView>
    decreases cs.len(),
{
    if cs.len() == 0 {
        bv
    } else {
        unroll_spec(unroll_all(bv, cs.drop_last()), cs.last())
    }
}

/// The fresh block ids of every unrolling stay below `u32::MAX`.
pub open spec fn unroll_fits(bv: Seq<BlockView>, cs: Seq<LoopView>) -> bool
    decreases cs.len(),
{
    if cs.len() == 0 {
        true
    } else {
        unroll_fits(bv, cs.drop_last()) && next_block_id_spec(unroll_all(bv, cs.drop_last()))
            + cs.last().3 <= u32::MAX
    }
}

/// Whether any statement holds a loop, `break` or `continue` (nested loop
/// constructs are not unrolled).
fn contains_loop_construct(stmts: &Vec<MirStmt>) -> (r: bool)
    ensures
        r == has_loop_construct(stmts_view(stmts@)),
    decreases stmts,
{
    let mut i: usize = 0;
    proof {
        assert(stmts@.take(0) =~= Seq::<MirStmt>::empty());
    }
    #[verifier::loop_isolation(false)]
    while i < stmts.len()
        invariant
            i <= stmts.len(),
            !has_loop_construct(stmts_view(stmts@.take(i as int))),
        decreases stmts.len() - i,
    {
        proof {
            broadcast use vstd::std_specs::vec::axiom_vec_index_decreases;

            assert(decreases_to!(stmts => stmts[i as int]));
            crate::mir::lemma_stmts_view_take(stmts@, i as int);
            let s0 = stmts_view(stmts@.take(i as int));
            assert(s0.push(crate::mir::stmt_view(stmts@[i as int])).drop_last() =~= s0);
        }
        let hit = match &stmts[i] {
            MirStmt::WhileStmt { .. } | MirStmt::Break | MirStmt::Continue => true,
            MirStmt::IfStmt { then_body, else_body, .. } => {
                contains_loop_construct(then_body) || contains_loop_construct(else_body)
            },
            _ => false,
        };
        proof {
            reveal_with_fuel(crate::mir::stmt_view, 2);
            assert(hit == stmt_has_loop(crate::mir::stmt_view(stmts@[i as int])));
        }
        if hit {
            proof {
                assert(has_loop_construct(stmts_view(stmts@.take(i + 1))));
                crate::mir::lemma_stmts_view_prefix(stmts@, i + 1);
                crate::mir::lemma_stmts_view(stmts@);
                lemma_has_loop_prefix(stmts_view(stmts@), i + 1);
            }
            return true;
        }
        i = i + 1;
    }
    proof {
        assert(stmts@.take(stmts.len() as int) =~= stmts@);
    }
    false
}

proof fn lemma_has_loop_prefix(s: Seq<StmtView>, n: int)
    requires
        0 <= n <= s.len(),
        has_loop_construct(s.take(n)),
    ensures
        has_loop_construct(s),
    decreases s.len() - n,
{
    if n < s.len() {
        assert(s.take(n + 1).drop_last() =~= s.take(n));
        lemma_has_loop_prefix(s, n + 1);
    } else {
        assert(s.take(n) =~= s);
    }
}

fn block_position(blocks: &Vec<BasicBlock>, id: BlockId) -> (r: Option<usize>)
    ensures
        match r {
            Some(k) => k < blocks@.len() && block_index(blocks_view(blocks@), id) == k,
            None => block_index(blocks_view(blocks@), id) == -1,
        },
{
    let ghost bv = blocks_view(blocks@);
    let mut i: usize = 0;
    while i < blocks.len()
        invariant
            i <= blocks.len(),
            bv == blocks_view(blocks@),
            block_index(bv.take(i as int), id) == -1,
        decreases blocks.len() - i,
    {
        proof {
            assert(bv.take(i + 1).drop_last() =~= bv.take(i as int));
            assert(bv.take(i + 1).last() == blocks@[i as int]@);
        }
        if blocks[i].id == id {
            proof {
                lemma_block_index_prefix(bv, i + 1, id);
            }
            return Some(i);
        }
        i = i + 1;
    }
    proof {
        assert(bv.take(blocks.len() as int) =~= bv);
    }
    None
}

proof fn lemma_block_index_prefix(v: Seq<BlockView>, n: int, id: BlockId)
    requires
        0 <= n <= v.len(),
        block_index(v.take(n), id) >= 0,
    ensures
        block_index(v, id) == block_index(v.take(n), id),
    decreases v.len() - n,
{
    if n < v.len() {
        assert(v.take(n + 1).drop_last() =~= v.take(n));
        assert(block_index(v.take(n + 1), id) == block_index(v.take(n), id));
        lemma_block_index_prefix(v, n + 1, id);
    } else {
        assert(v.take(n) =~= v);
    }
}

proof fn lemma_block_index_bounds(v: Seq<BlockView>, id: BlockId)
    ensures
        -1 <= block_index(v, id) < v.len(),
        block_index(v, id) >= 0 ==> v[block_index(v, id)].id == id,
    decreases v.len(),
{
    if v.len() > 0 {
        lemma_block_index_bounds(v.drop_last(), id);
    }
}

/// A loop found by the detection.
pub struct LoopCandidate {
    /// Position of the header block (holds the conditional branch).
    pub header_idx: usize,
    /// Position of the body block (runs each iteration, jumps back).
    pub body_idx: usize,
    /// The block the loop exits to.
    pub exit_block: BlockId,
    /// The statically determined trip count (1 to 4).
    pub trip_count: usize,
}

pub open spec fn loop_view(c: LoopCandidate) -> LoopView {
    (c.header_idx as int, c.body_idx as int, c.exit_block, c.trip_count as nat)
}

pub open spec fn loops_view(cs: Seq<LoopCandidate>) -> Seq<LoopView> {
    cs.map_values(|c: LoopCandidate| loop_view(c))
}

fn orient_candidate_exec(blocks: &Vec<BasicBlock>, h: usize, o: usize) -> (r: Option<LoopCandidate>)
    requires
        h < blocks@.len(),
    ensures
        match r {
            Some(c) => c.header_idx == h && orient_candidate(blocks_view(blocks@), h as int, o as int)
                == Some((c.body_idx as int, c.exit_block, c.trip_count as nat)),
            None => orient_candidate(blocks_view(blocks@), h as int, o as int) is None,
        },
{
    let ghost bv = blocks_view(blocks@);
    let header = &blocks[h];
    assert(bv[h as int] == header@);
    match &header.terminator {
        Terminator::If { cond, then_block, else_block, .. } => {
            let body_id = if o == 0 {
                *then_block
            } else {
                *else_block
            };
            let exit_id = if o == 0 {
                *else_block
            } else {
                *then_block
            };
            let b = match block_position(blocks, body_id) {
                Some(b) => b,
                None => {
                    return None;
                },
            };
            proof {
                lemma_block_index_bounds(bv, body_id);
            }
            let body = &blocks[b];
            assert(bv[b as int] == body@);
            let back = match &body.terminator {
                Terminator::Goto(target) => *target == header.id,
                _ => false,
            };
            if !back {
                return None;
            }
            if body.stmts.len() > MAX_BODY_STMTS {
                proof {
                    crate::mir::lemma_stmts_view(body.stmts@);
                }
                return None;
            }
            proof {
                crate::mir::lemma_stmts_view(body.stmts@);
            }
            if contains_loop_construct(&body.stmts) {
                return None;
            }
            match deduce_trip_count(header, body, cond, body_id == *then_block) {
                Some(trip) => {
                    if trip >= 1 && trip <= MAX_UNROLL_ITERATIONS {
                        Some(
                            LoopCandidate {
                                header_idx: h,
                                body_idx: b,
                                exit_block: exit_id,
                                trip_count: trip,
                            },
                        )
                    } else {
                        None
                    }
                },
                None => None,
            }
        },
        _ => None,
    }
}

/// Scan the function for simple counting loops (see the module comment);
/// at most one per header, trying the then branch as the body first.
fn find_loop_candidates(blocks: &Vec<BasicBlock>) -> (r: Vec<LoopCandidate>)
    ensures
        loops_view(r@) == loop_cands(blocks_view(blocks@), blocks@.len() as int),
{
    let ghost bv = blocks_view(blocks@);
    let mut out: Vec<LoopCandidate> = Vec::new();
    let mut h: usize = 0;
    proof {
        assert(loops_view(out@) =~= Seq::<LoopView>::empty());
    }
    while h < blocks.len()
        invariant
            h <= blocks.len(),
            bv == blocks_view(blocks@),
            loops_view(out@) == loop_cands(bv, h as int),
        decreases blocks.len() - h,
    {
        let found = match orient_candidate_exec(blocks, h, 0) {
            Some(c) => Some(c),
            None => orient_candidate_exec(blocks, h, 1),
        };
        let ghost before = out@;
        match found {
            Some(c) => {
                out.push(c);
                proof {
                    assert(loops_view(out@) =~= loops_view(before) + seq![loop_view(c)]);
                }
            },
            None => {
                proof {
                    assert(loops_view(out@) =~= loops_view(before) + Seq::<LoopView>::empty());
                }
            },
        }
        h = h + 1;
    }
    out
}

/// Copy `k` of `trip` copies of a loop body, numbered from `start`.
pub open spec fn body_copy(
    start: nat,
    trip: nat,
    exit: BlockId,
    body: Seq<StmtView>,
    source: crate::mir::SourceInfo,
    k: int,
) -> BlockView {
    BlockView {
        id: BlockId((start + k) as u32),
        stmts: body,
        terminator: TerminatorView::Goto(
            if k + 1 < trip {
                BlockId((start + k + 1) as u32)
            } else {
                exit
            },
        ),
        source: source,
    }
}

/// `trip` copies of `body`, numbered from `start`, chained, the last
/// jumping to `exit`.
fn make_copies(
    body: &Vec<MirStmt>,
    start: u32,
    trip: usize,
    exit: BlockId,
    source: crate::mir::SourceInfo,
) -> (r: Vec<BasicBlock>)
    requires
        start + trip <= u32::MAX,
    ensures
        blocks_view(r@) == Seq::new(
            trip as nat,
            |k: int| body_copy(start as nat, trip as nat, exit, stmts_view(body@), source, k),
        ),
{
    let ghost copies = Seq::new(
        trip as nat,
        |k: int| body_copy(start as nat, trip as nat, exit, stmts_view(body@), source, k),
    );
    let mut out: Vec<BasicBlock> = Vec::new();
    let mut next_id = start;
    let mut i: usize = 0;
    proof {
        assert(blocks_view(out@) =~= copies.take(0));
    }
    while i < trip
        invariant
            i <= trip,
            start + trip <= u32::MAX,
            next_id == start + i,
            copies == Seq::new(
                trip as nat,
                |k: int| body_copy(start as nat, trip as nat, exit, stmts_view(body@), source, k),
            ),
            blocks_view(out@) == copies.take(i as int),
        decreases trip - i,
    {
        let bid = BlockId(next_id);
        next_id = next_id + 1;
        let terminator = if i + 1 < trip {
            Terminator::Goto(BlockId(next_id))
        } else {
            Terminator::Goto(exit)
        };
        let nb = BasicBlock { id: bid, stmts: clone_stmts(body), terminator, source };
        proof {
            assert(nb@ == body_copy(start as nat, trip as nat, exit, stmts_view(body@), source, i as int));
        }
        let ghost before = out@;
        out.push(nb);
        proof {
            assert(blocks_view(out@) =~= blocks_view(before).push(nb@));
            assert(blocks_view(out@) =~= copies.take(i + 1));
        }
        i = i + 1;
    }
    proof {
        assert(copies.take(trip as int) =~= copies);
    }
    out
}

/// Unroll one loop: see [`unroll_spec`].
#[verifier::rlimit(40)]
fn unroll_loop(blocks: &mut Vec<BasicBlock>, c: &LoopCandidate)
    requires
        c.header_idx < old(blocks)@.len(),
        c.body_idx < old(blocks)@.len(),
        c.trip_count >= 1,
        next_block_id_spec(blocks_view(old(blocks)@)) + c.trip_count <= u32::MAX,
    ensures
        blocks_view(final(blocks)@) == unroll_spec(blocks_view(old(blocks)@), loop_view(*c)),
{
    let ghost bv = blocks_view(blocks@);
    let trip = c.trip_count;
    let body_stmts = clone_stmts(&blocks[c.body_idx].stmts);
    let header_source = blocks[c.header_idx].source;
    let start = next_available_block_id_in(blocks).0;
    let mut new_blocks = make_copies(&body_stmts, start, trip, c.exit_block, header_source);
    let ghost copies = blocks_view(new_blocks@);
    proof {
        assert(new_blocks@.len() == copies.len());
        assert(copies[0].id == BlockId(start));
    }
    let first = new_blocks[0].id;
    let h = c.header_idx;
    let hb = BasicBlock {
        id: blocks[h].id,
        stmts: clone_stmts(&blocks[h].stmts),
        terminator: Terminator::Goto(first),
        source: blocks[h].source,
    };
    proof {
        assert(hb@ == BlockView { terminator: TerminatorView::Goto(BlockId(start)), ..bv[h as int] });
    }
    blocks.set(h, hb);
    let ghost b1 = blocks_view(blocks@);
    proof {
        assert(b1 =~= bv.update(h as int, BlockView { terminator: TerminatorView::Goto(BlockId(start)), ..bv[h as int] }));
    }
    let b = c.body_idx;
    let bb = BasicBlock {
        id: blocks[b].id,
        stmts: Vec::new(),
        terminator: Terminator::Unreachable,
        source: blocks[b].source,
    };
    proof {
        assert(crate::mir::stmts_view(Seq::<MirStmt>::empty()) =~= Seq::<StmtView>::empty());
    }
    proof {
        assert(bb@ == BlockView { stmts: Seq::empty(), terminator: TerminatorView::Unreachable, ..b1[b as int] });
    }
    blocks.set(b, bb);
    let ghost pre = blocks@;
    proof {
        assert(blocks_view(pre) =~= b1.update(b as int, BlockView { stmts: Seq::empty(), terminator: TerminatorView::Unreachable, ..b1[b as int] }));
    }
    blocks.append(&mut new_blocks);
    proof {
        assert(blocks_view(blocks@) =~= blocks_view(pre) + copies);
        assert(copies =~= Seq::new(
            trip as nat,
            |i: int| body_copy(start as nat, trip as nat, c.exit_block, bv[c.body_idx as int].stmts, header_source, i),
        ));
    }
}

proof fn lemma_loop_cands_in_range(bv: Seq<BlockView>, n: int)
    requires
        0 <= n <= bv.len(),
    ensures
        forall|k: int|
            0 <= k < loop_cands(bv, n).len() ==> 0 <= (#[trigger] loop_cands(bv, n)[k]).0 < bv.len()
                && 0 <= loop_cands(bv, n)[k].1 < bv.len() && loop_cands(bv, n)[k].3 >= 1,
    decreases n,
{
    if n > 0 {
        lemma_loop_cands_in_range(bv, n - 1);
        let prev = loop_cands(bv, n - 1);
        match header_candidate(bv, n - 1) {
            Some(c) => {
                match bv[n - 1].terminator {
                    TerminatorView::If { then_block, else_block, .. } => {
                        lemma_block_index_bounds(bv, then_block);
                        lemma_block_index_bounds(bv, else_block);
                    },
                    _ => {},
                }
                assert forall|k: int| 0 <= k < loop_cands(bv, n).len() implies 0 <= (
                #[trigger] loop_cands(bv, n)[k]).0 < bv.len() && 0 <= loop_cands(bv, n)[k].1
                    < bv.len() && loop_cands(bv, n)[k].3 >= 1 by {
                    if k < prev.len() {
                        assert(loop_cands(bv, n)[k] == prev[k]);
                    }
                }
            },
            None => {
                assert(loop_cands(bv, n) =~= prev);
            },
        }
    }
}

proof fn lemma_unroll_len(bv: Seq<BlockView>, cs: Seq<LoopView>)
    requires
        forall|k: int| 0 <= k < cs.len() ==> 0 <= (#[trigger] cs[k]).0 < bv.len() && 0 <= cs[k].1 < bv.len(),
    ensures
        unroll_all(bv, cs).len() >= bv.len(),
    decreases cs.len(),
{
    if cs.len() > 0 {
        assert forall|k: int| 0 <= k < cs.drop_last().len() implies 0 <= (#[trigger] cs.drop_last()[k]).0 < bv.len() && 0 <= cs.drop_last()[k].1 < bv.len() by {
            assert(cs.drop_last()[k] == cs[k]);
        }
        lemma_unroll_len(bv, cs.drop_last());
    }
}

proof fn lemma_unroll_fits_prefix(bv: Seq<BlockView>, cs: Seq<LoopView>, j: int)
    requires
        0 <= j < cs.len(),
        unroll_fits(bv, cs),
    ensures
        next_block_id_spec(unroll_all(bv, cs.take(j))) + cs[j].3 <= u32::MAX,
        unroll_all(bv, cs.take(j + 1)) == unroll_spec(unroll_all(bv, cs.take(j)), cs[j]),
    decreases cs.len(),
{
    assert(cs.take(j + 1).drop_last() =~= cs.take(j));
    if j + 1 < cs.len() {
        lemma_unroll_fits_prefix(bv, cs.drop_last(), j);
        assert(cs.drop_last().take(j) =~= cs.take(j));
    } else {
        assert(cs.take(j + 1) =~= cs);
    }
}

/// Unroll every small counting loop with a known trip count of 1 to 4
/// (see [`loop_cands`] and [`unroll_spec`]). Reports the number of loops
/// unrolled.
pub fn loop_unroll(function: &mut MirFunction) -> (summary: OptimizationSummary)
    requires
        unroll_fits(
            blocks_view(old(function).blocks@),
            loop_cands(blocks_view(old(function).blocks@), old(function).blocks@.len() as int),
        ),
    ensures
        same_header(*old(function), *final(function)),
        final(function).locals == old(function).locals,
        blocks_view(final(function).blocks@) == unroll_all(
            blocks_view(old(function).blocks@),
            loop_cands(blocks_view(old(function).blocks@), old(function).blocks@.len() as int),
        ),
        summary == (OptimizationSummary {
            loops_unrolled: loop_cands(
                blocks_view(old(function).blocks@),
                old(function).blocks@.len() as int,
            ).len() as usize,
            ..zero_summary()
        }),
{
    let ghost bv = blocks_view(function.blocks@);
    let mut summary = OptimizationSummary::default();
    let candidates = find_loop_candidates(&function.blocks);
    let ghost cs = loops_view(candidates@);
    proof {
        lemma_loop_cands_in_range(bv, bv.len() as int);
    }
    if candidates.len() == 0 {
        proof {
            assert(cs.len() == 0);
        }
        return summary;
    }
    let mut blocks: Vec<BasicBlock> = Vec::new();
    std::mem::swap(&mut blocks, &mut function.blocks);
    let mut j: usize = 0;
    proof {
        assert(cs.take(0) =~= Seq::<LoopView>::empty());
    }
    while j < candidates.len()
        invariant
            j <= candidates.len(),
            cs == loops_view(candidates@),
            cs.len() == candidates@.len(),
            unroll_fits(bv, cs),
            forall|k: int|
                0 <= k < cs.len() ==> 0 <= (#[trigger] cs[k]).0 < bv.len() && 0 <= cs[k].1 < bv.len()
                    && cs[k].3 >= 1,
            blocks_view(blocks@) == unroll_all(bv, cs.take(j as int)),
            summary == (OptimizationSummary { loops_unrolled: j, ..zero_summary() }),
        decreases candidates.len() - j,
    {
        proof {
            lemma_unroll_fits_prefix(bv, cs, j as int);
            assert forall|k: int| 0 <= k < cs.take(j as int).len() implies 0 <= (#[trigger] cs.take(j as int)[k]).0 < bv.len() && 0 <= cs.take(j as int)[k].1 < bv.len() by {
                assert(cs.take(j as int)[k] == cs[k]);
            }
            lemma_unroll_len(bv, cs.take(j as int));
            assert(cs[j as int] == loop_view(candidates@[j as int]));
        }
        unroll_loop(&mut blocks, &candidates[j]);
        summary.loops_unrolled = summary.loops_unrolled + 1;
        j = j + 1;
    }
    proof {
        assert(cs.take(candidates.len() as int) =~= cs);
    }
    function.blocks = blocks;
    summary
}

// ---------------------------------------------------------------------------
// Laws
// ---------------------------------------------------------------------------
proof fn lemma_ceil_div(r: int, d: int)
    requires
        r > 0,
        d > 0,
    ensures
        ((r + d - 1) / d - 1) * d < r,
        r <= ((r + d - 1) / d) * d,
{
    let q = (r + d - 1) / d;
    vstd::arithmetic::div_mod::lemma_fundamental_div_mod(r + d - 1, d);
    vstd::arithmetic::div_mod::lemma_mod_bound(r + d - 1, d);
    vstd::arithmetic::mul::lemma_mul_is_commutative(d, q);
    vstd::arithmetic::mul::lemma_mul_is_distributive_sub(d, q, 1);
    vstd::arithmetic::mul::lemma_mul_is_commutative(d, q - 1);
}

/// The trip count of a loop `while i < bound` counting up from `init` by
/// `step` is the number of its iterations: the counter is still below the
/// bound at the start of the last iteration and reaches it after.
pub proof fn law_trip_count_counts_iterations(init: i64, bound: i64, step: i64, t: nat)
    requires
        trip_count_spec(init, bound, step, BinOp::Lt, true) == Some(t),
    ensures
        t >= 1,
        init + (t - 1) * step < bound,
        init + t * step >= bound,
{
    lemma_ceil_div(bound - init, step as int);
}
/// Whether `a OP b` holds for an ordering comparison `op`.
pub open spec fn compares(op: BinOp, a: int, b: int) -> bool {
    match op {
        BinOp::Lt => a < b,
        BinOp::Le => a <= b,
        BinOp::Gt => a > b,
        BinOp::Ge => a >= b,
        _ => false,
    }
}

/// Whether the body of a loop whose header tests `counter OP bound` runs for
/// the counter value `a`: when the test holds if the body is the then
/// branch, when it fails if the body is the else branch.
pub open spec fn body_runs(op: BinOp, body_is_then: bool, a: int, b: int) -> bool {
    if body_is_then {
        compares(op, a, b)
    } else {
        !compares(op, a, b)
    }
}

/// The counter's value after `k` steps.
pub open spec fn counter_at(init: int, step: int, k: int) -> int {
    init + k * step
}

/// The negation of an ordering comparison holds exactly when the comparison
/// fails.
pub proof fn law_negation_complements(op: BinOp, a: int, b: int)
    requires
        is_ordering(op),
    ensures
        compares(negate_spec(op), a, b) == !compares(op, a, b),
{
}

proof fn lemma_steps_below(init: int, bound: int, step: int, t: int, k: int)
    requires
        step > 0,
        0 <= k < t,
        init + (t - 1) * step < bound,
    ensures
        init + k * step < bound,
{
    assert(k * step <= (t - 1) * step) by (nonlinear_arith)
        requires
            step > 0,
            k <= t - 1,
    ;
}

/// The trip count of a counting loop, whichever comparison it tests and
/// whichever branch holds the body, is the number of its iterations: the
/// body runs for the counter values `init`, `init + step`, ..., the first
/// `t` of them, and not for the next.
pub proof fn law_trip_count_is_iterations(
    init: i64,
    bound: i64,
    step: i64,
    op: BinOp,
    body_is_then: bool,
    t: nat,
)
    requires
        trip_count_spec(init, bound, step, op, body_is_then) == Some(t),
    ensures
        1 <= t <= 4,
        forall|k: int|
            0 <= k < t ==> body_runs(
                op,
                body_is_then,
                #[trigger] counter_at(init as int, step as int, k),
                bound as int,
            ),
        !body_runs(op, body_is_then, counter_at(init as int, step as int, t as int), bound as int),
{
    let e = effective_op(op, body_is_then);
    assert(is_ordering(op));
    assert forall|a: int, b: int| body_runs(op, body_is_then, a, b) == compares(e, a, b) by {
        if !body_is_then {
            law_negation_complements(op, a, b);
        }
    }
    // the effective comparison admits a range: `<` or `<=`
    let b2: int = if e == BinOp::Lt { bound as int } else { bound + 1 };
    assert(e == BinOp::Lt || e == BinOp::Le);
    assert forall|a: int| compares(e, a, bound as int) == (a < b2) by {}
    lemma_ceil_div(b2 - init, step as int);
    assert forall|k: int| 0 <= k < t implies body_runs(
        op,
        body_is_then,
        #[trigger] counter_at(init as int, step as int, k),
        bound as int,
    ) by {
        lemma_steps_below(init as int, b2, step as int, t as int, k);
    }
}
/// The comparison read off a loop condition `x OP c`, with `x` a local and
/// `c` an `i32` constant, is `x OP c` itself.
pub proof fn law_compare_of_local_first(op: BinOp, x: crate::mir::LocalId, c: i32)
    requires
        is_ordering(op),
    ensures
        ({
            let r = compare_of(
                OperandView::BinOp(
                    op,
                    Box::new(OperandView::Place(PlaceView::Local(x))),
                    Box::new(OperandView::ConstI32(c)),
                ),
            );
            &&& r is Some
            &&& r.unwrap().0 == x.0
            &&& r.unwrap().1 == c as i64
            &&& forall|a: int| compares(r.unwrap().2, a, c as int) == compares(op, a, c as int)
        }),
{
}

/// The comparison read off a loop condition `c OP x`, with `x` a local and
/// `c` an `i32` constant, holds for a value `a` of `x` exactly when
/// `c OP a` does: the operands are swapped together with the comparison.
pub proof fn law_compare_of_constant_first(op: BinOp, x: crate::mir::LocalId, c: i32)
    requires
        is_ordering(op),
    ensures
        ({
            let r = compare_of(
                OperandView::BinOp(
                    op,
                    Box::new(OperandView::ConstI32(c)),
                    Box::new(OperandView::Place(PlaceView::Local(x))),
                ),
            );
            &&& r is Some
            &&& r.unwrap().0 == x.0
            &&& r.unwrap().1 == c as i64
            &&& forall|a: int| compares(r.unwrap().2, a, c as int) == compares(op, c as int, a)
        }),
{
}
} // verus!
