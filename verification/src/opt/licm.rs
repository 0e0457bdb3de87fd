//! Loop-invariant code motion.
//!
//! For each `while` loop at the top level of a block, the assignments
//! `x = v` of its body (at the body's top level) where `v` is a binary
//! operation, a unary operation or a plain operand, and no operand of `v`
//! is a local the body assigns (anywhere, nested bodies included), move in
//! order to just before the loop. An operand other than a local, a
//! constant, unit or a function reference counts as reading a local the
//! body assigns.
use vstd::prelude::*;

use crate::mir::{
    blocks_view, clone_operand, clone_stmt, clone_stmts, stmt_view, stmts_view, BasicBlock,
    BlockView, MirFunction, MirStmt, Operand, OperandView, Place, PlaceView, Rvalue, RvalueView,
    StmtView,
};
use crate::opt::desugar::same_header;
use crate::opt::escape_analysis::in_ids;
use crate::opt::helpers::{asg_stmts, collect_assigned_locals};
use crate::opt::summary::{zero_summary, OptimizationSummary};

verus! {

pub open spec fn pure_rvalue(r: RvalueView) -> bool {
    r is BinaryOp || r is UnaryOp || r is Use
}

/// Whether operand `o` may read a local assigned in `body`.
pub open spec fn op_uses_assigned(o: OperandView, body: Seq<StmtView>) -> bool {
    match o {
        OperandView::Place(p) => match p {
            PlaceView::Local(id) => asg_stmts(id.0, body),
            _ => false,
        },
        OperandView::ConstI32(_) | OperandView::ConstI64(_) | OperandView::ConstF32(_)
        | OperandView::ConstF64(_) | OperandView::ConstBool(_) | OperandView::ConstChar(_)
        | OperandView::ConstString(_) | OperandView::ConstU8(_) | OperandView::ConstU16(_)
        | OperandView::ConstU32(_) | OperandView::ConstU64(_) | OperandView::ConstI8(_)
        | OperandView::ConstI16(_) | OperandView::Unit | OperandView::FnRef(_) => false,
        _ => true,
    }
}

pub open spec fn rvalue_uses_assigned(r: RvalueView, body: Seq<StmtView>) -> bool {
    match r {
        RvalueView::BinaryOp(_, a, b) => op_uses_assigned(a, body) || op_uses_assigned(b, body),
        RvalueView::UnaryOp(_, a) => op_uses_assigned(a, body),
        RvalueView::Use(a) => op_uses_assigned(a, body),
        _ => true,
    }
}

/// Whether statement `s` of loop body `body` moves out of the loop.
pub open spec fn hoistable(s: StmtView, body: Seq<StmtView>) -> bool {
    match s {
        StmtView::Assign(p, r) => p is Local && pure_rvalue(r) && !rvalue_uses_assigned(r, body),
        _ => false,
    }
}

/// The statements of `ss` that can leave the loop whose body is `body`.
pub open spec fn hoisted_in(ss: Seq<StmtView>, body: Seq<StmtView>) -> Seq<StmtView> {
    ss.filter(|s: StmtView| hoistable(s, body))
}

/// The statements of `ss` that stay in the loop whose body is `body`.
pub open spec fn remaining_in(ss: Seq<StmtView>, body: Seq<StmtView>) -> Seq<StmtView> {
    ss.filter(|s: StmtView| !hoistable(s, body))
}

pub open spec fn hoisted(body: Seq<StmtView>) -> Seq<StmtView> {
    hoisted_in(body, body)
}

pub open spec fn remaining(body: Seq<StmtView>) -> Seq<StmtView> {
    remaining_in(body, body)
}

/// What a top-level statement becomes: a loop is preceded by its hoisted
/// assignments and keeps the rest.
pub open spec fn licm_expand(s: StmtView) -> Seq<StmtView> {
    match s {
        StmtView::WhileStmt { cond, body } => hoisted(body).push(
            StmtView::WhileStmt { cond, body: remaining(body) },
        ),
        _ => seq![s],
    }
}

pub open spec fn licm_stmts(ss: Seq<StmtView>) -> Seq<StmtView>
    decreases ss.len(),
{
    if ss.len() == 0 {
        Seq::empty()
    } else {
        licm_stmts(ss.drop_last()) + licm_expand(ss.last())
    }
}

pub open spec fn hoist_count(s: StmtView) -> nat {
    match s {
        StmtView::WhileStmt { body, .. } => hoisted(body).len(),
        _ => 0,
    }
}

pub open spec fn licm_count_stmts(ss: Seq<StmtView>) -> nat
    decreases ss.len(),
{
    if ss.len() == 0 {
        0
    } else {
        licm_count_stmts(ss.drop_last()) + hoist_count(ss.last())
    }
}

pub open spec fn licm_block(b: BlockView) -> BlockView {
    BlockView { stmts: licm_stmts(b.stmts), ..b }
}

pub open spec fn licm_total(bv: Seq<BlockView>) -> nat
    decreases bv.len(),
{
    if bv.len() == 0 {
        0
    } else {
        licm_total(bv.drop_last()) + licm_count_stmts(bv.last().stmts)
    }
}

proof fn lemma_licm_total_prefix(bv: Seq<BlockView>, n: int)
    requires
        0 <= n <= bv.len(),
    ensures
        licm_total(bv.take(n)) <= licm_total(bv),
    decreases bv.len() - n,
{
    if n < bv.len() {
        assert(bv.take(n + 1).drop_last() =~= bv.take(n));
        lemma_licm_total_prefix(bv, n + 1);
    } else {
        assert(bv.take(n) =~= bv);
    }
}

/// Whether `rvalue` has no side effect.
fn is_pure_rvalue(rvalue: &Rvalue) -> (r: bool)
    ensures
        r == pure_rvalue(rvalue@),
{
    match rvalue {
        Rvalue::BinaryOp(..) | Rvalue::UnaryOp(..) | Rvalue::Use(_) => true,
        _ => false,
    }
}

fn operand_uses_locals(op: &Operand, locals: &Vec<u32>, Ghost(body): Ghost<Seq<StmtView>>) -> (r: bool)
    requires
        forall|y: u32| #![trigger locals@.contains(y)] locals@.contains(y) <==> asg_stmts(y, body),
    ensures
        r == op_uses_assigned(op@, body),
{
    match op {
        Operand::Place(Place::Local(id)) => in_ids(locals, id.0),
        Operand::Place(p) => {
            proof {
                assert(!(p@ is Local));
            }
            false
        },
        Operand::ConstI32(_) | Operand::ConstI64(_) | Operand::ConstF32(_) | Operand::ConstF64(_)
        | Operand::ConstBool(_) | Operand::ConstChar(_) | Operand::ConstString(_)
        | Operand::ConstU8(_) | Operand::ConstU16(_) | Operand::ConstU32(_) | Operand::ConstU64(_)
        | Operand::ConstI8(_) | Operand::ConstI16(_) | Operand::Unit | Operand::FnRef(_) => false,
        _ => true,
    }
}

fn rvalue_uses_locals(rvalue: &Rvalue, locals: &Vec<u32>, Ghost(body): Ghost<Seq<StmtView>>) -> (r: bool)
    requires
        forall|y: u32| #![trigger locals@.contains(y)] locals@.contains(y) <==> asg_stmts(y, body),
    ensures
        r == rvalue_uses_assigned(rvalue@, body),
{
    match rvalue {
        Rvalue::BinaryOp(_, lhs, rhs) => operand_uses_locals(lhs, locals, Ghost(body))
            || operand_uses_locals(rhs, locals, Ghost(body)),
        Rvalue::UnaryOp(_, a) | Rvalue::Use(a) => operand_uses_locals(a, locals, Ghost(body)),
        _ => true,
    }
}

/// Split a loop body into the assignments that move out and the rest.
fn extract_invariants(body: &Vec<MirStmt>) -> (r: (Vec<MirStmt>, Vec<MirStmt>))
    ensures
        stmts_view(r.0@) == hoisted(stmts_view(body@)),
        stmts_view(r.1@) == remaining(stmts_view(body@)),
{
    let ghost bv = stmts_view(body@);
    let ghost keep = |s: StmtView| hoistable(s, bv);
    let ghost rest = |s: StmtView| !hoistable(s, bv);
    let assigned = collect_assigned_locals(body);
    let mut up: Vec<MirStmt> = Vec::new();
    let mut down: Vec<MirStmt> = Vec::new();
    let mut i: usize = 0;
    proof {
        reveal(Seq::filter);
        crate::mir::lemma_stmts_view(body@);
        assert(bv.take(0) =~= Seq::<StmtView>::empty());
        assert(stmts_view(up@) =~= bv.take(0).filter(keep));
        assert(stmts_view(down@) =~= bv.take(0).filter(rest));
    }
    while i < body.len()
        invariant
            i <= body.len(),
            bv == stmts_view(body@),
            bv.len() == body@.len(),
            keep == (|s: StmtView| hoistable(s, bv)),
            rest == (|s: StmtView| !hoistable(s, bv)),
            forall|y: u32|
                #![trigger assigned@.contains(y)]
                assigned@.contains(y) <==> asg_stmts(y, bv),
            stmts_view(up@) == bv.take(i as int).filter(keep),
            stmts_view(down@) == bv.take(i as int).filter(rest),
        decreases body.len() - i,
    {
        proof {
            reveal(Seq::filter);
            crate::mir::lemma_stmts_view(body@);
            assert(bv.take(i + 1).drop_last() =~= bv.take(i as int));
            assert(bv.take(i + 1).last() == stmt_view(body@[i as int]));
        }
        let s = &body[i];
        let h = match s {
            MirStmt::Assign(Place::Local(_), rvalue) => is_pure_rvalue(rvalue) && !rvalue_uses_locals(
                rvalue,
                &assigned,
                Ghost(bv),
            ),
            _ => false,
        };
        proof {
            reveal_with_fuel(crate::mir::place_view, 2);
            assert(h == hoistable(stmt_view(body@[i as int]), bv));
        }
        let ghost u0 = up@;
        let ghost d0 = down@;
        if h {
            up.push(clone_stmt(s));
            proof {
                assert(up@.drop_last() =~= u0);
                assert(stmts_view(up@) == stmts_view(u0).push(stmt_view(body@[i as int])));
            }
        } else {
            down.push(clone_stmt(s));
            proof {
                assert(down@.drop_last() =~= d0);
                assert(stmts_view(down@) == stmts_view(d0).push(stmt_view(body@[i as int])));
            }
        }
        i = i + 1;
    }
    proof {
        assert(bv.take(body.len() as int) =~= bv);
    }
    (up, down)
}

fn push_all(out: &mut Vec<MirStmt>, v: Vec<MirStmt>)
    ensures
        stmts_view(final(out)@) == stmts_view(old(out)@) + stmts_view(v@),
{
    let ghost o0 = out@;
    let mut v = v;
    let ghost v0 = v@;
    out.append(&mut v);
    proof {
        assert(out@ == o0 + v0);
        crate::mir::lemma_stmts_view_add(o0, v0);
    }
}

fn licm_in_block(b: &BasicBlock) -> (r: (BasicBlock, usize))
    requires
        licm_count_stmts(b@.stmts) <= usize::MAX,
    ensures
        r.0@ == licm_block(b@),
        r.1 == licm_count_stmts(b@.stmts),
{
    let ghost ss = b@.stmts;
    let mut out: Vec<MirStmt> = Vec::new();
    let mut count: usize = 0;
    let mut i: usize = 0;
    proof {
        crate::mir::lemma_stmts_view(b.stmts@);
        assert(ss.take(0) =~= Seq::<StmtView>::empty());
        assert(stmts_view(out@) =~= licm_stmts(ss.take(0)));
    }
    while i < b.stmts.len()
        invariant
            i <= b.stmts.len(),
            ss == stmts_view(b.stmts@),
            ss.len() == b.stmts@.len(),
            licm_count_stmts(ss) <= usize::MAX,
            stmts_view(out@) == licm_stmts(ss.take(i as int)),
            count == licm_count_stmts(ss.take(i as int)),
        decreases b.stmts.len() - i,
    {
        proof {
            crate::mir::lemma_stmts_view(b.stmts@);
            assert(ss.take(i + 1).drop_last() =~= ss.take(i as int));
            assert(ss.take(i + 1).last() == stmt_view(b.stmts@[i as int]));
            lemma_licm_count_prefix(ss, i + 1);
        }
        let s = &b.stmts[i];
        match s {
            MirStmt::WhileStmt { cond, body } => {
                let (up, down) = extract_invariants(body);
                let n = up.len();
                proof {
                    crate::mir::lemma_stmts_view(up@);
                }
                count = count + n;
                push_all(&mut out, up);
                let ghost dv = stmts_view(down@);
                let w = MirStmt::WhileStmt { cond: clone_operand(cond), body: down };
                let ghost o1 = out@;
                out.push(w);
                proof {
                    assert(out@.drop_last() =~= o1);
                    let bodyv = stmts_view(body@);
                    assert(w@ == StmtView::WhileStmt { cond: cond@, body: remaining(bodyv) });
                    assert(stmt_view(b.stmts@[i as int]) == StmtView::WhileStmt {
                        cond: cond@,
                        body: bodyv,
                    });
                    assert(stmts_view(out@) =~= licm_stmts(ss.take(i as int)) + licm_expand(
                        stmt_view(b.stmts@[i as int]),
                    ));
                }
            },
            _ => {
                let ghost o1 = out@;
                out.push(clone_stmt(s));
                proof {
                    assert(out@.drop_last() =~= o1);
                    assert(licm_expand(stmt_view(b.stmts@[i as int])) =~= seq![stmt_view(b.stmts@[i as int])]);
                }
            },
        }
        i = i + 1;
    }
    proof {
        assert(ss.take(b.stmts.len() as int) =~= ss);
    }
    (
        BasicBlock {
            id: b.id,
            stmts: out,
            terminator: crate::mir::clone_terminator(&b.terminator),
            source: b.source,
        },
        count,
    )
}

proof fn lemma_licm_count_prefix(ss: Seq<StmtView>, n: int)
    requires
        0 <= n <= ss.len(),
    ensures
        licm_count_stmts(ss.take(n)) <= licm_count_stmts(ss),
    decreases ss.len() - n,
{
    if n < ss.len() {
        assert(ss.take(n + 1).drop_last() =~= ss.take(n));
        lemma_licm_count_prefix(ss, n + 1);
    } else {
        assert(ss.take(n) =~= ss);
    }
}

/// Hoist loop-invariant assignments out of the loops at the top level of
/// each block (see the module documentation); reports how many moved.
pub fn licm(function: &mut MirFunction) -> (summary: OptimizationSummary)
    requires
        licm_total(blocks_view(old(function).blocks@)) <= usize::MAX,
    ensures
        same_header(*old(function), *final(function)),
        final(function).locals == old(function).locals,
        final(function).blocks@.len() == old(function).blocks@.len(),
        forall|i: int|
            0 <= i < old(function).blocks@.len() ==> #[trigger] final(function).blocks@[i]@
                == licm_block(old(function).blocks@[i]@),
        summary == (OptimizationSummary {
            licm_hoisted: licm_total(blocks_view(old(function).blocks@)) as usize,
            ..zero_summary()
        }),
{
    let ghost f0 = *function;
    let ghost bv = blocks_view(function.blocks@);
    let mut summary = OptimizationSummary::default();
    let mut new_blocks: Vec<BasicBlock> = Vec::new();
    let mut i: usize = 0;
    while i < function.blocks.len()
        invariant
            i <= function.blocks.len(),
            function.blocks == f0.blocks,
            bv == blocks_view(f0.blocks@),
            licm_total(bv) <= usize::MAX,
            new_blocks@.len() == i,
            forall|j: int| 0 <= j < i ==> #[trigger] new_blocks@[j]@ == licm_block(f0.blocks@[j]@),
            summary == (OptimizationSummary {
                licm_hoisted: licm_total(bv.take(i as int)) as usize,
                ..zero_summary()
            }),
        decreases function.blocks.len() - i,
    {
        proof {
            assert(bv.take(i + 1).drop_last() =~= bv.take(i as int));
            assert(bv.take(i + 1).last() == function.blocks@[i as int]@);
            lemma_licm_total_prefix(bv, i + 1);
        }
        let (nb, c) = licm_in_block(&function.blocks[i]);
        summary.licm_hoisted = summary.licm_hoisted + c;
        new_blocks.push(nb);
        i = i + 1;
    }
    proof {
        assert(bv.take(function.blocks.len() as int) =~= bv);
    }
    function.blocks = new_blocks;
    summary
}

proof fn lemma_split_len(ss: Seq<StmtView>, body: Seq<StmtView>)
    ensures
        hoisted_in(ss, body).len() + remaining_in(ss, body).len() == ss.len(),
    decreases ss.len(),
{
    reveal(Seq::filter);
    if ss.len() > 0 {
        lemma_split_len(ss.drop_last(), body);
    }
}

/// Loop-invariant code motion moves statements and never adds or drops
/// one: the hoisted and the remaining statements of a loop body together
/// are as many as the body's, each hoisted statement is a pure assignment
/// to a local that reads no local the loop assigns, and each remaining one
/// is not.
pub proof fn law_licm_partition(body: Seq<StmtView>)
    ensures
        hoisted(body).len() + remaining(body).len() == body.len(),
        forall|i: int| 0 <= i < hoisted(body).len() ==> hoistable(#[trigger] hoisted(body)[i], body),
        forall|i: int| 0 <= i < remaining(body).len() ==> !hoistable(#[trigger] remaining(body)[i], body),
{
    lemma_split_len(body, body);
    assert forall|i: int| 0 <= i < hoisted(body).len() implies hoistable(#[trigger] hoisted(body)[i], body) by {
        body.filter_lemma(|s: StmtView| hoistable(s, body));
    }
    assert forall|i: int| 0 <= i < remaining(body).len() implies !hoistable(#[trigger] remaining(body)[i], body) by {
        body.filter_lemma(|s: StmtView| !hoistable(s, body));
    }
}

/// Whether statement `s` is an assignment whose rvalue reads local `y`
/// directly, as one of its operands.
pub open spec fn reads_local_directly(s: StmtView, y: u32) -> bool {
    let v = OperandView::Place(PlaceView::Local(crate::mir::LocalId(y)));
    match s {
        StmtView::Assign(_, RvalueView::BinaryOp(_, a, b)) => a == v || b == v,
        StmtView::Assign(_, RvalueView::UnaryOp(_, a)) => a == v,
        StmtView::Assign(_, RvalueView::Use(a)) => a == v,
        _ => false,
    }
}

/// Whether statement `s` writes local `y` directly: assigns it or stores a
/// call's result in it.
pub open spec fn writes_local(s: StmtView, y: u32) -> bool {
    match s {
        StmtView::Assign(PlaceView::Local(t), _) => t.0 == y,
        StmtView::Call { dest: Some(PlaceView::Local(t)), .. } => t.0 == y,
        StmtView::CallBuiltin { dest: Some(PlaceView::Local(t)), .. } => t.0 == y,
        _ => false,
    }
}

proof fn lemma_assigned_in_body(y: u32, body: Seq<StmtView>, j: int)
    requires
        0 <= j < body.len(),
        writes_local(body[j], y),
    ensures
        asg_stmts(y, body),
    decreases body.len(),
{
    if j < body.len() - 1 {
        assert(body.drop_last()[j] == body[j]);
        lemma_assigned_in_body(y, body.drop_last(), j);
    } else {
        assert(body.last() == body[j]);
        match body[j] {
            StmtView::Assign(PlaceView::Local(t), _) => {
                assert(t == crate::mir::LocalId(y));
            },
            StmtView::Call { dest: Some(PlaceView::Local(t)), .. } => {
                assert(t == crate::mir::LocalId(y));
            },
            StmtView::CallBuiltin { dest: Some(PlaceView::Local(t)), .. } => {
                assert(t == crate::mir::LocalId(y));
            },
            _ => {},
        }
        assert(crate::opt::helpers::asg_stmt(y, body.last()));
    }
}

/// No hoisted statement reads a local that the loop body assigns: for every
/// hoisted assignment and every local it reads as an operand of its
/// rvalue, no statement of the body assigns that local or stores a call's
/// result in it.
pub proof fn law_hoisted_reads_no_loop_assigned_local(body: Seq<StmtView>, i: int, j: int, y: u32)
    requires
        0 <= i < hoisted(body).len(),
        reads_local_directly(hoisted(body)[i], y),
        0 <= j < body.len(),
    ensures
        !writes_local(body[j], y),
{
    law_licm_partition(body);
    let h = hoisted(body)[i];
    assert(hoistable(h, body));
    if writes_local(body[j], y) {
        lemma_assigned_in_body(y, body, j);
        assert(op_uses_assigned(
            OperandView::Place(PlaceView::Local(crate::mir::LocalId(y))),
            body,
        ));
    }
}

} // verus!
