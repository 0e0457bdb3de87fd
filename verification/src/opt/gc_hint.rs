//! GC hints for short-lived struct allocations inside loops.
//!
//! Within every `while` body (nested ones first, then the body itself), a
//! struct allocation `x = S { .. }` or `x = agg S(..)` at the body's top
//! level whose local does not escape the body is followed by a
//! `GcHint { x, ShortLived }`. A local escapes the body when it is the base
//! of a place passed to a call, returned, or stored into a field, anywhere
//! in the body.
use vstd::prelude::*;

use crate::mir::{
    blocks_view, clone_operand, clone_stmt, lemma_operands_view_take, lemma_stmts_view_take,
    operand_view, operands_view, stmt_view, stmts_view, AggregateKind, AggregateKindView,
    BasicBlock, BlockView, GcHintKind, LocalId, MirFunction, MirStmt, Operand, OperandView, Place,
    PlaceView, Rvalue, RvalueView, StmtView,
};
use crate::opt::desugar::same_header;
use crate::opt::escape_analysis::in_ids;
use crate::opt::summary::{zero_summary, OptimizationSummary};

verus! {

// ---------------------------------------------------------------------------
// Escapes
// ---------------------------------------------------------------------------
pub open spec fn base_is(x: u32, p: PlaceView) -> bool
    decreases p,
{
    match p {
        PlaceView::Local(id) => id.0 == x,
        PlaceView::Field(inner, _) => base_is(x, *inner),
        PlaceView::Index(inner, _) => base_is(x, *inner),
    }
}

pub open spec fn g_op(x: u32, o: OperandView) -> bool {
    match o {
        OperandView::Place(p) => base_is(x, p),
        _ => false,
    }
}

pub open spec fn g_ops(x: u32, s: Seq<OperandView>) -> bool
    decreases s.len(),
{
    if s.len() == 0 {
        false
    } else {
        g_ops(x, s.drop_last()) || g_op(x, s.last())
    }
}

/// Whether local `x` escapes through statement `s`.
pub open spec fn g_stmt(x: u32, s: StmtView) -> bool
    decreases s,
{
    match s {
        StmtView::Call { args, .. } => g_ops(x, args),
        StmtView::CallBuiltin { args, .. } => g_ops(x, args),
        StmtView::Return(Some(o)) => g_op(x, o),
        StmtView::Assign(p, r) => match p {
            PlaceView::Field(..) => match r {
                RvalueView::Use(o) => g_op(x, o),
                _ => false,
            },
            _ => false,
        },
        StmtView::IfStmt { then_body, else_body, .. } => g_stmts(x, then_body) || g_stmts(
            x,
            else_body,
        ),
        StmtView::WhileStmt { body, .. } => g_stmts(x, body),
        _ => false,
    }
}

pub open spec fn g_stmts(x: u32, s: Seq<StmtView>) -> bool
    decreases s,
{
    if s.len() == 0 {
        false
    } else {
        g_stmts(x, s.drop_last()) || g_stmt(x, s.last())
    }
}

// ---------------------------------------------------------------------------
// Hints
// ---------------------------------------------------------------------------
/// The local a struct allocation assigns.
pub open spec fn struct_alloc(s: StmtView) -> Option<LocalId> {
    match s {
        StmtView::Assign(p, r) => match p {
            PlaceView::Local(id) => match r {
                RvalueView::Use(o) => if o is StructInit {
                    Some(id)
                } else {
                    None
                },
                RvalueView::Aggregate(k, _) => if k is Struct {
                    Some(id)
                } else {
                    None
                },
                _ => None,
            },
            _ => None,
        },
        _ => None,
    }
}

/// Statement `i` of body `b` allocates a struct that does not escape `b`.
pub open spec fn short_lived(b: Seq<StmtView>, i: int) -> bool {
    match struct_alloc(b[i]) {
        Some(l) => !g_stmts(l.0, b),
        None => false,
    }
}

pub open spec fn hint_for_stmt(b: Seq<StmtView>, i: int) -> Seq<StmtView> {
    if short_lived(b, i) {
        seq![StmtView::GcHint { local: struct_alloc(b[i]).unwrap(), hint: GcHintKind::ShortLived }]
    } else {
        Seq::empty()
    }
}

/// The first `n` statements of `b`, each short-lived allocation followed by
/// its hint.
pub open spec fn annotated(b: Seq<StmtView>, n: int) -> Seq<StmtView>
    decreases n,
{
    if n <= 0 {
        Seq::empty()
    } else {
        annotated(b, n - 1).push(b[n - 1]) + hint_for_stmt(b, n - 1)
    }
}

pub open spec fn annotate(b: Seq<StmtView>) -> Seq<StmtView> {
    annotated(b, b.len() as int)
}

pub open spec fn hints_in(b: Seq<StmtView>, n: int) -> nat
    decreases n,
{
    if n <= 0 {
        0
    } else {
        hints_in(b, n - 1) + if short_lived(b, n - 1) {
            1nat
        } else {
            0nat
        }
    }
}

/// A statement with the hints of the loops it holds added.
pub open spec fn gc_stmt(s: StmtView) -> StmtView
    decreases s,
{
    match s {
        StmtView::WhileStmt { cond, body } => StmtView::WhileStmt {
            cond,
            body: annotate(gc_stmts(body)),
        },
        StmtView::IfStmt { cond, then_body, else_body } => StmtView::IfStmt {
            cond,
            then_body: gc_stmts(then_body),
            else_body: gc_stmts(else_body),
        },
        _ => s,
    }
}

pub open spec fn gc_stmts(s: Seq<StmtView>) -> Seq<StmtView>
    decreases s,
{
    if s.len() == 0 {
        Seq::empty()
    } else {
        gc_stmts(s.drop_last()).push(gc_stmt(s.last()))
    }
}

/// The number of hints added to a statement.
pub open spec fn gc_count(s: StmtView) -> nat
    decreases s,
{
    match s {
        StmtView::WhileStmt { body, .. } => gc_counts(body) + hints_in(
            gc_stmts(body),
            gc_stmts(body).len() as int,
        ),
        StmtView::IfStmt { then_body, else_body, .. } => gc_counts(then_body) + gc_counts(
            else_body,
        ),
        _ => 0,
    }
}

pub open spec fn gc_counts(s: Seq<StmtView>) -> nat
    decreases s,
{
    if s.len() == 0 {
        0
    } else {
        gc_counts(s.drop_last()) + gc_count(s.last())
    }
}

pub open spec fn gc_block(b: BlockView) -> BlockView {
    BlockView { stmts: gc_stmts(b.stmts), ..b }
}

pub open spec fn gc_total(bv: Seq<BlockView>) -> nat
    decreases bv.len(),
{
    if bv.len() == 0 {
        0
    } else {
        gc_total(bv.drop_last()) + gc_counts(bv.last().stmts)
    }
}

proof fn lemma_gc_total_prefix(bv: Seq<BlockView>, n: int)
    requires
        0 <= n <= bv.len(),
    ensures
        gc_total(bv.take(n)) <= gc_total(bv),
    decreases bv.len() - n,
{
    if n < bv.len() {
        assert(bv.take(n + 1).drop_last() =~= bv.take(n));
        lemma_gc_total_prefix(bv, n + 1);
    } else {
        assert(bv.take(n) =~= bv);
    }
}

proof fn lemma_gc_counts_prefix(s: Seq<StmtView>, n: int)
    requires
        0 <= n <= s.len(),
    ensures
        gc_counts(s.take(n)) <= gc_counts(s),
    decreases s.len() - n,
{
    if n < s.len() {
        assert(s.take(n + 1).drop_last() =~= s.take(n));
        lemma_gc_counts_prefix(s, n + 1);
    } else {
        assert(s.take(n) =~= s);
    }
}

proof fn lemma_hints_in_bound(b: Seq<StmtView>, n: int)
    requires
        0 <= n <= b.len(),
    ensures
        hints_in(b, n) <= n,
    decreases n,
{
    if n > 0 {
        lemma_hints_in_bound(b, n - 1);
    }
}

// ---------------------------------------------------------------------------
// The code
// ---------------------------------------------------------------------------
fn push_id(out: &mut Vec<u32>, x: u32)
    ensures
        forall|y: u32|
            #![trigger final(out)@.contains(y)]
            final(out)@.contains(y) <==> old(out)@.contains(y) || y == x,
{
    let ghost before = out@;
    out.push(x);
    proof {
        assert forall|y: u32| final(out)@.contains(y) <==> before.contains(y) || y == x by {
            vstd::seq_lib::lemma_seq_contains_after_push(before, x, y);
        }
    }
}

fn esc_place(p: &Place, out: &mut Vec<u32>)
    ensures
        forall|y: u32|
            #![trigger final(out)@.contains(y)]
            final(out)@.contains(y) <==> old(out)@.contains(y) || base_is(y, p@),
    decreases p,
{
    match p {
        Place::Local(id) => push_id(out, id.0),
        Place::Field(inner, _) => esc_place(inner, out),
        Place::Index(inner, _) => esc_place(inner, out),
    }
}

fn esc_operand(o: &Operand, out: &mut Vec<u32>)
    ensures
        forall|y: u32|
            #![trigger final(out)@.contains(y)]
            final(out)@.contains(y) <==> old(out)@.contains(y) || g_op(y, o@),
{
    match o {
        Operand::Place(p) => esc_place(p, out),
        _ => {},
    }
}

fn esc_operands(v: &Vec<Operand>, out: &mut Vec<u32>)
    ensures
        forall|y: u32|
            #![trigger final(out)@.contains(y)]
            final(out)@.contains(y) <==> old(out)@.contains(y) || g_ops(y, operands_view(v@)),
{
    let ghost o0 = out@;
    let mut i: usize = 0;
    proof {
        assert(v@.take(0) =~= Seq::<Operand>::empty());
    }
    while i < v.len()
        invariant
            i <= v.len(),
            forall|y: u32|
                #![trigger out@.contains(y)]
                out@.contains(y) <==> o0.contains(y) || g_ops(y, operands_view(v@.take(i as int))),
        decreases v.len() - i,
    {
        proof {
            lemma_operands_view_take(v@, i as int);
        }
        let ghost o1 = out@;
        esc_operand(&v[i], out);
        proof {
            let s0 = operands_view(v@.take(i as int));
            let s1 = operands_view(v@.take(i + 1));
            assert(s1.drop_last() =~= s0);
            assert forall|y: u32|
                #![trigger out@.contains(y)]
                out@.contains(y) <==> o0.contains(y) || g_ops(y, s1) by {
                assert(o1.contains(y) <==> o0.contains(y) || g_ops(y, s0));
            }
        }
        i = i + 1;
    }
    proof {
        assert(v@.take(v.len() as int) =~= v@);
    }
}

fn esc_stmt(s: &MirStmt, out: &mut Vec<u32>)
    ensures
        forall|y: u32|
            #![trigger final(out)@.contains(y)]
            final(out)@.contains(y) <==> old(out)@.contains(y) || g_stmt(y, s@),
    decreases s,
{
    match s {
        MirStmt::Call { args, .. } => esc_operands(args, out),
        MirStmt::CallBuiltin { args, .. } => esc_operands(args, out),
        MirStmt::Return(Some(o)) => esc_operand(o, out),
        MirStmt::Assign(p, r) => {
            proof {
                assert(s@ == StmtView::Assign(p@, r@));
            }
            match p {
                Place::Field(..) => match r {
                    Rvalue::Use(o) => esc_operand(o, out),
                    _ => {},
                },
                _ => {},
            }
        },
        MirStmt::IfStmt { then_body, else_body, .. } => {
            esc_stmts(then_body, out);
            esc_stmts(else_body, out);
        },
        MirStmt::WhileStmt { body, .. } => esc_stmts(body, out),
        _ => {},
    }
}

fn esc_stmts(v: &Vec<MirStmt>, out: &mut Vec<u32>)
    ensures
        forall|y: u32|
            #![trigger final(out)@.contains(y)]
            final(out)@.contains(y) <==> old(out)@.contains(y) || g_stmts(y, stmts_view(v@)),
    decreases v,
{
    let ghost o0 = out@;
    let mut i: usize = 0;
    proof {
        assert(v@.take(0) =~= Seq::<MirStmt>::empty());
    }
    while i < v.len()
        invariant
            i <= v.len(),
            forall|y: u32|
                #![trigger out@.contains(y)]
                out@.contains(y) <==> o0.contains(y) || g_stmts(y, stmts_view(v@.take(i as int))),
        decreases v.len() - i,
    {
        proof {
            broadcast use vstd::std_specs::vec::axiom_vec_index_decreases;

            assert(decreases_to!(v => v[i as int]));
            lemma_stmts_view_take(v@, i as int);
        }
        let ghost o1 = out@;
        esc_stmt(&v[i], out);
        proof {
            let s0 = stmts_view(v@.take(i as int));
            let s1 = stmts_view(v@.take(i + 1));
            assert(s1.drop_last() =~= s0);
            assert forall|y: u32|
                #![trigger out@.contains(y)]
                out@.contains(y) <==> o0.contains(y) || g_stmts(y, s1) by {
                assert(o1.contains(y) <==> o0.contains(y) || g_stmts(y, s0));
            }
        }
        i = i + 1;
    }
    proof {
        assert(v@.take(v.len() as int) =~= v@);
    }
}

/// If `stmt` allocates a struct into a plain local, that local.
fn struct_alloc_local(stmt: &MirStmt) -> (r: Option<LocalId>)
    ensures
        r == struct_alloc(stmt@),
{
    match stmt {
        MirStmt::Assign(p, r) => {
            proof {
                assert(stmt@ == StmtView::Assign(p@, r@));
            }
            match p {
                Place::Local(id) => match r {
                    Rvalue::Use(Operand::StructInit { .. }) => Some(*id),
                    Rvalue::Use(o) => {
                        proof {
                            assert(!(o@ is StructInit));
                        }
                        None
                    },
                    Rvalue::Aggregate(AggregateKind::Struct(_), _) => Some(*id),
                    _ => None,
                },
                _ => None,
            }
        },
        _ => None,
    }
}

/// `body` with a hint after each short-lived struct allocation; the number
/// of hints added.
fn annotate_short_lived(body: Vec<MirStmt>) -> (r: (Vec<MirStmt>, usize))
    ensures
        stmts_view(r.0@) == annotate(stmts_view(body@)),
        r.1 == hints_in(stmts_view(body@), body@.len() as int),
{
    let ghost bv = stmts_view(body@);
    let mut escaping: Vec<u32> = Vec::new();
    esc_stmts(&body, &mut escaping);
    let mut out: Vec<MirStmt> = Vec::new();
    let mut count: usize = 0;
    let mut i: usize = 0;
    proof {
        crate::mir::lemma_stmts_view(body@);
        assert(stmts_view(out@) =~= annotated(bv, 0));
    }
    while i < body.len()
        invariant
            i <= body.len(),
            bv == stmts_view(body@),
            bv.len() == body@.len(),
            forall|y: u32| #![trigger escaping@.contains(y)] escaping@.contains(y) <==> g_stmts(y, bv),
            stmts_view(out@) == annotated(bv, i as int),
            count == hints_in(bv, i as int),
            count <= i,
        decreases body.len() - i,
    {
        proof {
            crate::mir::lemma_stmts_view(body@);
            assert(bv[i as int] == stmt_view(body@[i as int]));
        }
        let ghost o0 = out@;
        out.push(clone_stmt(&body[i]));
        proof {
            assert(out@.drop_last() =~= o0);
        }
        let ghost o1 = out@;
        match struct_alloc_local(&body[i]) {
            Some(local) => {
                if !in_ids(&escaping, local.0) {
                    let h = MirStmt::GcHint { local, hint: GcHintKind::ShortLived };
                    assert(h@ == StmtView::GcHint { local, hint: GcHintKind::ShortLived });
                    out.push(h);
                    count = count + 1;
                    proof {
                        assert(out@.drop_last() =~= o1);
                        assert(!escaping@.contains(local.0));
                        assert(!g_stmts(local.0, bv));
                        assert(struct_alloc(bv[i as int]) == Some(local));
                        assert(short_lived(bv, i as int));
                        assert(stmts_view(out@) == stmts_view(o1).push(
                            StmtView::GcHint { local, hint: GcHintKind::ShortLived },
                        ));
                        assert(stmts_view(out@) =~= annotated(bv, i as int).push(bv[i as int])
                            + hint_for_stmt(bv, i as int));
                    }
                } else {
                    proof {
                        assert(stmts_view(out@) =~= annotated(bv, i as int).push(bv[i as int])
                            + hint_for_stmt(bv, i as int));
                    }
                }
            },
            None => {
                proof {
                    assert(stmts_view(out@) =~= annotated(bv, i as int).push(bv[i as int])
                        + hint_for_stmt(bv, i as int));
                }
            },
        }
        i = i + 1;
    }
    (out, count)
}

/// Add hints inside the loops of `v`; the number added.
fn process_stmts(v: &Vec<MirStmt>) -> (r: (Vec<MirStmt>, usize))
    requires
        gc_counts(stmts_view(v@)) <= usize::MAX,
    ensures
        stmts_view(r.0@) == gc_stmts(stmts_view(v@)),
        r.1 == gc_counts(stmts_view(v@)),
    decreases v,
{
    let ghost sv = stmts_view(v@);
    let mut out: Vec<MirStmt> = Vec::new();
    let mut count: usize = 0;
    let mut i: usize = 0;
    proof {
        assert(v@.take(0) =~= Seq::<MirStmt>::empty());
        assert(stmts_view(out@) =~= Seq::<StmtView>::empty());
    }
    #[verifier::loop_isolation(false)]
    while i < v.len()
        invariant
            i <= v.len(),
            sv == stmts_view(v@),
            stmts_view(out@) == gc_stmts(stmts_view(v@.take(i as int))),
            count == gc_counts(stmts_view(v@.take(i as int))),
        decreases v.len() - i,
    {
        proof {
            broadcast use vstd::std_specs::vec::axiom_vec_index_decreases;

            assert(decreases_to!(v => v[i as int]));
            lemma_stmts_view_take(v@, i as int);
            let s0 = stmts_view(v@.take(i as int));
            assert(s0.push(stmt_view(v@[i as int])).drop_last() =~= s0);
            crate::mir::lemma_stmts_view(v@);
            crate::mir::lemma_stmts_view_prefix(v@, i + 1);
            lemma_gc_counts_prefix(sv, i + 1);
        }
        let (ns, c) = process_stmt(&v[i]);
        let ghost before = out@;
        out.push(ns);
        count = count + c;
        proof {
            assert(out@.drop_last() =~= before);
        }
        i = i + 1;
    }
    proof {
        assert(v@.take(v.len() as int) =~= v@);
    }
    (out, count)
}

fn process_stmt(s: &MirStmt) -> (r: (MirStmt, usize))
    requires
        gc_count(s@) <= usize::MAX,
    ensures
        r.0@ == gc_stmt(s@),
        r.1 == gc_count(s@),
    decreases s,
{
    match s {
        MirStmt::WhileStmt { cond, body } => {
            let (inner, c1) = process_stmts(body);
            let ghost iv = stmts_view(inner@);
            proof {
                crate::mir::lemma_stmts_view(inner@);
                lemma_hints_in_bound(iv, iv.len() as int);
            }
            let (annotated_body, c2) = annotate_short_lived(inner);
            (MirStmt::WhileStmt { cond: clone_operand(cond), body: annotated_body }, c1 + c2)
        },
        MirStmt::IfStmt { cond, then_body, else_body } => {
            let (t, c1) = process_stmts(then_body);
            let (e, c2) = process_stmts(else_body);
            (MirStmt::IfStmt { cond: clone_operand(cond), then_body: t, else_body: e }, c1 + c2)
        },
        _ => (clone_stmt(s), 0),
    }
}

/// Add GC hints in every block of `func`; reports the number added.
pub fn gc_hint_pass_inner(func: &mut MirFunction) -> (summary: OptimizationSummary)
    requires
        gc_total(blocks_view(old(func).blocks@)) <= usize::MAX,
    ensures
        same_header(*old(func), *final(func)),
        final(func).locals == old(func).locals,
        final(func).blocks@.len() == old(func).blocks@.len(),
        forall|i: int|
            0 <= i < old(func).blocks@.len() ==> #[trigger] final(func).blocks@[i]@ == gc_block(
                old(func).blocks@[i]@,
            ),
        summary == (OptimizationSummary {
            gc_hinted: gc_total(blocks_view(old(func).blocks@)) as usize,
            ..zero_summary()
        }),
{
    let ghost f0 = *func;
    let ghost bv = blocks_view(func.blocks@);
    let mut summary = OptimizationSummary::default();
    let mut new_blocks: Vec<BasicBlock> = Vec::new();
    let mut i: usize = 0;
    while i < func.blocks.len()
        invariant
            i <= func.blocks.len(),
            func.blocks == f0.blocks,
            bv == blocks_view(f0.blocks@),
            gc_total(bv) <= usize::MAX,
            new_blocks@.len() == i,
            forall|j: int| 0 <= j < i ==> #[trigger] new_blocks@[j]@ == gc_block(f0.blocks@[j]@),
            summary == (OptimizationSummary {
                gc_hinted: gc_total(bv.take(i as int)) as usize,
                ..zero_summary()
            }),
        decreases func.blocks.len() - i,
    {
        proof {
            assert(bv.take(i + 1).drop_last() =~= bv.take(i as int));
            assert(bv.take(i + 1).last() == func.blocks@[i as int]@);
            lemma_gc_total_prefix(bv, i + 1);
        }
        let b = &func.blocks[i];
        let (stmts, c) = process_stmts(&b.stmts);
        summary.gc_hinted = summary.gc_hinted + c;
        new_blocks.push(
            BasicBlock {
                id: b.id,
                stmts,
                terminator: crate::mir::clone_terminator(&b.terminator),
                source: b.source,
            },
        );
        i = i + 1;
    }
    proof {
        assert(bv.take(func.blocks.len() as int) =~= bv);
    }
    func.blocks = new_blocks;
    summary
}

/// Add GC hints in every block of `func`; whether any was added.
pub fn gc_hint_pass(func: &mut MirFunction) -> (r: bool)
    requires
        gc_total(blocks_view(old(func).blocks@)) <= usize::MAX,
    ensures
        same_header(*old(func), *final(func)),
        final(func).locals == old(func).locals,
        final(func).blocks@.len() == old(func).blocks@.len(),
        forall|i: int|
            0 <= i < old(func).blocks@.len() ==> #[trigger] final(func).blocks@[i]@ == gc_block(
                old(func).blocks@[i]@,
            ),
        r == (gc_total(blocks_view(old(func).blocks@)) > 0),
{
    let summary = gc_hint_pass_inner(func);
    summary.gc_hinted > 0
}
} // verus!
