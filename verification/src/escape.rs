//! Escape analysis of heap-typed locals.
//!
//! A heap-typed local (string, vector, struct, enum, option, result, array,
//! slice or tuple) escapes its function when it is returned, passed to a
//! call, stored into a struct field or array element, or stored into a
//! struct or enum being built. A local that never escapes may be placed on
//! the stack.
use vstd::prelude::*;

use crate::mir::{
    blocks_view, lemma_fields_view_take, lemma_operands_view_take, lemma_stmts_view_take,
    locals_view, operand_view, operands_view, fields_view, stmt_view, stmts_view, BasicBlock,
    BlockView, LocalView, MirFunction, MirLocal, MirModule, MirStmt, Operand, OperandView, Place,
    PlaceView, Rvalue, RvalueView, StmtView, Terminator, TerminatorView,
};
use crate::opt::escape_analysis::{
    ids_distinct, in_ids, lemma_marks_none, lemma_marks_seq, mark_id, marks,
};
use crate::strutil::{decimal, u64_to_decimal};
use crate::types::{is_heap_type, is_heap_type_spec};
use vstd::string::StringExecFns;

verus! {

/// Allocation hint for a local variable.
#[derive(Debug, Clone, Copy, PartialEq, Eq, Structural)]
pub enum AllocHint {
    /// This local never escapes; it can live on the stack.
    Stack,
    /// This local may escape; it must live on the heap.
    Heap,
}

/// Result of escape analysis on a single function: one hint per heap-typed
/// local, in the order the locals (then the parameters) are declared.
#[derive(Debug)]
pub struct EscapeInfo {
    pub hints: Vec<(u32, AllocHint)>,
    /// The heap-typed locals, each once.
    pub heap_locals: Vec<u32>,
    /// Number of locals that can be stack-allocated.
    pub stack_eligible: usize,
    /// Number of locals that must be heap-allocated.
    pub heap_required: usize,
}

/// Result of escape analysis on a module: one entry per function name.
#[derive(Debug)]
pub struct ModuleEscapeInfo {
    pub functions: Vec<(String, EscapeInfo)>,
}

// ---------------------------------------------------------------------------
// What escapes
// ---------------------------------------------------------------------------
/// Whether evaluating `o` lets local `x` escape.
pub open spec fn e_op(x: u32, o: OperandView) -> bool
    decreases o,
{
    match o {
        OperandView::Place(p) => match p {
            PlaceView::Local(id) => id.0 == x,
            _ => false,
        },
        OperandView::Call(_, args) => e_ops(x, args),
        OperandView::StructInit { fields, .. } => e_fields(x, fields),
        OperandView::FieldAccess { object, .. } => e_op(x, *object),
        OperandView::EnumInit { payload, .. } => e_ops(x, payload),
        OperandView::ArrayInit { elements } => e_ops(x, elements),
        OperandView::IfExpr { cond, then_body, then_result, else_body, else_result } => {
            e_op(x, *cond) || e_stmts(x, then_body) || e_res(x, then_result) || e_stmts(
                x,
                else_body,
            ) || e_res(x, else_result)
        },
        _ => false,
    }
}

pub open spec fn e_res(x: u32, r: Option<Box<OperandView>>) -> bool
    decreases r,
{
    match r {
        Some(b) => e_op(x, *b),
        None => false,
    }
}

pub open spec fn e_ops(x: u32, s: Seq<OperandView>) -> bool
    decreases s,
{
    if s.len() == 0 {
        false
    } else {
        e_ops(x, s.drop_last()) || e_op(x, s.last())
    }
}

pub open spec fn e_fields(x: u32, s: Seq<(Seq<char>, OperandView)>) -> bool
    decreases s,
{
    if s.len() == 0 {
        false
    } else {
        e_fields(x, s.drop_last()) || e_op(x, s.last().1)
    }
}

/// Whether assigning `o` stores local `x` into a struct or enum value.
pub open spec fn e_store(x: u32, o: OperandView) -> bool
    decreases o,
{
    match o {
        OperandView::StructInit { fields, .. } => e_fields(x, fields),
        OperandView::EnumInit { payload, .. } => e_ops(x, payload),
        _ => false,
    }
}

pub open spec fn e_stmt(x: u32, s: StmtView) -> bool
    decreases s,
{
    match s {
        StmtView::Call { args, .. } => e_ops(x, args),
        StmtView::CallBuiltin { args, .. } => e_ops(x, args),
        StmtView::Assign(p, r) => match r {
            RvalueView::Use(o) => if p is Local {
                e_store(x, o)
            } else {
                e_op(x, o)
            },
            _ => false,
        },
        StmtView::IfStmt { cond, then_body, else_body } => e_op(x, cond) || e_stmts(x, then_body)
            || e_stmts(x, else_body),
        StmtView::WhileStmt { cond, body } => e_op(x, cond) || e_stmts(x, body),
        StmtView::Return(Some(o)) => e_op(x, o),
        _ => false,
    }
}

pub open spec fn e_stmts(x: u32, s: Seq<StmtView>) -> bool
    decreases s,
{
    if s.len() == 0 {
        false
    } else {
        e_stmts(x, s.drop_last()) || e_stmt(x, s.last())
    }
}

pub open spec fn e_term(x: u32, t: TerminatorView) -> bool {
    match t {
        TerminatorView::Return(Some(o)) => e_op(x, o),
        _ => false,
    }
}

/// Whether local `x` escapes anywhere in the blocks `bs`.
pub open spec fn e_blocks(x: u32, bs: Seq<BlockView>) -> bool
    decreases bs.len(),
{
    if bs.len() == 0 {
        false
    } else {
        e_blocks(x, bs.drop_last()) || e_stmts(x, bs.last().stmts) || e_term(x, bs.last().terminator)
    }
}

// ---------------------------------------------------------------------------
// What the analysis reports
// ---------------------------------------------------------------------------
/// `acc` extended with the ids of the heap-typed locals of `ls` not yet in
/// it, in order.
pub open spec fn add_heap(acc: Seq<u32>, ls: Seq<LocalView>) -> Seq<u32>
    decreases ls.len(),
{
    if ls.len() == 0 {
        acc
    } else {
        let prev = add_heap(acc, ls.drop_last());
        let l = ls.last();
        if is_heap_type_spec(l.ty) && !prev.contains(l.id.0) {
            prev.push(l.id.0)
        } else {
            prev
        }
    }
}

/// The heap-typed locals of `f`: its locals, then its parameters, each id
/// once.
pub open spec fn heap_ids(f: MirFunction) -> Seq<u32> {
    add_heap(add_heap(Seq::empty(), locals_view(f.locals@)), locals_view(f.params@))
}

pub open spec fn hint_of(f: MirFunction, x: u32) -> AllocHint {
    if e_blocks(x, blocks_view(f.blocks@)) {
        AllocHint::Heap
    } else {
        AllocHint::Stack
    }
}

pub open spec fn heap_count(hs: Seq<(u32, AllocHint)>) -> nat
    decreases hs.len(),
{
    if hs.len() == 0 {
        0
    } else {
        heap_count(hs.drop_last()) + if hs.last().1 == AllocHint::Heap {
            1nat
        } else {
            0nat
        }
    }
}

/// `info` is the escape analysis of `f`.
pub open spec fn analysis_of(f: MirFunction, info: EscapeInfo) -> bool {
    &&& info.heap_locals@ == heap_ids(f)
    &&& info.hints@ == heap_ids(f).map_values(|x: u32| (x, hint_of(f, x)))
    &&& info.heap_required == heap_count(info.hints@)
    &&& info.stack_eligible == info.hints@.len() - heap_count(info.hints@)
}

// ---------------------------------------------------------------------------
// Marking escapes
// ---------------------------------------------------------------------------
fn esc_op(o: &Operand, ids: &Vec<u32>, flags: &mut Vec<bool>)
    requires
        ids_distinct(ids@),
        old(flags)@.len() == ids@.len(),
    ensures
        marks(ids@, old(flags)@, final(flags)@, |x: u32| e_op(x, o@)),
    decreases o,
{
    let ghost f0 = flags@;
    match o {
        Operand::Place(Place::Local(id)) => mark_id(id.0, ids, flags),
        Operand::Call(_, args) | Operand::EnumInit { payload: args, .. } | Operand::ArrayInit {
            elements: args,
        } => esc_ops(args, ids, flags),
        Operand::StructInit { fields, .. } => esc_fields(fields, ids, flags),
        Operand::FieldAccess { object, .. } => esc_op(object, ids, flags),
        Operand::IfExpr { cond, then_body, then_result, else_body, else_result } => {
            esc_op(cond, ids, flags);
            let ghost f1 = flags@;
            esc_stmts(then_body, ids, flags);
            let ghost f2 = flags@;
            esc_res(then_result, ids, flags);
            let ghost f3 = flags@;
            esc_stmts(else_body, ids, flags);
            let ghost f4 = flags@;
            esc_res(else_result, ids, flags);
            proof {
                let c = |x: u32| e_op(x, operand_view(**cond));
                let t = |x: u32| e_stmts(x, stmts_view(then_body@));
                let tr = |x: u32| e_res(x, crate::mir::opt_box_operand_view(*then_result));
                let e = |x: u32| e_stmts(x, stmts_view(else_body@));
                let er = |x: u32| e_res(x, crate::mir::opt_box_operand_view(*else_result));
                let p1 = |x: u32| c(x) || t(x);
                let p2 = |x: u32| p1(x) || tr(x);
                let p3 = |x: u32| p2(x) || e(x);
                lemma_marks_seq(ids@, f0, f1, f2, c, t, p1);
                lemma_marks_seq(ids@, f0, f2, f3, p1, tr, p2);
                lemma_marks_seq(ids@, f0, f3, f4, p2, e, p3);
                lemma_marks_seq(ids@, f0, f4, flags@, p3, er, |x: u32| e_op(x, o@));
            }
        },
        _ => {
            proof {
                reveal_with_fuel(operand_view, 2);
                lemma_marks_none(ids@, f0, |x: u32| e_op(x, o@));
            }
        },
    }
}

fn esc_res(r: &Option<Box<Operand>>, ids: &Vec<u32>, flags: &mut Vec<bool>)
    requires
        ids_distinct(ids@),
        old(flags)@.len() == ids@.len(),
    ensures
        marks(
            ids@,
            old(flags)@,
            final(flags)@,
            |x: u32| e_res(x, crate::mir::opt_box_operand_view(*r)),
        ),
    decreases r,
{
    match r {
        Some(b) => esc_op(b, ids, flags),
        None => {
            proof {
                lemma_marks_none(ids@, flags@, |x: u32| e_res(x, crate::mir::opt_box_operand_view(*r)));
            }
        },
    }
}

fn esc_ops(v: &Vec<Operand>, ids: &Vec<u32>, flags: &mut Vec<bool>)
    requires
        ids_distinct(ids@),
        old(flags)@.len() == ids@.len(),
    ensures
        marks(ids@, old(flags)@, final(flags)@, |x: u32| e_ops(x, operands_view(v@))),
    decreases v,
{
    let ghost f0 = flags@;
    let mut i: usize = 0;
    proof {
        assert(v@.take(0) =~= Seq::<Operand>::empty());
    }
    #[verifier::loop_isolation(false)]
    while i < v.len()
        invariant
            i <= v.len(),
            flags@.len() == ids@.len(),
            marks(ids@, f0, flags@, |x: u32| e_ops(x, operands_view(v@.take(i as int)))),
        decreases v.len() - i,
    {
        proof {
            broadcast use vstd::std_specs::vec::axiom_vec_index_decreases;

            assert(decreases_to!(v => v[i as int]));
            lemma_operands_view_take(v@, i as int);
            let s0 = operands_view(v@.take(i as int));
            assert(s0.push(operand_view(v@[i as int])).drop_last() =~= s0);
        }
        let ghost f1 = flags@;
        esc_op(&v[i], ids, flags);
        proof {
            lemma_marks_seq(
                ids@,
                f0,
                f1,
                flags@,
                |x: u32| e_ops(x, operands_view(v@.take(i as int))),
                |x: u32| e_op(x, operand_view(v@[i as int])),
                |x: u32| e_ops(x, operands_view(v@.take(i + 1))),
            );
        }
        i = i + 1;
    }
    proof {
        assert(v@.take(v.len() as int) =~= v@);
    }
}

fn esc_fields(v: &Vec<(String, Operand)>, ids: &Vec<u32>, flags: &mut Vec<bool>)
    requires
        ids_distinct(ids@),
        old(flags)@.len() == ids@.len(),
    ensures
        marks(ids@, old(flags)@, final(flags)@, |x: u32| e_fields(x, fields_view(v@))),
    decreases v,
{
    let ghost f0 = flags@;
    let mut i: usize = 0;
    proof {
        assert(v@.take(0) =~= Seq::<(String, Operand)>::empty());
    }
    #[verifier::loop_isolation(false)]
    while i < v.len()
        invariant
            i <= v.len(),
            flags@.len() == ids@.len(),
            marks(ids@, f0, flags@, |x: u32| e_fields(x, fields_view(v@.take(i as int)))),
        decreases v.len() - i,
    {
        proof {
            broadcast use vstd::std_specs::vec::axiom_vec_index_decreases;

            assert(decreases_to!(v => v[i as int]));
            assert(decreases_to!(v[i as int] => v[i as int].1));
            lemma_fields_view_take(v@, i as int);
            let s0 = fields_view(v@.take(i as int));
            assert(s0.push((v@[i as int].0@, operand_view(v@[i as int].1))).drop_last() =~= s0);
        }
        let ghost f1 = flags@;
        esc_op(&v[i].1, ids, flags);
        proof {
            lemma_marks_seq(
                ids@,
                f0,
                f1,
                flags@,
                |x: u32| e_fields(x, fields_view(v@.take(i as int))),
                |x: u32| e_op(x, operand_view(v@[i as int].1)),
                |x: u32| e_fields(x, fields_view(v@.take(i + 1))),
            );
        }
        i = i + 1;
    }
    proof {
        assert(v@.take(v.len() as int) =~= v@);
    }
}

fn esc_stmt(s: &MirStmt, ids: &Vec<u32>, flags: &mut Vec<bool>)
    requires
        ids_distinct(ids@),
        old(flags)@.len() == ids@.len(),
    ensures
        marks(ids@, old(flags)@, final(flags)@, |x: u32| e_stmt(x, s@)),
    decreases s,
{
    let ghost f0 = flags@;
    match s {
        MirStmt::Call { args, .. } => esc_ops(args, ids, flags),
        MirStmt::CallBuiltin { args, .. } => esc_ops(args, ids, flags),
        MirStmt::Assign(p, Rvalue::Use(op)) if !matches!(p, Place::Local(_)) => {
            esc_op(op, ids, flags);
            proof {
                reveal_with_fuel(crate::mir::rvalue_view, 2);
                assert(s@ == StmtView::Assign(p@, RvalueView::Use(op@)));
            }
        },
        MirStmt::Assign(p, Rvalue::Use(op)) => match op {
            Operand::StructInit { fields, .. } => {
                esc_fields(fields, ids, flags);
                proof {
                    reveal_with_fuel(crate::mir::rvalue_view, 2);
                }
            },
            Operand::EnumInit { payload, .. } => {
                esc_ops(payload, ids, flags);
            },
            _ => {
                proof {
                    reveal_with_fuel(crate::mir::rvalue_view, 2);
                    assert(s@ == StmtView::Assign(p@, RvalueView::Use(op@)));
                    lemma_marks_none(ids@, f0, |x: u32| e_stmt(x, s@));
                }
            },
        },
        MirStmt::IfStmt { cond, then_body, else_body } => {
            esc_op(cond, ids, flags);
            let ghost f1 = flags@;
            esc_stmts(then_body, ids, flags);
            let ghost f2 = flags@;
            esc_stmts(else_body, ids, flags);
            proof {
                let a = |x: u32| e_op(x, cond@);
                let b = |x: u32| e_stmts(x, stmts_view(then_body@));
                let c = |x: u32| e_stmts(x, stmts_view(else_body@));
                let p1 = |x: u32| a(x) || b(x);
                lemma_marks_seq(ids@, f0, f1, f2, a, b, p1);
                lemma_marks_seq(ids@, f0, f2, flags@, p1, c, |x: u32| e_stmt(x, s@));
            }
        },
        MirStmt::WhileStmt { cond, body } => {
            esc_op(cond, ids, flags);
            let ghost f1 = flags@;
            esc_stmts(body, ids, flags);
            proof {
                lemma_marks_seq(
                    ids@,
                    f0,
                    f1,
                    flags@,
                    |x: u32| e_op(x, cond@),
                    |x: u32| e_stmts(x, stmts_view(body@)),
                    |x: u32| e_stmt(x, s@),
                );
            }
        },
        MirStmt::Return(Some(op)) => esc_op(op, ids, flags),
        _ => {
            proof {
                lemma_marks_none(ids@, f0, |x: u32| e_stmt(x, s@));
            }
        },
    }
}

fn esc_stmts(v: &Vec<MirStmt>, ids: &Vec<u32>, flags: &mut Vec<bool>)
    requires
        ids_distinct(ids@),
        old(flags)@.len() == ids@.len(),
    ensures
        marks(ids@, old(flags)@, final(flags)@, |x: u32| e_stmts(x, stmts_view(v@))),
    decreases v,
{
    let ghost f0 = flags@;
    let mut i: usize = 0;
    proof {
        assert(v@.take(0) =~= Seq::<MirStmt>::empty());
    }
    #[verifier::loop_isolation(false)]
    while i < v.len()
        invariant
            i <= v.len(),
            flags@.len() == ids@.len(),
            marks(ids@, f0, flags@, |x: u32| e_stmts(x, stmts_view(v@.take(i as int)))),
        decreases v.len() - i,
    {
        proof {
            broadcast use vstd::std_specs::vec::axiom_vec_index_decreases;

            assert(decreases_to!(v => v[i as int]));
            lemma_stmts_view_take(v@, i as int);
            let s0 = stmts_view(v@.take(i as int));
            assert(s0.push(stmt_view(v@[i as int])).drop_last() =~= s0);
        }
        let ghost f1 = flags@;
        esc_stmt(&v[i], ids, flags);
        proof {
            lemma_marks_seq(
                ids@,
                f0,
                f1,
                flags@,
                |x: u32| e_stmts(x, stmts_view(v@.take(i as int))),
                |x: u32| e_stmt(x, stmt_view(v@[i as int])),
                |x: u32| e_stmts(x, stmts_view(v@.take(i + 1))),
            );
        }
        i = i + 1;
    }
    proof {
        assert(v@.take(v.len() as int) =~= v@);
    }
}

fn esc_blocks(blocks: &Vec<BasicBlock>, ids: &Vec<u32>, flags: &mut Vec<bool>)
    requires
        ids_distinct(ids@),
        old(flags)@.len() == ids@.len(),
    ensures
        marks(ids@, old(flags)@, final(flags)@, |x: u32| e_blocks(x, blocks_view(blocks@))),
{
    let ghost f0 = flags@;
    let ghost bv = blocks_view(blocks@);
    let mut i: usize = 0;
    proof {
        assert(bv.take(0) =~= Seq::<BlockView>::empty());
    }
    while i < blocks.len()
        invariant
            i <= blocks.len(),
            bv == blocks_view(blocks@),
            ids_distinct(ids@),
            flags@.len() == ids@.len(),
            f0.len() == ids@.len(),
            marks(ids@, f0, flags@, |x: u32| e_blocks(x, bv.take(i as int))),
        decreases blocks.len() - i,
    {
        let ghost f1 = flags@;
        esc_stmts(&blocks[i].stmts, ids, flags);
        let ghost f2 = flags@;
        match &blocks[i].terminator {
            Terminator::Return(Some(op)) => esc_op(op, ids, flags),
            _ => {
                proof {
                    lemma_marks_none(ids@, flags@, |x: u32| e_term(x, blocks@[i as int].terminator@));
                }
            },
        }
        proof {
            assert(bv.take(i + 1).drop_last() =~= bv.take(i as int));
            assert(bv.take(i + 1).last() == blocks@[i as int]@);
            let p = |x: u32| e_blocks(x, bv.take(i as int));
            let q = |x: u32| e_stmts(x, stmts_view(blocks@[i as int].stmts@));
            let r = |x: u32| e_term(x, blocks@[i as int].terminator@);
            let pq = |x: u32| p(x) || q(x);
            lemma_marks_seq(ids@, f0, f1, f2, p, q, pq);
            lemma_marks_seq(ids@, f0, f2, flags@, pq, r, |x: u32| e_blocks(x, bv.take(i + 1)));
        }
        i = i + 1;
    }
    proof {
        assert(bv.take(blocks.len() as int) =~= bv);
    }
}
// ---------------------------------------------------------------------------
// Analysis
// ---------------------------------------------------------------------------
fn add_heap_locals(ls: &Vec<MirLocal>, acc: &mut Vec<u32>)
    requires
        ids_distinct(old(acc)@),
    ensures
        final(acc)@ == add_heap(old(acc)@, locals_view(ls@)),
        ids_distinct(final(acc)@),
{
    let ghost a0 = acc@;
    let ghost lv = locals_view(ls@);
    let mut i: usize = 0;
    proof {
        assert(lv.take(0) =~= Seq::<LocalView>::empty());
    }
    while i < ls.len()
        invariant
            i <= ls.len(),
            lv == locals_view(ls@),
            lv.len() == ls@.len(),
            acc@ == add_heap(a0, lv.take(i as int)),
            ids_distinct(acc@),
        decreases ls.len() - i,
    {
        proof {
            assert(lv.take(i + 1).drop_last() =~= lv.take(i as int));
            assert(lv.take(i + 1).last() == ls@[i as int]@);
        }
        let id = ls[i].id.0;
        if is_heap_type(&ls[i].ty) && !in_ids(acc, id) {
            let ghost before = acc@;
            acc.push(id);
            proof {
                assert forall|a: int, b: int| 0 <= a < b < acc@.len() implies acc@[a] != acc@[b] by {
                    if b == before.len() {
                        assert(before.contains(before[a]));
                    }
                }
            }
        }
        i = i + 1;
    }
    proof {
        assert(lv.take(ls.len() as int) =~= lv);
    }
}

/// Analyse one function: which of its heap-typed locals escape.
pub fn analyze_function(func: &MirFunction) -> (info: EscapeInfo)
    ensures
        analysis_of(*func, info),
{
    let mut heap: Vec<u32> = Vec::new();
    add_heap_locals(&func.locals, &mut heap);
    add_heap_locals(&func.params, &mut heap);
    let mut flags: Vec<bool> = Vec::new();
    let mut k: usize = 0;
    while k < heap.len()
        invariant
            k <= heap.len(),
            flags@.len() == k,
            forall|j: int| 0 <= j < k ==> !#[trigger] flags@[j],
        decreases heap.len() - k,
    {
        flags.push(false);
        k = k + 1;
    }
    let ghost f0 = flags@;
    esc_blocks(&func.blocks, &heap, &mut flags);
    let ghost bv = blocks_view(func.blocks@);
    let ghost hv = heap@;
    let mut hints: Vec<(u32, AllocHint)> = Vec::new();
    let mut stack_eligible: usize = 0;
    let mut heap_required: usize = 0;
    let mut k: usize = 0;
    proof {
        assert(hv.take(0).map_values(|x: u32| (x, hint_of(*func, x))) =~= hints@);
    }
    while k < heap.len()
        invariant
            k <= heap.len(),
            hv == heap@,
            hv == heap_ids(*func),
            flags@.len() == hv.len(),
            forall|j: int| 0 <= j < hv.len() ==> #[trigger] flags@[j] == e_blocks(hv[j], bv),
            bv == blocks_view(func.blocks@),
            hints@ == hv.take(k as int).map_values(|x: u32| (x, hint_of(*func, x))),
            heap_required == heap_count(hints@),
            stack_eligible + heap_required == k,
        decreases heap.len() - k,
    {
        let id = heap[k];
        let ghost before = hints@;
        if flags[k] {
            hints.push((id, AllocHint::Heap));
            heap_required = heap_required + 1;
        } else {
            hints.push((id, AllocHint::Stack));
            stack_eligible = stack_eligible + 1;
        }
        proof {
            assert(hints@.drop_last() =~= before);
            assert(hints@ =~= hv.take(k + 1).map_values(|x: u32| (x, hint_of(*func, x))));
        }
        k = k + 1;
    }
    proof {
        assert(hv.take(heap.len() as int) =~= hv);
    }
    EscapeInfo { hints, heap_locals: heap, stack_eligible, heap_required }
}

/// Function `i` of `fs` is the last one named `name` among the first `n`.
pub open spec fn last_named(fs: Seq<MirFunction>, n: int, name: Seq<char>, i: int) -> bool {
    &&& 0 <= i < n
    &&& fs[i].name@ == name
    &&& forall|j: int| i < j < n ==> fs[j].name@ != name
}

/// `e` is the analysis of the last function of its name among the first
/// `n` of `fs`.
pub open spec fn entry_of(fs: Seq<MirFunction>, n: int, e: (String, EscapeInfo)) -> bool {
    exists|i: int| last_named(fs, n, e.0@, i) && analysis_of(fs[i], e.1)
}

/// `entries` holds, for each function name among the first `n` of `fs`,
/// one entry: the analysis of the last function of that name.
pub open spec fn module_analysis(fs: Seq<MirFunction>, n: int, entries: Seq<(String, EscapeInfo)>) -> bool {
    &&& forall|a: int, b: int| 0 <= a < b < entries.len() ==> entries[a].0@ != entries[b].0@
    &&& forall|k: int| 0 <= k < entries.len() ==> entry_of(fs, n, #[trigger] entries[k])
    &&& forall|i: int|
        #![trigger fs[i]]
        0 <= i < n ==> exists|k: int| 0 <= k < entries.len() && #[trigger] entries[k].0@ == fs[i].name@
}

fn entry_position(entries: &Vec<(String, EscapeInfo)>, name: &str) -> (r: Option<usize>)
    ensures
        match r {
            Some(k) => k < entries@.len() && entries@[k as int].0@ == name@,
            None => forall|k: int| 0 <= k < entries@.len() ==> entries@[k].0@ != name@,
        },
{
    let mut k: usize = 0;
    while k < entries.len()
        invariant
            k <= entries.len(),
            forall|j: int| 0 <= j < k ==> entries@[j].0@ != name@,
        decreases entries.len() - k,
    {
        if crate::strutil::str_eq(entries[k].0.as_str(), name) {
            return Some(k);
        }
        k = k + 1;
    }
    None
}

proof fn lemma_replace_entry(
    fs: Seq<MirFunction>,
    n: int,
    before: Seq<(String, EscapeInfo)>,
    k: int,
    e: (String, EscapeInfo),
)
    requires
        0 <= n < fs.len(),
        module_analysis(fs, n, before),
        0 <= k < before.len(),
        before[k].0@ == fs[n].name@,
        e.0@ == fs[n].name@,
        analysis_of(fs[n], e.1),
    ensures
        module_analysis(fs, n + 1, before.update(k, e)),
{
    let after = before.update(k, e);
    assert forall|a: int, b: int| 0 <= a < b < after.len() implies after[a].0@ != after[b].0@ by {
        assert(before[a].0@ != before[b].0@);
    }
    assert forall|q: int| 0 <= q < after.len() implies entry_of(fs, n + 1, #[trigger] after[q]) by {
        if q == k {
            assert(last_named(fs, n + 1, after[q].0@, n));
        } else {
            assert(before[q].0@ != before[k].0@);
            assert(entry_of(fs, n, before[q]));
            let i = choose|i: int| last_named(fs, n, before[q].0@, i) && analysis_of(fs[i], before[q].1);
            assert(last_named(fs, n + 1, after[q].0@, i));
        }
    }
    assert forall|i: int| #![trigger fs[i]] 0 <= i < n + 1 implies exists|q: int|
        0 <= q < after.len() && #[trigger] after[q].0@ == fs[i].name@ by {
        if i == n {
            assert(after[k].0@ == fs[i].name@);
        } else {
            let q = choose|q: int| 0 <= q < before.len() && #[trigger] before[q].0@ == fs[i].name@;
            if q == k {
                assert(after[k].0@ == fs[i].name@);
            } else {
                assert(after[q].0@ == fs[i].name@);
            }
        }
    }
}

proof fn lemma_push_entry(fs: Seq<MirFunction>, n: int, before: Seq<(String, EscapeInfo)>, e: (String, EscapeInfo))
    requires
        0 <= n < fs.len(),
        module_analysis(fs, n, before),
        forall|k: int| 0 <= k < before.len() ==> before[k].0@ != fs[n].name@,
        e.0@ == fs[n].name@,
        analysis_of(fs[n], e.1),
    ensures
        module_analysis(fs, n + 1, before.push(e)),
{
    let after = before.push(e);
    assert forall|a: int, b: int| 0 <= a < b < after.len() implies after[a].0@ != after[b].0@ by {
        if b == before.len() {
            assert(before[a].0@ != fs[n].name@);
        } else {
            assert(before[a].0@ != before[b].0@);
        }
    }
    assert forall|q: int| 0 <= q < after.len() implies entry_of(fs, n + 1, #[trigger] after[q]) by {
        if q == before.len() {
            assert(last_named(fs, n + 1, after[q].0@, n));
        } else {
            assert(entry_of(fs, n, before[q]));
            let i = choose|i: int| last_named(fs, n, before[q].0@, i) && analysis_of(fs[i], before[q].1);
            assert(last_named(fs, n + 1, after[q].0@, i));
        }
    }
    assert forall|i: int| #![trigger fs[i]] 0 <= i < n + 1 implies exists|q: int|
        0 <= q < after.len() && #[trigger] after[q].0@ == fs[i].name@ by {
        if i == n {
            assert(after[before.len() as int].0@ == fs[i].name@);
        } else {
            let q = choose|q: int| 0 <= q < before.len() && #[trigger] before[q].0@ == fs[i].name@;
            assert(after[q].0@ == fs[i].name@);
        }
    }
}

/// Analyse every function of the module. Functions are keyed by name; when
/// two share a name, the later one's analysis is kept.
pub fn analyze_module(module: &MirModule) -> (r: ModuleEscapeInfo)
    ensures
        module_analysis(module.functions@, module.functions@.len() as int, r.functions@),
{
    let ghost fs = module.functions@;
    let mut entries: Vec<(String, EscapeInfo)> = Vec::new();
    let mut n: usize = 0;
    while n < module.functions.len()
        invariant
            n <= module.functions.len(),
            fs == module.functions@,
            module_analysis(fs, n as int, entries@),
        decreases module.functions.len() - n,
    {
        let func = &module.functions[n];
        let info = analyze_function(func);
        let ghost before = entries@;
        match entry_position(&entries, func.name.as_str()) {
            Some(k) => {
                let e = (func.name.clone(), info);
                let ghost ge = e;
                entries.set(k, e);
                proof {
                    lemma_replace_entry(fs, n as int, before, k as int, ge);
                }
            },
            None => {
                let e = (func.name.clone(), info);
                let ghost ge = e;
                entries.push(e);
                proof {
                    lemma_push_entry(fs, n as int, before, ge);
                }
            },
        }
        n = n + 1;
    }
    ModuleEscapeInfo { functions: entries }
}
// ---------------------------------------------------------------------------
// Report
// ---------------------------------------------------------------------------
pub open spec fn hint_name(h: AllocHint) -> Seq<char> {
    match h {
        AllocHint::Stack => "Stack"@,
        AllocHint::Heap => "Heap"@,
    }
}

/// One line `  local_<id>: <hint>` per hint.
pub open spec fn hints_text(hs: Seq<(u32, AllocHint)>) -> Seq<char>
    decreases hs.len(),
{
    if hs.len() == 0 {
        Seq::empty()
    } else {
        hints_text(hs.drop_last()) + "  local_"@ + decimal(hs.last().0 as nat) + ": "@ + hint_name(
            hs.last().1,
        ) + "\n"@
    }
}

/// The report of one function: nothing when it has no heap-typed locals.
pub open spec fn info_text(name: Seq<char>, e: EscapeInfo) -> Seq<char> {
    if e.heap_locals@.len() == 0 {
        Seq::empty()
    } else {
        "fn "@ + name + ": "@ + decimal(e.heap_locals@.len()) + " heap locals ("@ + decimal(
            e.stack_eligible as nat,
        ) + " stack-eligible, "@ + decimal(e.heap_required as nat) + " heap-required)\n"@
            + hints_text(e.hints@)
    }
}

pub open spec fn infos_text(fs: Seq<(String, EscapeInfo)>) -> Seq<char>
    decreases fs.len(),
{
    if fs.len() == 0 {
        Seq::empty()
    } else {
        infos_text(fs.drop_last()) + info_text(fs.last().0@, fs.last().1)
    }
}

fn hint_str(h: AllocHint) -> (r: &'static str)
    ensures
        r@ == hint_name(h),
{
    match h {
        AllocHint::Stack => "Stack",
        AllocHint::Heap => "Heap",
    }
}

fn append_info(out: &mut String, name: &str, e: &EscapeInfo)
    ensures
        final(out)@ == old(out)@ + info_text(name@, *e),
{
    if e.heap_locals.len() == 0 {
        proof {
            assert(old(out)@ + info_text(name@, *e) =~= old(out)@);
        }
        return;
    }
    let ghost o0 = out@;
    out.append("fn ");
    out.append(name);
    out.append(": ");
    out.append(u64_to_decimal(e.heap_locals.len() as u64).as_str());
    out.append(" heap locals (");
    out.append(u64_to_decimal(e.stack_eligible as u64).as_str());
    out.append(" stack-eligible, ");
    out.append(u64_to_decimal(e.heap_required as u64).as_str());
    out.append(" heap-required)\n");
    let ghost o1 = out@;
    let mut k: usize = 0;
    proof {
        assert(e.hints@.take(0) =~= Seq::<(u32, AllocHint)>::empty());
        assert(out@ =~= o1 + hints_text(e.hints@.take(0)));
    }
    while k < e.hints.len()
        invariant
            k <= e.hints@.len(),
            out@ == o1 + hints_text(e.hints@.take(k as int)),
        decreases e.hints.len() - k,
    {
        let (id, h) = e.hints[k];
        out.append("  local_");
        out.append(u64_to_decimal(id as u64).as_str());
        out.append(": ");
        out.append(hint_str(h));
        out.append("\n");
        proof {
            assert(e.hints@.take(k + 1).drop_last() =~= e.hints@.take(k as int));
            assert(out@ =~= o1 + hints_text(e.hints@.take(k + 1)));
        }
        k = k + 1;
    }
    proof {
        assert(e.hints@.take(e.hints@.len() as int) =~= e.hints@);
        assert(out@ =~= o0 + info_text(name@, *e));
    }
}

/// Render the analysis of a module as text: a header line, then for each
/// function with heap-typed locals a summary line and one line per local.
pub fn format_escape_info(info: &ModuleEscapeInfo) -> (r: String)
    ensures
        r@ == "=== Escape Analysis ===\n"@ + infos_text(info.functions@),
{
    let mut out = String::new();
    out.append("=== Escape Analysis ===\n");
    let ghost o0 = out@;
    let mut i: usize = 0;
    proof {
        assert(info.functions@.take(0) =~= Seq::<(String, EscapeInfo)>::empty());
        assert(out@ =~= o0 + infos_text(info.functions@.take(0)));
    }
    while i < info.functions.len()
        invariant
            i <= info.functions@.len(),
            out@ == o0 + infos_text(info.functions@.take(i as int)),
            o0 == "=== Escape Analysis ===\n"@,
        decreases info.functions.len() - i,
    {
        append_info(&mut out, info.functions[i].0.as_str(), &info.functions[i].1);
        proof {
            assert(info.functions@.take(i + 1).drop_last() =~= info.functions@.take(i as int));
            assert(out@ =~= o0 + infos_text(info.functions@.take(i + 1)));
        }
        i = i + 1;
    }
    proof {
        assert(info.functions@.take(info.functions@.len() as int) =~= info.functions@);
    }
    out
}
/// The number of hints that say a local can live on the stack.
pub open spec fn stack_count(hs: Seq<(u32, AllocHint)>) -> nat
    decreases hs.len(),
{
    if hs.len() == 0 {
        0
    } else {
        stack_count(hs.drop_last()) + if hs.last().1 == AllocHint::Stack {
            1nat
        } else {
            0nat
        }
    }
}

proof fn lemma_hint_counts(hs: Seq<(u32, AllocHint)>)
    ensures
        heap_count(hs) + stack_count(hs) == hs.len(),
    decreases hs.len(),
{
    if hs.len() > 0 {
        lemma_hint_counts(hs.drop_last());
    }
}

/// The escape analysis of a function gives one hint per heap-typed local,
/// in order; it counts as stack-eligible exactly the locals hinted `Stack`
/// and as heap-required exactly those hinted `Heap`, which together are the
/// heap-typed locals.
pub proof fn law_escape_counts(f: MirFunction, info: EscapeInfo)
    requires
        analysis_of(f, info),
    ensures
        info.hints@.len() == info.heap_locals@.len(),
        forall|i: int| 0 <= i < info.hints@.len() ==> (#[trigger] info.hints@[i]).0 == info.heap_locals@[i],
        info.stack_eligible == stack_count(info.hints@),
        info.heap_required == heap_count(info.hints@),
        info.stack_eligible + info.heap_required == info.heap_locals@.len(),
{
    lemma_hint_counts(info.hints@);
}
} // verus!
