//! Desugaring pass: convert backend-illegal operands (`IfExpr`, `LoopExpr`,
//! `TryExpr`) into statement form (`IfStmt`, `WhileStmt`, `Assign`), so that
//! the statements of every block are backend-legal.
//!
//! What each function writes is stated exactly by the spec functions of
//! `desugar_out`, over the input and the id counter at which it starts.
//!
//! The pass introduces fresh locals as temporaries for expression results.
//! Their ids are consecutive, starting one above the largest id among the
//! function's locals and parameters.
//!
//! The result types callers declare are given as a list of (function name,
//! result type); the first entry for a name is the one used.
use vstd::prelude::*;

use crate::mir::{
    blocks_view, BasicBlock, BlockView, MirFunction, Terminator, TerminatorView, clone_operand, clone_place, clone_stmt, lemma_operands_view, lemma_stmts_view,
    lemma_stmts_view_add, operand_view, operands_view, stmt_view, stmts_view, BinOp, LocalId,
    MirLocal, MirStmt, Operand, OperandView, Place, PlaceView, Rvalue, RvalueView, StmtView, UnaryOp,
    opt_string_view,
};
use crate::legality::{block_legal, stmts_legal, terminator_legal};
use crate::opt::infer::{infer_operand_type, infer_opt, merge_types, merge_types_spec, operand_type_spec};
use crate::opt::desugar_out::{ds_op, ds_ops, ds_res, ds_rvalue, ds_stmt, ds_stmts, ds_ret, ds_term, ds_term_stmts, ds_block, tmp_local};
use crate::opt::lowering::{
    lemma_clean_all_is_legal,     lemma_ops_push, lemma_stmts_append, lemma_stmts_empty, lemma_stmts_push, lowered_kind,
    lowers_if, lowers_loop, lowers_try, op_clean, op_count, op_temps, ops_clean, ops_count,
    ops_temps, res_temps, rvalue_clean, rvalue_count, rvalue_temps, stmt_clean, stmt_count,
    stmt_temps, stmts_clean, stmts_count, stmts_temps, term_count, term_lowered, term_temps,
    term_desugared, term_ops, term_with, DesugarMode,
};
use crate::types::{clone_type, Type};

verus! {

// ---------------------------------------------------------------------------
// Fresh locals
// ---------------------------------------------------------------------------
/// `new` is `old` followed by `k` locals with ids `start`, `start + 1`, ...
pub open spec fn extends_fresh(old: Seq<MirLocal>, new: Seq<MirLocal>, start: nat, k: nat) -> bool {
    &&& new.len() == old.len() + k
    &&& forall|i: int| 0 <= i < old.len() ==> new[i] == old[i]
    &&& forall|i: int| 0 <= i < k ==> (#[trigger] new[old.len() + i]).id.0 == start + i
}

/// The id counter advanced by `k` while `k` fresh locals were appended.
pub open spec fn frame(n0: u32, n1: u32, l0: Seq<MirLocal>, l1: Seq<MirLocal>, k: nat) -> bool {
    &&& n1 == n0 + k
    &&& extends_fresh(l0, l1, n0 as nat, k)
}

proof fn lemma_frame_refl(n: u32, l: Seq<MirLocal>)
    ensures
        frame(n, n, l, l, 0),
{
}

proof fn lemma_frame_trans(
    n0: u32,
    n1: u32,
    n2: u32,
    l0: Seq<MirLocal>,
    l1: Seq<MirLocal>,
    l2: Seq<MirLocal>,
    k1: nat,
    k2: nat,
)
    requires
        frame(n0, n1, l0, l1, k1),
        frame(n1, n2, l1, l2, k2),
    ensures
        frame(n0, n2, l0, l2, k1 + k2),
{
    assert forall|i: int| 0 <= i < k1 + k2 implies (#[trigger] l2[l0.len() + i]).id.0 == n0 + i by {
        if i < k1 {
            assert(l2[l0.len() + i] == l1[l0.len() + i]);
        } else {
            assert(l2[l0.len() + i] == l2[l1.len() + (i - k1)]);
        }
    }
}

fn fresh_local(next: &mut u32, locals: &mut Vec<MirLocal>, name: &str, ty: Type) -> (id: LocalId)
    requires
        *old(next) < u32::MAX,
    ensures
        id.0 == *old(next),
        frame(*old(next), *final(next), old(locals)@, final(locals)@, 1),
        opt_string_view(final(locals)@.last().name) == Some(name@),
        final(locals)@.last().ty == ty,
{
    let id = LocalId(*next);
    *next = *next + 1;
    locals.push(MirLocal { id, name: Some(name.to_owned()), ty });
    proof {
        assert(locals@[old(locals)@.len() as int] == locals@.last());
    }
    id
}

// ---------------------------------------------------------------------------
// Statement buffers
// ---------------------------------------------------------------------------
fn push_stmt(dst: &mut Vec<MirStmt>, s: MirStmt)
    ensures
        stmts_view(final(dst)@) == stmts_view(old(dst)@).push(s@),
{
    dst.push(s);
    proof {
        assert(final(dst)@.drop_last() =~= old(dst)@);
    }
}

fn append_stmts(dst: &mut Vec<MirStmt>, src: Vec<MirStmt>)
    ensures
        stmts_view(final(dst)@) == stmts_view(old(dst)@) + stmts_view(src@),
{
    let mut src = src;
    proof {
        lemma_stmts_view_add(dst@, src@);
    }
    dst.append(&mut src);
}

/// What desugaring an operand `o` into `new_o` after the statements `pre`
/// guarantees: nothing lowerable is left, the count is the one reported,
/// and an operand without work is returned unchanged.
pub open spec fn op_result(
    m: DesugarMode,
    o: OperandView,
    new_o: OperandView,
    pre: Seq<StmtView>,
    count: nat,
) -> bool {
    &&& op_clean(m, new_o)
    &&& stmts_clean(m, pre)
    &&& count == op_count(m, o)
    &&& count <= op_temps(m, o)
    &&& (op_temps(m, o) == 0 ==> new_o == o && pre.len() == 0)
}

pub open spec fn ops_result(
    m: DesugarMode,
    os: Seq<OperandView>,
    new_os: Seq<OperandView>,
    pre: Seq<StmtView>,
    count: nat,
) -> bool {
    &&& ops_clean(m, new_os)
    &&& new_os.len() == os.len()
    &&& stmts_clean(m, pre)
    &&& count == ops_count(m, os)
    &&& count <= ops_temps(m, os)
    &&& (ops_temps(m, os) == 0 ==> new_os == os && pre.len() == 0)
}

pub open spec fn stmts_result(
    m: DesugarMode,
    s: Seq<StmtView>,
    out: Seq<StmtView>,
    count: nat,
) -> bool {
    &&& stmts_clean(m, out)
    &&& count == stmts_count(m, s)
    &&& count <= stmts_temps(m, s)
    &&& (stmts_temps(m, s) == 0 ==> out == s)
}

// ---------------------------------------------------------------------------
// Operands
// ---------------------------------------------------------------------------
fn desugar_operand(
    op: &Operand,
    m: DesugarMode,
    next: &mut u32,
    params: &Vec<MirLocal>,
    locals: &mut Vec<MirLocal>,
    rets: &Vec<(String, Type)>,
) -> (res: (Operand, Vec<MirStmt>, usize))
    requires
        *old(next) + op_temps(m, op@) <= u32::MAX,
    ensures
        frame(*old(next), *final(next), old(locals)@, final(locals)@, op_temps(m, op@)),
        op_result(m, op@, res.0@, stmts_view(res.1@), res.2 as nat),
        res.0@ == ds_op(m, op@, *old(next) as nat).0,
        stmts_view(res.1@) == ds_op(m, op@, *old(next) as nat).1,
        (op is TryExpr && lowers_try(m)) ==> try_lowered(
            m,
            op@,
            res.0@,
            stmts_view(res.1@),
            *old(next) as nat,
            old(locals)@,
            final(locals)@,
            params@,
            rets@,
        ),
        (op is LoopExpr && lowers_loop(m)) ==> loop_lowered(
            m,
            op@,
            res.0@,
            stmts_view(res.1@),
            *old(next) as nat,
            old(locals)@,
            final(locals)@,
            params@,
            rets@,
        ),
        (op is IfExpr && lowers_if(m)) ==> if_lowered(
            m,
            op@,
            res.0@,
            stmts_view(res.1@),
            *old(next) as nat,
            old(locals)@,
            final(locals)@,
            params@,
            rets@,
        ),
    decreases op, 1nat,
{
    match op {
        Operand::IfExpr { .. } => {
            if lowers_if_mode(m) {
                return desugar_if_expr(op, m, next, params, locals, rets);
            }
        },
        Operand::LoopExpr { .. } => {
            if lowers_loop_mode(m) {
                return desugar_loop_expr(op, m, next, params, locals, rets);
            }
        },
        Operand::TryExpr { .. } => {
            if lowers_try_mode(m) {
                return desugar_try_expr(op, m, next, params, locals, rets);
            }
        },
        Operand::BinOp(..) | Operand::UnaryOp(..) | Operand::EnumTag(..) | Operand::Call(..)
        | Operand::FieldAccess { .. } | Operand::EnumPayload { .. } | Operand::CallIndirect {
            ..
        } => {
            return desugar_nested(op, m, next, params, locals, rets);
        },
        _ => {},
    }
    proof {
        lemma_frame_refl(*next, locals@);
        lemma_stmts_empty(m);
        assert(stmts_view(Seq::<MirStmt>::empty()) =~= Seq::<StmtView>::empty());
        reveal_with_fuel(op_clean, 2);
    }
    (clone_operand(op), Vec::new(), 0)
}

fn lowers_if_mode(m: DesugarMode) -> (r: bool)
    ensures
        r == lowers_if(m),
{
    matches!(m, DesugarMode::All | DesugarMode::IfOnly)
}

fn lowers_loop_mode(m: DesugarMode) -> (r: bool)
    ensures
        r == lowers_loop(m),
{
    matches!(m, DesugarMode::All | DesugarMode::LoopOnly)
}

fn lowers_try_mode(m: DesugarMode) -> (r: bool)
    ensures
        r == lowers_try(m),
{
    matches!(m, DesugarMode::All | DesugarMode::TryOnly)
}


proof fn lemma_ops_prefix(m: DesugarMode, s: Seq<Operand>, j: int)
    requires
        0 <= j < s.len(),
    ensures
        operands_view(s.take(j + 1)) == operands_view(s.take(j)).push(operand_view(s[j])),
        ops_temps(m, operands_view(s.take(j + 1))) <= ops_temps(m, operands_view(s)),
{
    assert(s.take(j + 1).drop_last() =~= s.take(j));
    assert(s.take(j + 1).last() == s[j]);
    assert(s.take(j + 1) + s.skip(j + 1) =~= s);
    crate::mir::lemma_operands_view_add(s.take(j + 1), s.skip(j + 1));
    crate::opt::lowering::lemma_ops_append(
        m,
        operands_view(s.take(j + 1)),
        operands_view(s.skip(j + 1)),
    );
}

proof fn lemma_stmts_prefix(m: DesugarMode, s: Seq<MirStmt>, j: int)
    requires
        0 <= j < s.len(),
    ensures
        stmts_view(s.take(j + 1)) == stmts_view(s.take(j)).push(stmt_view(s[j])),
        stmts_temps(m, stmts_view(s.take(j + 1))) <= stmts_temps(m, stmts_view(s)),
{
    assert(s.take(j + 1).drop_last() =~= s.take(j));
    assert(s.take(j + 1).last() == s[j]);
    assert(s.take(j + 1) + s.skip(j + 1) =~= s);
    lemma_stmts_view_add(s.take(j + 1), s.skip(j + 1));
    lemma_stmts_append(m, stmts_view(s.take(j + 1)), stmts_view(s.skip(j + 1)));
}

fn desugar_operand_list(
    ops: &Vec<Operand>,
    m: DesugarMode,
    next: &mut u32,
    params: &Vec<MirLocal>,
    locals: &mut Vec<MirLocal>,
    rets: &Vec<(String, Type)>,
) -> (res: (Vec<Operand>, Vec<MirStmt>, usize))
    requires
        *old(next) + ops_temps(m, operands_view(ops@)) <= u32::MAX,
    ensures
        frame(
            *old(next),
            *final(next),
            old(locals)@,
            final(locals)@,
            ops_temps(m, operands_view(ops@)),
        ),
        ops_result(m, operands_view(ops@), operands_view(res.0@), stmts_view(res.1@), res.2 as nat),
        operands_view(res.0@) == ds_ops(m, operands_view(ops@), *old(next) as nat).0,
        stmts_view(res.1@) == ds_ops(m, operands_view(ops@), *old(next) as nat).1,
    decreases ops, 1nat,
{
    let ghost n0 = *next;
    let ghost l0 = locals@;
    let mut result: Vec<Operand> = Vec::new();
    let mut pre: Vec<MirStmt> = Vec::new();
    let mut total: usize = 0;
    let mut i: usize = 0;
    proof {
        assert(ops@.take(0) =~= Seq::<Operand>::empty());
        assert(operands_view(ops@.take(0)) =~= Seq::<OperandView>::empty());
        assert(result@ =~= Seq::<Operand>::empty());
        assert(stmts_view(pre@) =~= Seq::<StmtView>::empty());
        lemma_stmts_empty(m);
    }
    #[verifier::loop_isolation(false)]
    while i < ops.len()
        invariant
            i <= ops.len(),
            frame(n0, *next, l0, locals@, ops_temps(m, operands_view(ops@.take(i as int)))),
            ops_result(
                m,
                operands_view(ops@.take(i as int)),
                operands_view(result@),
                stmts_view(pre@),
                total as nat,
            ),
            operands_view(result@) == ds_ops(m, operands_view(ops@.take(i as int)), n0 as nat).0,
            stmts_view(pre@) == ds_ops(m, operands_view(ops@.take(i as int)), n0 as nat).1,
        decreases ops.len() - i,
    {
        proof {
            broadcast use vstd::std_specs::vec::axiom_vec_index_decreases;

            assert(decreases_to!(ops => ops[i as int]));
            lemma_ops_prefix(m, ops@, i as int);
            crate::opt::lowering::lemma_ops_push(
                m,
                operands_view(ops@.take(i as int)),
                operand_view(ops@[i as int]),
            );
        }
        let ghost n1 = *next;
        let ghost l1 = locals@;
        let ghost p1 = stmts_view(pre@);
        let ghost r1 = result@;
        let (new_op, op_pre, c) = desugar_operand(&ops[i], m, next, params, locals, rets);
        proof {
            lemma_frame_trans(n0, n1, *next, l0, l1, locals@, ops_temps(m, operands_view(ops@.take(i as int))), op_temps(m, operand_view(ops@[i as int])));
            lemma_stmts_append(m, p1, stmts_view(op_pre@));
            assert(r1.push(new_op).drop_last() =~= r1);
            lemma_ops_push(m, operands_view(r1), new_op@);
            let tv = operands_view(ops@.take(i + 1));
            assert(tv.drop_last() =~= operands_view(ops@.take(i as int)));
            assert(tv.last() == operand_view(ops@[i as int]));
            assert(operands_view(r1.push(new_op)) == operands_view(r1).push(new_op@));
        }
        append_stmts(&mut pre, op_pre);
        result.push(new_op);
        total = total + c;
        i = i + 1;
    }
    proof {
        assert(ops@.take(ops.len() as int) =~= ops@);
    }
    (result, pre, total)
}

/// Desugar the operands nested in arithmetic, calls and accesses.
fn desugar_nested(
    op: &Operand,
    m: DesugarMode,
    next: &mut u32,
    params: &Vec<MirLocal>,
    locals: &mut Vec<MirLocal>,
    rets: &Vec<(String, Type)>,
) -> (res: (Operand, Vec<MirStmt>, usize))
    requires
        *old(next) + op_temps(m, op@) <= u32::MAX,
        op is BinOp || op is UnaryOp || op is EnumTag || op is Call || op is FieldAccess
            || op is EnumPayload || op is CallIndirect,
    ensures
        frame(*old(next), *final(next), old(locals)@, final(locals)@, op_temps(m, op@)),
        op_result(m, op@, res.0@, stmts_view(res.1@), res.2 as nat),
        res.0@ == ds_op(m, op@, *old(next) as nat).0,
        stmts_view(res.1@) == ds_op(m, op@, *old(next) as nat).1,
    decreases op, 0nat,
{
    match op {
        Operand::BinOp(bop, lhs, rhs) => {
            let ghost n0 = *next;
            let ghost l0 = locals@;
            let (a, mut pre, c1) = desugar_operand(lhs, m, next, params, locals, rets);
            let ghost n1 = *next;
            let ghost l1 = locals@;
            let ghost p1 = stmts_view(pre@);
            let (b, pre2, c2) = desugar_operand(rhs, m, next, params, locals, rets);
            proof {
                lemma_frame_trans(n0, n1, *next, l0, l1, locals@, op_temps(m, lhs@), op_temps(m, rhs@));
                lemma_stmts_append(m, p1, stmts_view(pre2@));
            }
            append_stmts(&mut pre, pre2);
            proof {
                lemma_stmts_view(pre@);
            }
            (Operand::BinOp(*bop, Box::new(a), Box::new(b)), pre, c1 + c2)
        },
        Operand::CallIndirect { callee, args } => {
            let ghost n0 = *next;
            let ghost l0 = locals@;
            let (new_callee, mut pre, c1) = desugar_operand(callee, m, next, params, locals, rets);
            let ghost n1 = *next;
            let ghost l1 = locals@;
            let ghost p1 = stmts_view(pre@);
            let (new_args, pre2, c2) = desugar_operand_list(args, m, next, params, locals, rets);
            proof {
                lemma_frame_trans(n0, n1, *next, l0, l1, locals@, op_temps(m, operand_view(**callee)), ops_temps(m, operands_view(args@)));
                lemma_stmts_append(m, p1, stmts_view(pre2@));
            }
            append_stmts(&mut pre, pre2);
            (Operand::CallIndirect { callee: Box::new(new_callee), args: new_args }, pre, c1 + c2)
        },
        Operand::Call(name, args) => {
            let (new_args, pre, c) = desugar_operand_list(args, m, next, params, locals, rets);
            (Operand::Call(name.clone(), new_args), pre, c)
        },
        Operand::UnaryOp(uop, inner) => {
            let (x, pre, c) = desugar_operand(inner, m, next, params, locals, rets);
            (Operand::UnaryOp(*uop, Box::new(x)), pre, c)
        },
        Operand::EnumTag(inner) => {
            let (x, pre, c) = desugar_operand(inner, m, next, params, locals, rets);
            (Operand::EnumTag(Box::new(x)), pre, c)
        },
        Operand::FieldAccess { object, struct_name, field } => {
            let (x, pre, c) = desugar_operand(object, m, next, params, locals, rets);
            (
                Operand::FieldAccess {
                    object: Box::new(x),
                    struct_name: struct_name.clone(),
                    field: field.clone(),
                },
                pre,
                c,
            )
        },
        Operand::EnumPayload { object, index, enum_name, variant_name } => {
            let (x, pre, c) = desugar_operand(object, m, next, params, locals, rets);
            (
                Operand::EnumPayload {
                    object: Box::new(x),
                    index: *index,
                    enum_name: enum_name.clone(),
                    variant_name: variant_name.clone(),
                },
                pre,
                c,
            )
        },
        _ => {
            proof {
                assert(false);
            }
            (Operand::Unit, Vec::new(), 0)
        },
    }
}


/// The value a branch of an `IfExpr` yields: its result, or unit without one.
pub open spec fn branch_value(r: Option<Box<OperandView>>) -> OperandView {
    match r {
        Some(b) => *b,
        None => OperandView::Unit,
    }
}

/// The statement that stores `v` in the temporary `tmp`.
pub open spec fn store_tmp(tmp: LocalId, v: OperandView) -> StmtView {
    StmtView::Assign(PlaceView::Local(tmp), RvalueView::Use(v))
}

/// `out` is a lowered branch with body `body` and result `res`: it ends by
/// storing a value in the temporary `tmp`, and where nothing in the branch
/// needs lowering it is the body followed by the store of the result.
pub open spec fn branch_shape(
    m: DesugarMode,
    body: Seq<StmtView>,
    res: Option<Box<OperandView>>,
    out: Seq<StmtView>,
    tmp: LocalId,
) -> bool {
    &&& out.len() >= 1
    &&& out.last() matches StmtView::Assign(PlaceView::Local(t), RvalueView::Use(_)) && t == tmp
    &&& (stmts_temps(m, body) == 0 && res_temps(m, res) == 0) ==> out == body.push(
        store_tmp(tmp, branch_value(res)),
    )
}

/// The type inferred for an optional result, unit without one.
pub open spec fn opt_type_spec(
    r: Option<Box<OperandView>>,
    params: Seq<MirLocal>,
    locals: Seq<MirLocal>,
    rets: Seq<(String, Type)>,
) -> crate::types::TypeView {
    match r {
        Some(b) => operand_type_spec(*b, params, locals, rets),
        None => crate::types::TypeView::Unit,
    }
}

/// The shape of a lowered `IfExpr` `o`, desugared with the id counter at `n0`
/// over the locals `l0`, into the operand `new_o` after the statements `pre`,
/// with `l1` the locals afterwards. The value is read from a fresh temporary,
/// named `_if_result`, whose id follows those of the condition's temporaries
/// and whose type merges the types of the two results; the last statement is
/// an `IfStmt` whose then-branch comes from the then-part and whose
/// else-branch comes from the else-part.
pub open spec fn if_lowered(
    m: DesugarMode,
    o: OperandView,
    new_o: OperandView,
    pre: Seq<StmtView>,
    n0: nat,
    l0: Seq<MirLocal>,
    l1: Seq<MirLocal>,
    params: Seq<MirLocal>,
    rets: Seq<(String, Type)>,
) -> bool {
    match o {
        OperandView::IfExpr { cond, then_body, then_result, else_body, else_result } => {
            let k = l0.len() + op_temps(m, *cond);
            let tmp = l1[k as int];
            &&& tmp.id.0 == n0 + op_temps(m, *cond)
            &&& opt_string_view(tmp.name) == Some("_if_result"@)
            &&& tmp.ty@ == merge_types_spec(
                opt_type_spec(then_result, params, l1.take(k as int), rets),
                opt_type_spec(else_result, params, l1.take(k as int), rets),
            )
            &&& new_o == OperandView::Place(PlaceView::Local(tmp.id))
            &&& pre.len() >= 1
            &&& pre.last() matches StmtView::IfStmt { cond: c, then_body: tb, else_body: eb }
                && branch_shape(m, then_body, then_result, tb, tmp.id)
                && branch_shape(m, else_body, else_result, eb, tmp.id)
                && (op_temps(m, *cond) == 0 ==> c == *cond && pre.len() == 1)
        },
        _ => true,
    }
}

/// The shape of a lowered `LoopExpr` `o`, desugared with the id counter at
/// `n0` over the locals `l0`, into the operand `new_o` after the statements
/// `pre`, with `l1` the locals afterwards. The value is read from a fresh
/// temporary, named `_loop_result`, whose id follows those of the initial
/// value's temporaries and whose type is that of the result, inferred over
/// `l0`. The statements store the initial value in it, run the body and store
/// the result; where nothing inside needs lowering they are exactly these.
pub open spec fn loop_lowered(
    m: DesugarMode,
    o: OperandView,
    new_o: OperandView,
    pre: Seq<StmtView>,
    n0: nat,
    l0: Seq<MirLocal>,
    l1: Seq<MirLocal>,
    params: Seq<MirLocal>,
    rets: Seq<(String, Type)>,
) -> bool {
    match o {
        OperandView::LoopExpr { init, body, result } => {
            let k = l0.len() + op_temps(m, *init);
            let tmp = l1[k as int];
            &&& tmp.id.0 == n0 + op_temps(m, *init)
            &&& opt_string_view(tmp.name) == Some("_loop_result"@)
            &&& tmp.ty@ == operand_type_spec(*result, params, l0, rets)
            &&& new_o == OperandView::Place(PlaceView::Local(tmp.id))
            &&& pre.len() >= 2
            &&& pre.last() matches StmtView::Assign(PlaceView::Local(t), RvalueView::Use(_)) && t
                == tmp.id
            &&& (op_temps(m, *init) == 0 && stmts_temps(m, body) == 0 && op_temps(m, *result) == 0)
                ==> pre == seq![store_tmp(tmp.id, *init)] + body + seq![store_tmp(tmp.id, *result)]
        },
        _ => true,
    }
}

/// Finish one branch of a lowered `IfExpr`: desugar its result, if any, and
/// assign it (or unit) to the temporary.
fn finish_branch(
    result: &Option<Box<Operand>>,
    tmp: LocalId,
    stmts: &mut Vec<MirStmt>,
    m: DesugarMode,
    next: &mut u32,
    params: &Vec<MirLocal>,
    locals: &mut Vec<MirLocal>,
    rets: &Vec<(String, Type)>,
)
    requires
        *old(next) + res_temps(m, crate::mir::opt_box_operand_view(*result)) <= u32::MAX,
    ensures
        frame(
            *old(next),
            *final(next),
            old(locals)@,
            final(locals)@,
            res_temps(m, crate::mir::opt_box_operand_view(*result)),
        ),
        stmts_clean(m, stmts_view(old(stmts)@)) ==> stmts_clean(m, stmts_view(final(stmts)@)),
        stmts_view(final(stmts)@) == stmts_view(old(stmts)@) + ds_res(
            m,
            crate::mir::opt_box_operand_view(*result),
            *old(next) as nat,
            tmp.0 as nat,
        ),
        stmts_view(final(stmts)@).len() >= 1,
        stmts_view(final(stmts)@).last() matches StmtView::Assign(PlaceView::Local(t), RvalueView::Use(_))
            && t == tmp,
        res_temps(m, crate::mir::opt_box_operand_view(*result)) == 0 ==> stmts_view(final(stmts)@)
            == stmts_view(old(stmts)@).push(
            store_tmp(tmp, branch_value(crate::mir::opt_box_operand_view(*result))),
        ),
    decreases result, 1nat,
{
    match result {
        Some(r) => {
            let (new_r, r_pre, _) = desugar_operand(r, m, next, params, locals, rets);
            let ghost s0 = stmts_view(stmts@);
            append_stmts(stmts, r_pre);
            let ghost s1 = stmts_view(stmts@);
            let assign = MirStmt::Assign(Place::Local(tmp), Rvalue::Use(new_r));
            proof {
                lemma_stmts_append(m, s0, stmts_view(r_pre@));
                lemma_stmts_push(m, s1, assign@);
                assert(stmt_clean(m, assign@));
            }
            push_stmt(stmts, assign);
        },
        None => {
            let assign = MirStmt::Assign(Place::Local(tmp), Rvalue::Use(Operand::Unit));
            proof {
                reveal_with_fuel(stmt_view, 4);
                assert(stmt_clean(m, assign@));
                lemma_stmts_push(m, stmts_view(stmts@), assign@);
                lemma_frame_refl(*next, locals@);
            }
            push_stmt(stmts, assign);
        },
    }
}

#[verifier::rlimit(60)]
fn desugar_if_expr(
    op: &Operand,
    m: DesugarMode,
    next: &mut u32,
    params: &Vec<MirLocal>,
    locals: &mut Vec<MirLocal>,
    rets: &Vec<(String, Type)>,
) -> (res: (Operand, Vec<MirStmt>, usize))
    requires
        *old(next) + op_temps(m, op@) <= u32::MAX,
        op is IfExpr,
        lowers_if(m),
    ensures
        frame(*old(next), *final(next), old(locals)@, final(locals)@, op_temps(m, op@)),
        op_result(m, op@, res.0@, stmts_view(res.1@), res.2 as nat),
        res.0@ == ds_op(m, op@, *old(next) as nat).0,
        stmts_view(res.1@) == ds_op(m, op@, *old(next) as nat).1,
        if_lowered(
            m,
            op@,
            res.0@,
            stmts_view(res.1@),
            *old(next) as nat,
            old(locals)@,
            final(locals)@,
            params@,
            rets@,
        ),
    decreases op, 0nat,
{
    match op {
        Operand::IfExpr { cond, then_body, then_result, else_body, else_result } => {
            let ghost tc = op_temps(m, operand_view(**cond));
            let ghost tt = stmts_temps(m, stmts_view(then_body@));
            let ghost rt = res_temps(m, crate::mir::opt_box_operand_view(*then_result));
            let ghost te = stmts_temps(m, stmts_view(else_body@));
            let ghost re = res_temps(m, crate::mir::opt_box_operand_view(*else_result));
            let ghost n0 = *next;
            let ghost l0 = locals@;
            let (new_cond, mut pre, c1) = desugar_operand(cond, m, next, params, locals, rets);
            let ghost n1 = *next;
            let ghost l1 = locals@;
            let t_ty = infer_opt(then_result, params, locals, rets);
            let e_ty = infer_opt(else_result, params, locals, rets);
            let tmp = fresh_local(next, locals, "_if_result", merge_types(t_ty, e_ty));
            let ghost n2 = *next;
            let ghost l2 = locals@;
            let (mut then_stmts, c2) = desugar_stmt_list(then_body, m, next, params, locals, rets);
            let ghost n3 = *next;
            let ghost l3 = locals@;
            let ghost ts = stmts_view(then_stmts@);
            finish_branch(then_result, tmp, &mut then_stmts, m, next, params, locals, rets);
            let ghost n4 = *next;
            let ghost l4 = locals@;
            let (mut else_stmts, c3) = desugar_stmt_list(else_body, m, next, params, locals, rets);
            let ghost n5 = *next;
            let ghost l5 = locals@;
            let ghost es = stmts_view(else_stmts@);
            finish_branch(else_result, tmp, &mut else_stmts, m, next, params, locals, rets);
            proof {
                lemma_frame_trans(n2, n3, n4, l2, l3, l4, tt, rt);
                lemma_frame_trans(n2, n4, n5, l2, l4, l5, tt + rt, te);
                lemma_frame_trans(n2, n5, *next, l2, l5, locals@, tt + rt + te, re);
                assert(locals@[l1.len() as int] == l2[l1.len() as int]);
                assert(locals@.take(l1.len() as int) =~= l1);
            }
            proof {
                lemma_frame_trans(n0, n1, n2, l0, l1, l2, tc, 1);
                lemma_frame_trans(n0, n2, n3, l0, l2, l3, tc + 1, tt);
                lemma_frame_trans(n0, n3, n4, l0, l3, l4, tc + 1 + tt, rt);
                lemma_frame_trans(n0, n4, n5, l0, l4, l5, tc + 1 + tt + rt, te);
                lemma_frame_trans(n0, n5, *next, l0, l5, locals@, tc + 1 + tt + rt + te, re);
            }
            let s = MirStmt::IfStmt { cond: new_cond, then_body: then_stmts, else_body: else_stmts };
            proof {
                lemma_stmts_push(m, stmts_view(pre@), s@);
            }
            push_stmt(&mut pre, s);
            let r = Operand::Place(Place::Local(tmp));
            proof {
                assert(crate::mir::place_view(Place::Local(tmp)) == PlaceView::Local(tmp));
                assert(r@ == OperandView::Place(PlaceView::Local(tmp)));
            }
            (r, pre, 1 + c1 + c2 + c3)
        },
        _ => {
            proof {
                assert(false);
            }
            (Operand::Unit, Vec::new(), 0)
        },
    }
}

fn desugar_loop_expr(
    op: &Operand,
    m: DesugarMode,
    next: &mut u32,
    params: &Vec<MirLocal>,
    locals: &mut Vec<MirLocal>,
    rets: &Vec<(String, Type)>,
) -> (res: (Operand, Vec<MirStmt>, usize))
    requires
        *old(next) + op_temps(m, op@) <= u32::MAX,
        op is LoopExpr,
        lowers_loop(m),
    ensures
        frame(*old(next), *final(next), old(locals)@, final(locals)@, op_temps(m, op@)),
        op_result(m, op@, res.0@, stmts_view(res.1@), res.2 as nat),
        res.0@ == ds_op(m, op@, *old(next) as nat).0,
        stmts_view(res.1@) == ds_op(m, op@, *old(next) as nat).1,
        loop_lowered(
            m,
            op@,
            res.0@,
            stmts_view(res.1@),
            *old(next) as nat,
            old(locals)@,
            final(locals)@,
            params@,
            rets@,
        ),
    decreases op, 0nat,
{
    match op {
        Operand::LoopExpr { init, body, result } => {
            let ghost ti = op_temps(m, operand_view(**init));
            let ghost tb = stmts_temps(m, stmts_view(body@));
            let ghost tr = op_temps(m, operand_view(**result));
            let result_ty = infer_operand_type(result, params, locals, rets);
            let ghost n0 = *next;
            let ghost l0 = locals@;
            let (new_init, mut pre, c1) = desugar_operand(init, m, next, params, locals, rets);
            let ghost n1 = *next;
            let ghost l1 = locals@;
            let tmp = fresh_local(next, locals, "_loop_result", result_ty);
            let ghost n2 = *next;
            let ghost l2 = locals@;
            let a1 = MirStmt::Assign(Place::Local(tmp), Rvalue::Use(new_init));
            let ghost ip = stmts_view(pre@);
            proof {
                lemma_stmts_push(m, stmts_view(pre@), a1@);
                assert(crate::mir::place_view(Place::Local(tmp)) == PlaceView::Local(tmp));
                assert(a1@ == store_tmp(tmp, new_init@));
                assert(tmp == tmp_local((n0 + ti) as nat));
            }
            push_stmt(&mut pre, a1);
            let ghost p2 = stmts_view(pre@);
            let (new_body, c2) = desugar_stmt_list(body, m, next, params, locals, rets);
            let ghost n3 = *next;
            let ghost l3 = locals@;
            let ghost nb = stmts_view(new_body@);
            proof {
                lemma_stmts_append(m, stmts_view(pre@), stmts_view(new_body@));
            }
            append_stmts(&mut pre, new_body);
            let (new_result, result_pre, c3) = desugar_operand(
                result,
                m,
                next,
                params,
                locals,
                rets,
            );
            proof {
                lemma_stmts_append(m, stmts_view(pre@), stmts_view(result_pre@));
            }
            let ghost rp = stmts_view(result_pre@);
            append_stmts(&mut pre, result_pre);
            let a2 = MirStmt::Assign(Place::Local(tmp), Rvalue::Use(new_result));
            proof {
                assert(a2@ == store_tmp(tmp, new_result@));
                assert(stmts_view(pre@) == ip.push(a1@) + nb + rp);
                lemma_stmts_push(m, stmts_view(pre@), a2@);
                lemma_frame_trans(n0, n1, n2, l0, l1, l2, ti, 1);
                lemma_frame_trans(n0, n2, n3, l0, l2, l3, ti + 1, tb);
                lemma_frame_trans(n0, n3, *next, l0, l3, locals@, ti + 1 + tb, tr);
            }
            push_stmt(&mut pre, a2);
            let r = Operand::Place(Place::Local(tmp));
            proof {
                assert(stmts_view(pre@) == (ip.push(a1@) + nb + rp).push(a2@));
                assert((ip.push(a1@) + nb + rp).push(a2@) =~= ip.push(a1@) + nb + rp.push(a2@));
                lemma_frame_trans(n2, n3, *next, l2, l3, locals@, tb, tr);
                assert(locals@[l1.len() as int] == l2[l1.len() as int]);
                assert(crate::mir::place_view(Place::Local(tmp)) == PlaceView::Local(tmp));
                assert(r@ == OperandView::Place(PlaceView::Local(tmp)));
                if ti == 0 && tb == 0 && tr == 0 {
                    assert(p2 =~= seq![store_tmp(tmp, operand_view(**init))]);
                    assert(stmts_view(pre@) =~= seq![store_tmp(tmp, operand_view(**init))]
                        + stmts_view(body@) + seq![store_tmp(tmp, operand_view(**result))]);
                }
            }
            (r, pre, 1 + c1 + c2 + c3)
        },
        _ => {
            proof {
                assert(false);
            }
            (Operand::Unit, Vec::new(), 0)
        },
    }
}

/// The type a successful `?` yields from a value of type `t`.
pub open spec fn try_ok_spec(t: crate::types::TypeView) -> crate::types::TypeView {
    match t {
        crate::types::TypeView::Option(inner) => *inner,
        crate::types::TypeView::Result(ok, _) => *ok,
        _ => crate::types::TypeView::Any,
    }
}

/// The payload of the `Result` variant `variant` held in the local `l`.
pub open spec fn payload_of(l: LocalId, variant: Seq<char>) -> OperandView {
    OperandView::EnumPayload {
        object: Box::new(OperandView::Place(PlaceView::Local(l))),
        index: 0,
        enum_name: "Result"@,
        variant_name: variant,
    }
}

/// `Result::Err(payload)`.
pub open spec fn err_of(payload: OperandView) -> OperandView {
    OperandView::EnumInit { enum_name: "Result"@, variant: "Err"@, tag: 1, payload: seq![payload] }
}

/// `tag(l) != 0`.
pub open spec fn tag_is_err_spec(l: LocalId) -> OperandView {
    OperandView::BinOp(
        BinOp::Ne,
        Box::new(OperandView::EnumTag(Box::new(OperandView::Place(PlaceView::Local(l))))),
        Box::new(OperandView::ConstI32(0)),
    )
}

/// The check of a lowered `?` on the value held in `e`: return its error,
/// converted by `from_fn` when one is given, or else store its `Ok` payload
/// in `ok`.
pub open spec fn try_check_spec(e: LocalId, ok: LocalId, from_fn: Option<Seq<char>>) -> StmtView {
    let err = payload_of(e, "Err"@);
    let val = match from_fn {
        Some(f) => OperandView::Call(f, seq![err]),
        None => err,
    };
    StmtView::IfStmt {
        cond: tag_is_err_spec(e),
        then_body: seq![StmtView::Return(Some(err_of(val)))],
        else_body: seq![store_tmp(ok, payload_of(e, "Ok"@))],
    }
}

/// The shape of a lowered `TryExpr` `o`, desugared with the id counter at
/// `n0` over the locals `l0`, into the operand `new_o` after the statements
/// `pre`, with `l1` the locals afterwards. Two fresh temporaries follow the
/// inner value's: `_try_expr`, of the inner value's type inferred over `l0`,
/// and `_try_ok`, of the type a successful `?` yields from it. The statements
/// store the inner value in the first and end with the check; the value is
/// read from the second. Where the inner value needs no lowering these two
/// statements are all.
pub open spec fn try_lowered(
    m: DesugarMode,
    o: OperandView,
    new_o: OperandView,
    pre: Seq<StmtView>,
    n0: nat,
    l0: Seq<MirLocal>,
    l1: Seq<MirLocal>,
    params: Seq<MirLocal>,
    rets: Seq<(String, Type)>,
) -> bool {
    match o {
        OperandView::TryExpr { expr, from_fn } => {
            let k = l0.len() + op_temps(m, *expr);
            let e = l1[k as int];
            let ok = l1[k + 1int];
            let t = operand_type_spec(*expr, params, l0, rets);
            &&& e.id.0 == n0 + op_temps(m, *expr)
            &&& opt_string_view(e.name) == Some("_try_expr"@)
            &&& e.ty@ == t
            &&& ok.id.0 == n0 + op_temps(m, *expr) + 1
            &&& opt_string_view(ok.name) == Some("_try_ok"@)
            &&& ok.ty@ == try_ok_spec(t)
            &&& new_o == OperandView::Place(PlaceView::Local(ok.id))
            &&& pre.len() >= 2
            &&& pre.last() == try_check_spec(e.id, ok.id, from_fn)
            &&& pre[pre.len() - 2] matches StmtView::Assign(PlaceView::Local(x), RvalueView::Use(_))
                && x == e.id
            &&& op_temps(m, *expr) == 0 ==> pre == seq![
                store_tmp(e.id, *expr),
                try_check_spec(e.id, ok.id, from_fn),
            ]
        },
        _ => true,
    }
}

/// The type a successful `?` yields from a value of type `t`.
fn try_ok_type(t: &Type) -> (r: Type)
    ensures
        r@ == try_ok_spec(t@),
{
    match t {
        Type::Option(inner) => clone_type(inner),
        Type::Result(ok, _) => clone_type(ok),
        _ => Type::Any,
    }
}

/// `Result::Err(payload)`.
fn err_variant(payload: Operand) -> (r: Operand)
    ensures
        r@ == err_of(payload@),
        forall|m: DesugarMode| op_clean(m, #[trigger] r@),
{
    let v = vec![payload];
    proof {
        crate::mir::lemma_operands_view(v@);
        assert(crate::mir::operands_view(v@) =~= seq![v@[0]@]);
    }
    Operand::EnumInit { enum_name: "Result".to_owned(), variant: "Err".to_owned(), tag: 1, payload: v }
}

/// The payload of `Result` variant `variant` held in local `local`.
fn result_payload(local: LocalId, variant: &str) -> (r: Operand)
    ensures
        r@ == payload_of(local, variant@),
        forall|m: DesugarMode| op_clean(m, #[trigger] r@),
{
    let r = Operand::EnumPayload {
        object: Box::new(Operand::Place(Place::Local(local))),
        index: 0,
        enum_name: "Result".to_owned(),
        variant_name: variant.to_owned(),
    };
    proof {
        reveal_with_fuel(operand_view, 3);
        let inner = Operand::Place(Place::Local(local));
        assert(inner@ == OperandView::Place(crate::mir::PlaceView::Local(local)));
        assert(r@->EnumPayload_object == Box::new(inner@));
        assert forall|m: DesugarMode| op_clean(m, #[trigger] r@) by {
            assert(op_clean(m, inner@));
        }
    }
    r
}

/// Every form of the check of a lowered `?` is free of lowerable operands.
proof fn lemma_try_check_clean(e: LocalId, ok: LocalId, from_fn: Option<Seq<char>>)
    ensures
        forall|m: DesugarMode| stmt_clean(m, #[trigger] try_check_spec(e, ok, from_fn)),
{
    let place = OperandView::Place(PlaceView::Local(e));
    let err = payload_of(e, "Err"@);
    let val = match from_fn {
        Some(f) => OperandView::Call(f, seq![err]),
        None => err,
    };
    let ret = StmtView::Return(Some(err_of(val)));
    let set_ok = store_tmp(ok, payload_of(e, "Ok"@));
    assert forall|m: DesugarMode| stmt_clean(m, #[trigger] try_check_spec(e, ok, from_fn)) by {
        reveal_with_fuel(op_clean, 3);
        assert(op_clean(m, place));
        assert(op_clean(m, OperandView::EnumTag(Box::new(place))));
        assert(op_clean(m, tag_is_err_spec(e)));
        assert(op_clean(m, err));
        assert(ops_clean(m, seq![err])) by {
            crate::opt::lowering::lemma_ops_push(m, Seq::<OperandView>::empty(), err);
            assert(Seq::<OperandView>::empty().push(err) =~= seq![err]);
        }
        assert(op_clean(m, val));
        assert(ops_clean(m, seq![val])) by {
            crate::opt::lowering::lemma_ops_push(m, Seq::<OperandView>::empty(), val);
            assert(Seq::<OperandView>::empty().push(val) =~= seq![val]);
        }
        assert(op_clean(m, err_of(val)));
        assert(op_clean(m, payload_of(e, "Ok"@)));
        assert(stmt_clean(m, ret));
        assert(stmt_clean(m, set_ok));
        lemma_stmts_push(m, Seq::<StmtView>::empty(), ret);
        assert(Seq::<StmtView>::empty().push(ret) =~= seq![ret]);
        lemma_stmts_push(m, Seq::<StmtView>::empty(), set_ok);
        assert(Seq::<StmtView>::empty().push(set_ok) =~= seq![set_ok]);
    }
}

/// `if tag(expr_tmp) != 0 { return Err(..) } else { ok_tmp = payload }`:
/// the early return of `?`, converting the error with `from_fn` if given.
fn try_check(expr_tmp: LocalId, ok_tmp: LocalId, from_fn: &Option<String>) -> (s: MirStmt)
    ensures
        s@ == try_check_spec(expr_tmp, ok_tmp, opt_string_view(*from_fn)),
        forall|m: DesugarMode| stmt_clean(m, #[trigger] s@),
{
    let cond = tag_is_err(expr_tmp);
    let err_payload = result_payload(expr_tmp, "Err");
    let err_return_val = match from_fn {
        Some(conv_fn) => {
            let args = vec![err_payload];
            proof {
                crate::mir::lemma_operands_view(args@);
                assert(crate::mir::operands_view(args@) =~= seq![args@[0]@]);
            }
            err_variant(Operand::Call(conv_fn.clone(), args))
        },
        None => err_variant(err_payload),
    };
    let ok_payload = result_payload(expr_tmp, "Ok");
    let ret = MirStmt::Return(Some(err_return_val));
    let set_ok = MirStmt::Assign(Place::Local(ok_tmp), Rvalue::Use(ok_payload));
    proof {
        assert(crate::mir::place_view(Place::Local(ok_tmp)) == PlaceView::Local(ok_tmp));
        assert(set_ok@ == store_tmp(ok_tmp, payload_of(expr_tmp, "Ok"@)));
        assert(ret@ == StmtView::Return(Some(err_return_val@)));
    }
    let then_body = single(ret);
    let else_body = single(set_ok);
    let s = MirStmt::IfStmt { cond, then_body, else_body };
    proof {
        lemma_try_check_clean(expr_tmp, ok_tmp, opt_string_view(*from_fn));
    }
    s
}

/// `tag(local) != 0`: the value held in `local` is not the first variant.
fn tag_is_err(local: LocalId) -> (c: Operand)
    ensures
        c@ == tag_is_err_spec(local),
        forall|m: DesugarMode| op_clean(m, #[trigger] c@),
{
    let c = Operand::BinOp(
        BinOp::Ne,
        Box::new(Operand::EnumTag(Box::new(Operand::Place(Place::Local(local))))),
        Box::new(Operand::ConstI32(0)),
    );
    proof {
        reveal_with_fuel(operand_view, 4);
        let pv = OperandView::Place(crate::mir::PlaceView::Local(local));
        let tv = OperandView::EnumTag(Box::new(pv));
        let zv = OperandView::ConstI32(0);
        assert(c@ == OperandView::BinOp(BinOp::Ne, Box::new(tv), Box::new(zv)));
        assert forall|m: DesugarMode| op_clean(m, #[trigger] c@) by {
            assert(op_clean(m, pv));
            assert(op_clean(m, tv));
            assert(op_clean(m, zv));
        }
    }
    c
}

fn desugar_try_expr(
    op: &Operand,
    m: DesugarMode,
    next: &mut u32,
    params: &Vec<MirLocal>,
    locals: &mut Vec<MirLocal>,
    rets: &Vec<(String, Type)>,
) -> (res: (Operand, Vec<MirStmt>, usize))
    requires
        *old(next) + op_temps(m, op@) <= u32::MAX,
        op is TryExpr,
        lowers_try(m),
    ensures
        frame(*old(next), *final(next), old(locals)@, final(locals)@, op_temps(m, op@)),
        op_result(m, op@, res.0@, stmts_view(res.1@), res.2 as nat),
        res.0@ == ds_op(m, op@, *old(next) as nat).0,
        stmts_view(res.1@) == ds_op(m, op@, *old(next) as nat).1,
        try_lowered(
            m,
            op@,
            res.0@,
            stmts_view(res.1@),
            *old(next) as nat,
            old(locals)@,
            final(locals)@,
            params@,
            rets@,
        ),
    decreases op, 0nat,
{
    match op {
        Operand::TryExpr { expr, from_fn } => {
            let ghost te = op_temps(m, operand_view(**expr));
            let expr_ty = infer_operand_type(expr, params, locals, rets);
            let ghost n0 = *next;
            let ghost l0 = locals@;
            let (new_expr, mut pre, c1) = desugar_operand(expr, m, next, params, locals, rets);
            let ghost n1 = *next;
            let ghost l1 = locals@;
            let ok_ty = try_ok_type(&expr_ty);
            let expr_tmp = fresh_local(next, locals, "_try_expr", expr_ty);
            let ghost n2 = *next;
            let ghost l2 = locals@;
            let a1 = MirStmt::Assign(Place::Local(expr_tmp), Rvalue::Use(new_expr));
            proof {
                lemma_stmts_push(m, stmts_view(pre@), a1@);
            }
            push_stmt(&mut pre, a1);
            let ok_tmp = fresh_local(next, locals, "_try_ok", ok_ty);
            let s = try_check(expr_tmp, ok_tmp, from_fn);
            proof {
                lemma_stmts_push(m, stmts_view(pre@), s@);
                lemma_frame_trans(n0, n1, n2, l0, l1, l2, te, 1);
                lemma_frame_trans(n0, n2, *next, l0, l2, locals@, te + 1, 1);
            }
            let ghost p3 = stmts_view(pre@);
            push_stmt(&mut pre, s);
            let r = Operand::Place(Place::Local(ok_tmp));
            proof {
                assert(locals@[l1.len() as int] == l2[l1.len() as int]);
                assert(crate::mir::place_view(Place::Local(ok_tmp)) == PlaceView::Local(ok_tmp));
                assert(r@ == OperandView::Place(PlaceView::Local(ok_tmp)));
                assert(crate::mir::place_view(Place::Local(expr_tmp)) == PlaceView::Local(expr_tmp));
                assert(stmts_view(pre@)[stmts_view(pre@).len() - 2] == p3.last());
                if te == 0 {
                    assert(stmts_view(pre@) =~= seq![
                        store_tmp(expr_tmp, operand_view(**expr)),
                        try_check_spec(expr_tmp, ok_tmp, opt_string_view(*from_fn)),
                    ]);
                }
            }
            (r, pre, 1 + c1)
        },
        _ => {
            proof {
                assert(false);
            }
            (Operand::Unit, Vec::new(), 0)
        },
    }
}

// ---------------------------------------------------------------------------
// Statements
// ---------------------------------------------------------------------------
fn desugar_rvalue(
    rvalue: &Rvalue,
    m: DesugarMode,
    next: &mut u32,
    params: &Vec<MirLocal>,
    locals: &mut Vec<MirLocal>,
    rets: &Vec<(String, Type)>,
) -> (res: (Rvalue, Vec<MirStmt>, usize))
    requires
        *old(next) + rvalue_temps(m, rvalue@) <= u32::MAX,
    ensures
        frame(*old(next), *final(next), old(locals)@, final(locals)@, rvalue_temps(m, rvalue@)),
        rvalue_clean(m, res.0@),
        stmts_clean(m, stmts_view(res.1@)),
        res.2 == rvalue_count(m, rvalue@),
        res.2 <= rvalue_temps(m, rvalue@),
        rvalue_temps(m, rvalue@) == 0 ==> res.0@ == rvalue@ && res.1@.len() == 0,
        res.0@ == ds_rvalue(m, rvalue@, *old(next) as nat).0,
        stmts_view(res.1@) == ds_rvalue(m, rvalue@, *old(next) as nat).1,
    decreases rvalue, 1nat,
{
    match rvalue {
        Rvalue::Use(o) => {
            let (x, pre, c) = desugar_operand(o, m, next, params, locals, rets);
            proof {
                lemma_stmts_view(pre@);
            }
            (Rvalue::Use(x), pre, c)
        },
        Rvalue::BinaryOp(bop, lhs, rhs) => {
            let ghost n0 = *next;
            let ghost l0 = locals@;
            let (a, mut pre, c1) = desugar_operand(lhs, m, next, params, locals, rets);
            let ghost n1 = *next;
            let ghost l1 = locals@;
            let ghost p1 = stmts_view(pre@);
            let (b, pre2, c2) = desugar_operand(rhs, m, next, params, locals, rets);
            proof {
                lemma_frame_trans(n0, n1, *next, l0, l1, locals@, op_temps(m, lhs@), op_temps(m, rhs@));
                lemma_stmts_append(m, p1, stmts_view(pre2@));
            }
            append_stmts(&mut pre, pre2);
            proof {
                lemma_stmts_view(pre@);
            }
            (Rvalue::BinaryOp(*bop, a, b), pre, c1 + c2)
        },
        Rvalue::UnaryOp(uop, o) => {
            let (x, pre, c) = desugar_operand(o, m, next, params, locals, rets);
            proof {
                lemma_stmts_view(pre@);
            }
            (Rvalue::UnaryOp(*uop, x), pre, c)
        },
        Rvalue::Aggregate(kind, ops) => {
            let (xs, pre, c) = desugar_operand_list(ops, m, next, params, locals, rets);
            proof {
                lemma_stmts_view(pre@);
            }
            (Rvalue::Aggregate(crate::mir::clone_aggregate_kind(kind), xs), pre, c)
        },
        Rvalue::Ref(p) => {
            proof {
                lemma_frame_refl(*next, locals@);
            }
            (Rvalue::Ref(clone_place(p)), Vec::new(), 0)
        },
    }
}

/// What desugaring one statement guarantees.
pub open spec fn stmt_result(m: DesugarMode, s: StmtView, out: Seq<StmtView>, count: nat) -> bool {
    &&& stmts_clean(m, out)
    &&& count == stmt_count(m, s)
    &&& count <= stmt_temps(m, s)
    &&& (stmt_temps(m, s) == 0 ==> out == seq![s])
}

/// `pre` followed by `s`.
fn then_push(pre: Vec<MirStmt>, s: MirStmt) -> (r: Vec<MirStmt>)
    ensures
        stmts_view(r@) == stmts_view(pre@).push(s@),
{
    let mut r = pre;
    push_stmt(&mut r, s);
    r
}

fn single(s: MirStmt) -> (r: Vec<MirStmt>)
    ensures
        stmts_view(r@) == seq![s@],
{
    let r = vec![s];
    proof {
        lemma_stmts_view(r@);
        assert(stmts_view(r@) =~= seq![s@]);
    }
    r
}

fn desugar_stmt(
    stmt: &MirStmt,
    m: DesugarMode,
    next: &mut u32,
    params: &Vec<MirLocal>,
    locals: &mut Vec<MirLocal>,
    rets: &Vec<(String, Type)>,
) -> (res: (Vec<MirStmt>, usize))
    requires
        *old(next) + stmt_temps(m, stmt@) <= u32::MAX,
    ensures
        frame(*old(next), *final(next), old(locals)@, final(locals)@, stmt_temps(m, stmt@)),
        stmt_result(m, stmt@, stmts_view(res.0@), res.1 as nat),
        stmts_view(res.0@) == ds_stmt(m, stmt@, *old(next) as nat),
    decreases stmt, 1nat,
{
    match stmt {
        MirStmt::Assign(..) => desugar_assign(stmt, m, next, params, locals, rets),
        MirStmt::Call { .. } | MirStmt::CallBuiltin { .. } => desugar_call_stmt(
            stmt,
            m,
            next,
            params,
            locals,
            rets,
        ),
        MirStmt::IfStmt { .. } => desugar_if_stmt(stmt, m, next, params, locals, rets),
        MirStmt::WhileStmt { .. } => desugar_while_stmt(stmt, m, next, params, locals, rets),
        MirStmt::Return(Some(_)) => desugar_return(stmt, m, next, params, locals, rets),
        _ => {
            proof {
                lemma_frame_refl(*next, locals@);
                lemma_stmts_push(m, Seq::<StmtView>::empty(), stmt@);
                assert(Seq::<StmtView>::empty().push(stmt@) =~= seq![stmt@]);
                assert(stmt_clean(m, stmt@));
            }
            (single(clone_stmt(stmt)), 0)
        },
    }
}

fn desugar_assign(
    stmt: &MirStmt,
    m: DesugarMode,
    next: &mut u32,
    params: &Vec<MirLocal>,
    locals: &mut Vec<MirLocal>,
    rets: &Vec<(String, Type)>,
) -> (res: (Vec<MirStmt>, usize))
    requires
        *old(next) + stmt_temps(m, stmt@) <= u32::MAX,
        stmt is Assign,
    ensures
        frame(*old(next), *final(next), old(locals)@, final(locals)@, stmt_temps(m, stmt@)),
        stmt_result(m, stmt@, stmts_view(res.0@), res.1 as nat),
        stmts_view(res.0@) == ds_stmt(m, stmt@, *old(next) as nat),
    decreases stmt, 0nat,
{
    match stmt {
        MirStmt::Assign(place, rvalue) => {
            let (new_rvalue, pre, c) = desugar_rvalue(rvalue, m, next, params, locals, rets);
            let s = MirStmt::Assign(clone_place(place), new_rvalue);
            proof {
                lemma_stmts_push(m, stmts_view(pre@), s@);
                lemma_stmts_view(pre@);
                if stmt_temps(m, stmt@) == 0 {
                    assert(stmts_view(pre@) =~= Seq::<StmtView>::empty());
                    assert(Seq::<StmtView>::empty().push(s@) =~= seq![s@]);
                }
            }
            (then_push(pre, s), c)
        },
        _ => {
            proof {
                assert(false);
            }
            (Vec::new(), 0)
        },
    }
}

fn desugar_return(
    stmt: &MirStmt,
    m: DesugarMode,
    next: &mut u32,
    params: &Vec<MirLocal>,
    locals: &mut Vec<MirLocal>,
    rets: &Vec<(String, Type)>,
) -> (res: (Vec<MirStmt>, usize))
    requires
        *old(next) + stmt_temps(m, stmt@) <= u32::MAX,
        stmt matches MirStmt::Return(Some(_)),
    ensures
        frame(*old(next), *final(next), old(locals)@, final(locals)@, stmt_temps(m, stmt@)),
        stmt_result(m, stmt@, stmts_view(res.0@), res.1 as nat),
        stmts_view(res.0@) == ds_stmt(m, stmt@, *old(next) as nat),
    decreases stmt, 0nat,
{
    match stmt {
        MirStmt::Return(Some(o)) => {
            let (x, pre, c) = desugar_operand(o, m, next, params, locals, rets);
            let s = MirStmt::Return(Some(x));
            proof {
                lemma_stmts_push(m, stmts_view(pre@), s@);
                lemma_stmts_view(pre@);
                if stmt_temps(m, stmt@) == 0 {
                    assert(stmts_view(pre@) =~= Seq::<StmtView>::empty());
                    assert(Seq::<StmtView>::empty().push(s@) =~= seq![s@]);
                }
            }
            (then_push(pre, s), c)
        },
        _ => {
            proof {
                assert(false);
            }
            (Vec::new(), 0)
        },
    }
}

fn desugar_call_stmt(
    stmt: &MirStmt,
    m: DesugarMode,
    next: &mut u32,
    params: &Vec<MirLocal>,
    locals: &mut Vec<MirLocal>,
    rets: &Vec<(String, Type)>,
) -> (res: (Vec<MirStmt>, usize))
    requires
        *old(next) + stmt_temps(m, stmt@) <= u32::MAX,
        stmt is Call || stmt is CallBuiltin,
    ensures
        frame(*old(next), *final(next), old(locals)@, final(locals)@, stmt_temps(m, stmt@)),
        stmt_result(m, stmt@, stmts_view(res.0@), res.1 as nat),
        stmts_view(res.0@) == ds_stmt(m, stmt@, *old(next) as nat),
    decreases stmt, 0nat,
{
    match stmt {
        MirStmt::Call { dest, func, args } => {
            let (new_args, pre, c) = desugar_operand_list(args, m, next, params, locals, rets);
            let s = MirStmt::Call {
                dest: crate::mir::clone_opt_place(dest),
                func: *func,
                args: new_args,
            };
            proof {
                lemma_stmts_push(m, stmts_view(pre@), s@);
                lemma_stmts_view(pre@);
                if stmt_temps(m, stmt@) == 0 {
                    assert(stmts_view(pre@) =~= Seq::<StmtView>::empty());
                    assert(Seq::<StmtView>::empty().push(s@) =~= seq![s@]);
                }
            }
            (then_push(pre, s), c)
        },
        MirStmt::CallBuiltin { dest, name, args } => {
            let (new_args, pre, c) = desugar_operand_list(args, m, next, params, locals, rets);
            let s = MirStmt::CallBuiltin {
                dest: crate::mir::clone_opt_place(dest),
                name: name.clone(),
                args: new_args,
            };
            proof {
                lemma_stmts_push(m, stmts_view(pre@), s@);
                lemma_stmts_view(pre@);
                if stmt_temps(m, stmt@) == 0 {
                    assert(stmts_view(pre@) =~= Seq::<StmtView>::empty());
                    assert(Seq::<StmtView>::empty().push(s@) =~= seq![s@]);
                }
            }
            (then_push(pre, s), c)
        },
        _ => {
            proof {
                assert(false);
            }
            (Vec::new(), 0)
        },
    }
}

fn desugar_if_stmt(
    stmt: &MirStmt,
    m: DesugarMode,
    next: &mut u32,
    params: &Vec<MirLocal>,
    locals: &mut Vec<MirLocal>,
    rets: &Vec<(String, Type)>,
) -> (res: (Vec<MirStmt>, usize))
    requires
        *old(next) + stmt_temps(m, stmt@) <= u32::MAX,
        stmt is IfStmt,
    ensures
        frame(*old(next), *final(next), old(locals)@, final(locals)@, stmt_temps(m, stmt@)),
        stmt_result(m, stmt@, stmts_view(res.0@), res.1 as nat),
        stmts_view(res.0@) == ds_stmt(m, stmt@, *old(next) as nat),
    decreases stmt, 0nat,
{
    match stmt {
        MirStmt::IfStmt { cond, then_body, else_body } => {
            let ghost n0 = *next;
            let ghost l0 = locals@;
            let (new_cond, pre, c1) = desugar_operand(cond, m, next, params, locals, rets);
            let ghost n1 = *next;
            let ghost l1 = locals@;
            let (new_then, c2) = desugar_stmt_list(then_body, m, next, params, locals, rets);
            let ghost n2 = *next;
            let ghost l2 = locals@;
            let (new_else, c3) = desugar_stmt_list(else_body, m, next, params, locals, rets);
            proof {
                lemma_frame_trans(n0, n1, n2, l0, l1, l2, op_temps(m, cond@), stmts_temps(m, stmts_view(then_body@)));
                lemma_frame_trans(n0, n2, *next, l0, l2, locals@, op_temps(m, cond@) + stmts_temps(m, stmts_view(then_body@)), stmts_temps(m, stmts_view(else_body@)));
            }
            let s = MirStmt::IfStmt { cond: new_cond, then_body: new_then, else_body: new_else };
            proof {
                lemma_stmts_push(m, stmts_view(pre@), s@);
                lemma_stmts_view(pre@);
            }
            (then_push(pre, s), c1 + c2 + c3)
        },
        _ => {
            proof {
                assert(false);
            }
            (Vec::new(), 0)
        },
    }
}

fn desugar_while_stmt(
    stmt: &MirStmt,
    m: DesugarMode,
    next: &mut u32,
    params: &Vec<MirLocal>,
    locals: &mut Vec<MirLocal>,
    rets: &Vec<(String, Type)>,
) -> (res: (Vec<MirStmt>, usize))
    requires
        *old(next) + stmt_temps(m, stmt@) <= u32::MAX,
        stmt is WhileStmt,
    ensures
        frame(*old(next), *final(next), old(locals)@, final(locals)@, stmt_temps(m, stmt@)),
        stmt_result(m, stmt@, stmts_view(res.0@), res.1 as nat),
        stmts_view(res.0@) == ds_stmt(m, stmt@, *old(next) as nat),
    decreases stmt, 0nat,
{
    match stmt {
        MirStmt::WhileStmt { cond, body } => {
            let ghost n0 = *next;
            let ghost l0 = locals@;
            let (new_cond, pre, c1) = desugar_operand(cond, m, next, params, locals, rets);
            let ghost n1 = *next;
            let ghost l1 = locals@;
            let (new_body, c2) = desugar_stmt_list(body, m, next, params, locals, rets);
            proof {
                lemma_frame_trans(n0, n1, *next, l0, l1, locals@, op_temps(m, cond@), stmts_temps(m, stmts_view(body@)));
                lemma_stmts_view(pre@);
            }
            if pre.len() == 0 {
                let s = MirStmt::WhileStmt { cond: new_cond, body: new_body };
                proof {
                    lemma_stmts_push(m, Seq::<StmtView>::empty(), s@);
                    assert(Seq::<StmtView>::empty().push(s@) =~= seq![s@]);
                }
                (single(s), c1 + c2)
            } else {
                // The condition needs statements of its own: evaluate it at
                // the top of every iteration and leave the loop when false.
                let exit = MirStmt::IfStmt {
                    cond: Operand::UnaryOp(UnaryOp::Not, Box::new(new_cond)),
                    then_body: single(MirStmt::Break),
                    else_body: Vec::new(),
                };
                proof {
                    assert(stmts_view(Seq::<MirStmt>::empty()) =~= Seq::<StmtView>::empty());
                    lemma_stmts_push(m, Seq::<StmtView>::empty(), StmtView::Break);
                    assert(Seq::<StmtView>::empty().push(StmtView::Break) =~= seq![StmtView::Break]);
                    lemma_stmts_push(m, stmts_view(pre@), exit@);
                }
                let mut loop_body = then_push(pre, exit);
                proof {
                    lemma_stmts_append(m, stmts_view(loop_body@), stmts_view(new_body@));
                }
                append_stmts(&mut loop_body, new_body);
                let s = MirStmt::WhileStmt { cond: Operand::ConstBool(true), body: loop_body };
                proof {
                    lemma_stmts_push(m, Seq::<StmtView>::empty(), s@);
                    assert(Seq::<StmtView>::empty().push(s@) =~= seq![s@]);
                }
                (single(s), c1 + c2)
            }
        },
        _ => {
            proof {
                assert(false);
            }
            (Vec::new(), 0)
        },
    }
}

fn desugar_stmt_list(
    stmts: &Vec<MirStmt>,
    m: DesugarMode,
    next: &mut u32,
    params: &Vec<MirLocal>,
    locals: &mut Vec<MirLocal>,
    rets: &Vec<(String, Type)>,
) -> (res: (Vec<MirStmt>, usize))
    requires
        *old(next) + stmts_temps(m, stmts_view(stmts@)) <= u32::MAX,
    ensures
        frame(
            *old(next),
            *final(next),
            old(locals)@,
            final(locals)@,
            stmts_temps(m, stmts_view(stmts@)),
        ),
        stmts_result(m, stmts_view(stmts@), stmts_view(res.0@), res.1 as nat),
        stmts_view(res.0@) == ds_stmts(m, stmts_view(stmts@), *old(next) as nat),
    decreases stmts, 1nat,
{
    let ghost n0 = *next;
    let ghost l0 = locals@;
    let mut result: Vec<MirStmt> = Vec::new();
    let mut total: usize = 0;
    let mut i: usize = 0;
    proof {
        assert(stmts@.take(0) =~= Seq::<MirStmt>::empty());
        assert(stmts_view(result@) =~= Seq::<StmtView>::empty());
        assert(stmts_view(stmts@.take(0)) =~= Seq::<StmtView>::empty());
        lemma_stmts_empty(m);
    }
    #[verifier::loop_isolation(false)]
    while i < stmts.len()
        invariant
            i <= stmts.len(),
            frame(n0, *next, l0, locals@, stmts_temps(m, stmts_view(stmts@.take(i as int)))),
            stmts_result(m, stmts_view(stmts@.take(i as int)), stmts_view(result@), total as nat),
            stmts_view(result@) == ds_stmts(m, stmts_view(stmts@.take(i as int)), n0 as nat),
        decreases stmts.len() - i,
    {
        proof {
            broadcast use vstd::std_specs::vec::axiom_vec_index_decreases;

            assert(decreases_to!(stmts => stmts[i as int]));
            lemma_stmts_prefix(m, stmts@, i as int);
            lemma_stmts_push(m, stmts_view(stmts@.take(i as int)), stmt_view(stmts@[i as int]));
        }
        let ghost n1 = *next;
        let ghost l1 = locals@;
        let ghost r1 = stmts_view(result@);
        let (out, c) = desugar_stmt(&stmts[i], m, next, params, locals, rets);
        proof {
            let tv = stmts_view(stmts@.take(i + 1));
            assert(tv.drop_last() =~= stmts_view(stmts@.take(i as int)));
            assert(tv.last() == stmt_view(stmts@[i as int]));
            lemma_frame_trans(n0, n1, *next, l0, l1, locals@, stmts_temps(m, stmts_view(stmts@.take(i as int))), stmt_temps(m, stmt_view(stmts@[i as int])));
            lemma_stmts_append(m, r1, stmts_view(out@));
            if stmt_temps(m, stmt_view(stmts@[i as int])) == 0 {
                assert(r1 + seq![stmt_view(stmts@[i as int])] =~= r1.push(stmt_view(stmts@[i as int])));
            }
        }
        append_stmts(&mut result, out);
        total = total + c;
        i = i + 1;
    }
    proof {
        assert(stmts@.take(stmts.len() as int) =~= stmts@);
    }
    (result, total)
}

// ---------------------------------------------------------------------------
// Terminators
// ---------------------------------------------------------------------------
/// Finish one branch of a returned `IfExpr`: desugar its result, if any,
/// and return it.
fn finish_return(
    result: &Option<Box<Operand>>,
    stmts: &mut Vec<MirStmt>,
    m: DesugarMode,
    next: &mut u32,
    params: &Vec<MirLocal>,
    locals: &mut Vec<MirLocal>,
    rets: &Vec<(String, Type)>,
)
    requires
        *old(next) + res_temps(m, crate::mir::opt_box_operand_view(*result)) <= u32::MAX,
    ensures
        frame(
            *old(next),
            *final(next),
            old(locals)@,
            final(locals)@,
            res_temps(m, crate::mir::opt_box_operand_view(*result)),
        ),
        stmts_clean(m, stmts_view(old(stmts)@)) ==> stmts_clean(m, stmts_view(final(stmts)@)),
        stmts_view(final(stmts)@) == stmts_view(old(stmts)@) + ds_ret(
            m,
            crate::mir::opt_box_operand_view(*result),
            *old(next) as nat,
        ),
    decreases result, 1nat,
{
    match result {
        Some(r) => {
            let (new_r, r_pre, _) = desugar_operand(r, m, next, params, locals, rets);
            let ghost s0 = stmts_view(stmts@);
            append_stmts(stmts, r_pre);
            let ghost s1 = stmts_view(stmts@);
            let ret = MirStmt::Return(Some(new_r));
            proof {
                lemma_stmts_append(m, s0, stmts_view(r_pre@));
                lemma_stmts_push(m, s1, ret@);
                assert(stmt_clean(m, ret@));
            }
            push_stmt(stmts, ret);
        },
        None => {
            let ret = MirStmt::Return(None);
            proof {
                assert(stmt_clean(m, ret@));
                lemma_stmts_push(m, stmts_view(stmts@), ret@);
                lemma_frame_refl(*next, locals@);
            }
            push_stmt(stmts, ret);
        },
    }
}

/// The statements that replace `return <if-expr>`: the condition's
/// statements, then an `IfStmt` that returns from each branch.
fn desugar_return_if(
    op: &Operand,
    m: DesugarMode,
    next: &mut u32,
    params: &Vec<MirLocal>,
    locals: &mut Vec<MirLocal>,
    rets: &Vec<(String, Type)>,
) -> (res: (Vec<MirStmt>, usize))
    requires
        op is IfExpr,
        term_lowered(m, TerminatorView::Return(Some(op@))),
        *old(next) + term_temps(m, TerminatorView::Return(Some(op@))) <= u32::MAX,
        term_count(m, TerminatorView::Return(Some(op@))) <= usize::MAX,
    ensures
        frame(
            *old(next),
            *final(next),
            old(locals)@,
            final(locals)@,
            term_temps(m, TerminatorView::Return(Some(op@))),
        ),
        stmts_clean(m, stmts_view(res.0@)),
        res.1 == term_count(m, TerminatorView::Return(Some(op@))),
        stmts_view(res.0@) == ds_term_stmts(m, TerminatorView::Return(Some(op@)), *old(next) as nat),
{
    match op {
        Operand::IfExpr { cond, then_body, then_result, else_body, else_result } => {
            let ghost tc = op_temps(m, operand_view(**cond));
            let ghost tt = stmts_temps(m, stmts_view(then_body@));
            let ghost rt = res_temps(m, crate::mir::opt_box_operand_view(*then_result));
            let ghost te = stmts_temps(m, stmts_view(else_body@));
            let ghost n0 = *next;
            let ghost l0 = locals@;
            let (new_cond, mut pre, c1) = desugar_operand(cond, m, next, params, locals, rets);
            let ghost n1 = *next;
            let ghost l1 = locals@;
            let (mut then_stmts, c2) = desugar_stmt_list(then_body, m, next, params, locals, rets);
            let ghost n2 = *next;
            let ghost l2 = locals@;
            finish_return(then_result, &mut then_stmts, m, next, params, locals, rets);
            let ghost n3 = *next;
            let ghost l3 = locals@;
            let (mut else_stmts, c3) = desugar_stmt_list(else_body, m, next, params, locals, rets);
            let ghost n4 = *next;
            let ghost l4 = locals@;
            finish_return(else_result, &mut else_stmts, m, next, params, locals, rets);
            proof {
                lemma_frame_trans(n0, n1, n2, l0, l1, l2, tc, tt);
                lemma_frame_trans(n0, n2, n3, l0, l2, l3, tc + tt, rt);
                lemma_frame_trans(n0, n3, n4, l0, l3, l4, tc + tt + rt, te);
                lemma_frame_trans(n0, n4, *next, l0, l4, locals@, tc + tt + rt + te, res_temps(m, crate::mir::opt_box_operand_view(*else_result)));
            }
            let s = MirStmt::IfStmt { cond: new_cond, then_body: then_stmts, else_body: else_stmts };
            proof {
                lemma_stmts_push(m, stmts_view(pre@), s@);
            }
            push_stmt(&mut pre, s);
            (pre, 1 + c1 + c2 + c3)
        },
        _ => {
            proof {
                assert(false);
            }
            (Vec::new(), 0)
        },
    }
}

/// The statements that replace `return <loop-expr>`: the loop, then a
/// return of its result.
fn desugar_return_loop(
    op: &Operand,
    m: DesugarMode,
    next: &mut u32,
    params: &Vec<MirLocal>,
    locals: &mut Vec<MirLocal>,
    rets: &Vec<(String, Type)>,
) -> (res: (Vec<MirStmt>, usize))
    requires
        op is LoopExpr,
        lowers_loop(m),
        *old(next) + op_temps(m, op@) <= u32::MAX,
    ensures
        frame(*old(next), *final(next), old(locals)@, final(locals)@, op_temps(m, op@)),
        stmts_clean(m, stmts_view(res.0@)),
        res.1 == op_count(m, op@),
        term_lowered(m, TerminatorView::Return(Some(op@))) ==> stmts_view(res.0@) == ds_term_stmts(
            m,
            TerminatorView::Return(Some(op@)),
            *old(next) as nat,
        ),
{
    match op {
        Operand::LoopExpr { init, body, result } => {
            let ghost ti = op_temps(m, operand_view(**init));
            let ghost tb = stmts_temps(m, stmts_view(body@));
            let ghost tr = op_temps(m, operand_view(**result));
            let result_ty = infer_operand_type(result, params, locals, rets);
            let ghost n0 = *next;
            let ghost l0 = locals@;
            let (new_init, mut pre, c1) = desugar_operand(init, m, next, params, locals, rets);
            let ghost n1 = *next;
            let ghost l1 = locals@;
            let tmp = fresh_local(next, locals, "_loop_result", result_ty);
            let ghost n2 = *next;
            let ghost l2 = locals@;
            let a1 = MirStmt::Assign(Place::Local(tmp), Rvalue::Use(new_init));
            proof {
                lemma_stmts_push(m, stmts_view(pre@), a1@);
            }
            push_stmt(&mut pre, a1);
            let (new_body, c2) = desugar_stmt_list(body, m, next, params, locals, rets);
            let ghost n3 = *next;
            let ghost l3 = locals@;
            proof {
                lemma_stmts_append(m, stmts_view(pre@), stmts_view(new_body@));
            }
            append_stmts(&mut pre, new_body);
            let (new_result, result_pre, c3) = desugar_operand(
                result,
                m,
                next,
                params,
                locals,
                rets,
            );
            proof {
                lemma_stmts_append(m, stmts_view(pre@), stmts_view(result_pre@));
            }
            append_stmts(&mut pre, result_pre);
            let ret = MirStmt::Return(Some(new_result));
            proof {
                assert(stmt_clean(m, ret@));
                lemma_stmts_push(m, stmts_view(pre@), ret@);
                lemma_frame_trans(n0, n1, n2, l0, l1, l2, ti, 1);
                lemma_frame_trans(n0, n2, n3, l0, l2, l3, ti + 1, tb);
                lemma_frame_trans(n0, n3, *next, l0, l3, locals@, ti + 1 + tb, tr);
            }
            push_stmt(&mut pre, ret);
            (pre, 1 + c1 + c2 + c3)
        },
        _ => {
            proof {
                assert(false);
            }
            (Vec::new(), 0)
        },
    }
}

// ---------------------------------------------------------------------------
// Blocks and functions
// ---------------------------------------------------------------------------
pub open spec fn block_temps(m: DesugarMode, b: BlockView) -> nat {
    stmts_temps(m, b.stmts) + term_temps(m, b.terminator)
}

pub open spec fn block_count(m: DesugarMode, b: BlockView) -> nat {
    stmts_count(m, b.stmts) + term_count(m, b.terminator)
}

pub open spec fn blocks_temps(m: DesugarMode, s: Seq<BlockView>) -> nat
    decreases s.len(),
{
    if s.len() == 0 {
        0
    } else {
        blocks_temps(m, s.drop_last()) + block_temps(m, s.last())
    }
}

pub open spec fn blocks_count(m: DesugarMode, s: Seq<BlockView>) -> nat
    decreases s.len(),
{
    if s.len() == 0 {
        0
    } else {
        blocks_count(m, s.drop_last()) + block_count(m, s.last())
    }
}

/// Number of temporaries desugaring `f` in mode `m` introduces.
pub open spec fn fn_temps(m: DesugarMode, f: MirFunction) -> nat {
    blocks_temps(m, blocks_view(f.blocks@))
}

/// Number of rewrites desugaring `f` in mode `m` reports.
pub open spec fn fn_count(m: DesugarMode, f: MirFunction) -> nat {
    blocks_count(m, blocks_view(f.blocks@))
}

/// The largest id among `locals`, or 0 when there are none.
pub open spec fn max_local_id(locals: Seq<MirLocal>) -> nat
    decreases locals.len(),
{
    if locals.len() == 0 {
        0
    } else {
        let a = max_local_id(locals.drop_last());
        let b = locals.last().id.0 as nat;
        if a < b {
            b
        } else {
            a
        }
    }
}

/// Block `nb` is block `b` desugared in mode `m`: same id and source,
/// statements left clean, a lowered `return` replaced by `Unreachable`
/// (its work moved into the statements), any other terminator kept with
/// its in-place operands made clean (their work moved into the
/// statements); a block with no work is unchanged.
pub open spec fn block_desugared(m: DesugarMode, b: BlockView, nb: BlockView) -> bool {
    &&& nb.id == b.id
    &&& nb.source == b.source
    &&& stmts_clean(m, nb.stmts)
    &&& if term_lowered(m, b.terminator) {
        nb.terminator == TerminatorView::Unreachable
    } else {
        term_desugared(m, b.terminator, nb.terminator)
    }
    &&& (block_temps(m, b) == 0 && !term_lowered(m, b.terminator) ==> nb == b)
}

/// Everything of a function but its blocks and locals.
pub open spec fn same_header(a: MirFunction, b: MirFunction) -> bool {
    &&& a.id == b.id
    &&& a.name == b.name
    &&& a.instance == b.instance
    &&& a.params == b.params
    &&& a.return_ty == b.return_ty
    &&& a.entry == b.entry
    &&& a.struct_typed_locals == b.struct_typed_locals
    &&& a.enum_typed_locals == b.enum_typed_locals
    &&& a.type_params == b.type_params
    &&& a.source == b.source
    &&& a.is_exported == b.is_exported
}

/// `after` is `before` desugared in mode `m`, reporting `count` rewrites.
/// The temporaries are appended to the locals with consecutive ids
/// starting one above the largest local id.
pub open spec fn desugared(m: DesugarMode, before: MirFunction, after: MirFunction, count: nat) -> bool {
    &&& same_header(before, after)
    &&& after.blocks@.len() == before.blocks@.len()
    &&& forall|i: int|
        0 <= i < before.blocks@.len() ==> block_desugared(
            m,
            #[trigger] before.blocks@[i]@,
            after.blocks@[i]@,
        )
    &&& extends_fresh(
        before.locals@,
        after.locals@,
        max_local_id(before.locals@ + before.params@) + 1,
        fn_temps(m, before),
    )
    &&& count == fn_count(m, before)
    &&& forall|i: int|
        0 <= i < before.blocks@.len() ==> #[trigger] after.blocks@[i]@ == ds_block(
            m,
            before.blocks@[i]@,
            max_local_id(before.locals@ + before.params@) + 1 + blocks_temps(
                m,
                blocks_view(before.blocks@).take(i),
            ),
        )
}

#[verifier::rlimit(40)]
fn desugar_block(
    block: &BasicBlock,
    m: DesugarMode,
    next: &mut u32,
    params: &Vec<MirLocal>,
    locals: &mut Vec<MirLocal>,
    rets: &Vec<(String, Type)>,
) -> (res: (BasicBlock, usize))
    requires
        *old(next) + block_temps(m, block@) <= u32::MAX,
        block_count(m, block@) <= usize::MAX,
    ensures
        frame(*old(next), *final(next), old(locals)@, final(locals)@, block_temps(m, block@)),
        block_desugared(m, block@, res.0@),
        res.1 == block_count(m, block@),
        res.0@ == ds_block(m, block@, *old(next) as nat),
{
    let ghost n0 = *next;
    let ghost l0 = locals@;
    let (mut stmts, c) = desugar_stmt_list(&block.stmts, m, next, params, locals, rets);
    let ghost n1 = *next;
    let ghost l1 = locals@;
    let ghost t = block.terminator@;
    match &block.terminator {
        Terminator::Return(Some(op)) => {
            if let Operand::IfExpr { .. } = op {
                if lowers_if_mode(m) {
                    let (pre, c2) = desugar_return_if(op, m, next, params, locals, rets);
                    proof {
                        lemma_frame_trans(n0, n1, *next, l0, l1, locals@, stmts_temps(m, stmts_view(block.stmts@)), term_temps(m, t));
                        lemma_stmts_append(m, stmts_view(stmts@), stmts_view(pre@));
                    }
                    append_stmts(&mut stmts, pre);
                    let nb = BasicBlock {
                        id: block.id,
                        stmts,
                        terminator: Terminator::Unreachable,
                        source: block.source,
                    };
                    return (nb, c + c2);
                }
            }
            if let Operand::LoopExpr { .. } = op {
                if matches!(m, DesugarMode::LoopOnly) {
                    let (pre, c2) = desugar_return_loop(op, m, next, params, locals, rets);
                    proof {
                        lemma_frame_trans(n0, n1, *next, l0, l1, locals@, stmts_temps(m, stmts_view(block.stmts@)), term_temps(m, t));
                        lemma_stmts_append(m, stmts_view(stmts@), stmts_view(pre@));
                    }
                    append_stmts(&mut stmts, pre);
                    let nb = BasicBlock {
                        id: block.id,
                        stmts,
                        terminator: Terminator::Unreachable,
                        source: block.source,
                    };
                    return (nb, c + c2);
                }
            }
        },
        _ => {},
    }
    proof {
        assert(!term_lowered(m, t));
    }
    proof {
        crate::opt::lowering::lemma_term_generic(m, t);
    }
    let (nt, pre, c2) = desugar_in_place(&block.terminator, m, next, params, locals, rets);
    proof {
        lemma_frame_trans(n0, n1, *next, l0, l1, locals@, stmts_temps(m, stmts_view(block.stmts@)), term_temps(m, t));
        lemma_stmts_append(m, stmts_view(stmts@), stmts_view(pre@));
        if term_temps(m, t) == 0 {
            assert(stmts_view(pre@) =~= Seq::<StmtView>::empty());
            assert(stmts_view(stmts@) + stmts_view(pre@) =~= stmts_view(stmts@));
        }
    }
    append_stmts(&mut stmts, pre);
    let nb = BasicBlock { id: block.id, stmts, terminator: nt, source: block.source };
    (nb, c + c2)
}

/// Desugar the in-place operands of a terminator the block-end rewrite
/// leaves alone; returns the terminator, the statements to run before it,
/// and the count.
fn desugar_in_place(
    t: &Terminator,
    m: DesugarMode,
    next: &mut u32,
    params: &Vec<MirLocal>,
    locals: &mut Vec<MirLocal>,
    rets: &Vec<(String, Type)>,
) -> (res: (Terminator, Vec<MirStmt>, usize))
    requires
        !term_lowered(m, t@),
        *old(next) + term_temps(m, t@) <= u32::MAX,
    ensures
        frame(*old(next), *final(next), old(locals)@, final(locals)@, term_temps(m, t@)),
        term_desugared(m, t@, res.0@),
        stmts_clean(m, stmts_view(res.1@)),
        res.2 == term_count(m, t@),
        term_temps(m, t@) == 0 ==> res.1@.len() == 0 && res.0@ == t@,
        res.0@ == ds_term(m, t@, *old(next) as nat),
        stmts_view(res.1@) == ds_term_stmts(m, t@, *old(next) as nat),
{
    proof {
        crate::opt::lowering::lemma_term_generic(m, t@);
    }
    let ops = term_operands(t);
    let (new_ops, pre, c) = desugar_operand_list(&ops, m, next, params, locals, rets);
    let ghost ov = operands_view(new_ops@);
    let nt = term_rebuild(t, new_ops);
    proof {
        reveal(term_desugared);
        crate::opt::lowering::lemma_ops_of_with(t@, ov);
        if ops_temps(m, term_ops(t@)) == 0 {
            lemma_term_with_self(t@);
            lemma_stmts_view(pre@);
        }
    }
    (nt, pre, c)
}

proof fn lemma_term_with_self(t: TerminatorView)
    ensures
        term_with(t, term_ops(t)) == t,
{
    match t {
        TerminatorView::TailCallIndirect { callee, args } => {
            assert((seq![*callee] + args).drop_first() =~= args);
        },
        _ => {},
    }
}

fn single_operand(o: &Operand) -> (r: Vec<Operand>)
    ensures
        operands_view(r@) == seq![o@],
{
    let mut v: Vec<Operand> = Vec::new();
    v.push(clone_operand(o));
    proof {
        lemma_operands_view(v@);
        assert(operands_view(v@) =~= seq![o@]);
    }
    v
}

/// The operands of a terminator that desugaring rewrites in place.
pub(crate) fn term_operands(t: &Terminator) -> (r: Vec<Operand>)
    ensures
        operands_view(r@) == term_ops(t@),
{
    match t {
        Terminator::Return(Some(o)) => single_operand(o),
        Terminator::If { cond, .. } => single_operand(cond),
        Terminator::Switch { scrutinee, .. } => single_operand(scrutinee),
        Terminator::TailCall { args, .. } => crate::mir::clone_operands(args),
        Terminator::TailCallIndirect { callee, args } => {
            let mut v = single_operand(callee);
            let rest = crate::mir::clone_operands(args);
            proof {
                crate::mir::lemma_operands_view_add(v@, rest@);
            }
            append_ops(&mut v, rest);
            v
        },
        _ => {
            let v: Vec<Operand> = Vec::new();
            proof {
                assert(operands_view(v@) =~= Seq::<OperandView>::empty());
            }
            v
        },
    }
}

fn append_ops(dst: &mut Vec<Operand>, src: Vec<Operand>)
    ensures
        final(dst)@ == old(dst)@ + src@,
{
    let mut src = src;
    dst.append(&mut src);
}

/// Terminator `t` around the operands `ops`, in the order of its
/// in-place operands.
fn term_rebuild(t: &Terminator, ops: Vec<Operand>) -> (r: Terminator)
    requires
        operands_view(ops@).len() == term_ops(t@).len(),
    ensures
        r@ == term_with(t@, operands_view(ops@)),
{
    let mut ops = ops;
    proof {
        lemma_operands_view(ops@);
    }
    match t {
        Terminator::Return(Some(_)) => {
            let o = ops.remove(0);
            Terminator::Return(Some(o))
        },
        Terminator::If { then_block, else_block, hint, .. } => {
            let o = ops.remove(0);
            Terminator::If { cond: o, then_block: *then_block, else_block: *else_block, hint: *hint }
        },
        Terminator::Switch { arms, default, .. } => {
            let o = ops.remove(0);
            Terminator::Switch {
                scrutinee: o,
                arms: crate::mir::clone_arms(arms),
                default: *default,
            }
        },
        Terminator::TailCall { func, .. } => Terminator::TailCall { func: func.clone(), args: ops },
        Terminator::TailCallIndirect { .. } => {
            let ghost all = ops@;
            let o = ops.remove(0);
            proof {
                lemma_operands_view(all);
                lemma_operands_view(ops@);
                assert(operands_view(ops@) =~= operands_view(all).drop_first());
            }
            Terminator::TailCallIndirect { callee: Box::new(o), args: ops }
        },
        _ => crate::mir::clone_terminator(t),
    }
}

proof fn lemma_blocks_prefix(m: DesugarMode, s: Seq<BlockView>, j: int)
    requires
        0 <= j < s.len(),
    ensures
        blocks_temps(m, s.take(j + 1)) == blocks_temps(m, s.take(j)) + block_temps(m, s[j]),
        blocks_count(m, s.take(j + 1)) == blocks_count(m, s.take(j)) + block_count(m, s[j]),
        blocks_temps(m, s.take(j + 1)) <= blocks_temps(m, s),
        blocks_count(m, s.take(j + 1)) <= blocks_count(m, s),
    decreases s.len(),
{
    assert(s.take(j + 1).drop_last() =~= s.take(j));
    assert(s.take(j + 1).last() == s[j]);
    if j + 1 == s.len() {
        assert(s.take(j + 1) =~= s);
    } else {
        let d = s.drop_last();
        lemma_blocks_prefix(m, d, j);
        assert(d.take(j + 1) =~= s.take(j + 1));
        assert(d.take(j) =~= s.take(j));
    }
}

/// One above the largest id among `locals` and `params` (1 when there are
/// none).
fn next_local_id(locals: &Vec<MirLocal>, params: &Vec<MirLocal>) -> (r: u32)
    requires
        max_local_id(locals@ + params@) < u32::MAX,
    ensures
        r == max_local_id(locals@ + params@) + 1,
{
    let ghost all = locals@ + params@;
    let mut best: u32 = 0;
    let mut i: usize = 0;
    while i < locals.len()
        invariant
            i <= locals.len(),
            all == locals@ + params@,
            best == max_local_id(all.take(i as int)),
            max_local_id(all) < u32::MAX,
        decreases locals.len() - i,
    {
        proof {
            assert(all.take(i + 1).drop_last() =~= all.take(i as int));
            assert(all.take(i + 1).last() == locals@[i as int]);
        }
        if best < locals[i].id.0 {
            best = locals[i].id.0;
        }
        i = i + 1;
    }
    let mut j: usize = 0;
    while j < params.len()
        invariant
            j <= params.len(),
            all == locals@ + params@,
            best == max_local_id(all.take(locals@.len() + j as int)),
            max_local_id(all) < u32::MAX,
        decreases params.len() - j,
    {
        proof {
            assert(all.take(locals@.len() + j as int + 1).drop_last() =~= all.take(locals@.len() + j as int));
            assert(all.take(locals@.len() + j as int + 1).last() == params@[j as int]);
        }
        if best < params[j].id.0 {
            best = params[j].id.0;
        }
        j = j + 1;
    }
    proof {
        assert(all.take(all.len() as int) =~= all);
    }
    best + 1
}

/// Desugar, in every block of `func`, the expression forms that `mode`
/// lowers. Returns the number of rewrites.
#[verifier::rlimit(40)]
pub fn desugar_function(func: &mut MirFunction, fn_return_types: &Vec<(String, Type)>, mode: DesugarMode) -> (count: usize)
    requires
        max_local_id(old(func).locals@ + old(func).params@) + 1 + fn_temps(mode, *old(func)) <= u32::MAX,
        fn_count(mode, *old(func)) <= usize::MAX,
    ensures
        desugared(mode, *old(func), *final(func), count as nat),
{
    let ghost f0 = *func;
    let ghost bv = blocks_view(func.blocks@);
    let mut next = next_local_id(&func.locals, &func.params);
    let ghost n0 = next;
    let mut locals: Vec<MirLocal> = Vec::new();
    std::mem::swap(&mut locals, &mut func.locals);
    let ghost l0 = locals@;
    let mut new_blocks: Vec<BasicBlock> = Vec::new();
    let mut counter: usize = 0;
    let mut i: usize = 0;
    proof {
        assert(bv.take(0) =~= Seq::<BlockView>::empty());
    }
    while i < func.blocks.len()
        invariant
            i <= func.blocks.len(),
            func.blocks == f0.blocks,
            func.params == f0.params,
            bv == blocks_view(f0.blocks@),
            n0 == max_local_id(f0.locals@ + f0.params@) + 1,
            n0 + fn_temps(mode, f0) <= u32::MAX,
            fn_count(mode, f0) <= usize::MAX,
            frame(n0, next, l0, locals@, blocks_temps(mode, bv.take(i as int))),
            counter == blocks_count(mode, bv.take(i as int)),
            new_blocks@.len() == i,
            forall|j: int|
                0 <= j < i ==> block_desugared(
                    mode,
                    #[trigger] f0.blocks@[j]@,
                    new_blocks@[j]@,
                ),
            forall|j: int|
                0 <= j < i ==> #[trigger] new_blocks@[j]@ == ds_block(
                    mode,
                    f0.blocks@[j]@,
                    (n0 + blocks_temps(mode, bv.take(j))) as nat,
                ),
        decreases func.blocks.len() - i,
    {
        proof {
            lemma_blocks_prefix(mode, bv, i as int);
            assert(bv[i as int] == func.blocks@[i as int]@);
        }
        let ghost n1 = next;
        let ghost l1 = locals@;
        let (nb, c) = desugar_block(
            &func.blocks[i],
            mode,
            &mut next,
            &func.params,
            &mut locals,
            fn_return_types,
        );
        proof {
            lemma_frame_trans(n0, n1, next, l0, l1, locals@, blocks_temps(mode, bv.take(i as int)), block_temps(mode, bv[i as int]));
        }
        new_blocks.push(nb);
        counter = counter + c;
        i = i + 1;
    }
    proof {
        assert(bv.take(func.blocks.len() as int) =~= bv);
    }
    func.blocks = new_blocks;
    func.locals = locals;
    counter
}

/// Desugar all backend-illegal operands (`IfExpr`, `LoopExpr`, `TryExpr`)
/// in a function. Returns the number of operands desugared.
pub fn desugar_exprs(func: &mut MirFunction, fn_return_types: &Vec<(String, Type)>) -> (count: usize)
    requires
        max_local_id(old(func).locals@ + old(func).params@) + 1 + fn_temps(DesugarMode::All, *old(func)) <= u32::MAX,
        fn_count(DesugarMode::All, *old(func)) <= usize::MAX,
    ensures
        desugared(DesugarMode::All, *old(func), *final(func), count as nat),
{
    desugar_function(func, fn_return_types, DesugarMode::All)
}

/// Desugar only `IfExpr` nodes in a function, leaving `LoopExpr` and
/// `TryExpr` intact.
pub fn desugar_if_exprs(func: &mut MirFunction, fn_return_types: &Vec<(String, Type)>) -> (count: usize)
    requires
        max_local_id(old(func).locals@ + old(func).params@) + 1 + fn_temps(DesugarMode::IfOnly, *old(func)) <= u32::MAX,
        fn_count(DesugarMode::IfOnly, *old(func)) <= usize::MAX,
    ensures
        desugared(DesugarMode::IfOnly, *old(func), *final(func), count as nat),
{
    desugar_function(func, fn_return_types, DesugarMode::IfOnly)
}

/// Desugar only `LoopExpr` nodes in a function, leaving `IfExpr` and
/// `TryExpr` intact.
pub fn desugar_loop_exprs(func: &mut MirFunction, fn_return_types: &Vec<(String, Type)>) -> (count: usize)
    requires
        max_local_id(old(func).locals@ + old(func).params@) + 1 + fn_temps(DesugarMode::LoopOnly, *old(func)) <= u32::MAX,
        fn_count(DesugarMode::LoopOnly, *old(func)) <= usize::MAX,
    ensures
        desugared(DesugarMode::LoopOnly, *old(func), *final(func), count as nat),
{
    desugar_function(func, fn_return_types, DesugarMode::LoopOnly)
}

/// Desugar only `TryExpr` nodes in a function, leaving `IfExpr` and
/// `LoopExpr` intact.
pub fn desugar_try_exprs(func: &mut MirFunction, fn_return_types: &Vec<(String, Type)>) -> (count: usize)
    requires
        max_local_id(old(func).locals@ + old(func).params@) + 1 + fn_temps(DesugarMode::TryOnly, *old(func)) <= u32::MAX,
        fn_count(DesugarMode::TryOnly, *old(func)) <= usize::MAX,
    ensures
        desugared(DesugarMode::TryOnly, *old(func), *final(func), count as nat),
{
    desugar_function(func, fn_return_types, DesugarMode::TryOnly)
}

// ---------------------------------------------------------------------------
// Laws
// ---------------------------------------------------------------------------
proof fn lemma_blocks_no_work(m: DesugarMode, s: Seq<BlockView>)
    requires
        forall|i: int| 0 <= i < s.len() ==> block_temps(m, #[trigger] s[i]) == 0 && block_count(
            m,
            s[i],
        ) == 0,
    ensures
        blocks_temps(m, s) == 0,
        blocks_count(m, s) == 0,
    decreases s.len(),
{
    if s.len() > 0 {
        let d = s.drop_last();
        assert forall|i: int| 0 <= i < d.len() implies block_temps(m, #[trigger] d[i]) == 0
            && block_count(m, d[i]) == 0 by {
            assert(d[i] == s[i]);
        }
        lemma_blocks_no_work(m, d);
        assert(block_temps(m, s[s.len() - 1]) == 0);
    }
}

/// After a full desugaring every block is backend-legal: its statements
/// and its terminator.
pub proof fn law_desugar_exprs_legal(before: MirFunction, after: MirFunction, count: nat)
    requires
        desugared(DesugarMode::All, before, after, count),
    ensures
        forall|i: int| 0 <= i < after.blocks@.len() ==> block_legal(#[trigger] after.blocks@[i]@),
{
    assert forall|i: int| 0 <= i < after.blocks@.len() implies block_legal(
        #[trigger] after.blocks@[i]@,
    ) by {
        let b = before.blocks@[i]@;
        let nb = after.blocks@[i]@;
        assert(block_desugared(DesugarMode::All, b, nb));
        lemma_clean_all_is_legal(nb.stmts);
        if !term_lowered(DesugarMode::All, b.terminator) {
            crate::opt::lowering::lemma_term_done(DesugarMode::All, b.terminator, nb.terminator);
        }
    }
}

/// Desugaring is idempotent: desugaring a desugared function again in the
/// same mode reports no rewrite and changes neither blocks nor locals.
pub proof fn law_desugar_idempotent(
    m: DesugarMode,
    f0: MirFunction,
    f1: MirFunction,
    c1: nat,
    f2: MirFunction,
    c2: nat,
)
    requires
        desugared(m, f0, f1, c1),
        desugared(m, f1, f2, c2),
    ensures
        c2 == 0,
        blocks_view(f2.blocks@) == blocks_view(f1.blocks@),
        f2.locals@ == f1.locals@,
{
    let bv = blocks_view(f1.blocks@);
    assert forall|i: int| 0 <= i < bv.len() implies block_temps(m, #[trigger] bv[i]) == 0
        && block_count(m, bv[i]) == 0 && !term_lowered(m, bv[i].terminator) by {
        assert(bv[i] == f1.blocks@[i]@);
        assert(block_desugared(m, f0.blocks@[i]@, f1.blocks@[i]@));
        crate::opt::lowering::lemma_stmts_clean_no_work(m, bv[i].stmts);
        if !term_lowered(m, f0.blocks@[i]@.terminator) {
            crate::opt::lowering::lemma_term_done(m, f0.blocks@[i]@.terminator, bv[i].terminator);
        }
    }
    lemma_blocks_no_work(m, bv);
    assert forall|i: int| 0 <= i < bv.len() implies blocks_view(f2.blocks@)[i] == #[trigger] bv[i] by {
        assert(bv[i] == f1.blocks@[i]@);
        assert(block_desugared(m, f1.blocks@[i]@, f2.blocks@[i]@));
    }
    assert(blocks_view(f2.blocks@) =~= bv);
    assert(f2.locals@ =~= f1.locals@);
}

proof fn lemma_max_local_id(locals: Seq<MirLocal>, j: int)
    requires
        0 <= j < locals.len(),
    ensures
        locals[j].id.0 <= max_local_id(locals),
    decreases locals.len(),
{
    if j < locals.len() - 1 {
        lemma_max_local_id(locals.drop_last(), j);
        assert(locals.drop_last()[j] == locals[j]);
    }
}

/// The temporaries a desugaring introduces have ids that no existing local
/// and no parameter has.
pub proof fn law_desugar_fresh_ids(m: DesugarMode, before: MirFunction, after: MirFunction, count: nat)
    requires
        desugared(m, before, after, count),
    ensures
        forall|i: int, j: int|
            before.locals@.len() <= i < after.locals@.len() && 0 <= j < before.locals@.len()
                ==> (#[trigger] after.locals@[i]).id != (#[trigger] before.locals@[j]).id,
        forall|i: int, j: int|
            before.locals@.len() <= i < after.locals@.len() && 0 <= j < before.params@.len()
                ==> (#[trigger] after.locals@[i]).id != (#[trigger] before.params@[j]).id,
{
    let all = before.locals@ + before.params@;
    assert forall|i: int, j: int|
        before.locals@.len() <= i < after.locals@.len() && 0 <= j < before.locals@.len() implies (
    #[trigger] after.locals@[i]).id != (#[trigger] before.locals@[j]).id by {
        lemma_max_local_id(all, j);
        assert(all[j] == before.locals@[j]);
        let k = i - before.locals@.len();
        assert(after.locals@[before.locals@.len() + k].id.0 == max_local_id(all) + 1 + k);
    }
    assert forall|i: int, j: int|
        before.locals@.len() <= i < after.locals@.len() && 0 <= j < before.params@.len() implies (
    #[trigger] after.locals@[i]).id != (#[trigger] before.params@[j]).id by {
        lemma_max_local_id(all, before.locals@.len() + j);
        assert(all[before.locals@.len() + j] == before.params@[j]);
        let k = i - before.locals@.len();
        assert(after.locals@[before.locals@.len() + k].id.0 == max_local_id(all) + 1 + k);
    }
}
proof fn lemma_max_local_id_bound(locals: Seq<MirLocal>, b: nat)
    requires
        forall|i: int| 0 <= i < locals.len() ==> (#[trigger] locals[i]).id.0 <= b,
    ensures
        max_local_id(locals) <= b,
    decreases locals.len(),
{
    if locals.len() > 0 {
        let d = locals.drop_last();
        assert forall|i: int| 0 <= i < d.len() implies (#[trigger] d[i]).id.0 <= b by {
            assert(d[i] == locals[i]);
        }
        lemma_max_local_id_bound(d, b);
        assert(locals.last() == locals[locals.len() - 1]);
    }
}

/// A function desugared once, within the room its ids had, can be
/// desugared again in the same mode: nothing is left to do and its ids
/// still leave room for the next one.
pub proof fn law_desugar_again_fits(m: DesugarMode, f0: MirFunction, f1: MirFunction, c1: nat)
    requires
        max_local_id(f0.locals@ + f0.params@) + 1 + fn_temps(m, f0) <= u32::MAX,
        desugared(m, f0, f1, c1),
    ensures
        fn_temps(m, f1) == 0,
        fn_count(m, f1) == 0,
        max_local_id(f1.locals@ + f1.params@) + 1 + fn_temps(m, f1) <= u32::MAX,
{
    let bv = blocks_view(f1.blocks@);
    assert forall|i: int| 0 <= i < bv.len() implies block_temps(m, #[trigger] bv[i]) == 0
        && block_count(m, bv[i]) == 0 by {
        assert(bv[i] == f1.blocks@[i]@);
        assert(block_desugared(m, f0.blocks@[i]@, f1.blocks@[i]@));
        crate::opt::lowering::lemma_stmts_clean_no_work(m, bv[i].stmts);
        if !term_lowered(m, f0.blocks@[i]@.terminator) {
            crate::opt::lowering::lemma_term_done(m, f0.blocks@[i]@.terminator, bv[i].terminator);
        }
    }
    lemma_blocks_no_work(m, bv);
    let all0 = f0.locals@ + f0.params@;
    let all1 = f1.locals@ + f1.params@;
    let n0 = max_local_id(all0) + 1;
    assert forall|i: int| 0 <= i < all1.len() implies (#[trigger] all1[i]).id.0 <= u32::MAX - 1 by {
        if i < f0.locals@.len() {
            assert(all1[i] == f0.locals@[i]);
            assert(all0[i] == f0.locals@[i]);
            lemma_max_local_id(all0, i);
        } else if i < f1.locals@.len() {
            let k = i - f0.locals@.len();
            assert(f1.locals@[f0.locals@.len() + k].id.0 == n0 + k);
        } else {
            let j = i - f1.locals@.len();
            assert(all1[i] == f1.params@[j]);
            assert(all0[f0.locals@.len() + j] == f0.params@[j]);
            lemma_max_local_id(all0, f0.locals@.len() + j);
        }
    }
    lemma_max_local_id_bound(all1, (u32::MAX - 1) as nat);
}
} // verus!
