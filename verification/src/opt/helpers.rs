//! Shared machinery of the propagation passes: substituting operands for
//! locals, finding the locals a statement list assigns, and collecting the
//! locals a function mentions.
//!
//! A substitution maps local ids to operands. Only a local read as a whole
//! operand is replaced; the base of a place and the target of an assignment
//! are left alone. Inside a `while` loop, locals assigned anywhere in the
//! loop body are not substituted.
use vstd::prelude::*;

use crate::mir::{
    clone_aggregate_kind, clone_arms, clone_opt_place, clone_opt_string, clone_operand,
    clone_stmt, clone_terminator, fields_view, lemma_fields_view_take, lemma_operands_view_take,
    lemma_stmts_view_take, operand_view, operands_view, place_view, stmt_view, stmts_view,
    LocalId, MirStmt, Operand, OperandView, Place, PlaceView, Rvalue, RvalueView, StmtView,
    Terminator, TerminatorView,
};

verus! {

// ---------------------------------------------------------------------------
// Substitutions
// ---------------------------------------------------------------------------
/// The substitution held by a list of (local, operand) entries; a later
/// entry for the same local overrides an earlier one.
pub open spec fn reps_map(v: Seq<(u32, Operand)>) -> Map<u32, OperandView>
    decreases v.len(),
{
    if v.len() == 0 {
        Map::empty()
    } else {
        reps_map(v.drop_last()).insert(v.last().0, operand_view(v.last().1))
    }
}

proof fn lemma_reps_map_last(v: Seq<(u32, Operand)>, x: u32, j: int)
    requires
        0 <= j < v.len(),
        v[j].0 == x,
        forall|k: int| j < k < v.len() ==> v[k].0 != x,
    ensures
        reps_map(v).contains_key(x),
        reps_map(v)[x] == operand_view(v[j].1),
    decreases v.len(),
{
    if j < v.len() - 1 {
        lemma_reps_map_last(v.drop_last(), x, j);
    }
}

proof fn lemma_reps_map_absent(v: Seq<(u32, Operand)>, x: u32)
    requires
        forall|k: int| 0 <= k < v.len() ==> v[k].0 != x,
    ensures
        !reps_map(v).contains_key(x),
    decreases v.len(),
{
    if v.len() > 0 {
        lemma_reps_map_absent(v.drop_last(), x);
    }
}

/// The operand substituted for local `x`, if any.
pub(crate) fn reps_get(reps: &Vec<(u32, Operand)>, x: u32) -> (r: Option<Operand>)
    ensures
        match r {
            Some(o) => reps_map(reps@).contains_key(x) && o@ == reps_map(reps@)[x],
            None => !reps_map(reps@).contains_key(x),
        },
{
    let mut k: usize = reps.len();
    while k > 0
        invariant
            k <= reps.len(),
            forall|j: int| k <= j < reps@.len() ==> reps@[j].0 != x,
        decreases k,
    {
        k = k - 1;
        if reps[k].0 == x {
            proof {
                lemma_reps_map_last(reps@, x, k as int);
            }
            return Some(clone_operand(&reps[k].1));
        }
    }
    proof {
        lemma_reps_map_absent(reps@, x);
    }
    None
}

/// The entries of `reps` whose local is not in `ids`.
pub(crate) fn reps_without(reps: &Vec<(u32, Operand)>, ids: &Vec<u32>) -> (r: Vec<(u32, Operand)>)
    ensures
        reps_map(r@) == reps_map(reps@).remove_keys(ids@.to_set()),
{
    let mut out: Vec<(u32, Operand)> = Vec::new();
    let mut i: usize = 0;
    proof {
        assert(reps@.take(0) =~= Seq::<(u32, Operand)>::empty());
        assert(reps_map(out@) =~= reps_map(reps@.take(0)).remove_keys(ids@.to_set()));
    }
    while i < reps.len()
        invariant
            i <= reps.len(),
            reps_map(out@) == reps_map(reps@.take(i as int)).remove_keys(ids@.to_set()),
        decreases reps.len() - i,
    {
        let ghost before = out@;
        proof {
            assert(reps@.take(i + 1).drop_last() =~= reps@.take(i as int));
        }
        let k = reps[i].0;
        if !crate::opt::escape_analysis::in_ids(ids, k) {
            out.push((k, clone_operand(&reps[i].1)));
            proof {
                assert(out@.drop_last() =~= before);
                assert(reps_map(out@) =~= reps_map(reps@.take(i + 1)).remove_keys(ids@.to_set()));
            }
        } else {
            proof {
                assert(ids@.to_set().contains(k));
                assert(reps_map(out@) =~= reps_map(reps@.take(i + 1)).remove_keys(ids@.to_set()));
            }
        }
        i = i + 1;
    }
    proof {
        assert(reps@.take(reps.len() as int) =~= reps@);
    }
    out
}

// ---------------------------------------------------------------------------
// Assigned locals
// ---------------------------------------------------------------------------
/// Whether `s` assigns local `x` as a whole: by assignment, as a call's
/// destination, or anywhere inside a nested `if` or `while` body.
pub open spec fn asg_stmt(x: u32, s: StmtView) -> bool
    decreases s,
{
    match s {
        StmtView::Assign(p, _) => p == PlaceView::Local(LocalId(x)),
        StmtView::Call { dest, .. } => dest == Some(PlaceView::Local(LocalId(x))),
        StmtView::CallBuiltin { dest, .. } => dest == Some(PlaceView::Local(LocalId(x))),
        StmtView::WhileStmt { body, .. } => asg_stmts(x, body),
        StmtView::IfStmt { then_body, else_body, .. } => asg_stmts(x, then_body) || asg_stmts(
            x,
            else_body,
        ),
        _ => false,
    }
}

pub open spec fn asg_stmts(x: u32, s: Seq<StmtView>) -> bool
    decreases s,
{
    if s.len() == 0 {
        false
    } else {
        asg_stmts(x, s.drop_last()) || asg_stmt(x, s.last())
    }
}

/// The locals assigned anywhere in `s`.
pub open spec fn assigned_set(s: Seq<StmtView>) -> Set<u32> {
    Set::new(|x: u32| asg_stmts(x, s))
}

fn push_id(out: &mut Vec<u32>, x: u32)
    ensures
        forall|y: u32| final(out)@.contains(y) <==> old(out)@.contains(y) || y == x,
{
    let ghost before = out@;
    out.push(x);
    proof {
        assert forall|y: u32| final(out)@.contains(y) <==> before.contains(y) || y == x by {
            vstd::seq_lib::lemma_seq_contains_after_push(before, x, y);
        }
    }
}

fn add_if_local(p: &Place, out: &mut Vec<u32>)
    ensures
        forall|y: u32|
            final(out)@.contains(y) <==> old(out)@.contains(y) || p@ == PlaceView::Local(LocalId(y)),
{
    match p {
        Place::Local(id) => push_id(out, id.0),
        _ => {},
    }
}

fn add_if_dest(p: &Option<Place>, out: &mut Vec<u32>)
    ensures
        forall|y: u32|
            final(out)@.contains(y) <==> old(out)@.contains(y) || crate::mir::opt_place_view(*p)
                == Some(PlaceView::Local(LocalId(y))),
{
    match p {
        Some(q) => add_if_local(q, out),
        None => {},
    }
}

pub(crate) fn add_assigned_stmt(s: &MirStmt, out: &mut Vec<u32>)
    ensures
        forall|y: u32|
            #![trigger final(out)@.contains(y)]
            final(out)@.contains(y) <==> old(out)@.contains(y) || asg_stmt(y, s@),
    decreases s,
{
    match s {
        MirStmt::Assign(p, _) => add_if_local(p, out),
        MirStmt::Call { dest, .. } => add_if_dest(dest, out),
        MirStmt::CallBuiltin { dest, .. } => add_if_dest(dest, out),
        MirStmt::WhileStmt { body, .. } => add_assigned(body, out),
        MirStmt::IfStmt { then_body, else_body, .. } => {
            add_assigned(then_body, out);
            add_assigned(else_body, out);
        },
        _ => {},
    }
}

fn add_assigned(v: &Vec<MirStmt>, out: &mut Vec<u32>)
    ensures
        forall|y: u32|
            #![trigger final(out)@.contains(y)]
            final(out)@.contains(y) <==> old(out)@.contains(y) || asg_stmts(y, stmts_view(v@)),
    decreases v,
{
    let ghost o0 = out@;
    let mut i: usize = 0;
    proof {
        assert(v@.take(0) =~= Seq::<MirStmt>::empty());
    }
    while i < v.len()
        invariant
            i <= v.len(),
            forall|y: u32|
                #![trigger out@.contains(y)]
                out@.contains(y) <==> o0.contains(y) || asg_stmts(y, stmts_view(v@.take(i as int))),
        decreases v.len() - i,
    {
        proof {
            broadcast use vstd::std_specs::vec::axiom_vec_index_decreases;

            assert(decreases_to!(v => v[i as int]));
            lemma_stmts_view_take(v@, i as int);
            let s0 = stmts_view(v@.take(i as int));
            assert(s0.push(stmt_view(v@[i as int])).drop_last() =~= s0);
        }
        let ghost o1 = out@;
        add_assigned_stmt(&v[i], out);
        proof {
            assert forall|y: u32|
                #![trigger out@.contains(y)]
                out@.contains(y) <==> o0.contains(y) || asg_stmts(y, stmts_view(v@.take(i + 1))) by {
                assert(o1.contains(y) <==> o0.contains(y) || asg_stmts(y, stmts_view(v@.take(i as int))));
                let s0 = stmts_view(v@.take(i as int));
                let s1 = stmts_view(v@.take(i + 1));
                assert(s1 == s0.push(stmt_view(v@[i as int])));
                assert(s1.drop_last() =~= s0);
                assert(s1.last() == stmt_view(v@[i as int]));
                assert(asg_stmts(y, s1) == (asg_stmts(y, s0) || asg_stmt(y, stmt_view(v@[i as int]))));
                assert(out@.contains(y) <==> o1.contains(y) || asg_stmt(y, stmt_view(v@[i as int])));
            }
        }
        i = i + 1;
    }
    proof {
        assert(v@.take(v.len() as int) =~= v@);
    }
}

/// The locals assigned anywhere in `stmts`, nested bodies included.
pub fn collect_assigned_locals(stmts: &Vec<MirStmt>) -> (r: Vec<u32>)
    ensures
        forall|y: u32| r@.contains(y) <==> asg_stmts(y, stmts_view(stmts@)),
{
    let mut out: Vec<u32> = Vec::new();
    add_assigned(stmts, &mut out);
    out
}

// ---------------------------------------------------------------------------
// Substitution: what it yields and whether it changed anything
// ---------------------------------------------------------------------------
pub open spec fn rp_place(p: PlaceView, m: Map<u32, OperandView>) -> PlaceView
    decreases p,
{
    match p {
        PlaceView::Local(_) => p,
        PlaceView::Field(b, f) => PlaceView::Field(Box::new(rp_place(*b, m)), f),
        PlaceView::Index(b, i) => PlaceView::Index(Box::new(rp_place(*b, m)), Box::new(rp_op(*i, m))),
    }
}

pub open spec fn ch_place(p: PlaceView, m: Map<u32, OperandView>) -> bool
    decreases p,
{
    match p {
        PlaceView::Local(_) => false,
        PlaceView::Field(b, _) => ch_place(*b, m),
        PlaceView::Index(b, i) => ch_place(*b, m) || ch_op(*i, m),
    }
}

/// `o` with every local read as an operand and mapped by `m` replaced.
pub open spec fn rp_op(o: OperandView, m: Map<u32, OperandView>) -> OperandView
    decreases o,
{
    match o {
        OperandView::Place(p) => match p {
            PlaceView::Local(l) => if m.contains_key(l.0) {
                m[l.0]
            } else {
                o
            },
            _ => OperandView::Place(rp_place(p, m)),
        },
        OperandView::BinOp(op, a, b) => OperandView::BinOp(
            op,
            Box::new(rp_op(*a, m)),
            Box::new(rp_op(*b, m)),
        ),
        OperandView::UnaryOp(op, a) => OperandView::UnaryOp(op, Box::new(rp_op(*a, m))),
        OperandView::EnumTag(a) => OperandView::EnumTag(Box::new(rp_op(*a, m))),
        OperandView::FieldAccess { object, struct_name, field } => OperandView::FieldAccess {
            object: Box::new(rp_op(*object, m)),
            struct_name,
            field,
        },
        OperandView::Call(n, args) => OperandView::Call(n, rp_ops(args, m)),
        OperandView::ArrayInit { elements } => OperandView::ArrayInit {
            elements: rp_ops(elements, m),
        },
        OperandView::IfExpr { cond, then_body, then_result, else_body, else_result } => {
            OperandView::IfExpr {
                cond: Box::new(rp_op(*cond, m)),
                then_body: rp_stmts(then_body, m),
                then_result: rp_res(then_result, m),
                else_body: rp_stmts(else_body, m),
                else_result: rp_res(else_result, m),
            }
        },
        OperandView::StructInit { name, fields } => OperandView::StructInit {
            name,
            fields: rp_fields(fields, m),
        },
        OperandView::EnumInit { enum_name, variant, tag, payload } => OperandView::EnumInit {
            enum_name,
            variant,
            tag,
            payload: rp_ops(payload, m),
        },
        OperandView::EnumPayload { object, index, enum_name, variant_name } => {
            OperandView::EnumPayload {
                object: Box::new(rp_op(*object, m)),
                index,
                enum_name,
                variant_name,
            }
        },
        OperandView::LoopExpr { init, body, result } => OperandView::LoopExpr {
            init: Box::new(rp_op(*init, m)),
            body: rp_stmts(body, m),
            result: Box::new(rp_op(*result, m)),
        },
        OperandView::TryExpr { expr, from_fn } => OperandView::TryExpr {
            expr: Box::new(rp_op(*expr, m)),
            from_fn,
        },
        OperandView::CallIndirect { callee, args } => OperandView::CallIndirect {
            callee: Box::new(rp_op(*callee, m)),
            args: rp_ops(args, m),
        },
        OperandView::IndexAccess { object, index } => OperandView::IndexAccess {
            object: Box::new(rp_op(*object, m)),
            index: Box::new(rp_op(*index, m)),
        },
        _ => o,
    }
}

/// Whether substituting `m` in `o` replaces anything.
pub open spec fn ch_op(o: OperandView, m: Map<u32, OperandView>) -> bool
    decreases o,
{
    match o {
        OperandView::Place(p) => match p {
            PlaceView::Local(l) => m.contains_key(l.0),
            _ => ch_place(p, m),
        },
        OperandView::BinOp(_, a, b) => ch_op(*a, m) || ch_op(*b, m),
        OperandView::UnaryOp(_, a) => ch_op(*a, m),
        OperandView::EnumTag(a) => ch_op(*a, m),
        OperandView::FieldAccess { object, .. } => ch_op(*object, m),
        OperandView::Call(_, args) => ch_ops(args, m),
        OperandView::ArrayInit { elements } => ch_ops(elements, m),
        OperandView::IfExpr { cond, then_body, then_result, else_body, else_result } => {
            ch_op(*cond, m) || ch_stmts(then_body, m) || ch_res(then_result, m) || ch_stmts(
                else_body,
                m,
            ) || ch_res(else_result, m)
        },
        OperandView::StructInit { fields, .. } => ch_fields(fields, m),
        OperandView::EnumInit { payload, .. } => ch_ops(payload, m),
        OperandView::EnumPayload { object, .. } => ch_op(*object, m),
        OperandView::LoopExpr { init, body, result } => ch_op(*init, m) || ch_stmts(body, m)
            || ch_op(*result, m),
        OperandView::TryExpr { expr, .. } => ch_op(*expr, m),
        OperandView::CallIndirect { callee, args } => ch_op(*callee, m) || ch_ops(args, m),
        OperandView::IndexAccess { object, index } => ch_op(*object, m) || ch_op(*index, m),
        _ => false,
    }
}

pub open spec fn rp_res(r: Option<Box<OperandView>>, m: Map<u32, OperandView>) -> Option<
    Box<OperandView>,
>
    decreases r,
{
    match r {
        Some(b) => Some(Box::new(rp_op(*b, m))),
        None => None,
    }
}

pub open spec fn ch_res(r: Option<Box<OperandView>>, m: Map<u32, OperandView>) -> bool
    decreases r,
{
    match r {
        Some(b) => ch_op(*b, m),
        None => false,
    }
}

pub open spec fn rp_ops(s: Seq<OperandView>, m: Map<u32, OperandView>) -> Seq<OperandView>
    decreases s,
{
    if s.len() == 0 {
        Seq::empty()
    } else {
        rp_ops(s.drop_last(), m).push(rp_op(s.last(), m))
    }
}

pub open spec fn ch_ops(s: Seq<OperandView>, m: Map<u32, OperandView>) -> bool
    decreases s,
{
    if s.len() == 0 {
        false
    } else {
        ch_ops(s.drop_last(), m) || ch_op(s.last(), m)
    }
}

pub open spec fn rp_fields(s: Seq<(Seq<char>, OperandView)>, m: Map<u32, OperandView>) -> Seq<
    (Seq<char>, OperandView),
>
    decreases s,
{
    if s.len() == 0 {
        Seq::empty()
    } else {
        rp_fields(s.drop_last(), m).push((s.last().0, rp_op(s.last().1, m)))
    }
}

pub open spec fn ch_fields(s: Seq<(Seq<char>, OperandView)>, m: Map<u32, OperandView>) -> bool
    decreases s,
{
    if s.len() == 0 {
        false
    } else {
        ch_fields(s.drop_last(), m) || ch_op(s.last().1, m)
    }
}

pub open spec fn rp_rvalue(r: RvalueView, m: Map<u32, OperandView>) -> RvalueView
    decreases r,
{
    match r {
        RvalueView::Use(o) => RvalueView::Use(rp_op(o, m)),
        RvalueView::BinaryOp(op, a, b) => RvalueView::BinaryOp(op, rp_op(a, m), rp_op(b, m)),
        RvalueView::UnaryOp(op, a) => RvalueView::UnaryOp(op, rp_op(a, m)),
        RvalueView::Aggregate(k, v) => RvalueView::Aggregate(k, rp_ops(v, m)),
        RvalueView::Ref(p) => RvalueView::Ref(rp_place(p, m)),
    }
}

pub open spec fn ch_rvalue(r: RvalueView, m: Map<u32, OperandView>) -> bool
    decreases r,
{
    match r {
        RvalueView::Use(o) => ch_op(o, m),
        RvalueView::BinaryOp(_, a, b) => ch_op(a, m) || ch_op(b, m),
        RvalueView::UnaryOp(_, a) => ch_op(a, m),
        RvalueView::Aggregate(_, v) => ch_ops(v, m),
        RvalueView::Ref(p) => ch_place(p, m),
    }
}

/// The substitution in force inside a `while` loop with body `body`: the
/// locals the body assigns are dropped.
pub open spec fn loop_safe(m: Map<u32, OperandView>, body: Seq<StmtView>) -> Map<u32, OperandView> {
    m.remove_keys(assigned_set(body))
}

pub open spec fn rp_stmt(s: StmtView, m: Map<u32, OperandView>) -> StmtView
    decreases s,
{
    match s {
        StmtView::Assign(p, r) => StmtView::Assign(p, rp_rvalue(r, m)),
        StmtView::Call { dest, func, args } => StmtView::Call { dest, func, args: rp_ops(args, m) },
        StmtView::CallBuiltin { dest, name, args } => StmtView::CallBuiltin {
            dest,
            name,
            args: rp_ops(args, m),
        },
        StmtView::IfStmt { cond, then_body, else_body } => StmtView::IfStmt {
            cond: rp_op(cond, m),
            then_body: rp_stmts(then_body, m),
            else_body: rp_stmts(else_body, m),
        },
        StmtView::WhileStmt { cond, body } => StmtView::WhileStmt {
            cond: rp_op(cond, loop_safe(m, body)),
            body: rp_stmts(body, loop_safe(m, body)),
        },
        StmtView::Return(Some(v)) => StmtView::Return(Some(rp_op(v, m))),
        _ => s,
    }
}

pub open spec fn ch_stmt(s: StmtView, m: Map<u32, OperandView>) -> bool
    decreases s,
{
    match s {
        StmtView::Assign(_, r) => ch_rvalue(r, m),
        StmtView::Call { args, .. } => ch_ops(args, m),
        StmtView::CallBuiltin { args, .. } => ch_ops(args, m),
        StmtView::IfStmt { cond, then_body, else_body } => ch_op(cond, m) || ch_stmts(then_body, m)
            || ch_stmts(else_body, m),
        StmtView::WhileStmt { cond, body } => ch_op(cond, loop_safe(m, body)) || ch_stmts(
            body,
            loop_safe(m, body),
        ),
        StmtView::Return(Some(v)) => ch_op(v, m),
        _ => false,
    }
}

pub open spec fn rp_stmts(s: Seq<StmtView>, m: Map<u32, OperandView>) -> Seq<StmtView>
    decreases s,
{
    if s.len() == 0 {
        Seq::empty()
    } else {
        rp_stmts(s.drop_last(), m).push(rp_stmt(s.last(), m))
    }
}

pub open spec fn ch_stmts(s: Seq<StmtView>, m: Map<u32, OperandView>) -> bool
    decreases s,
{
    if s.len() == 0 {
        false
    } else {
        ch_stmts(s.drop_last(), m) || ch_stmt(s.last(), m)
    }
}

/// Substitution in a terminator: the condition of an `if`, the scrutinee
/// of a `switch` and a returned value.
pub open spec fn rp_term(t: TerminatorView, m: Map<u32, OperandView>) -> TerminatorView {
    match t {
        TerminatorView::If { cond, then_block, else_block, hint } => TerminatorView::If {
            cond: rp_op(cond, m),
            then_block,
            else_block,
            hint,
        },
        TerminatorView::Switch { scrutinee, arms, default } => TerminatorView::Switch {
            scrutinee: rp_op(scrutinee, m),
            arms,
            default,
        },
        TerminatorView::Return(Some(v)) => TerminatorView::Return(Some(rp_op(v, m))),
        _ => t,
    }
}

pub open spec fn ch_term(t: TerminatorView, m: Map<u32, OperandView>) -> bool {
    match t {
        TerminatorView::If { cond, .. } => ch_op(cond, m),
        TerminatorView::Switch { scrutinee, .. } => ch_op(scrutinee, m),
        TerminatorView::Return(Some(v)) => ch_op(v, m),
        _ => false,
    }
}
// ---------------------------------------------------------------------------
// Substitution: the code
// ---------------------------------------------------------------------------
fn rw_place(p: &Place, reps: &Vec<(u32, Operand)>) -> (r: (Place, bool))
    ensures
        r.0@ == rp_place(p@, reps_map(reps@)),
        r.1 == ch_place(p@, reps_map(reps@)),
    decreases p,
{
    match p {
        Place::Local(id) => (Place::Local(*id), false),
        Place::Field(b, f) => {
            let (nb, c) = rw_place(b, reps);
            (Place::Field(Box::new(nb), f.clone()), c)
        },
        Place::Index(b, i) => {
            let (nb, c1) = rw_place(b, reps);
            let (ni, c2) = rw_op(i, reps);
            (Place::Index(Box::new(nb), Box::new(ni)), c1 || c2)
        },
    }
}

fn rw_op(o: &Operand, reps: &Vec<(u32, Operand)>) -> (r: (Operand, bool))
    ensures
        r.0@ == rp_op(o@, reps_map(reps@)),
        r.1 == ch_op(o@, reps_map(reps@)),
    decreases o,
{
    match o {
        Operand::Place(Place::Local(id)) => match reps_get(reps, id.0) {
            Some(x) => (x, true),
            None => (clone_operand(o), false),
        },
        Operand::Place(p) => {
            let (np, c) = rw_place(p, reps);
            proof {
                assert(!(p@ is Local));
            }
            (Operand::Place(np), c)
        },
        Operand::BinOp(op, a, b) => {
            let (na, c1) = rw_op(a, reps);
            let (nb, c2) = rw_op(b, reps);
            (Operand::BinOp(*op, Box::new(na), Box::new(nb)), c1 || c2)
        },
        Operand::UnaryOp(op, a) => {
            let (na, c) = rw_op(a, reps);
            (Operand::UnaryOp(*op, Box::new(na)), c)
        },
        Operand::EnumTag(a) => {
            let (na, c) = rw_op(a, reps);
            (Operand::EnumTag(Box::new(na)), c)
        },
        Operand::FieldAccess { object, struct_name, field } => {
            let (na, c) = rw_op(object, reps);
            (
                Operand::FieldAccess {
                    object: Box::new(na),
                    struct_name: struct_name.clone(),
                    field: field.clone(),
                },
                c,
            )
        },
        Operand::Call(n, args) => {
            let (na, c) = rw_ops(args, reps);
            (Operand::Call(n.clone(), na), c)
        },
        Operand::ArrayInit { elements } => {
            let (na, c) = rw_ops(elements, reps);
            (Operand::ArrayInit { elements: na }, c)
        },
        Operand::IfExpr { cond, then_body, then_result, else_body, else_result } => {
            let (nc, c1) = rw_op(cond, reps);
            let (nt, c2) = rw_stmts(then_body, reps);
            let (ntr, c3) = rw_res(then_result, reps);
            let (ne, c4) = rw_stmts(else_body, reps);
            let (ner, c5) = rw_res(else_result, reps);
            (
                Operand::IfExpr {
                    cond: Box::new(nc),
                    then_body: nt,
                    then_result: ntr,
                    else_body: ne,
                    else_result: ner,
                },
                c1 || c2 || c3 || c4 || c5,
            )
        },
        Operand::StructInit { name, fields } => {
            let (nf, c) = rw_fields(fields, reps);
            (Operand::StructInit { name: name.clone(), fields: nf }, c)
        },
        Operand::EnumInit { enum_name, variant, tag, payload } => {
            let (np, c) = rw_ops(payload, reps);
            (
                Operand::EnumInit {
                    enum_name: enum_name.clone(),
                    variant: variant.clone(),
                    tag: *tag,
                    payload: np,
                },
                c,
            )
        },
        Operand::EnumPayload { object, index, enum_name, variant_name } => {
            let (na, c) = rw_op(object, reps);
            (
                Operand::EnumPayload {
                    object: Box::new(na),
                    index: *index,
                    enum_name: enum_name.clone(),
                    variant_name: variant_name.clone(),
                },
                c,
            )
        },
        Operand::LoopExpr { init, body, result } => {
            let (ni, c1) = rw_op(init, reps);
            let (nb, c2) = rw_stmts(body, reps);
            let (nr, c3) = rw_op(result, reps);
            (
                Operand::LoopExpr { init: Box::new(ni), body: nb, result: Box::new(nr) },
                c1 || c2 || c3,
            )
        },
        Operand::TryExpr { expr, from_fn } => {
            let (ne, c) = rw_op(expr, reps);
            (Operand::TryExpr { expr: Box::new(ne), from_fn: clone_opt_string(from_fn) }, c)
        },
        Operand::CallIndirect { callee, args } => {
            let (nc, c1) = rw_op(callee, reps);
            let (na, c2) = rw_ops(args, reps);
            (Operand::CallIndirect { callee: Box::new(nc), args: na }, c1 || c2)
        },
        Operand::IndexAccess { object, index } => {
            let (no, c1) = rw_op(object, reps);
            let (ni, c2) = rw_op(index, reps);
            (Operand::IndexAccess { object: Box::new(no), index: Box::new(ni) }, c1 || c2)
        },
        _ => (clone_operand(o), false),
    }
}

fn rw_res(r: &Option<Box<Operand>>, reps: &Vec<(u32, Operand)>) -> (res: (Option<Box<Operand>>, bool))
    ensures
        crate::mir::opt_box_operand_view(res.0) == rp_res(
            crate::mir::opt_box_operand_view(*r),
            reps_map(reps@),
        ),
        res.1 == ch_res(crate::mir::opt_box_operand_view(*r), reps_map(reps@)),
    decreases r,
{
    match r {
        Some(b) => {
            let (nb, c) = rw_op(b, reps);
            (Some(Box::new(nb)), c)
        },
        None => (None, false),
    }
}

fn rw_ops(v: &Vec<Operand>, reps: &Vec<(u32, Operand)>) -> (r: (Vec<Operand>, bool))
    ensures
        operands_view(r.0@) == rp_ops(operands_view(v@), reps_map(reps@)),
        r.1 == ch_ops(operands_view(v@), reps_map(reps@)),
    decreases v,
{
    let ghost m = reps_map(reps@);
    let mut out: Vec<Operand> = Vec::new();
    let mut changed = false;
    let mut i: usize = 0;
    proof {
        assert(v@.take(0) =~= Seq::<Operand>::empty());
        assert(operands_view(out@) =~= Seq::<OperandView>::empty());
    }
    #[verifier::loop_isolation(false)]
    while i < v.len()
        invariant
            i <= v.len(),
            operands_view(out@) == rp_ops(operands_view(v@.take(i as int)), m),
            changed == ch_ops(operands_view(v@.take(i as int)), m),
        decreases v.len() - i,
    {
        proof {
            broadcast use vstd::std_specs::vec::axiom_vec_index_decreases;

            assert(decreases_to!(v => v[i as int]));
            lemma_operands_view_take(v@, i as int);
            let s0 = operands_view(v@.take(i as int));
            assert(s0.push(operand_view(v@[i as int])).drop_last() =~= s0);
        }
        let (x, c) = rw_op(&v[i], reps);
        let ghost before = out@;
        out.push(x);
        changed = changed || c;
        proof {
            assert(out@.drop_last() =~= before);
        }
        i = i + 1;
    }
    proof {
        assert(v@.take(v.len() as int) =~= v@);
    }
    (out, changed)
}

fn rw_fields(v: &Vec<(String, Operand)>, reps: &Vec<(u32, Operand)>) -> (r: (
    Vec<(String, Operand)>,
    bool,
))
    ensures
        fields_view(r.0@) == rp_fields(fields_view(v@), reps_map(reps@)),
        r.1 == ch_fields(fields_view(v@), reps_map(reps@)),
    decreases v,
{
    let ghost m = reps_map(reps@);
    let mut out: Vec<(String, Operand)> = Vec::new();
    let mut changed = false;
    let mut i: usize = 0;
    proof {
        assert(v@.take(0) =~= Seq::<(String, Operand)>::empty());
        assert(fields_view(out@) =~= Seq::<(Seq<char>, OperandView)>::empty());
    }
    #[verifier::loop_isolation(false)]
    while i < v.len()
        invariant
            i <= v.len(),
            fields_view(out@) == rp_fields(fields_view(v@.take(i as int)), m),
            changed == ch_fields(fields_view(v@.take(i as int)), m),
        decreases v.len() - i,
    {
        proof {
            broadcast use vstd::std_specs::vec::axiom_vec_index_decreases;

            assert(decreases_to!(v => v[i as int]));
            assert(decreases_to!(v[i as int] => v[i as int].1));
            lemma_fields_view_take(v@, i as int);
            let s0 = fields_view(v@.take(i as int));
            assert(s0.push((v@[i as int].0@, operand_view(v@[i as int].1))).drop_last() =~= s0);
        }
        let (x, c) = rw_op(&v[i].1, reps);
        let n = v[i].0.clone();
        let ghost before = out@;
        out.push((n, x));
        changed = changed || c;
        proof {
            assert(out@.drop_last() =~= before);
        }
        i = i + 1;
    }
    proof {
        assert(v@.take(v.len() as int) =~= v@);
    }
    (out, changed)
}

fn rw_rvalue(r: &Rvalue, reps: &Vec<(u32, Operand)>) -> (res: (Rvalue, bool))
    ensures
        res.0@ == rp_rvalue(r@, reps_map(reps@)),
        res.1 == ch_rvalue(r@, reps_map(reps@)),
    decreases r,
{
    match r {
        Rvalue::Use(o) => {
            let (n, c) = rw_op(o, reps);
            (Rvalue::Use(n), c)
        },
        Rvalue::BinaryOp(op, a, b) => {
            let (na, c1) = rw_op(a, reps);
            let (nb, c2) = rw_op(b, reps);
            (Rvalue::BinaryOp(*op, na, nb), c1 || c2)
        },
        Rvalue::UnaryOp(op, a) => {
            let (na, c) = rw_op(a, reps);
            (Rvalue::UnaryOp(*op, na), c)
        },
        Rvalue::Aggregate(k, v) => {
            let (nv, c) = rw_ops(v, reps);
            (Rvalue::Aggregate(clone_aggregate_kind(k), nv), c)
        },
        Rvalue::Ref(p) => {
            let (np, c) = rw_place(p, reps);
            (Rvalue::Ref(np), c)
        },
    }
}

/// `s` with the substitution applied, and whether it replaced anything.
pub(crate) fn rw_stmt(s: &MirStmt, reps: &Vec<(u32, Operand)>) -> (r: (MirStmt, bool))
    ensures
        r.0@ == rp_stmt(s@, reps_map(reps@)),
        r.1 == ch_stmt(s@, reps_map(reps@)),
    decreases s,
{
    match s {
        MirStmt::Assign(p, rv) => {
            let (nr, c) = rw_rvalue(rv, reps);
            (MirStmt::Assign(crate::mir::clone_place(p), nr), c)
        },
        MirStmt::Call { dest, func, args } => {
            let (na, c) = rw_ops(args, reps);
            (MirStmt::Call { dest: clone_opt_place(dest), func: *func, args: na }, c)
        },
        MirStmt::CallBuiltin { dest, name, args } => {
            let (na, c) = rw_ops(args, reps);
            (MirStmt::CallBuiltin { dest: clone_opt_place(dest), name: name.clone(), args: na }, c)
        },
        MirStmt::IfStmt { cond, then_body, else_body } => {
            let (nc, c1) = rw_op(cond, reps);
            let (nt, c2) = rw_stmts(then_body, reps);
            let (ne, c3) = rw_stmts(else_body, reps);
            (MirStmt::IfStmt { cond: nc, then_body: nt, else_body: ne }, c1 || c2 || c3)
        },
        MirStmt::WhileStmt { cond, body } => {
            let mods = collect_assigned_locals(body);
            let safe = reps_without(reps, &mods);
            proof {
                assert(mods@.to_set() =~= assigned_set(stmts_view(body@)));
            }
            let (nc, c1) = rw_op(cond, &safe);
            let (nb, c2) = rw_stmts(body, &safe);
            (MirStmt::WhileStmt { cond: nc, body: nb }, c1 || c2)
        },
        MirStmt::Return(Some(v)) => {
            let (nv, c) = rw_op(v, reps);
            (MirStmt::Return(Some(nv)), c)
        },
        _ => (clone_stmt(s), false),
    }
}

pub(crate) fn rw_stmts(v: &Vec<MirStmt>, reps: &Vec<(u32, Operand)>) -> (r: (Vec<MirStmt>, bool))
    ensures
        stmts_view(r.0@) == rp_stmts(stmts_view(v@), reps_map(reps@)),
        r.1 == ch_stmts(stmts_view(v@), reps_map(reps@)),
    decreases v,
{
    let ghost m = reps_map(reps@);
    let mut out: Vec<MirStmt> = Vec::new();
    let mut changed = false;
    let mut i: usize = 0;
    proof {
        assert(v@.take(0) =~= Seq::<MirStmt>::empty());
        assert(stmts_view(out@) =~= Seq::<StmtView>::empty());
    }
    #[verifier::loop_isolation(false)]
    while i < v.len()
        invariant
            i <= v.len(),
            stmts_view(out@) == rp_stmts(stmts_view(v@.take(i as int)), m),
            changed == ch_stmts(stmts_view(v@.take(i as int)), m),
        decreases v.len() - i,
    {
        proof {
            broadcast use vstd::std_specs::vec::axiom_vec_index_decreases;

            assert(decreases_to!(v => v[i as int]));
            lemma_stmts_view_take(v@, i as int);
            let s0 = stmts_view(v@.take(i as int));
            assert(s0.push(stmt_view(v@[i as int])).drop_last() =~= s0);
        }
        let (x, c) = rw_stmt(&v[i], reps);
        let ghost before = out@;
        out.push(x);
        changed = changed || c;
        proof {
            assert(out@.drop_last() =~= before);
        }
        i = i + 1;
    }
    proof {
        assert(v@.take(v.len() as int) =~= v@);
    }
    (out, changed)
}

/// `t` with the substitution applied, and whether it replaced anything.
pub(crate) fn rw_term(t: &Terminator, reps: &Vec<(u32, Operand)>) -> (r: (Terminator, bool))
    ensures
        r.0@ == rp_term(t@, reps_map(reps@)),
        r.1 == ch_term(t@, reps_map(reps@)),
{
    match t {
        Terminator::If { cond, then_block, else_block, hint } => {
            let (nc, c) = rw_op(cond, reps);
            (
                Terminator::If {
                    cond: nc,
                    then_block: *then_block,
                    else_block: *else_block,
                    hint: *hint,
                },
                c,
            )
        },
        Terminator::Switch { scrutinee, arms, default } => {
            let (ns, c) = rw_op(scrutinee, reps);
            (Terminator::Switch { scrutinee: ns, arms: clone_arms(arms), default: *default }, c)
        },
        Terminator::Return(Some(v)) => {
            let (nv, c) = rw_op(v, reps);
            (Terminator::Return(Some(nv)), c)
        },
        _ => (clone_terminator(t), false),
    }
}
// ---------------------------------------------------------------------------
// Locals a function mentions
// ---------------------------------------------------------------------------
pub open spec fn u_place(x: u32, p: PlaceView) -> bool
    decreases p,
{
    match p {
        PlaceView::Local(l) => l.0 == x,
        PlaceView::Field(b, _) => u_place(x, *b),
        PlaceView::Index(b, i) => u_place(x, *b) || u_op(x, *i),
    }
}

/// Whether operand `o` mentions local `x` anywhere.
pub open spec fn u_op(x: u32, o: OperandView) -> bool
    decreases o,
{
    match o {
        OperandView::Place(p) => u_place(x, p),
        OperandView::BinOp(_, a, b) => u_op(x, *a) || u_op(x, *b),
        OperandView::UnaryOp(_, a) => u_op(x, *a),
        OperandView::EnumTag(a) => u_op(x, *a),
        OperandView::FieldAccess { object, .. } => u_op(x, *object),
        OperandView::Call(_, args) => u_ops(x, args),
        OperandView::ArrayInit { elements } => u_ops(x, elements),
        OperandView::IfExpr { cond, then_body, then_result, else_body, else_result } => {
            u_op(x, *cond) || u_stmts(x, then_body) || u_res(x, then_result) || u_stmts(
                x,
                else_body,
            ) || u_res(x, else_result)
        },
        OperandView::StructInit { fields, .. } => u_fields(x, fields),
        OperandView::EnumInit { payload, .. } => u_ops(x, payload),
        OperandView::EnumPayload { object, .. } => u_op(x, *object),
        OperandView::LoopExpr { init, body, result } => u_op(x, *init) || u_stmts(x, body) || u_op(
            x,
            *result,
        ),
        OperandView::TryExpr { expr, .. } => u_op(x, *expr),
        OperandView::CallIndirect { callee, args } => u_op(x, *callee) || u_ops(x, args),
        OperandView::IndexAccess { object, index } => u_op(x, *object) || u_op(x, *index),
        _ => false,
    }
}

pub open spec fn u_res(x: u32, r: Option<Box<OperandView>>) -> bool
    decreases r,
{
    match r {
        Some(b) => u_op(x, *b),
        None => false,
    }
}

pub open spec fn u_ops(x: u32, s: Seq<OperandView>) -> bool
    decreases s,
{
    if s.len() == 0 {
        false
    } else {
        u_ops(x, s.drop_last()) || u_op(x, s.last())
    }
}

pub open spec fn u_fields(x: u32, s: Seq<(Seq<char>, OperandView)>) -> bool
    decreases s,
{
    if s.len() == 0 {
        false
    } else {
        u_fields(x, s.drop_last()) || u_op(x, s.last().1)
    }
}

pub open spec fn u_rvalue(x: u32, r: RvalueView) -> bool
    decreases r,
{
    match r {
        RvalueView::Use(o) => u_op(x, o),
        RvalueView::BinaryOp(_, a, b) => u_op(x, a) || u_op(x, b),
        RvalueView::UnaryOp(_, a) => u_op(x, a),
        RvalueView::Aggregate(_, v) => u_ops(x, v),
        RvalueView::Ref(p) => u_place(x, p),
    }
}

/// Whether statement `s` mentions local `x`: in an assignment's target or
/// value, a call's arguments (not its destination), a condition, a nested
/// body, a returned value or a GC hint.
pub open spec fn u_stmt(x: u32, s: StmtView) -> bool
    decreases s,
{
    match s {
        StmtView::Assign(p, r) => u_place(x, p) || u_rvalue(x, r),
        StmtView::Call { args, .. } => u_ops(x, args),
        StmtView::CallBuiltin { args, .. } => u_ops(x, args),
        StmtView::IfStmt { cond, then_body, else_body } => u_op(x, cond) || u_stmts(x, then_body)
            || u_stmts(x, else_body),
        StmtView::WhileStmt { cond, body } => u_op(x, cond) || u_stmts(x, body),
        StmtView::Return(Some(v)) => u_op(x, v),
        StmtView::GcHint { local, .. } => local.0 == x,
        _ => false,
    }
}

pub open spec fn u_stmts(x: u32, s: Seq<StmtView>) -> bool
    decreases s,
{
    if s.len() == 0 {
        false
    } else {
        u_stmts(x, s.drop_last()) || u_stmt(x, s.last())
    }
}

pub open spec fn u_term(x: u32, t: TerminatorView) -> bool {
    match t {
        TerminatorView::If { cond, .. } => u_op(x, cond),
        TerminatorView::Switch { scrutinee, .. } => u_op(x, scrutinee),
        TerminatorView::Return(Some(v)) => u_op(x, v),
        _ => false,
    }
}

/// Whether the blocks `bs` mention local `x`.
pub open spec fn u_blocks(x: u32, bs: Seq<crate::mir::BlockView>) -> bool
    decreases bs.len(),
{
    if bs.len() == 0 {
        false
    } else {
        u_blocks(x, bs.drop_last()) || u_stmts(x, bs.last().stmts) || u_term(x, bs.last().terminator)
    }
}

fn col_place(p: &Place, out: &mut Vec<u32>)
    ensures
        forall|y: u32|
            #![trigger final(out)@.contains(y)]
            final(out)@.contains(y) <==> old(out)@.contains(y) || u_place(y, p@),
    decreases p,
{
    match p {
        Place::Local(l) => push_id(out, l.0),
        Place::Field(b, _) => col_place(b, out),
        Place::Index(b, i) => {
            col_place(b, out);
            col_op(i, out);
        },
    }
}

fn col_op(o: &Operand, out: &mut Vec<u32>)
    ensures
        forall|y: u32|
            #![trigger final(out)@.contains(y)]
            final(out)@.contains(y) <==> old(out)@.contains(y) || u_op(y, o@),
    decreases o,
{
    match o {
        Operand::Place(p) => col_place(p, out),
        Operand::BinOp(_, a, b) | Operand::IndexAccess { object: a, index: b } => {
            col_op(a, out);
            col_op(b, out);
        },
        Operand::UnaryOp(_, a) | Operand::EnumTag(a) | Operand::FieldAccess { object: a, .. }
        | Operand::EnumPayload { object: a, .. } | Operand::TryExpr { expr: a, .. } => col_op(a, out),
        Operand::Call(_, args) | Operand::ArrayInit { elements: args } | Operand::EnumInit {
            payload: args,
            ..
        } => col_ops(args, out),
        Operand::IfExpr { cond, then_body, then_result, else_body, else_result } => {
            col_op(cond, out);
            col_stmts(then_body, out);
            col_res(then_result, out);
            col_stmts(else_body, out);
            col_res(else_result, out);
        },
        Operand::StructInit { fields, .. } => col_fields(fields, out),
        Operand::LoopExpr { init, body, result } => {
            col_op(init, out);
            col_stmts(body, out);
            col_op(result, out);
        },
        Operand::CallIndirect { callee, args } => {
            col_op(callee, out);
            col_ops(args, out);
        },
        _ => {},
    }
}

fn col_res(r: &Option<Box<Operand>>, out: &mut Vec<u32>)
    ensures
        forall|y: u32|
            #![trigger final(out)@.contains(y)]
            final(out)@.contains(y) <==> old(out)@.contains(y) || u_res(
                y,
                crate::mir::opt_box_operand_view(*r),
            ),
    decreases r,
{
    match r {
        Some(b) => col_op(b, out),
        None => {},
    }
}

fn col_ops(v: &Vec<Operand>, out: &mut Vec<u32>)
    ensures
        forall|y: u32|
            #![trigger final(out)@.contains(y)]
            final(out)@.contains(y) <==> old(out)@.contains(y) || u_ops(y, operands_view(v@)),
    decreases v,
{
    let ghost o0 = out@;
    let mut i: usize = 0;
    proof {
        assert(v@.take(0) =~= Seq::<Operand>::empty());
    }
    while i < v.len()
        invariant
            i <= v.len(),
            forall|y: u32|
                #![trigger out@.contains(y)]
                out@.contains(y) <==> o0.contains(y) || u_ops(y, operands_view(v@.take(i as int))),
        decreases v.len() - i,
    {
        proof {
            broadcast use vstd::std_specs::vec::axiom_vec_index_decreases;

            assert(decreases_to!(v => v[i as int]));
            lemma_operands_view_take(v@, i as int);
        }
        let ghost o1 = out@;
        col_op(&v[i], out);
        proof {
            let s0 = operands_view(v@.take(i as int));
            let s1 = operands_view(v@.take(i + 1));
            assert(s1.drop_last() =~= s0);
            assert(s1.last() == operand_view(v@[i as int]));
            assert forall|y: u32|
                #![trigger out@.contains(y)]
                out@.contains(y) <==> o0.contains(y) || u_ops(y, s1) by {
                assert(o1.contains(y) <==> o0.contains(y) || u_ops(y, s0));
            }
        }
        i = i + 1;
    }
    proof {
        assert(v@.take(v.len() as int) =~= v@);
    }
}

fn col_fields(v: &Vec<(String, Operand)>, out: &mut Vec<u32>)
    ensures
        forall|y: u32|
            #![trigger final(out)@.contains(y)]
            final(out)@.contains(y) <==> old(out)@.contains(y) || u_fields(y, fields_view(v@)),
    decreases v,
{
    let ghost o0 = out@;
    let mut i: usize = 0;
    proof {
        assert(v@.take(0) =~= Seq::<(String, Operand)>::empty());
    }
    while i < v.len()
        invariant
            i <= v.len(),
            forall|y: u32|
                #![trigger out@.contains(y)]
                out@.contains(y) <==> o0.contains(y) || u_fields(y, fields_view(v@.take(i as int))),
        decreases v.len() - i,
    {
        proof {
            broadcast use vstd::std_specs::vec::axiom_vec_index_decreases;

            assert(decreases_to!(v => v[i as int]));
            assert(decreases_to!(v[i as int] => v[i as int].1));
            lemma_fields_view_take(v@, i as int);
        }
        let ghost o1 = out@;
        col_op(&v[i].1, out);
        proof {
            let s0 = fields_view(v@.take(i as int));
            let s1 = fields_view(v@.take(i + 1));
            assert(s1.drop_last() =~= s0);
            assert(s1.last().1 == operand_view(v@[i as int].1));
            assert forall|y: u32|
                #![trigger out@.contains(y)]
                out@.contains(y) <==> o0.contains(y) || u_fields(y, s1) by {
                assert(o1.contains(y) <==> o0.contains(y) || u_fields(y, s0));
            }
        }
        i = i + 1;
    }
    proof {
        assert(v@.take(v.len() as int) =~= v@);
    }
}

fn col_rvalue(r: &Rvalue, out: &mut Vec<u32>)
    ensures
        forall|y: u32|
            #![trigger final(out)@.contains(y)]
            final(out)@.contains(y) <==> old(out)@.contains(y) || u_rvalue(y, r@),
    decreases r,
{
    match r {
        Rvalue::Use(o) => col_op(o, out),
        Rvalue::BinaryOp(_, a, b) => {
            col_op(a, out);
            col_op(b, out);
        },
        Rvalue::UnaryOp(_, a) => col_op(a, out),
        Rvalue::Aggregate(_, v) => col_ops(v, out),
        Rvalue::Ref(p) => col_place(p, out),
    }
}

/// Add the locals `s` mentions to `out`.
pub(crate) fn collect_stmt_locals(s: &MirStmt, out: &mut Vec<u32>)
    ensures
        forall|y: u32|
            #![trigger final(out)@.contains(y)]
            final(out)@.contains(y) <==> old(out)@.contains(y) || u_stmt(y, s@),
    decreases s,
{
    match s {
        MirStmt::Assign(p, r) => {
            col_place(p, out);
            col_rvalue(r, out);
        },
        MirStmt::Call { args, .. } => col_ops(args, out),
        MirStmt::CallBuiltin { args, .. } => col_ops(args, out),
        MirStmt::IfStmt { cond, then_body, else_body } => {
            col_op(cond, out);
            col_stmts(then_body, out);
            col_stmts(else_body, out);
        },
        MirStmt::WhileStmt { cond, body } => {
            col_op(cond, out);
            col_stmts(body, out);
        },
        MirStmt::Return(Some(v)) => col_op(v, out),
        MirStmt::GcHint { local, .. } => push_id(out, local.0),
        _ => {},
    }
}

fn col_stmts(v: &Vec<MirStmt>, out: &mut Vec<u32>)
    ensures
        forall|y: u32|
            #![trigger final(out)@.contains(y)]
            final(out)@.contains(y) <==> old(out)@.contains(y) || u_stmts(y, stmts_view(v@)),
    decreases v,
{
    let ghost o0 = out@;
    let mut i: usize = 0;
    proof {
        assert(v@.take(0) =~= Seq::<MirStmt>::empty());
    }
    while i < v.len()
        invariant
            i <= v.len(),
            forall|y: u32|
                #![trigger out@.contains(y)]
                out@.contains(y) <==> o0.contains(y) || u_stmts(y, stmts_view(v@.take(i as int))),
        decreases v.len() - i,
    {
        proof {
            broadcast use vstd::std_specs::vec::axiom_vec_index_decreases;

            assert(decreases_to!(v => v[i as int]));
            lemma_stmts_view_take(v@, i as int);
        }
        let ghost o1 = out@;
        collect_stmt_locals(&v[i], out);
        proof {
            let s0 = stmts_view(v@.take(i as int));
            let s1 = stmts_view(v@.take(i + 1));
            assert(s1.drop_last() =~= s0);
            assert(s1.last() == stmt_view(v@[i as int]));
            assert forall|y: u32|
                #![trigger out@.contains(y)]
                out@.contains(y) <==> o0.contains(y) || u_stmts(y, s1) by {
                assert(o1.contains(y) <==> o0.contains(y) || u_stmts(y, s0));
            }
        }
        i = i + 1;
    }
    proof {
        assert(v@.take(v.len() as int) =~= v@);
    }
}

/// Add the locals `t` mentions to `out`.
pub(crate) fn collect_terminator_locals(t: &Terminator, out: &mut Vec<u32>)
    ensures
        forall|y: u32|
            #![trigger final(out)@.contains(y)]
            final(out)@.contains(y) <==> old(out)@.contains(y) || u_term(y, t@),
{
    match t {
        Terminator::If { cond, .. } => col_op(cond, out),
        Terminator::Switch { scrutinee, .. } => col_op(scrutinee, out),
        Terminator::Return(Some(v)) => col_op(v, out),
        _ => {},
    }
}
} // verus!
