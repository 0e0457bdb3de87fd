//! What desugaring removes, and how much work it does.
//!
//! Desugaring walks the operands a statement uses directly, and the
//! operands nested inside those through arithmetic, calls, field and enum
//! accesses. At each such position it replaces the expression forms it is
//! asked to lower (`IfExpr`, `LoopExpr`, `TryExpr`) by statements and a
//! temporary. The spec functions here count the temporaries and the
//! rewrites such a walk performs, and describe the statements it leaves.
use vstd::prelude::*;

use crate::legality::{operand_legal, operands_legal, rvalue_legal, stmt_legal, stmts_legal, terminator_legal};
use crate::mir::{OperandView, RvalueView, StmtView, TerminatorView};

verus! {

/// Which expression forms a desugaring run lowers.
#[derive(Debug, Clone, Copy, PartialEq, Eq, Structural)]
pub enum DesugarMode {
    /// `IfExpr`, `LoopExpr` and `TryExpr`.
    All,
    /// `IfExpr` only.
    IfOnly,
    /// `LoopExpr` only.
    LoopOnly,
    /// `TryExpr` only.
    TryOnly,
}

pub open spec fn lowers_if(m: DesugarMode) -> bool {
    m == DesugarMode::All || m == DesugarMode::IfOnly
}

pub open spec fn lowers_loop(m: DesugarMode) -> bool {
    m == DesugarMode::All || m == DesugarMode::LoopOnly
}

pub open spec fn lowers_try(m: DesugarMode) -> bool {
    m == DesugarMode::All || m == DesugarMode::TryOnly
}

/// Whether mode `m` rewrites the operand `o` itself.
pub open spec fn lowered_kind(m: DesugarMode, o: OperandView) -> bool {
    ||| (o is IfExpr && lowers_if(m))
    ||| (o is LoopExpr && lowers_loop(m))
    ||| (o is TryExpr && lowers_try(m))
}

// ---------------------------------------------------------------------------
// Temporaries introduced
// ---------------------------------------------------------------------------
/// Number of temporaries desugaring `o` introduces.
pub open spec fn op_temps(m: DesugarMode, o: OperandView) -> nat
    decreases o,
{
    match o {
        OperandView::IfExpr { cond, then_body, then_result, else_body, else_result } => {
            if lowers_if(m) {
                1 + op_temps(m, *cond) + stmts_temps(m, then_body) + res_temps(m, then_result)
                    + stmts_temps(m, else_body) + res_temps(m, else_result)
            } else {
                0
            }
        },
        OperandView::LoopExpr { init, body, result } => {
            if lowers_loop(m) {
                1 + op_temps(m, *init) + stmts_temps(m, body) + op_temps(m, *result)
            } else {
                0
            }
        },
        OperandView::TryExpr { expr, .. } => {
            if lowers_try(m) {
                2 + op_temps(m, *expr)
            } else {
                0
            }
        },
        OperandView::BinOp(_, a, b) => op_temps(m, *a) + op_temps(m, *b),
        OperandView::UnaryOp(_, a) => op_temps(m, *a),
        OperandView::EnumTag(a) => op_temps(m, *a),
        OperandView::Call(_, args) => ops_temps(m, args),
        OperandView::FieldAccess { object, .. } => op_temps(m, *object),
        OperandView::EnumPayload { object, .. } => op_temps(m, *object),
        OperandView::CallIndirect { callee, args } => op_temps(m, *callee) + ops_temps(m, args),
        _ => 0,
    }
}

pub open spec fn res_temps(m: DesugarMode, r: Option<Box<OperandView>>) -> nat
    decreases r,
{
    match r {
        Some(b) => op_temps(m, *b),
        None => 0,
    }
}

pub open spec fn ops_temps(m: DesugarMode, s: Seq<OperandView>) -> nat
    decreases s,
{
    if s.len() == 0 {
        0
    } else {
        ops_temps(m, s.drop_last()) + op_temps(m, s.last())
    }
}

pub open spec fn rvalue_temps(m: DesugarMode, r: RvalueView) -> nat
    decreases r,
{
    match r {
        RvalueView::Use(o) => op_temps(m, o),
        RvalueView::BinaryOp(_, a, b) => op_temps(m, a) + op_temps(m, b),
        RvalueView::UnaryOp(_, a) => op_temps(m, a),
        RvalueView::Aggregate(_, v) => ops_temps(m, v),
        RvalueView::Ref(_) => 0,
    }
}

pub open spec fn stmt_temps(m: DesugarMode, s: StmtView) -> nat
    decreases s,
{
    match s {
        StmtView::Assign(_, r) => rvalue_temps(m, r),
        StmtView::Call { args, .. } => ops_temps(m, args),
        StmtView::CallBuiltin { args, .. } => ops_temps(m, args),
        StmtView::IfStmt { cond, then_body, else_body } => op_temps(m, cond) + stmts_temps(
            m,
            then_body,
        ) + stmts_temps(m, else_body),
        StmtView::WhileStmt { cond, body } => op_temps(m, cond) + stmts_temps(m, body),
        StmtView::Return(Some(o)) => op_temps(m, o),
        _ => 0,
    }
}

pub open spec fn stmts_temps(m: DesugarMode, s: Seq<StmtView>) -> nat
    decreases s,
{
    if s.len() == 0 {
        0
    } else {
        stmts_temps(m, s.drop_last()) + stmt_temps(m, s.last())
    }
}

// ---------------------------------------------------------------------------
// Rewrites counted
// ---------------------------------------------------------------------------
/// Number of rewrites desugaring `o` reports. The rewrites inside the
/// result operands of an `IfExpr` are performed but not reported.
pub open spec fn op_count(m: DesugarMode, o: OperandView) -> nat
    decreases o,
{
    match o {
        OperandView::IfExpr { cond, then_body, else_body, .. } => {
            if lowers_if(m) {
                1 + op_count(m, *cond) + stmts_count(m, then_body) + stmts_count(m, else_body)
            } else {
                0
            }
        },
        OperandView::LoopExpr { init, body, result } => {
            if lowers_loop(m) {
                1 + op_count(m, *init) + stmts_count(m, body) + op_count(m, *result)
            } else {
                0
            }
        },
        OperandView::TryExpr { expr, .. } => {
            if lowers_try(m) {
                1 + op_count(m, *expr)
            } else {
                0
            }
        },
        OperandView::BinOp(_, a, b) => op_count(m, *a) + op_count(m, *b),
        OperandView::UnaryOp(_, a) => op_count(m, *a),
        OperandView::EnumTag(a) => op_count(m, *a),
        OperandView::Call(_, args) => ops_count(m, args),
        OperandView::FieldAccess { object, .. } => op_count(m, *object),
        OperandView::EnumPayload { object, .. } => op_count(m, *object),
        OperandView::CallIndirect { callee, args } => op_count(m, *callee) + ops_count(m, args),
        _ => 0,
    }
}

pub open spec fn ops_count(m: DesugarMode, s: Seq<OperandView>) -> nat
    decreases s,
{
    if s.len() == 0 {
        0
    } else {
        ops_count(m, s.drop_last()) + op_count(m, s.last())
    }
}

pub open spec fn rvalue_count(m: DesugarMode, r: RvalueView) -> nat
    decreases r,
{
    match r {
        RvalueView::Use(o) => op_count(m, o),
        RvalueView::BinaryOp(_, a, b) => op_count(m, a) + op_count(m, b),
        RvalueView::UnaryOp(_, a) => op_count(m, a),
        RvalueView::Aggregate(_, v) => ops_count(m, v),
        RvalueView::Ref(_) => 0,
    }
}

pub open spec fn stmt_count(m: DesugarMode, s: StmtView) -> nat
    decreases s,
{
    match s {
        StmtView::Assign(_, r) => rvalue_count(m, r),
        StmtView::Call { args, .. } => ops_count(m, args),
        StmtView::CallBuiltin { args, .. } => ops_count(m, args),
        StmtView::IfStmt { cond, then_body, else_body } => op_count(m, cond) + stmts_count(
            m,
            then_body,
        ) + stmts_count(m, else_body),
        StmtView::WhileStmt { cond, body } => op_count(m, cond) + stmts_count(m, body),
        StmtView::Return(Some(o)) => op_count(m, o),
        _ => 0,
    }
}

pub open spec fn stmts_count(m: DesugarMode, s: Seq<StmtView>) -> nat
    decreases s,
{
    if s.len() == 0 {
        0
    } else {
        stmts_count(m, s.drop_last()) + stmt_count(m, s.last())
    }
}

// ---------------------------------------------------------------------------
// What is left
// ---------------------------------------------------------------------------
/// No form that mode `m` lowers occurs at `o` or at a position below it
/// that desugaring walks.
pub open spec fn op_clean(m: DesugarMode, o: OperandView) -> bool
    decreases o,
{
    if lowered_kind(m, o) {
        false
    } else {
        match o {
            OperandView::BinOp(_, a, b) => op_clean(m, *a) && op_clean(m, *b),
            OperandView::UnaryOp(_, a) => op_clean(m, *a),
            OperandView::EnumTag(a) => op_clean(m, *a),
            OperandView::Call(_, args) => ops_clean(m, args),
            OperandView::FieldAccess { object, .. } => op_clean(m, *object),
            OperandView::EnumPayload { object, .. } => op_clean(m, *object),
            OperandView::CallIndirect { callee, args } => op_clean(m, *callee) && ops_clean(
                m,
                args,
            ),
            _ => true,
        }
    }
}

pub open spec fn ops_clean(m: DesugarMode, s: Seq<OperandView>) -> bool
    decreases s,
{
    if s.len() == 0 {
        true
    } else {
        ops_clean(m, s.drop_last()) && op_clean(m, s.last())
    }
}

pub open spec fn rvalue_clean(m: DesugarMode, r: RvalueView) -> bool
    decreases r,
{
    match r {
        RvalueView::Use(o) => op_clean(m, o),
        RvalueView::BinaryOp(_, a, b) => op_clean(m, a) && op_clean(m, b),
        RvalueView::UnaryOp(_, a) => op_clean(m, a),
        RvalueView::Aggregate(_, v) => ops_clean(m, v),
        RvalueView::Ref(_) => true,
    }
}

pub open spec fn stmt_clean(m: DesugarMode, s: StmtView) -> bool
    decreases s,
{
    match s {
        StmtView::Assign(_, r) => rvalue_clean(m, r),
        StmtView::Call { args, .. } => ops_clean(m, args),
        StmtView::CallBuiltin { args, .. } => ops_clean(m, args),
        StmtView::IfStmt { cond, then_body, else_body } => op_clean(m, cond) && stmts_clean(
            m,
            then_body,
        ) && stmts_clean(m, else_body),
        StmtView::WhileStmt { cond, body } => op_clean(m, cond) && stmts_clean(m, body),
        StmtView::Return(Some(o)) => op_clean(m, o),
        _ => true,
    }
}

pub open spec fn stmts_clean(m: DesugarMode, s: Seq<StmtView>) -> bool
    decreases s,
{
    if s.len() == 0 {
        true
    } else {
        stmts_clean(m, s.drop_last()) && stmt_clean(m, s.last())
    }
}

// ---------------------------------------------------------------------------
// Terminators
// ---------------------------------------------------------------------------
/// Whether mode `m` rewrites a block ending in `t`: `return <if-expr>`
/// when it lowers `IfExpr`, `return <loop-expr>` when it lowers `LoopExpr`
/// alone.
pub open spec fn term_lowered(m: DesugarMode, t: TerminatorView) -> bool {
    match t {
        TerminatorView::Return(Some(o)) => (o is IfExpr && lowers_if(m)) || (o is LoopExpr && m
            == DesugarMode::LoopOnly),
        _ => false,
    }
}

/// The operands of `t` that desugaring rewrites in place when it does not
/// rewrite the whole block end: a returned value, an `if` condition, a
/// switch scrutinee, a tail call's callee and arguments.
pub open spec fn term_ops(t: TerminatorView) -> Seq<OperandView> {
    match t {
        TerminatorView::Return(Some(o)) => seq![o],
        TerminatorView::If { cond, .. } => seq![cond],
        TerminatorView::Switch { scrutinee, .. } => seq![scrutinee],
        TerminatorView::TailCall { args, .. } => args,
        TerminatorView::TailCallIndirect { callee, args } => seq![*callee] + args,
        _ => Seq::empty(),
    }
}

/// `t` with the operands of [`term_ops`] replaced by `ops`, in order.
pub open spec fn term_with(t: TerminatorView, ops: Seq<OperandView>) -> TerminatorView {
    match t {
        TerminatorView::Return(Some(_)) => TerminatorView::Return(Some(ops[0])),
        TerminatorView::If { then_block, else_block, hint, .. } => TerminatorView::If {
            cond: ops[0],
            then_block,
            else_block,
            hint,
        },
        TerminatorView::Switch { arms, default, .. } => TerminatorView::Switch {
            scrutinee: ops[0],
            arms,
            default,
        },
        TerminatorView::TailCall { func, .. } => TerminatorView::TailCall { func, args: ops },
        TerminatorView::TailCallIndirect { .. } => TerminatorView::TailCallIndirect {
            callee: Box::new(ops[0]),
            args: ops.drop_first(),
        },
        _ => t,
    }
}

pub open spec fn term_temps(m: DesugarMode, t: TerminatorView) -> nat {
    if term_lowered(m, t) {
        match t {
            TerminatorView::Return(Some(o)) => match o {
                OperandView::IfExpr { cond, then_body, then_result, else_body, else_result } => {
                    op_temps(m, *cond) + stmts_temps(m, then_body) + res_temps(m, then_result)
                        + stmts_temps(m, else_body) + res_temps(m, else_result)
                },
                _ => op_temps(m, o),
            },
            _ => 0,
        }
    } else {
        ops_temps(m, term_ops(t))
    }
}

pub open spec fn term_count(m: DesugarMode, t: TerminatorView) -> nat {
    if term_lowered(m, t) {
        match t {
            TerminatorView::Return(Some(o)) => op_count(m, o),
            _ => 0,
        }
    } else {
        ops_count(m, term_ops(t))
    }
}

/// `nt` is terminator `t` with its in-place operands desugared in mode `m`:
/// the same terminator around clean operands, and `t` itself when its
/// operands had no work.
#[verifier::opaque]
pub open spec fn term_desugared(m: DesugarMode, t: TerminatorView, nt: TerminatorView) -> bool {
    &&& term_ops(nt).len() == term_ops(t).len()
    &&& nt == term_with(t, term_ops(nt))
    &&& ops_clean(m, term_ops(nt))
    &&& (ops_temps(m, term_ops(t)) == 0 ==> nt == t)
}

/// A terminator the block-end rewrite leaves alone costs what its in-place
/// operands cost.
pub proof fn lemma_term_generic(m: DesugarMode, t: TerminatorView)
    requires
        !term_lowered(m, t),
    ensures
        term_temps(m, t) == ops_temps(m, term_ops(t)),
        term_count(m, t) == ops_count(m, term_ops(t)),
{
}

/// Rebuilding a terminator around operands gives those operands back.
pub proof fn lemma_ops_of_with(t: TerminatorView, ops: Seq<OperandView>)
    requires
        ops.len() == term_ops(t).len(),
    ensures
        term_ops(term_with(t, ops)) == ops,
{
    match t {
        TerminatorView::Return(Some(_)) => {
            assert(term_ops(term_with(t, ops)) =~= ops);
        },
        TerminatorView::If { .. } => {
            assert(term_ops(term_with(t, ops)) =~= ops);
        },
        TerminatorView::Switch { .. } => {
            assert(term_ops(term_with(t, ops)) =~= ops);
        },
        TerminatorView::TailCallIndirect { callee, args } => {
            if ops.len() > 0 {
                assert(seq![ops[0]] + ops.drop_first() =~= ops);
            }
        },
        _ => {},
    }
}

/// What a terminator with desugared in-place operands leaves: no work for
/// the same mode, and, after a full desugaring, a backend-legal terminator.
pub proof fn lemma_term_done(m: DesugarMode, t: TerminatorView, nt: TerminatorView)
    requires
        term_desugared(m, t, nt),
    ensures
        !term_lowered(m, nt),
        term_temps(m, nt) == 0,
        term_count(m, nt) == 0,
        m == DesugarMode::All ==> terminator_legal(nt),
{
    reveal(term_desugared);
    lemma_ops_clean_no_work(m, term_ops(nt));
    let ops = term_ops(nt);
    match nt {
        TerminatorView::Return(Some(o)) => {
            assert(ops[0] == o);
            assert(ops.drop_last() =~= Seq::<OperandView>::empty());
            assert(op_clean(m, o));
        },
        _ => {},
    }
    if m == DesugarMode::All {
        lemma_ops_clean_all_is_legal(ops);
        match nt {
            TerminatorView::TailCall { args, .. } => {
                assert(operands_legal(args));
            },
            TerminatorView::TailCallIndirect { callee, args } => {
                assert(ops[0] == *callee);
                assert forall|i: int| 0 <= i < args.len() implies operand_legal(#[trigger] args[i]) by {
                    assert(ops[i + 1] == args[i]);
                }
                assert(operands_legal(args));
            },
            _ => {},
        }
    }
}

// ---------------------------------------------------------------------------
// Lemmas
// ---------------------------------------------------------------------------
pub proof fn lemma_ops_append(m: DesugarMode, a: Seq<OperandView>, b: Seq<OperandView>)
    ensures
        ops_temps(m, a + b) == ops_temps(m, a) + ops_temps(m, b),
        ops_count(m, a + b) == ops_count(m, a) + ops_count(m, b),
        ops_clean(m, a + b) == (ops_clean(m, a) && ops_clean(m, b)),
    decreases b.len(),
{
    if b.len() == 0 {
        assert(a + b =~= a);
    } else {
        lemma_ops_append(m, a, b.drop_last());
        assert((a + b).drop_last() =~= a + b.drop_last());
        assert((a + b).last() == b.last());
    }
}

pub proof fn lemma_stmts_append(m: DesugarMode, a: Seq<StmtView>, b: Seq<StmtView>)
    ensures
        stmts_temps(m, a + b) == stmts_temps(m, a) + stmts_temps(m, b),
        stmts_count(m, a + b) == stmts_count(m, a) + stmts_count(m, b),
        stmts_clean(m, a + b) == (stmts_clean(m, a) && stmts_clean(m, b)),
    decreases b.len(),
{
    if b.len() == 0 {
        assert(a + b =~= a);
    } else {
        lemma_stmts_append(m, a, b.drop_last());
        assert((a + b).drop_last() =~= a + b.drop_last());
        assert((a + b).last() == b.last());
    }
}

pub proof fn lemma_stmts_push(m: DesugarMode, a: Seq<StmtView>, s: StmtView)
    ensures
        stmts_temps(m, a.push(s)) == stmts_temps(m, a) + stmt_temps(m, s),
        stmts_count(m, a.push(s)) == stmts_count(m, a) + stmt_count(m, s),
        stmts_clean(m, a.push(s)) == (stmts_clean(m, a) && stmt_clean(m, s)),
{
    assert(a.push(s).drop_last() =~= a);
}

pub proof fn lemma_ops_push(m: DesugarMode, a: Seq<OperandView>, o: OperandView)
    ensures
        ops_temps(m, a.push(o)) == ops_temps(m, a) + op_temps(m, o),
        ops_count(m, a.push(o)) == ops_count(m, a) + op_count(m, o),
        ops_clean(m, a.push(o)) == (ops_clean(m, a) && op_clean(m, o)),
{
    assert(a.push(o).drop_last() =~= a);
}

pub proof fn lemma_stmts_empty(m: DesugarMode)
    ensures
        stmts_temps(m, Seq::<StmtView>::empty()) == 0,
        stmts_count(m, Seq::<StmtView>::empty()) == 0,
        stmts_clean(m, Seq::<StmtView>::empty()),
{
}

/// Nothing is left to lower in a clean operand: a second run does nothing.
pub proof fn lemma_op_clean_no_work(m: DesugarMode, o: OperandView)
    requires
        op_clean(m, o),
    ensures
        op_temps(m, o) == 0,
        op_count(m, o) == 0,
    decreases o,
{
    match o {
        OperandView::BinOp(_, a, b) => {
            lemma_op_clean_no_work(m, *a);
            lemma_op_clean_no_work(m, *b);
        },
        OperandView::UnaryOp(_, a) => lemma_op_clean_no_work(m, *a),
        OperandView::EnumTag(a) => lemma_op_clean_no_work(m, *a),
        OperandView::Call(_, args) => lemma_ops_clean_no_work(m, args),
        OperandView::FieldAccess { object, .. } => lemma_op_clean_no_work(m, *object),
        OperandView::EnumPayload { object, .. } => lemma_op_clean_no_work(m, *object),
        OperandView::CallIndirect { callee, args } => {
            lemma_op_clean_no_work(m, *callee);
            lemma_ops_clean_no_work(m, args);
        },
        _ => {},
    }
}

pub proof fn lemma_ops_clean_no_work(m: DesugarMode, s: Seq<OperandView>)
    requires
        ops_clean(m, s),
    ensures
        ops_temps(m, s) == 0,
        ops_count(m, s) == 0,
    decreases s,
{
    if s.len() > 0 {
        lemma_ops_clean_no_work(m, s.drop_last());
        lemma_op_clean_no_work(m, s.last());
    }
}

pub proof fn lemma_stmt_clean_no_work(m: DesugarMode, s: StmtView)
    requires
        stmt_clean(m, s),
    ensures
        stmt_temps(m, s) == 0,
        stmt_count(m, s) == 0,
    decreases s,
{
    match s {
        StmtView::Assign(_, r) => match r {
            RvalueView::Use(o) => lemma_op_clean_no_work(m, o),
            RvalueView::BinaryOp(_, a, b) => {
                lemma_op_clean_no_work(m, a);
                lemma_op_clean_no_work(m, b);
            },
            RvalueView::UnaryOp(_, a) => lemma_op_clean_no_work(m, a),
            RvalueView::Aggregate(_, v) => lemma_ops_clean_no_work(m, v),
            RvalueView::Ref(_) => {},
        },
        StmtView::Call { args, .. } => lemma_ops_clean_no_work(m, args),
        StmtView::CallBuiltin { args, .. } => lemma_ops_clean_no_work(m, args),
        StmtView::IfStmt { cond, then_body, else_body } => {
            lemma_op_clean_no_work(m, cond);
            lemma_stmts_clean_no_work(m, then_body);
            lemma_stmts_clean_no_work(m, else_body);
        },
        StmtView::WhileStmt { cond, body } => {
            lemma_op_clean_no_work(m, cond);
            lemma_stmts_clean_no_work(m, body);
        },
        StmtView::Return(Some(o)) => lemma_op_clean_no_work(m, o),
        _ => {},
    }
}

pub proof fn lemma_stmts_clean_no_work(m: DesugarMode, s: Seq<StmtView>)
    requires
        stmts_clean(m, s),
    ensures
        stmts_temps(m, s) == 0,
        stmts_count(m, s) == 0,
    decreases s,
{
    if s.len() > 0 {
        lemma_stmts_clean_no_work(m, s.drop_last());
        lemma_stmt_clean_no_work(m, s.last());
    }
}

/// Statements left clean by a full desugaring are backend-legal.
pub proof fn lemma_clean_all_is_legal(s: Seq<StmtView>)
    requires
        stmts_clean(DesugarMode::All, s),
    ensures
        stmts_legal(s),
    decreases s,
{
    if s.len() > 0 {
        lemma_clean_all_is_legal(s.drop_last());
        lemma_stmt_clean_all_is_legal(s.last());
    }
}

pub proof fn lemma_stmt_clean_all_is_legal(s: StmtView)
    requires
        stmt_clean(DesugarMode::All, s),
    ensures
        stmt_legal(s),
    decreases s,
{
    let m = DesugarMode::All;
    match s {
        StmtView::Assign(_, r) => {
            match r {
                RvalueView::Aggregate(_, v) => lemma_ops_clean_all_is_legal(v),
                _ => {},
            }
            assert(rvalue_legal(r));
        },
        StmtView::Call { args, .. } => lemma_ops_clean_all_is_legal(args),
        StmtView::CallBuiltin { args, .. } => lemma_ops_clean_all_is_legal(args),
        StmtView::IfStmt { cond, then_body, else_body } => {
            lemma_clean_all_is_legal(then_body);
            lemma_clean_all_is_legal(else_body);
        },
        StmtView::WhileStmt { cond, body } => {
            lemma_clean_all_is_legal(body);
        },
        _ => {},
    }
}

pub proof fn lemma_ops_clean_all_is_legal(s: Seq<OperandView>)
    requires
        ops_clean(DesugarMode::All, s),
    ensures
        forall|i: int| 0 <= i < s.len() ==> operand_legal(#[trigger] s[i]),
    decreases s.len(),
{
    if s.len() > 0 {
        lemma_ops_clean_all_is_legal(s.drop_last());
        assert forall|i: int| 0 <= i < s.len() implies operand_legal(#[trigger] s[i]) by {
            if i < s.len() - 1 {
                assert(s.drop_last()[i] == s[i]);
            } else {
                assert(s[i] == s.last());
                assert(op_clean(DesugarMode::All, s.last()));
                assert(!lowered_kind(DesugarMode::All, s.last()));
            }
        }
    }
}

} // verus!
