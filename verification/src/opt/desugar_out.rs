//! What the desugaring pass writes, as spec functions of the input and of
//! the id counter at which its temporaries start.
//!
//! Desugaring an operand gives the operand to use in its place and the
//! statements to run before it. Every lowered expression takes its
//! temporaries from the counter in the order the pass meets them: an
//! operand's nested operands first, left to right, then its own temporary,
//! then the branches or the body it holds. A statement becomes the
//! statements of its operands followed by itself over the new operands; a
//! block's statements are followed by those of its terminator.
use vstd::prelude::*;

use crate::mir::{BlockView, LocalId, OperandView, PlaceView, RvalueView, StmtView, TerminatorView, UnaryOp};
use crate::opt::desugar::{store_tmp, try_check_spec};
use crate::opt::lowering::{
    lowers_if, lowers_loop, lowers_try, op_temps, ops_temps, res_temps, stmts_temps, term_lowered,
    term_ops, term_with, DesugarMode,
};

verus! {

/// The local with id `n`.
pub open spec fn tmp_local(n: nat) -> LocalId {
    LocalId(n as u32)
}

/// The local `n` as an operand.
pub open spec fn tmp_op(n: nat) -> OperandView {
    OperandView::Place(PlaceView::Local(tmp_local(n)))
}

/// Desugaring the operand `o` with temporaries from `n`: the operand to use
/// in its place and the statements to run before it.
pub open spec fn ds_op(m: DesugarMode, o: OperandView, n: nat) -> (OperandView, Seq<StmtView>)
    decreases o,
{
    match o {
        OperandView::IfExpr { cond, then_body, then_result, else_body, else_result } => {
            if lowers_if(m) {
                let c = ds_op(m, *cond, n);
                let t = n + op_temps(m, *cond);
                let n2 = t + 1;
                let n3 = n2 + stmts_temps(m, then_body);
                let n4 = n3 + res_temps(m, then_result);
                let n5 = n4 + stmts_temps(m, else_body);
                let tb = ds_stmts(m, then_body, n2) + ds_res(m, then_result, n3, t);
                let eb = ds_stmts(m, else_body, n4) + ds_res(m, else_result, n5, t);
                (tmp_op(t), c.1.push(StmtView::IfStmt { cond: c.0, then_body: tb, else_body: eb }))
            } else {
                (o, Seq::empty())
            }
        },
        OperandView::LoopExpr { init, body, result } => {
            if lowers_loop(m) {
                let i = ds_op(m, *init, n);
                let t = n + op_temps(m, *init);
                let b = ds_stmts(m, body, t + 1);
                let r = ds_op(m, *result, t + 1 + stmts_temps(m, body));
                (
                    tmp_op(t),
                    i.1.push(store_tmp(tmp_local(t), i.0)) + b + r.1.push(
                        store_tmp(tmp_local(t), r.0),
                    ),
                )
            } else {
                (o, Seq::empty())
            }
        },
        OperandView::TryExpr { expr, from_fn } => {
            if lowers_try(m) {
                let e = ds_op(m, *expr, n);
                let t = n + op_temps(m, *expr);
                (
                    tmp_op(t + 1),
                    e.1.push(store_tmp(tmp_local(t), e.0)).push(
                        try_check_spec(tmp_local(t), tmp_local(t + 1), from_fn),
                    ),
                )
            } else {
                (o, Seq::empty())
            }
        },
        OperandView::BinOp(bop, a, b) => {
            let x = ds_op(m, *a, n);
            let y = ds_op(m, *b, n + op_temps(m, *a));
            (OperandView::BinOp(bop, Box::new(x.0), Box::new(y.0)), x.1 + y.1)
        },
        OperandView::UnaryOp(uop, a) => {
            let x = ds_op(m, *a, n);
            (OperandView::UnaryOp(uop, Box::new(x.0)), x.1)
        },
        OperandView::EnumTag(a) => {
            let x = ds_op(m, *a, n);
            (OperandView::EnumTag(Box::new(x.0)), x.1)
        },
        OperandView::Call(name, args) => {
            let x = ds_ops(m, args, n);
            (OperandView::Call(name, x.0), x.1)
        },
        OperandView::FieldAccess { object, struct_name, field } => {
            let x = ds_op(m, *object, n);
            (OperandView::FieldAccess { object: Box::new(x.0), struct_name, field }, x.1)
        },
        OperandView::EnumPayload { object, index, enum_name, variant_name } => {
            let x = ds_op(m, *object, n);
            (
                OperandView::EnumPayload { object: Box::new(x.0), index, enum_name, variant_name },
                x.1,
            )
        },
        OperandView::CallIndirect { callee, args } => {
            let x = ds_op(m, *callee, n);
            let y = ds_ops(m, args, n + op_temps(m, *callee));
            (OperandView::CallIndirect { callee: Box::new(x.0), args: y.0 }, x.1 + y.1)
        },
        _ => (o, Seq::empty()),
    }
}

/// Desugaring a list of operands, left to right.
pub open spec fn ds_ops(m: DesugarMode, s: Seq<OperandView>, n: nat) -> (
    Seq<OperandView>,
    Seq<StmtView>,
)
    decreases s,
{
    if s.len() == 0 {
        (Seq::empty(), Seq::empty())
    } else {
        let x = ds_ops(m, s.drop_last(), n);
        let y = ds_op(m, s.last(), n + ops_temps(m, s.drop_last()));
        (x.0.push(y.0), x.1 + y.1)
    }
}

/// The end of a lowered branch: its result, or unit, stored in the
/// temporary `t`.
pub open spec fn ds_res(m: DesugarMode, r: Option<Box<OperandView>>, n: nat, t: nat) -> Seq<
    StmtView,
>
    decreases r,
{
    match r {
        Some(b) => {
            let x = ds_op(m, *b, n);
            x.1.push(store_tmp(tmp_local(t), x.0))
        },
        None => seq![store_tmp(tmp_local(t), OperandView::Unit)],
    }
}

/// Desugaring an rvalue: the rvalue over the new operands and the
/// statements to run before it.
pub open spec fn ds_rvalue(m: DesugarMode, r: RvalueView, n: nat) -> (RvalueView, Seq<StmtView>)
    decreases r,
{
    match r {
        RvalueView::Use(o) => {
            let x = ds_op(m, o, n);
            (RvalueView::Use(x.0), x.1)
        },
        RvalueView::BinaryOp(bop, a, b) => {
            let x = ds_op(m, a, n);
            let y = ds_op(m, b, n + op_temps(m, a));
            (RvalueView::BinaryOp(bop, x.0, y.0), x.1 + y.1)
        },
        RvalueView::UnaryOp(uop, a) => {
            let x = ds_op(m, a, n);
            (RvalueView::UnaryOp(uop, x.0), x.1)
        },
        RvalueView::Aggregate(kind, v) => {
            let x = ds_ops(m, v, n);
            (RvalueView::Aggregate(kind, x.0), x.1)
        },
        RvalueView::Ref(p) => (r, Seq::empty()),
    }
}

/// Desugaring one statement: the statements of its operands, then the
/// statement over the new operands. A `while` whose condition needs
/// statements becomes `while true` that runs them and leaves when the
/// condition is false.
pub open spec fn ds_stmt(m: DesugarMode, s: StmtView, n: nat) -> Seq<StmtView>
    decreases s,
{
    match s {
        StmtView::Assign(p, r) => {
            let x = ds_rvalue(m, r, n);
            x.1.push(StmtView::Assign(p, x.0))
        },
        StmtView::Call { dest, func, args } => {
            let x = ds_ops(m, args, n);
            x.1.push(StmtView::Call { dest, func, args: x.0 })
        },
        StmtView::CallBuiltin { dest, name, args } => {
            let x = ds_ops(m, args, n);
            x.1.push(StmtView::CallBuiltin { dest, name, args: x.0 })
        },
        StmtView::IfStmt { cond, then_body, else_body } => {
            let c = ds_op(m, cond, n);
            let n2 = n + op_temps(m, cond);
            let tb = ds_stmts(m, then_body, n2);
            let eb = ds_stmts(m, else_body, n2 + stmts_temps(m, then_body));
            c.1.push(StmtView::IfStmt { cond: c.0, then_body: tb, else_body: eb })
        },
        StmtView::WhileStmt { cond, body } => {
            let c = ds_op(m, cond, n);
            let b = ds_stmts(m, body, n + op_temps(m, cond));
            if c.1.len() == 0 {
                seq![StmtView::WhileStmt { cond: c.0, body: b }]
            } else {
                let exit = StmtView::IfStmt {
                    cond: OperandView::UnaryOp(UnaryOp::Not, Box::new(c.0)),
                    then_body: seq![StmtView::Break],
                    else_body: Seq::empty(),
                };
                seq![
                    StmtView::WhileStmt {
                        cond: OperandView::ConstBool(true),
                        body: c.1.push(exit) + b,
                    },
                ]
            }
        },
        StmtView::Return(Some(o)) => {
            let x = ds_op(m, o, n);
            x.1.push(StmtView::Return(Some(x.0)))
        },
        _ => seq![s],
    }
}

/// Desugaring a list of statements, in order.
pub open spec fn ds_stmts(m: DesugarMode, s: Seq<StmtView>, n: nat) -> Seq<StmtView>
    decreases s,
{
    if s.len() == 0 {
        Seq::empty()
    } else {
        ds_stmts(m, s.drop_last(), n) + ds_stmt(
            m,
            s.last(),
            n + stmts_temps(m, s.drop_last()),
        )
    }
}

/// The end of a returned branch: the return of its result, if any.
pub open spec fn ds_ret(m: DesugarMode, r: Option<Box<OperandView>>, n: nat) -> Seq<StmtView> {
    match r {
        Some(b) => {
            let x = ds_op(m, *b, n);
            x.1.push(StmtView::Return(Some(x.0)))
        },
        None => seq![StmtView::Return(None)],
    }
}

/// The statements a block's terminator `t` adds: a rewritten block end
/// (`return` of an `if` or, in loop-only mode, of a loop expression)
/// becomes statements that return from inside; any other terminator adds
/// the statements of its in-place operands.
pub open spec fn ds_term_stmts(m: DesugarMode, t: TerminatorView, n: nat) -> Seq<StmtView> {
    if term_lowered(m, t) {
        match t {
            TerminatorView::Return(Some(o)) => match o {
                OperandView::IfExpr { cond, then_body, then_result, else_body, else_result } => {
                    let c = ds_op(m, *cond, n);
                    let n2 = n + op_temps(m, *cond);
                    let n3 = n2 + stmts_temps(m, then_body);
                    let n4 = n3 + res_temps(m, then_result);
                    let n5 = n4 + stmts_temps(m, else_body);
                    let tb = ds_stmts(m, then_body, n2) + ds_ret(m, then_result, n3);
                    let eb = ds_stmts(m, else_body, n4) + ds_ret(m, else_result, n5);
                    c.1.push(StmtView::IfStmt { cond: c.0, then_body: tb, else_body: eb })
                },
                OperandView::LoopExpr { init, body, result } => {
                    let i = ds_op(m, *init, n);
                    let tl = n + op_temps(m, *init);
                    let b = ds_stmts(m, body, tl + 1);
                    let r = ds_op(m, *result, tl + 1 + stmts_temps(m, body));
                    i.1.push(store_tmp(tmp_local(tl), i.0)) + b + r.1.push(
                        StmtView::Return(Some(r.0)),
                    )
                },
                _ => Seq::empty(),
            },
            _ => Seq::empty(),
        }
    } else {
        ds_ops(m, term_ops(t), n).1
    }
}

/// The terminator a block ends with after desugaring: `Unreachable` where
/// the block end was rewritten into statements, else the terminator over
/// its new in-place operands.
pub open spec fn ds_term(m: DesugarMode, t: TerminatorView, n: nat) -> TerminatorView {
    if term_lowered(m, t) {
        TerminatorView::Unreachable
    } else {
        term_with(t, ds_ops(m, term_ops(t), n).0)
    }
}

/// A block desugared with temporaries from `n`.
pub open spec fn ds_block(m: DesugarMode, b: BlockView, n: nat) -> BlockView {
    BlockView {
        id: b.id,
        stmts: ds_stmts(m, b.stmts, n) + ds_term_stmts(m, b.terminator, n + stmts_temps(m, b.stmts)),
        terminator: ds_term(m, b.terminator, n + stmts_temps(m, b.stmts)),
        source: b.source,
    }
}

} // verus!
