//! Room for desugaring: how many temporaries a desugaring mode adds to a
//! function, counted up to the largest `u32`, and whether the function's
//! local ids leave room for them.
use vstd::prelude::*;

use crate::mir::{
    blocks_view, operand_view, operands_view, opt_box_operand_view, opt_operand_view,
    rvalue_view, stmt_view, stmts_view, terminator_view, BasicBlock, MirFunction, MirLocal,
    MirModule, MirStmt, Operand, Rvalue, Terminator, block_view, lemma_operands_view,
    lemma_stmts_view,
};
use crate::opt::desugar::{block_count, block_temps, blocks_count, blocks_temps, fn_count, fn_temps, max_local_id};
use crate::opt::lowering::{
    lemma_ops_push, lemma_stmts_push, lowers_if, lowers_loop, lowers_try, op_count, op_temps,
    ops_count, ops_temps, res_temps, rvalue_count, rvalue_temps, stmt_count, stmt_temps,
    stmts_count, stmts_temps, term_count, term_lowered, term_temps, DesugarMode,
};
use crate::mir::{OperandView, RvalueView, StmtView, TerminatorView, BlockView};

verus! {

// ---------------------------------------------------------------------------
// Counting up to a cap
// ---------------------------------------------------------------------------
/// `n`, or the largest `u32` where `n` is at least that large.
pub open spec fn capped(n: nat) -> u64 {
    if n < 0xffff_ffff {
        n as u64
    } else {
        0xffff_ffff
    }
}

fn plus(a: u64, b: u64, Ghost(x): Ghost<nat>, Ghost(y): Ghost<nat>) -> (r: u64)
    requires
        a == capped(x),
        b == capped(y),
    ensures
        r == capped(x + y),
{
    if a + b < 0xffff_ffff {
        a + b
    } else {
        0xffff_ffff
    }
}

fn mode_lowers_if(m: DesugarMode) -> (r: bool)
    ensures
        r == lowers_if(m),
{
    m == DesugarMode::All || m == DesugarMode::IfOnly
}

fn mode_lowers_loop(m: DesugarMode) -> (r: bool)
    ensures
        r == lowers_loop(m),
{
    m == DesugarMode::All || m == DesugarMode::LoopOnly
}

fn mode_lowers_try(m: DesugarMode) -> (r: bool)
    ensures
        r == lowers_try(m),
{
    m == DesugarMode::All || m == DesugarMode::TryOnly
}

// ---------------------------------------------------------------------------
// Temporaries of operands, statements and blocks
// ---------------------------------------------------------------------------
fn temps_op(m: DesugarMode, o: &Operand) -> (r: u64)
    ensures
        r == capped(op_temps(m, operand_view(*o))),
    decreases o,
{
    match o {
        Operand::IfExpr { cond, then_body, then_result, else_body, else_result } => {
            if mode_lowers_if(m) {
                let ghost tc = op_temps(m, operand_view(**cond));
                let ghost tt = stmts_temps(m, stmts_view(then_body@));
                let ghost tr = res_temps(m, opt_box_operand_view(*then_result));
                let ghost te = stmts_temps(m, stmts_view(else_body@));
                let ghost ter = res_temps(m, opt_box_operand_view(*else_result));
                let a = temps_op(m, cond);
                let b = temps_stmts(m, then_body);
                let c = temps_res(m, then_result);
                let d = temps_stmts(m, else_body);
                let e = temps_res(m, else_result);
                let s = plus(1, a, Ghost(1), Ghost(tc));
                let s = plus(s, b, Ghost(1 + tc), Ghost(tt));
                let s = plus(s, c, Ghost(1 + tc + tt), Ghost(tr));
                let s = plus(s, d, Ghost(1 + tc + tt + tr), Ghost(te));
                plus(s, e, Ghost(1 + tc + tt + tr + te), Ghost(ter))
            } else {
                0
            }
        },
        Operand::LoopExpr { init, body, result } => {
            if mode_lowers_loop(m) {
                let ghost ti = op_temps(m, operand_view(**init));
                let ghost tb = stmts_temps(m, stmts_view(body@));
                let ghost tr = op_temps(m, operand_view(**result));
                let a = temps_op(m, init);
                let b = temps_stmts(m, body);
                let c = temps_op(m, result);
                let s = plus(1, a, Ghost(1), Ghost(ti));
                let s = plus(s, b, Ghost(1 + ti), Ghost(tb));
                plus(s, c, Ghost(1 + ti + tb), Ghost(tr))
            } else {
                0
            }
        },
        Operand::TryExpr { expr, .. } => {
            if mode_lowers_try(m) {
                let a = temps_op(m, expr);
                plus(2, a, Ghost(2), Ghost(op_temps(m, operand_view(**expr))))
            } else {
                0
            }
        },
        Operand::BinOp(_, x, y) => {
            let a = temps_op(m, x);
            let b = temps_op(m, y);
            plus(a, b, Ghost(op_temps(m, operand_view(**x))), Ghost(op_temps(m, operand_view(**y))))
        },
        Operand::UnaryOp(_, x) => temps_op(m, x),
        Operand::EnumTag(x) => temps_op(m, x),
        Operand::Call(_, args) => temps_ops(m, args),
        Operand::FieldAccess { object, .. } => temps_op(m, object),
        Operand::EnumPayload { object, .. } => temps_op(m, object),
        Operand::CallIndirect { callee, args } => {
            let a = temps_op(m, callee);
            let b = temps_ops(m, args);
            plus(
                a,
                b,
                Ghost(op_temps(m, operand_view(**callee))),
                Ghost(ops_temps(m, operands_view(args@))),
            )
        },
        _ => 0,
    }
}

fn temps_res(m: DesugarMode, o: &Option<Box<Operand>>) -> (r: u64)
    ensures
        r == capped(res_temps(m, opt_box_operand_view(*o))),
    decreases o,
{
    match o {
        Some(b) => temps_op(m, b),
        None => 0,
    }
}

fn temps_ops(m: DesugarMode, v: &Vec<Operand>) -> (r: u64)
    ensures
        r == capped(ops_temps(m, operands_view(v@))),
    decreases v,
{
    let mut acc: u64 = 0;
    let mut i: usize = 0;
    proof {
        assert(v@.take(0) =~= Seq::<Operand>::empty());
    }
    #[verifier::loop_isolation(false)]
    while i < v.len()
        invariant
            i <= v.len(),
            acc == capped(ops_temps(m, operands_view(v@.take(i as int)))),
        decreases v.len() - i,
    {
        proof {
            broadcast use vstd::std_specs::vec::axiom_vec_index_decreases;

            assert(decreases_to!(v => v[i as int]));
            assert(v@.take(i as int + 1).drop_last() =~= v@.take(i as int));
            lemma_ops_push(m, operands_view(v@.take(i as int)), operand_view(v@[i as int]));
        }
        let t = temps_op(m, &v[i]);
        acc = plus(
            acc,
            t,
            Ghost(ops_temps(m, operands_view(v@.take(i as int)))),
            Ghost(op_temps(m, operand_view(v@[i as int]))),
        );
        i = i + 1;
    }
    proof {
        assert(v@.take(v.len() as int) =~= v@);
    }
    acc
}

fn temps_rvalue(m: DesugarMode, r: &Rvalue) -> (n: u64)
    ensures
        n == capped(rvalue_temps(m, rvalue_view(*r))),
    decreases r,
{
    match r {
        Rvalue::Use(o) => temps_op(m, o),
        Rvalue::BinaryOp(_, x, y) => {
            let a = temps_op(m, x);
            let b = temps_op(m, y);
            plus(a, b, Ghost(op_temps(m, operand_view(*x))), Ghost(op_temps(m, operand_view(*y))))
        },
        Rvalue::UnaryOp(_, x) => temps_op(m, x),
        Rvalue::Aggregate(_, v) => temps_ops(m, v),
        Rvalue::Ref(_) => 0,
    }
}

fn temps_stmt(m: DesugarMode, s: &MirStmt) -> (r: u64)
    ensures
        r == capped(stmt_temps(m, stmt_view(*s))),
    decreases s,
{
    match s {
        MirStmt::Assign(_, rv) => temps_rvalue(m, rv),
        MirStmt::Call { args, .. } => temps_ops(m, args),
        MirStmt::CallBuiltin { args, .. } => temps_ops(m, args),
        MirStmt::IfStmt { cond, then_body, else_body } => {
            let a = temps_op(m, cond);
            let b = temps_stmts(m, then_body);
            let c = temps_stmts(m, else_body);
            let ghost ta = op_temps(m, operand_view(*cond));
            let ghost tb = stmts_temps(m, stmts_view(then_body@));
            let s1 = plus(a, b, Ghost(ta), Ghost(tb));
            plus(s1, c, Ghost(ta + tb), Ghost(stmts_temps(m, stmts_view(else_body@))))
        },
        MirStmt::WhileStmt { cond, body } => {
            let a = temps_op(m, cond);
            let b = temps_stmts(m, body);
            plus(
                a,
                b,
                Ghost(op_temps(m, operand_view(*cond))),
                Ghost(stmts_temps(m, stmts_view(body@))),
            )
        },
        MirStmt::Return(Some(o)) => temps_op(m, o),
        _ => 0,
    }
}

fn temps_stmts(m: DesugarMode, v: &Vec<MirStmt>) -> (r: u64)
    ensures
        r == capped(stmts_temps(m, stmts_view(v@))),
    decreases v,
{
    let mut acc: u64 = 0;
    let mut i: usize = 0;
    proof {
        assert(v@.take(0) =~= Seq::<MirStmt>::empty());
    }
    #[verifier::loop_isolation(false)]
    while i < v.len()
        invariant
            i <= v.len(),
            acc == capped(stmts_temps(m, stmts_view(v@.take(i as int)))),
        decreases v.len() - i,
    {
        proof {
            broadcast use vstd::std_specs::vec::axiom_vec_index_decreases;

            assert(decreases_to!(v => v[i as int]));
            assert(v@.take(i as int + 1).drop_last() =~= v@.take(i as int));
            lemma_stmts_push(m, stmts_view(v@.take(i as int)), stmt_view(v@[i as int]));
        }
        let t = temps_stmt(m, &v[i]);
        acc = plus(
            acc,
            t,
            Ghost(stmts_temps(m, stmts_view(v@.take(i as int)))),
            Ghost(stmt_temps(m, stmt_view(v@[i as int]))),
        );
        i = i + 1;
    }
    proof {
        assert(v@.take(v.len() as int) =~= v@);
    }
    acc
}

fn term_is_lowered(m: DesugarMode, t: &Terminator) -> (r: bool)
    ensures
        r == term_lowered(m, terminator_view(*t)),
{
    match t {
        Terminator::Return(Some(o)) => match o {
            Operand::IfExpr { .. } => mode_lowers_if(m),
            Operand::LoopExpr { .. } => m == DesugarMode::LoopOnly,
            _ => false,
        },
        _ => false,
    }
}

fn temps_term(m: DesugarMode, t: &Terminator) -> (r: u64)
    ensures
        r == capped(term_temps(m, terminator_view(*t))),
{
    if !term_is_lowered(m, t) {
        proof {
            crate::opt::lowering::lemma_term_generic(m, terminator_view(*t));
        }
        let ops = crate::opt::desugar::term_operands(t);
        return temps_ops(m, &ops);
    }
    match t {
        Terminator::Return(Some(o)) => match o {
            Operand::IfExpr { cond, then_body, then_result, else_body, else_result } => {
                let ghost tc = op_temps(m, operand_view(**cond));
                let ghost tt = stmts_temps(m, stmts_view(then_body@));
                let ghost tr = res_temps(m, opt_box_operand_view(*then_result));
                let ghost te = stmts_temps(m, stmts_view(else_body@));
                let ghost ter = res_temps(m, opt_box_operand_view(*else_result));
                let a = temps_op(m, cond);
                let b = temps_stmts(m, then_body);
                let c = temps_res(m, then_result);
                let d = temps_stmts(m, else_body);
                let e = temps_res(m, else_result);
                let s = plus(a, b, Ghost(tc), Ghost(tt));
                let s = plus(s, c, Ghost(tc + tt), Ghost(tr));
                let s = plus(s, d, Ghost(tc + tt + tr), Ghost(te));
                plus(s, e, Ghost(tc + tt + tr + te), Ghost(ter))
            },
            _ => temps_op(m, o),
        },
        _ => 0,
    }
}

fn temps_block(m: DesugarMode, b: &BasicBlock) -> (r: u64)
    ensures
        r == capped(block_temps(m, block_view(*b))),
{
    let a = temps_stmts(m, &b.stmts);
    let c = temps_term(m, &b.terminator);
    plus(
        a,
        c,
        Ghost(stmts_temps(m, stmts_view(b.stmts@))),
        Ghost(term_temps(m, terminator_view(b.terminator))),
    )
}

/// The temporaries desugaring `f` in mode `m` adds, counted up to the
/// largest `u32`.
pub fn function_temps(m: DesugarMode, f: &MirFunction) -> (r: u64)
    ensures
        r == capped(fn_temps(m, *f)),
{
    let ghost bs = blocks_view(f.blocks@);
    let mut acc: u64 = 0;
    let mut i: usize = 0;
    while i < f.blocks.len()
        invariant
            i <= f.blocks@.len(),
            bs == blocks_view(f.blocks@),
            acc == capped(blocks_temps(m, bs.take(i as int))),
        decreases f.blocks@.len() - i,
    {
        proof {
            assert(bs.take(i as int + 1).drop_last() =~= bs.take(i as int));
            assert(bs[i as int] == block_view(f.blocks@[i as int]));
        }
        let t = temps_block(m, &f.blocks[i]);
        acc = plus(
            acc,
            t,
            Ghost(blocks_temps(m, bs.take(i as int))),
            Ghost(block_temps(m, bs[i as int])),
        );
        i = i + 1;
    }
    proof {
        assert(bs.take(f.blocks@.len() as int) =~= bs);
    }
    acc
}


// ---------------------------------------------------------------------------
// Rewrites of operands, statements and blocks
// ---------------------------------------------------------------------------
fn count_op(m: DesugarMode, o: &Operand) -> (r: u64)
    ensures
        r == capped(op_count(m, operand_view(*o))),
    decreases o,
{
    match o {
        Operand::IfExpr { cond, then_body, else_body, .. } => {
            if mode_lowers_if(m) {
                let ghost tc = op_count(m, operand_view(**cond));
                let ghost tt = stmts_count(m, stmts_view(then_body@));
                let ghost te = stmts_count(m, stmts_view(else_body@));
                let a = count_op(m, cond);
                let b = count_stmts(m, then_body);
                let d = count_stmts(m, else_body);
                let s = plus(1, a, Ghost(1), Ghost(tc));
                let s = plus(s, b, Ghost(1 + tc), Ghost(tt));
                plus(s, d, Ghost(1 + tc + tt), Ghost(te))
            } else {
                0
            }
        },
        Operand::LoopExpr { init, body, result } => {
            if mode_lowers_loop(m) {
                let ghost ti = op_count(m, operand_view(**init));
                let ghost tb = stmts_count(m, stmts_view(body@));
                let ghost tr = op_count(m, operand_view(**result));
                let a = count_op(m, init);
                let b = count_stmts(m, body);
                let c = count_op(m, result);
                let s = plus(1, a, Ghost(1), Ghost(ti));
                let s = plus(s, b, Ghost(1 + ti), Ghost(tb));
                plus(s, c, Ghost(1 + ti + tb), Ghost(tr))
            } else {
                0
            }
        },
        Operand::TryExpr { expr, .. } => {
            if mode_lowers_try(m) {
                let a = count_op(m, expr);
                plus(1, a, Ghost(1), Ghost(op_count(m, operand_view(**expr))))
            } else {
                0
            }
        },
        Operand::BinOp(_, x, y) => {
            let a = count_op(m, x);
            let b = count_op(m, y);
            plus(a, b, Ghost(op_count(m, operand_view(**x))), Ghost(op_count(m, operand_view(**y))))
        },
        Operand::UnaryOp(_, x) => count_op(m, x),
        Operand::EnumTag(x) => count_op(m, x),
        Operand::Call(_, args) => count_ops(m, args),
        Operand::FieldAccess { object, .. } => count_op(m, object),
        Operand::EnumPayload { object, .. } => count_op(m, object),
        Operand::CallIndirect { callee, args } => {
            let a = count_op(m, callee);
            let b = count_ops(m, args);
            plus(
                a,
                b,
                Ghost(op_count(m, operand_view(**callee))),
                Ghost(ops_count(m, operands_view(args@))),
            )
        },
        _ => 0,
    }
}

fn count_ops(m: DesugarMode, v: &Vec<Operand>) -> (r: u64)
    ensures
        r == capped(ops_count(m, operands_view(v@))),
    decreases v,
{
    let mut acc: u64 = 0;
    let mut i: usize = 0;
    proof {
        assert(v@.take(0) =~= Seq::<Operand>::empty());
    }
    #[verifier::loop_isolation(false)]
    while i < v.len()
        invariant
            i <= v.len(),
            acc == capped(ops_count(m, operands_view(v@.take(i as int)))),
        decreases v.len() - i,
    {
        proof {
            broadcast use vstd::std_specs::vec::axiom_vec_index_decreases;

            assert(decreases_to!(v => v[i as int]));
            assert(v@.take(i as int + 1).drop_last() =~= v@.take(i as int));
            lemma_ops_push(m, operands_view(v@.take(i as int)), operand_view(v@[i as int]));
        }
        let t = count_op(m, &v[i]);
        acc = plus(
            acc,
            t,
            Ghost(ops_count(m, operands_view(v@.take(i as int)))),
            Ghost(op_count(m, operand_view(v@[i as int]))),
        );
        i = i + 1;
    }
    proof {
        assert(v@.take(v.len() as int) =~= v@);
    }
    acc
}

fn count_rvalue(m: DesugarMode, r: &Rvalue) -> (n: u64)
    ensures
        n == capped(rvalue_count(m, rvalue_view(*r))),
    decreases r,
{
    match r {
        Rvalue::Use(o) => count_op(m, o),
        Rvalue::BinaryOp(_, x, y) => {
            let a = count_op(m, x);
            let b = count_op(m, y);
            plus(a, b, Ghost(op_count(m, operand_view(*x))), Ghost(op_count(m, operand_view(*y))))
        },
        Rvalue::UnaryOp(_, x) => count_op(m, x),
        Rvalue::Aggregate(_, v) => count_ops(m, v),
        Rvalue::Ref(_) => 0,
    }
}

fn count_stmt(m: DesugarMode, s: &MirStmt) -> (r: u64)
    ensures
        r == capped(stmt_count(m, stmt_view(*s))),
    decreases s,
{
    match s {
        MirStmt::Assign(_, rv) => count_rvalue(m, rv),
        MirStmt::Call { args, .. } => count_ops(m, args),
        MirStmt::CallBuiltin { args, .. } => count_ops(m, args),
        MirStmt::IfStmt { cond, then_body, else_body } => {
            let a = count_op(m, cond);
            let b = count_stmts(m, then_body);
            let c = count_stmts(m, else_body);
            let ghost ta = op_count(m, operand_view(*cond));
            let ghost tb = stmts_count(m, stmts_view(then_body@));
            let s1 = plus(a, b, Ghost(ta), Ghost(tb));
            plus(s1, c, Ghost(ta + tb), Ghost(stmts_count(m, stmts_view(else_body@))))
        },
        MirStmt::WhileStmt { cond, body } => {
            let a = count_op(m, cond);
            let b = count_stmts(m, body);
            plus(
                a,
                b,
                Ghost(op_count(m, operand_view(*cond))),
                Ghost(stmts_count(m, stmts_view(body@))),
            )
        },
        MirStmt::Return(Some(o)) => count_op(m, o),
        _ => 0,
    }
}

fn count_stmts(m: DesugarMode, v: &Vec<MirStmt>) -> (r: u64)
    ensures
        r == capped(stmts_count(m, stmts_view(v@))),
    decreases v,
{
    let mut acc: u64 = 0;
    let mut i: usize = 0;
    proof {
        assert(v@.take(0) =~= Seq::<MirStmt>::empty());
    }
    #[verifier::loop_isolation(false)]
    while i < v.len()
        invariant
            i <= v.len(),
            acc == capped(stmts_count(m, stmts_view(v@.take(i as int)))),
        decreases v.len() - i,
    {
        proof {
            broadcast use vstd::std_specs::vec::axiom_vec_index_decreases;

            assert(decreases_to!(v => v[i as int]));
            assert(v@.take(i as int + 1).drop_last() =~= v@.take(i as int));
            lemma_stmts_push(m, stmts_view(v@.take(i as int)), stmt_view(v@[i as int]));
        }
        let t = count_stmt(m, &v[i]);
        acc = plus(
            acc,
            t,
            Ghost(stmts_count(m, stmts_view(v@.take(i as int)))),
            Ghost(stmt_count(m, stmt_view(v@[i as int]))),
        );
        i = i + 1;
    }
    proof {
        assert(v@.take(v.len() as int) =~= v@);
    }
    acc
}

fn count_term(m: DesugarMode, t: &Terminator) -> (r: u64)
    ensures
        r == capped(term_count(m, terminator_view(*t))),
{
    if !term_is_lowered(m, t) {
        proof {
            crate::opt::lowering::lemma_term_generic(m, terminator_view(*t));
        }
        let ops = crate::opt::desugar::term_operands(t);
        return count_ops(m, &ops);
    }
    match t {
        Terminator::Return(Some(o)) => count_op(m, o),
        _ => 0,
    }
}

fn count_block(m: DesugarMode, b: &BasicBlock) -> (r: u64)
    ensures
        r == capped(block_count(m, block_view(*b))),
{
    let a = count_stmts(m, &b.stmts);
    let c = count_term(m, &b.terminator);
    plus(
        a,
        c,
        Ghost(stmts_count(m, stmts_view(b.stmts@))),
        Ghost(term_count(m, terminator_view(b.terminator))),
    )
}

/// The rewrites desugaring `f` in mode `m` reports, counted up to the
/// largest `u32`.
pub fn function_count(m: DesugarMode, f: &MirFunction) -> (r: u64)
    ensures
        r == capped(fn_count(m, *f)),
{
    let ghost bs = blocks_view(f.blocks@);
    let mut acc: u64 = 0;
    let mut i: usize = 0;
    while i < f.blocks.len()
        invariant
            i <= f.blocks@.len(),
            bs == blocks_view(f.blocks@),
            acc == capped(blocks_count(m, bs.take(i as int))),
        decreases f.blocks@.len() - i,
    {
        proof {
            assert(bs.take(i as int + 1).drop_last() =~= bs.take(i as int));
            assert(bs[i as int] == block_view(f.blocks@[i as int]));
        }
        let t = count_block(m, &f.blocks[i]);
        acc = plus(
            acc,
            t,
            Ghost(blocks_count(m, bs.take(i as int))),
            Ghost(block_count(m, bs[i as int])),
        );
        i = i + 1;
    }
    proof {
        assert(bs.take(f.blocks@.len() as int) =~= bs);
    }
    acc
}

// ---------------------------------------------------------------------------
// Room in the local ids
// ---------------------------------------------------------------------------
/// Whether desugaring `f` in mode `m` can run: its fresh local ids, which
/// start above every local and parameter id, stay within `u32`, and it reports fewer than `u32::MAX` rewrites.
pub open spec fn has_room(m: DesugarMode, f: MirFunction) -> bool {
    &&& max_local_id(f.locals@ + f.params@) + 1 + fn_temps(m, f) <= u32::MAX
    &&& fn_count(m, f) < u32::MAX
}

fn largest_local_id(locals: &Vec<MirLocal>, params: &Vec<MirLocal>) -> (r: u32)
    ensures
        r == max_local_id(locals@ + params@),
{
    let ghost all = locals@ + params@;
    let mut best: u32 = 0;
    let mut i: usize = 0;
    while i < locals.len()
        invariant
            i <= locals.len(),
            all == locals@ + params@,
            best == max_local_id(all.take(i as int)),
        decreases locals.len() - i,
    {
        proof {
            assert(all.take(i + 1).drop_last() =~= all.take(i as int));
            assert(all.take(i + 1).last() == locals@[i as int]);
        }
        if best < locals[i].id.0 {
            best = locals[i].id.0;
        }
        i = i + 1;
    }
    let mut j: usize = 0;
    while j < params.len()
        invariant
            j <= params.len(),
            all == locals@ + params@,
            best == max_local_id(all.take(locals@.len() + j as int)),
        decreases params.len() - j,
    {
        proof {
            assert(all.take(locals@.len() + j as int + 1).drop_last() =~= all.take(locals@.len() + j as int));
            assert(all.take(locals@.len() + j as int + 1).last() == params@[j as int]);
        }
        if best < params[j].id.0 {
            best = params[j].id.0;
        }
        j = j + 1;
    }
    proof {
        assert(all.take(all.len() as int) =~= all);
    }
    best
}

/// Whether desugaring `f` in mode `m` has room to run.
pub fn function_has_room(m: DesugarMode, f: &MirFunction) -> (r: bool)
    ensures
        r == has_room(m, *f),
{
    let top = largest_local_id(&f.locals, &f.params) as u64;
    let temps = function_temps(m, f);
    let count = function_count(m, f);
    top + 1 + temps <= 0xffff_ffff && count < 0xffff_ffff
}

/// Whether desugaring every function of `module` in mode `m` has room.
pub open spec fn module_has_room(m: DesugarMode, module: MirModule) -> bool {
    forall|i: int| 0 <= i < module.functions@.len() ==> has_room(m, #[trigger] module.functions@[i])
}

/// Whether desugaring every function of `module` in mode `m` has room.
pub fn module_room(m: DesugarMode, module: &MirModule) -> (r: bool)
    ensures
        r == module_has_room(m, *module),
{
    let mut i: usize = 0;
    while i < module.functions.len()
        invariant
            i <= module.functions@.len(),
            forall|j: int| 0 <= j < i ==> has_room(m, #[trigger] module.functions@[j]),
        decreases module.functions@.len() - i,
    {
        if !function_has_room(m, &module.functions[i]) {
            return false;
        }
        i = i + 1;
    }
    true
}

} // verus!
