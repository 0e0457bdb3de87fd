//! Common subexpression elimination within each block.
//!
//! Walking a block's statements in order, the pass remembers, for each
//! binary or unary operation it has seen assigned, the place that holds the
//! result. Operands are compared by a key: an `i32`, `i64`, `bool` or `f64`
//! constant, a local, or "other" (every other operand has the same key).
//! An assignment of an operation already remembered becomes a copy of the
//! remembered place. Every assignment forgets the operations that read the
//! assigned local, and an operation that reads the local it is assigned to
//! is not remembered; a call forgets everything.
use vstd::prelude::*;

use crate::mir::{
    blocks_view, clone_place, clone_stmt, place_view, stmt_view, stmts_view, BasicBlock, BinOp,
    BlockView, LocalId, MirFunction, MirStmt, Operand, OperandView, Place, PlaceView, Rvalue,
    RvalueView, StmtView, UnaryOp,
};
use crate::opt::desugar::same_header;
use crate::opt::summary::{zero_summary, OptimizationSummary};

verus! {

/// How an operand is compared.
#[derive(Debug, Clone, Copy, PartialEq, Eq, Structural)]
pub enum OperandKey {
    ConstI32(i32),
    ConstI64(i64),
    ConstBool(bool),
    /// The bit pattern of an `f64` constant.
    ConstF64(u64),
    Local(LocalId),
    Other,
}

/// How an operation is compared.
#[derive(Debug, Clone, Copy, PartialEq, Eq, Structural)]
pub enum CseKey {
    Binary(BinOp, OperandKey, OperandKey),
    Unary(UnaryOp, OperandKey),
}

pub open spec fn key_of(o: OperandView) -> OperandKey {
    match o {
        OperandView::ConstI32(v) => OperandKey::ConstI32(v),
        OperandView::ConstI64(v) => OperandKey::ConstI64(v),
        OperandView::ConstBool(v) => OperandKey::ConstBool(v),
        OperandView::ConstF64(v) => OperandKey::ConstF64(v),
        OperandView::Place(p) => match p {
            PlaceView::Local(id) => OperandKey::Local(id),
            _ => OperandKey::Other,
        },
        _ => OperandKey::Other,
    }
}

pub open spec fn key_is_place(k: OperandKey, p: PlaceView) -> bool {
    match k {
        OperandKey::Local(id) => p == PlaceView::Local(id),
        _ => false,
    }
}

/// Whether operation key `k` reads the place `p`.
pub open spec fn references(k: CseKey, p: PlaceView) -> bool {
    match k {
        CseKey::Binary(_, l, r) => key_is_place(l, p) || key_is_place(r, p),
        CseKey::Unary(_, o) => key_is_place(o, p),
    }
}

/// The operation keys that read the place `p`.
pub open spec fn refs_of(p: PlaceView) -> Set<CseKey> {
    Set::new(|k: CseKey| references(k, p))
}

/// The key of the operation an assignment computes, if it is a binary or
/// unary operation.
pub open spec fn op_key(r: RvalueView) -> Option<CseKey> {
    match r {
        RvalueView::BinaryOp(op, a, b) => Some(CseKey::Binary(op, key_of(a), key_of(b))),
        RvalueView::UnaryOp(op, a) => Some(CseKey::Unary(op, key_of(a))),
        _ => None,
    }
}

/// The remembered operations after an assignment to `p` of a value whose
/// operation key is `key`.
pub open spec fn assign_step(m: Map<CseKey, PlaceView>, p: PlaceView, key: Option<CseKey>) -> Map<
    CseKey,
    PlaceView,
> {
    let kept = m.remove_keys(refs_of(p));
    match key {
        Some(k) => if m.contains_key(k) || references(k, p) {
            kept
        } else {
            kept.insert(k, p)
        },
        None => kept,
    }
}

/// The remembered operations after statement `s`.
pub open spec fn cse_step(m: Map<CseKey, PlaceView>, s: StmtView) -> Map<CseKey, PlaceView> {
    match s {
        StmtView::Assign(p, r) => assign_step(m, p, op_key(r)),
        StmtView::Call { .. } => Map::empty(),
        StmtView::CallBuiltin { .. } => Map::empty(),
        _ => m,
    }
}

/// Whether `s` recomputes a remembered operation.
pub open spec fn cse_hit(m: Map<CseKey, PlaceView>, s: StmtView) -> bool {
    match s {
        StmtView::Assign(_, r) => match op_key(r) {
            Some(k) => m.contains_key(k),
            None => false,
        },
        _ => false,
    }
}

/// Statement `s` with a recomputed operation replaced by a copy.
pub open spec fn cse_out(m: Map<CseKey, PlaceView>, s: StmtView) -> StmtView {
    match s {
        StmtView::Assign(p, r) => match op_key(r) {
            Some(k) => if m.contains_key(k) {
                StmtView::Assign(p, RvalueView::Use(OperandView::Place(m[k])))
            } else {
                s
            },
            None => s,
        },
        _ => s,
    }
}

/// The remembered operations after the first `n` statements of `ss`.
pub open spec fn cse_map(ss: Seq<StmtView>, n: int) -> Map<CseKey, PlaceView>
    decreases n,
{
    if n <= 0 {
        Map::empty()
    } else {
        cse_step(cse_map(ss, n - 1), ss[n - 1])
    }
}

pub open spec fn cse_block(b: BlockView) -> BlockView {
    BlockView { stmts: Seq::new(b.stmts.len(), |k: int| cse_out(cse_map(b.stmts, k), b.stmts[k])), ..b }
}

pub open spec fn cse_count(ss: Seq<StmtView>, n: int) -> nat
    decreases n,
{
    if n <= 0 {
        0
    } else {
        cse_count(ss, n - 1) + if cse_hit(cse_map(ss, n - 1), ss[n - 1]) {
            1nat
        } else {
            0nat
        }
    }
}

pub open spec fn cse_total(bv: Seq<BlockView>) -> nat
    decreases bv.len(),
{
    if bv.len() == 0 {
        0
    } else {
        cse_total(bv.drop_last()) + cse_count(bv.last().stmts, bv.last().stmts.len() as int)
    }
}

proof fn lemma_cse_total_prefix(bv: Seq<BlockView>, n: int)
    requires
        0 <= n <= bv.len(),
    ensures
        cse_total(bv.take(n)) <= cse_total(bv),
    decreases bv.len() - n,
{
    if n < bv.len() {
        assert(bv.take(n + 1).drop_last() =~= bv.take(n));
        lemma_cse_total_prefix(bv, n + 1);
    } else {
        assert(bv.take(n) =~= bv);
    }
}

/// The remembered operations held by a list; a later entry for the same key
/// overrides an earlier one.
pub open spec fn seen_map(v: Seq<(CseKey, Place)>) -> Map<CseKey, PlaceView>
    decreases v.len(),
{
    if v.len() == 0 {
        Map::empty()
    } else {
        seen_map(v.drop_last()).insert(v.last().0, place_view(v.last().1))
    }
}

proof fn lemma_seen_last(v: Seq<(CseKey, Place)>, k: CseKey, j: int)
    requires
        0 <= j < v.len(),
        v[j].0 == k,
        forall|q: int| j < q < v.len() ==> v[q].0 != k,
    ensures
        seen_map(v).contains_key(k),
        seen_map(v)[k] == place_view(v[j].1),
    decreases v.len(),
{
    if j < v.len() - 1 {
        lemma_seen_last(v.drop_last(), k, j);
    }
}

proof fn lemma_seen_absent(v: Seq<(CseKey, Place)>, k: CseKey)
    requires
        forall|q: int| 0 <= q < v.len() ==> v[q].0 != k,
    ensures
        !seen_map(v).contains_key(k),
    decreases v.len(),
{
    if v.len() > 0 {
        lemma_seen_absent(v.drop_last(), k);
    }
}

/// Every operation is pure.
pub fn is_pure_binop(op: BinOp) -> (r: bool)
    ensures
        r,
{
    match op {
        BinOp::Add | BinOp::Sub | BinOp::Mul | BinOp::Div | BinOp::Mod | BinOp::Eq | BinOp::Ne
        | BinOp::Lt | BinOp::Le | BinOp::Gt | BinOp::Ge | BinOp::And | BinOp::Or | BinOp::BitAnd
        | BinOp::BitOr | BinOp::BitXor | BinOp::Shl | BinOp::Shr => true,
    }
}

#[verifier::spinoff_prover]
fn operand_key(o: &Operand) -> (r: OperandKey)
    ensures
        r == key_of(o@),
{
    match o {
        Operand::ConstI32(v) => OperandKey::ConstI32(*v),
        Operand::ConstI64(v) => OperandKey::ConstI64(*v),
        Operand::ConstBool(v) => OperandKey::ConstBool(*v),
        Operand::ConstF64(v) => OperandKey::ConstF64(*v),
        Operand::Place(Place::Local(id)) => OperandKey::Local(*id),
        Operand::Place(p) => {
            proof {
                assert(!(p@ is Local));
            }
            OperandKey::Other
        },
        _ => OperandKey::Other,
    }
}

fn key_references(k: CseKey, p: &Place) -> (r: bool)
    ensures
        r == references(k, p@),
{
    let pid = match p {
        Place::Local(id) => Some(*id),
        _ => None,
    };
    let is = |o: OperandKey| -> (b: bool)
        ensures
            b == key_is_place(o, p@),
        {
            match o {
                OperandKey::Local(id) => match pid {
                    Some(x) => x == id,
                    None => false,
                },
                _ => false,
            }
        };
    match k {
        CseKey::Binary(_, l, r) => is(l) || is(r),
        CseKey::Unary(_, o) => is(o),
    }
}

fn seen_get(seen: &Vec<(CseKey, Place)>, k: CseKey) -> (r: Option<Place>)
    ensures
        match r {
            Some(p) => seen_map(seen@).contains_key(k) && p@ == seen_map(seen@)[k],
            None => !seen_map(seen@).contains_key(k),
        },
{
    let mut q: usize = seen.len();
    while q > 0
        invariant
            q <= seen.len(),
            forall|j: int| q <= j < seen@.len() ==> seen@[j].0 != k,
        decreases q,
    {
        q = q - 1;
        if seen[q].0 == k {
            proof {
                lemma_seen_last(seen@, k, q as int);
            }
            return Some(clone_place(&seen[q].1));
        }
    }
    proof {
        lemma_seen_absent(seen@, k);
    }
    None
}

fn seen_forget(seen: &Vec<(CseKey, Place)>, p: &Place) -> (r: Vec<(CseKey, Place)>)
    ensures
        seen_map(r@) == seen_map(seen@).remove_keys(refs_of(p@)),
{
    let ghost drop = refs_of(p@);
    let mut out: Vec<(CseKey, Place)> = Vec::new();
    let mut i: usize = 0;
    proof {
        assert(seen@.take(0) =~= Seq::<(CseKey, Place)>::empty());
        assert(seen_map(out@) =~= seen_map(seen@.take(0)).remove_keys(drop));
    }
    while i < seen.len()
        invariant
            i <= seen.len(),
            drop == refs_of(p@),
            seen_map(out@) == seen_map(seen@.take(i as int)).remove_keys(drop),
        decreases seen.len() - i,
    {
        let ghost before = out@;
        proof {
            assert(seen@.take(i + 1).drop_last() =~= seen@.take(i as int));
        }
        let k = seen[i].0;
        if !key_references(k, p) {
            out.push((k, clone_place(&seen[i].1)));
            proof {
                assert(out@.drop_last() =~= before);
                assert(seen_map(out@) =~= seen_map(seen@.take(i + 1)).remove_keys(drop));
            }
        } else {
            proof {
                assert(drop.contains(k));
                assert(seen_map(out@) =~= seen_map(seen@.take(i + 1)).remove_keys(drop));
            }
        }
        i = i + 1;
    }
    proof {
        assert(seen@.take(seen.len() as int) =~= seen@);
    }
    out
}

fn rvalue_key(r: &Rvalue) -> (k: Option<CseKey>)
    ensures
        k == op_key(r@),
{
    match r {
        Rvalue::BinaryOp(op, lhs, rhs) => {
            let _pure = is_pure_binop(*op);
            Some(CseKey::Binary(*op, operand_key(lhs), operand_key(rhs)))
        },
        Rvalue::UnaryOp(op, a) => Some(CseKey::Unary(*op, operand_key(a))),
        _ => None,
    }
}

fn assign_copy(place: &Place, rvalue: &Rvalue) -> (r: MirStmt)
    ensures
        r@ == StmtView::Assign(place@, rvalue@),
{
    MirStmt::Assign(clone_place(place), crate::mir::clone_rvalue(rvalue))
}

fn copy_from(place: &Place, prev: Place) -> (r: MirStmt)
    ensures
        r@ == StmtView::Assign(place@, RvalueView::Use(OperandView::Place(prev@))),
{
    let o = Operand::Place(prev);
    assert(o@ == OperandView::Place(prev@));
    let rv = Rvalue::Use(o);
    assert(rv@ == RvalueView::Use(o@));
    MirStmt::Assign(clone_place(place), rv)
}

fn remember(k: CseKey, place: &Place, seen: &mut Vec<(CseKey, Place)>)
    ensures
        seen_map(final(seen)@) == seen_map(old(seen)@).insert(k, place@),
{
    let ghost s0 = seen@;
    seen.push((k, clone_place(place)));
    proof {
        assert(seen@.drop_last() =~= s0);
    }
}

fn cse_assign(place: &Place, rvalue: &Rvalue, seen: &mut Vec<(CseKey, Place)>) -> (r: (
    MirStmt,
    bool,
))
    ensures
        seen_map(final(seen)@) == assign_step(seen_map(old(seen)@), place@, op_key(rvalue@)),
        r.0@ == cse_out(seen_map(old(seen)@), StmtView::Assign(place@, rvalue@)),
        r.1 == cse_hit(seen_map(old(seen)@), StmtView::Assign(place@, rvalue@)),
{
    let key = rvalue_key(rvalue);
    match key {
        Some(k) => {
            let found = seen_get(seen, k);
            let forgotten = seen_forget(seen, place);
            *seen = forgotten;
            match found {
                Some(prev) => (copy_from(place, prev), true),
                None => {
                    if !key_references(k, place) {
                        remember(k, place, seen);
                    }
                    (assign_copy(place, rvalue), false)
                },
            }
        },
        None => {
            let forgotten = seen_forget(seen, place);
            *seen = forgotten;
            (assign_copy(place, rvalue), false)
        },
    }
}

fn cse_stmt(s: &MirStmt, seen: &mut Vec<(CseKey, Place)>) -> (r: (MirStmt, bool))
    ensures
        seen_map(final(seen)@) == cse_step(seen_map(old(seen)@), s@),
        r.0@ == cse_out(seen_map(old(seen)@), s@),
        r.1 == cse_hit(seen_map(old(seen)@), s@),
{
    match s {
        MirStmt::Assign(place, rvalue) => cse_assign(place, rvalue, seen),
        MirStmt::Call { .. } | MirStmt::CallBuiltin { .. } => {
            *seen = Vec::new();
            proof {
                assert(seen_map(seen@) =~= Map::<CseKey, PlaceView>::empty());
            }
            (clone_stmt(s), false)
        },
        _ => (clone_stmt(s), false),
    }
}

fn cse_in_block(b: &BasicBlock) -> (r: (BasicBlock, usize))
    ensures
        r.0@ == cse_block(b@),
        r.1 == cse_count(b@.stmts, b@.stmts.len() as int),
{
    let ghost ss = b@.stmts;
    let mut seen: Vec<(CseKey, Place)> = Vec::new();
    let mut out: Vec<MirStmt> = Vec::new();
    let mut count: usize = 0;
    let mut i: usize = 0;
    proof {
        crate::mir::lemma_stmts_view(b.stmts@);
        assert(seen_map(seen@) =~= cse_map(ss, 0));
    }
    while i < b.stmts.len()
        invariant
            i <= b.stmts.len(),
            ss == stmts_view(b.stmts@),
            ss.len() == b.stmts@.len(),
            seen_map(seen@) == cse_map(ss, i as int),
            stmts_view(out@).len() == i,
            forall|k: int| 0 <= k < i ==> #[trigger] stmts_view(out@)[k] == cse_out(cse_map(ss, k), ss[k]),
            count == cse_count(ss, i as int),
            count <= i,
        decreases b.stmts.len() - i,
    {
        proof {
            crate::mir::lemma_stmts_view(b.stmts@);
            assert(ss[i as int] == stmt_view(b.stmts@[i as int]));
        }
        let ghost before = out@;
        let (ns, hit) = cse_stmt(&b.stmts[i], &mut seen);
        if hit {
            count = count + 1;
        }
        out.push(ns);
        proof {
            assert(seen_map(seen@) == cse_map(ss, i + 1));
            crate::mir::lemma_stmts_view(out@);
            crate::mir::lemma_stmts_view(before);
            assert(stmts_view(out@)[i as int] == ns@);
            assert forall|k: int| 0 <= k < i + 1 implies #[trigger] stmts_view(out@)[k] == cse_out(
                cse_map(ss, k),
                ss[k],
            ) by {
                if k < i {
                    assert(out@[k] == before[k]);
                    assert(stmts_view(before)[k] == stmt_view(before[k]));
                }
            }
        }
        i = i + 1;
    }
    proof {
        assert(stmts_view(out@) =~= cse_block(b@).stmts);
    }
    (
        BasicBlock {
            id: b.id,
            stmts: out,
            terminator: crate::mir::clone_terminator(&b.terminator),
            source: b.source,
        },
        count,
    )
}

/// Eliminate recomputed operations within each block (see the module
/// documentation); reports how many were replaced.
pub fn cse(function: &mut MirFunction) -> (summary: OptimizationSummary)
    requires
        cse_total(blocks_view(old(function).blocks@)) <= usize::MAX,
    ensures
        same_header(*old(function), *final(function)),
        final(function).locals == old(function).locals,
        final(function).blocks@.len() == old(function).blocks@.len(),
        forall|i: int|
            0 <= i < old(function).blocks@.len() ==> #[trigger] final(function).blocks@[i]@
                == cse_block(old(function).blocks@[i]@),
        summary == (OptimizationSummary {
            cse_eliminated: cse_total(blocks_view(old(function).blocks@)) as usize,
            ..zero_summary()
        }),
{
    let ghost f0 = *function;
    let ghost bv = blocks_view(function.blocks@);
    let mut summary = OptimizationSummary::default();
    let mut new_blocks: Vec<BasicBlock> = Vec::new();
    let mut i: usize = 0;
    while i < function.blocks.len()
        invariant
            i <= function.blocks.len(),
            function.blocks == f0.blocks,
            bv == blocks_view(f0.blocks@),
            cse_total(bv) <= usize::MAX,
            new_blocks@.len() == i,
            forall|j: int| 0 <= j < i ==> #[trigger] new_blocks@[j]@ == cse_block(f0.blocks@[j]@),
            summary == (OptimizationSummary {
                cse_eliminated: cse_total(bv.take(i as int)) as usize,
                ..zero_summary()
            }),
        decreases function.blocks.len() - i,
    {
        proof {
            assert(bv.take(i + 1).drop_last() =~= bv.take(i as int));
            assert(bv.take(i + 1).last() == function.blocks@[i as int]@);
            lemma_cse_total_prefix(bv, i + 1);
        }
        let (nb, c) = cse_in_block(&function.blocks[i]);
        summary.cse_eliminated = summary.cse_eliminated + c;
        new_blocks.push(nb);
        i = i + 1;
    }
    proof {
        assert(bv.take(function.blocks.len() as int) =~= bv);
    }
    function.blocks = new_blocks;
    summary
}
// ---------------------------------------------------------------------------
// Laws
// ---------------------------------------------------------------------------
/// Whether the operand is one that comparison tells apart by value: an
/// `i32`, `i64`, `bool` or `f64` constant, or a local.
pub open spec fn distinguished(o: OperandView) -> bool {
    o is ConstI32 || o is ConstI64 || o is ConstBool || o is ConstF64 || o matches OperandView::Place(
        PlaceView::Local(_),
    )
}

/// Whether every operand of the operation `r` is told apart by value.
pub open spec fn distinguished_rvalue(r: RvalueView) -> bool {
    match r {
        RvalueView::BinaryOp(_, a, b) => distinguished(a) && distinguished(b),
        RvalueView::UnaryOp(_, a) => distinguished(a),
        _ => false,
    }
}

/// Operands told apart by value get the same key only when they are the
/// same operand: two different constants, or two different locals, never
/// share a key.
pub proof fn law_operand_key_injective(a: OperandView, b: OperandView)
    requires
        distinguished(a),
        key_of(a) == key_of(b),
    ensures
        a == b,
{
    match b {
        OperandView::Place(p) => {
            match p {
                PlaceView::Local(_) => {},
                _ => {},
            }
        },
        _ => {},
    }
}

/// An operation whose operands are told apart by value has the same key as
/// another operation only when the two are the same operation.
proof fn lemma_op_key_injective(r: RvalueView, r2: RvalueView)
    requires
        distinguished_rvalue(r),
        op_key(r) is Some,
        op_key(r) == op_key(r2),
    ensures
        r == r2,
{
    match r {
        RvalueView::BinaryOp(_, a, b) => {
            match r2 {
                RvalueView::BinaryOp(_, a2, b2) => {
                    law_operand_key_injective(a, a2);
                    law_operand_key_injective(b, b2);
                },
                _ => {},
            }
        },
        RvalueView::UnaryOp(_, a) => {
            match r2 {
                RvalueView::UnaryOp(_, a2) => {
                    law_operand_key_injective(a, a2);
                },
                _ => {},
            }
        },
        _ => {},
    }
}

/// Whether `s` computes the operation with key `k` into the place `p`.
pub open spec fn assigns_op(s: StmtView, p: PlaceView, k: CseKey) -> bool {
    match s {
        StmtView::Assign(q, r) => q == p && op_key(r) == Some(k),
        _ => false,
    }
}

/// Every operation remembered after the first `n` statements was computed
/// into its place by one of them.
pub open spec fn remembered_from(ss: Seq<StmtView>, n: int, k: CseKey, p: PlaceView) -> bool {
    exists|j: int| 0 <= j < n && assigns_op(#[trigger] ss[j], p, k)
}

proof fn lemma_cse_map_origin(ss: Seq<StmtView>, n: int)
    requires
        0 <= n <= ss.len(),
    ensures
        forall|k: CseKey|
            #[trigger] cse_map(ss, n).contains_key(k) ==> remembered_from(ss, n, k, cse_map(ss, n)[k]),
    decreases n,
{
    if n > 0 {
        lemma_cse_map_origin(ss, n - 1);
        let m = cse_map(ss, n - 1);
        let m2 = cse_map(ss, n);
        assert forall|k: CseKey| #[trigger] m2.contains_key(k) implies remembered_from(ss, n, k, m2[k]) by {
            match ss[n - 1] {
                StmtView::Assign(p, r) => {
                    let kept = m.remove_keys(refs_of(p));
                    if op_key(r) == Some(k) && !m.contains_key(k) && !references(k, p) {
                        assert(m2[k] == p);
                        assert(assigns_op(ss[n - 1], m2[k], k));
                    } else {
                        assert(kept.contains_key(k));
                        assert(m.contains_key(k));
                        assert(m2[k] == m[k]);
                        let j = choose|j: int| 0 <= j < n - 1 && assigns_op(#[trigger] ss[j], m[k], k);
                        assert(assigns_op(ss[j], m2[k], k));
                    }
                },
                StmtView::Call { .. } => {},
                StmtView::CallBuiltin { .. } => {},
                _ => {
                    assert(m2 == m);
                    let j = choose|j: int| 0 <= j < n - 1 && assigns_op(#[trigger] ss[j], m[k], k);
                    assert(assigns_op(ss[j], m2[k], k));
                },
            }
        }
    }
}

/// Whether `sj` is `q = r` and `out` is `d = q`.
pub open spec fn copies_from(sj: StmtView, r: RvalueView, out: StmtView, d: PlaceView) -> bool {
    match sj {
        StmtView::Assign(q, r2) => r2 == r && out == StmtView::Assign(
            d,
            RvalueView::Use(OperandView::Place(q)),
        ),
        _ => false,
    }
}

/// CSE replaces an operation only by a copy of a place that an earlier
/// statement of the block computed the same operation, over the same
/// operands, into: when statement `n` is `d = r` with operands told apart
/// by value and is rewritten, it becomes `d = q` for some earlier
/// `q = r`.
pub proof fn law_cse_copies_same_operation(ss: Seq<StmtView>, n: int, d: PlaceView, r: RvalueView)
    requires
        0 <= n < ss.len(),
        ss[n] == StmtView::Assign(d, r),
        distinguished_rvalue(r),
        cse_out(cse_map(ss, n), ss[n]) != ss[n],
    ensures
        exists|j: int|
            0 <= j < n && copies_from(#[trigger] ss[j], r, cse_out(cse_map(ss, n), ss[n]), d),
{
    let m = cse_map(ss, n);
    let k = op_key(r).unwrap();
    assert(op_key(r) is Some);
    assert(m.contains_key(k));
    lemma_cse_map_origin(ss, n);
    assert(remembered_from(ss, n, k, m[k]));
    let j = choose|j: int| 0 <= j < n && assigns_op(#[trigger] ss[j], m[k], k);
    if let StmtView::Assign(q, r2) = ss[j] {
        lemma_op_key_injective(r, r2);
        assert(copies_from(ss[j], r, cse_out(m, ss[n]), d));
    }
}
/// Whether statement `s` may invalidate the remembered operation `k`: a
/// call, or an assignment to a local that `k` reads.
pub open spec fn disturbs(s: StmtView, k: CseKey) -> bool {
    match s {
        StmtView::Assign(p, _) => references(k, p),
        StmtView::Call { .. } => true,
        StmtView::CallBuiltin { .. } => true,
        _ => false,
    }
}

/// The operation `k` computed into `p` by statement `j`, and nothing from
/// `j` up to `n` disturbed it.
pub open spec fn remembered_since(ss: Seq<StmtView>, n: int, k: CseKey, p: PlaceView, j: int) -> bool {
    &&& 0 <= j < n
    &&& assigns_op(ss[j], p, k)
    &&& forall|l: int| j < l < n ==> !disturbs(#[trigger] ss[l], k)
}

proof fn lemma_cse_map_undisturbed(ss: Seq<StmtView>, n: int)
    requires
        0 <= n <= ss.len(),
    ensures
        forall|k: CseKey|
            #[trigger] cse_map(ss, n).contains_key(k) ==> exists|j: int|
                #[trigger] remembered_since(ss, n, k, cse_map(ss, n)[k], j),
    decreases n,
{
    if n > 0 {
        lemma_cse_map_undisturbed(ss, n - 1);
        let m = cse_map(ss, n - 1);
        let m2 = cse_map(ss, n);
        assert forall|k: CseKey| #[trigger] m2.contains_key(k) implies exists|j: int|
            #[trigger] remembered_since(ss, n, k, m2[k], j) by {
            match ss[n - 1] {
                StmtView::Assign(p, r) => {
                    let kept = m.remove_keys(refs_of(p));
                    if op_key(r) == Some(k) && !m.contains_key(k) && !references(k, p) {
                        assert(m2[k] == p);
                        assert(remembered_since(ss, n, k, m2[k], n - 1));
                    } else {
                        assert(kept.contains_key(k));
                        assert(m.contains_key(k));
                        assert(!references(k, p));
                        assert(m2[k] == m[k]);
                        let j = choose|j: int| #[trigger] remembered_since(ss, n - 1, k, m[k], j);
                        assert forall|l: int| j < l < n implies !disturbs(#[trigger] ss[l], k) by {
                            if l < n - 1 {
                                assert(remembered_since(ss, n - 1, k, m[k], j));
                            }
                        }
                        assert(remembered_since(ss, n, k, m2[k], j));
                    }
                },
                StmtView::Call { .. } => {},
                StmtView::CallBuiltin { .. } => {},
                _ => {
                    assert(m2 == m);
                    let j = choose|j: int| #[trigger] remembered_since(ss, n - 1, k, m[k], j);
                    assert forall|l: int| j < l < n implies !disturbs(#[trigger] ss[l], k) by {
                        if l < n - 1 {
                            assert(remembered_since(ss, n - 1, k, m[k], j));
                        }
                    }
                    assert(remembered_since(ss, n, k, m2[k], j));
                },
            }
        }
    }
}

/// Whether the operation `r` reads local `t` as one of its operands.
pub open spec fn reads_operand(r: RvalueView, t: LocalId) -> bool {
    let v = OperandView::Place(PlaceView::Local(t));
    match r {
        RvalueView::BinaryOp(_, a, b) => a == v || b == v,
        RvalueView::UnaryOp(_, a) => a == v,
        _ => false,
    }
}

/// Whether `s` is a call or writes a local that `r` reads.
pub open spec fn invalidates(s: StmtView, r: RvalueView) -> bool {
    match s {
        StmtView::Assign(PlaceView::Local(t), _) => reads_operand(r, t),
        StmtView::Call { .. } => true,
        StmtView::CallBuiltin { .. } => true,
        _ => false,
    }
}

/// When CSE rewrites statement `n`, `d = r` with operands told apart by
/// value, into the copy `d = q`, an earlier statement `j` computed the same
/// operation into `q`, and no statement between them is a call or assigns a
/// local that `r` reads: the operands still hold the values they had at
/// `j`.
pub proof fn law_cse_operands_unchanged_since(ss: Seq<StmtView>, n: int, d: PlaceView, r: RvalueView)
    requires
        0 <= n < ss.len(),
        ss[n] == StmtView::Assign(d, r),
        distinguished_rvalue(r),
        cse_out(cse_map(ss, n), ss[n]) != ss[n],
    ensures
        exists|j: int|
            0 <= j < n && copies_from(#[trigger] ss[j], r, cse_out(cse_map(ss, n), ss[n]), d) && (
            forall|l: int| j < l < n ==> !invalidates(#[trigger] ss[l], r)),
{
    let m = cse_map(ss, n);
    let k = op_key(r).unwrap();
    assert(m.contains_key(k));
    lemma_cse_map_undisturbed(ss, n);
    let j = choose|j: int| #[trigger] remembered_since(ss, n, k, m[k], j);
    assert(remembered_since(ss, n, k, m[k], j));
    if let StmtView::Assign(q, r2) = ss[j] {
        lemma_op_key_injective(r, r2);
        assert(copies_from(ss[j], r, cse_out(m, ss[n]), d));
    }
    assert forall|l: int| j < l < n implies !invalidates(#[trigger] ss[l], r) by {
        assert(!disturbs(ss[l], k));
        match ss[l] {
            StmtView::Assign(PlaceView::Local(t), _) => {
                if reads_operand(r, t) {
                    assert(references(k, PlaceView::Local(t)));
                }
            },
            _ => {},
        }
    }
}
} // verus!
