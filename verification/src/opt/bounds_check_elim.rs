//! Bounds-check elimination pass.
//!
//! Removes redundant array bounds checks (builtin calls whose name, in
//! ASCII lowercase, holds "bounds" or "check"):
//!   1. a check of a constant index below a known array length, or of a
//!      constant index below a constant length;
//!   2. a check of an (array, index) pair already checked earlier in the
//!      same statement list;
//!   3. inside `while i < N` loops that step `i` by one, checks indexing with
//!      `i` into an array of length at least `N`.
//!
//! Array lengths are known from `a = [e1, .., en]` assignments anywhere in
//! the function; the last such assignment to a local wins.
use vstd::prelude::*;

use crate::mir::{
    blocks_view, clone_operand, clone_stmt, operands_view, stmt_view, stmts_view, BasicBlock,
    BinOp, BlockView, LocalId, MirFunction, MirStmt, Operand, OperandView, Place, PlaceView,
    Rvalue, RvalueView, StmtView,
};
use crate::opt::desugar::same_header;
use crate::opt::helpers::{add_assigned_stmt, asg_stmt};
use crate::opt::summary::{zero_summary, OptimizationSummary};
use crate::strutil::{ascii_lower, seq_contains, str_contains_ascii_lower};

verus! {

// ---------------------------------------------------------------------------
// Operands
// ---------------------------------------------------------------------------
/// A lightweight key for deduplicating index operands.
#[derive(Debug, Clone, Copy, PartialEq, Eq, Structural)]
pub enum OperandKey {
    Local(u32),
    ConstI32(i32),
    Other,
}

pub open spec fn key_of(o: OperandView) -> OperandKey {
    match o {
        OperandView::Place(PlaceView::Local(id)) => OperandKey::Local(id.0),
        OperandView::ConstI32(v) => OperandKey::ConstI32(v),
        _ => OperandKey::Other,
    }
}

pub open spec fn local_of(o: OperandView) -> Option<u32> {
    match o {
        OperandView::Place(PlaceView::Local(id)) => Some(id.0),
        _ => None,
    }
}

/// A non-negative integer constant, as a `usize`.
pub open spec fn const_usize(o: OperandView) -> Option<usize> {
    match o {
        OperandView::ConstI32(v) => if v >= 0 {
            Some(v as usize)
        } else {
            None
        },
        OperandView::ConstI64(v) => if v >= 0 {
            Some(v as usize)
        } else {
            None
        },
        OperandView::ConstU32(v) => Some(v as usize),
        OperandView::ConstU64(v) => Some(v as usize),
        _ => None,
    }
}

fn operand_key(op: &Operand) -> (r: OperandKey)
    ensures
        r == key_of(op@),
{
    proof {
        reveal_with_fuel(crate::mir::operand_view, 2);
    }
    match op {
        Operand::Place(Place::Local(LocalId(id))) => OperandKey::Local(*id),
        Operand::ConstI32(v) => OperandKey::ConstI32(*v),
        _ => OperandKey::Other,
    }
}

fn operand_local(op: &Operand) -> (r: Option<u32>)
    ensures
        r == local_of(op@),
{
    proof {
        reveal_with_fuel(crate::mir::operand_view, 2);
    }
    match op {
        Operand::Place(Place::Local(LocalId(id))) => Some(*id),
        _ => None,
    }
}

fn operand_const_usize(op: &Operand) -> (r: Option<usize>)
    ensures
        r == const_usize(op@),
{
    match op {
        Operand::ConstI32(v) => if *v >= 0 {
            Some(*v as usize)
        } else {
            None
        },
        Operand::ConstI64(v) => if *v >= 0 {
            Some(*v as usize)
        } else {
            None
        },
        Operand::ConstU32(v) => Some(*v as usize),
        Operand::ConstU64(v) => Some(*v as usize),
        _ => None,
    }
}

/// Whether a builtin's name marks it as a bounds check.
pub open spec fn bounds_check_name(name: Seq<char>) -> bool {
    seq_contains(ascii_lower(name), "bounds"@) || seq_contains(ascii_lower(name), "check"@)
}

/// Whether `name`, in ASCII lowercase, names a bounds check.
pub fn is_bounds_check_name(name: &str) -> (r: bool)
    ensures
        r == bounds_check_name(name@),
{
    str_contains_ascii_lower(name, "bounds") || str_contains_ascii_lower(name, "check")
}

// ---------------------------------------------------------------------------
// Known array sizes
// ---------------------------------------------------------------------------
/// The array sizes recorded by the statements, in order, nested bodies
/// included.
pub open spec fn sizes_in_stmt(s: StmtView) -> Seq<(u32, usize)>
    decreases s,
{
    match s {
        StmtView::Assign(PlaceView::Local(id), RvalueView::Use(OperandView::ArrayInit { elements })) => {
            seq![(id.0, elements.len() as usize)]
        },
        StmtView::IfStmt { then_body, else_body, .. } => sizes_in(then_body) + sizes_in(else_body),
        StmtView::WhileStmt { body, .. } => sizes_in(body),
        _ => Seq::empty(),
    }
}

pub open spec fn sizes_in(s: Seq<StmtView>) -> Seq<(u32, usize)>
    decreases s,
{
    if s.len() == 0 {
        Seq::empty()
    } else {
        sizes_in(s.drop_last()) + sizes_in_stmt(s.last())
    }
}

pub open spec fn sizes_in_blocks(bs: Seq<BlockView>) -> Seq<(u32, usize)>
    decreases bs.len(),
{
    if bs.len() == 0 {
        Seq::empty()
    } else {
        sizes_in_blocks(bs.drop_last()) + sizes_in(bs.last().stmts)
    }
}

/// The known size of array local `id`: the last one recorded.
pub open spec fn size_of(sizes: Seq<(u32, usize)>, id: u32) -> Option<usize>
    decreases sizes.len(),
{
    if sizes.len() == 0 {
        None
    } else if sizes.last().0 == id {
        Some(sizes.last().1)
    } else {
        size_of(sizes.drop_last(), id)
    }
}

fn lookup_size(sizes: &Vec<(u32, usize)>, id: u32) -> (r: Option<usize>)
    ensures
        r == size_of(sizes@, id),
{
    let mut k: usize = sizes.len();
    assert(sizes@.take(k as int) =~= sizes@);
    while k > 0
        invariant
            k <= sizes.len(),
            size_of(sizes@, id) == size_of(sizes@.take(k as int), id),
        decreases k,
    {
        proof {
            assert(sizes@.take(k as int).drop_last() =~= sizes@.take(k - 1));
        }
        if sizes[k - 1].0 == id {
            return Some(sizes[k - 1].1);
        }
        k = k - 1;
    }
    None
}

fn collect_sizes_from_stmts(stmts: &Vec<MirStmt>, sizes: &mut Vec<(u32, usize)>)
    ensures
        final(sizes)@ == old(sizes)@ + sizes_in(stmts_view(stmts@)),
    decreases stmts,
{
    let ghost s0 = sizes@;
    let mut i: usize = 0;
    proof {
        assert(stmts@.take(0) =~= Seq::<MirStmt>::empty());
        assert(s0 + Seq::<(u32, usize)>::empty() =~= s0);
    }
    #[verifier::loop_isolation(false)]
    while i < stmts.len()
        invariant
            i <= stmts.len(),
            sizes@ == s0 + sizes_in(stmts_view(stmts@.take(i as int))),
        decreases stmts.len() - i,
    {
        proof {
            broadcast use vstd::std_specs::vec::axiom_vec_index_decreases;

            assert(decreases_to!(stmts => stmts[i as int]));
            crate::mir::lemma_stmts_view_take(stmts@, i as int);
            let v0 = stmts_view(stmts@.take(i as int));
            assert(v0.push(stmt_view(stmts@[i as int])).drop_last() =~= v0);
            reveal_with_fuel(stmt_view, 3);
        }
        let ghost before = sizes@;
        match &stmts[i] {
            MirStmt::Assign(Place::Local(LocalId(id)), Rvalue::Use(Operand::ArrayInit { elements })) => {
                proof {
                    lemma_operands_len(elements@);
                }
                sizes.push((*id, elements.len()));
            },
            MirStmt::IfStmt { then_body, else_body, .. } => {
                collect_sizes_from_stmts(then_body, sizes);
                collect_sizes_from_stmts(else_body, sizes);
            },
            MirStmt::WhileStmt { body, .. } => {
                collect_sizes_from_stmts(body, sizes);
            },
            _ => {},
        }
        proof {
            assert(sizes@ =~= before + sizes_in_stmt(stmt_view(stmts@[i as int])));
        }
        i = i + 1;
    }
    proof {
        assert(stmts@.take(stmts.len() as int) =~= stmts@);
    }
}

proof fn lemma_operands_len(s: Seq<Operand>)
    ensures
        operands_view(s).len() == s.len(),
{
    crate::mir::lemma_operands_view(s);
}

fn collect_known_array_sizes(blocks: &Vec<BasicBlock>) -> (r: Vec<(u32, usize)>)
    ensures
        r@ == sizes_in_blocks(blocks_view(blocks@)),
{
    let ghost bv = blocks_view(blocks@);
    let mut sizes: Vec<(u32, usize)> = Vec::new();
    let mut i: usize = 0;
    proof {
        assert(bv.take(0) =~= Seq::<BlockView>::empty());
    }
    while i < blocks.len()
        invariant
            i <= blocks.len(),
            bv == blocks_view(blocks@),
            sizes@ == sizes_in_blocks(bv.take(i as int)),
        decreases blocks.len() - i,
    {
        collect_sizes_from_stmts(&blocks[i].stmts, &mut sizes);
        proof {
            assert(bv.take(i + 1).drop_last() =~= bv.take(i as int));
            assert(bv.take(i + 1).last() == blocks@[i as int]@);
        }
        i = i + 1;
    }
    proof {
        assert(bv.take(blocks.len() as int) =~= bv);
    }
    sizes
}


// ---------------------------------------------------------------------------
// What is eliminated
// ---------------------------------------------------------------------------
/// An (array, index) pair already checked.
pub type CheckKey = (u32, OperandKey);

pub open spec fn check_key(args: Seq<OperandView>) -> Option<CheckKey> {
    if args.len() < 2 {
        None
    } else {
        match local_of(args[0]) {
            Some(a) => Some((a, key_of(args[1]))),
            None => None,
        }
    }
}

/// Whether a bounds check with arguments `args` is provably redundant:
/// the same (array, index) was checked before, or a constant index lies
/// below a known array length or a constant length.
pub open spec fn can_eliminate(
    args: Seq<OperandView>,
    sizes: Seq<(u32, usize)>,
    checked: Seq<CheckKey>,
) -> bool {
    if args.len() < 2 {
        false
    } else if check_key(args) is Some && checked.contains(check_key(args).unwrap()) {
        true
    } else if local_of(args[0]) is Some && size_of(sizes, local_of(args[0]).unwrap()) is Some
        && const_usize(args[1]) is Some {
        const_usize(args[1]).unwrap() < size_of(sizes, local_of(args[0]).unwrap()).unwrap()
    } else if const_usize(args[0]) is Some && const_usize(args[1]) is Some {
        const_usize(args[0]).unwrap() < const_usize(args[1]).unwrap()
    } else {
        false
    }
}

pub open spec fn is_check(s: StmtView) -> bool {
    match s {
        StmtView::CallBuiltin { name, .. } => bounds_check_name(name),
        _ => false,
    }
}

pub open spec fn call_args(s: StmtView) -> Seq<OperandView> {
    match s {
        StmtView::CallBuiltin { args, .. } => args,
        _ => Seq::empty(),
    }
}

/// Whether statement `st` assigns the array or the index local of `k`, so
/// that an earlier check of `k` no longer covers what follows.
pub open spec fn stale(k: CheckKey, st: StmtView) -> bool {
    asg_stmt(k.0, st) || match k.1 {
        OperandKey::Local(x) => asg_stmt(x, st),
        _ => false,
    }
}

/// The checked pairs that still hold after statement `st`.
pub open spec fn forget(c: Seq<CheckKey>, st: StmtView) -> Seq<CheckKey> {
    c.filter(|k: CheckKey| !stale(k, st))
}

/// The pairs checked by the kept checks among `s` whose array and index
/// were not assigned since.
pub open spec fn checked_after(sizes: Seq<(u32, usize)>, s: Seq<StmtView>) -> Seq<CheckKey>
    decreases s.len(),
{
    if s.len() == 0 {
        Seq::empty()
    } else {
        let c = checked_after(sizes, s.drop_last());
        let st = s.last();
        forget(
            if is_check(st) && !can_eliminate(call_args(st), sizes, c) && check_key(call_args(st)) is Some {
                c.push(check_key(call_args(st)).unwrap())
            } else {
                c
            },
            st,
        )
    }
}

fn has_id(v: &Vec<u32>, x: u32) -> (r: bool)
    ensures
        r == v@.contains(x),
{
    let mut i: usize = 0;
    while i < v.len()
        invariant
            i <= v.len(),
            forall|j: int| 0 <= j < i ==> v@[j] != x,
        decreases v.len() - i,
    {
        if v[i] == x {
            assert(v@[i as int] == x);
            return true;
        }
        i = i + 1;
    }
    false
}

/// The checked pairs that still hold after `st`.
fn forget_stale(c: &Vec<CheckKey>, st: &MirStmt) -> (r: Vec<CheckKey>)
    ensures
        r@ == forget(c@, st@),
{
    let mut assigned: Vec<u32> = Vec::new();
    add_assigned_stmt(st, &mut assigned);
    let ghost pred = |k: CheckKey| !stale(k, st@);
    let mut out: Vec<CheckKey> = Vec::new();
    let mut i: usize = 0;
    proof {
        reveal(Seq::filter);
        assert(c@.take(0) =~= Seq::<CheckKey>::empty());
        assert(c@.take(0).filter(pred) =~= Seq::<CheckKey>::empty());
    }
    while i < c.len()
        invariant
            i <= c.len(),
            pred == (|k: CheckKey| !stale(k, st@)),
            forall|y: u32| #![trigger assigned@.contains(y)] assigned@.contains(y) <==> asg_stmt(y, st@),
            out@ == c@.take(i as int).filter(pred),
        decreases c.len() - i,
    {
        let k = c[i];
        let a_hit = has_id(&assigned, k.0);
        let i_hit = match k.1 {
            OperandKey::Local(x) => has_id(&assigned, x),
            _ => false,
        };
        proof {
            reveal(Seq::filter);
            assert(c@.take(i + 1).drop_last() =~= c@.take(i as int));
            assert(c@.take(i + 1).last() == k);
            assert(pred(k) == !(a_hit || i_hit));
        }
        if !a_hit && !i_hit {
            out.push(k);
        }
        i = i + 1;
    }
    proof {
        assert(c@.take(c.len() as int) =~= c@);
    }
    out
}

/// Whether the last statement of `s` is a redundant check.
pub open spec fn removed_last(sizes: Seq<(u32, usize)>, s: Seq<StmtView>) -> bool {
    is_check(s.last()) && can_eliminate(call_args(s.last()), sizes, checked_after(sizes, s.drop_last()))
}

/// A statement that steps `iv` by one: `iv = iv + 1` or `iv = 1 + iv`.
pub open spec fn unit_step(lhs: OperandView, rhs: OperandView, iv: u32) -> bool {
    (local_of(lhs) == Some(iv) && const_usize(rhs) == Some(1usize)) || (local_of(rhs) == Some(iv)
        && const_usize(lhs) == Some(1usize))
}

pub open spec fn increments(s: StmtView, iv: u32) -> bool {
    match s {
        StmtView::Assign(PlaceView::Local(dest), RvalueView::Use(OperandView::BinOp(BinOp::Add, lhs, rhs))) => {
            dest.0 == iv && unit_step(*lhs, *rhs, iv)
        },
        StmtView::Assign(PlaceView::Local(dest), RvalueView::BinaryOp(BinOp::Add, lhs, rhs)) => {
            dest.0 == iv && unit_step(lhs, rhs, iv)
        },
        _ => false,
    }
}

pub open spec fn has_unit_increment_spec(s: Seq<StmtView>, iv: u32) -> bool
    decreases s.len(),
{
    if s.len() == 0 {
        false
    } else {
        has_unit_increment_spec(s.drop_last(), iv) || increments(s.last(), iv)
    }
}

/// A constant bound, or `len(a)` of an array of known size.
pub open spec fn resolve_bound_spec(op: OperandView, sizes: Seq<(u32, usize)>) -> Option<usize> {
    if const_usize(op) is Some {
        const_usize(op)
    } else {
        match op {
            OperandView::Call(name, args) => if (name == "len"@ || name == "__intrinsic_len"@)
                && args.len() > 0 && local_of(args[0]) is Some {
                size_of(sizes, local_of(args[0]).unwrap())
            } else {
                None
            },
            _ => None,
        }
    }
}

/// The counter and bound of a loop guard `iv < bound`.
pub open spec fn loop_guard(cond: OperandView, sizes: Seq<(u32, usize)>) -> Option<(u32, usize)> {
    match cond {
        OperandView::BinOp(BinOp::Lt, lhs, rhs) => match local_of(*lhs) {
            Some(iv) => match resolve_bound_spec(*rhs, sizes) {
                Some(u) => Some((iv, u)),
                None => None,
            },
            None => None,
        },
        _ => None,
    }
}

/// Some argument is an array of known size at least `upper`, or a constant
/// at least `upper`.
pub open spec fn args_cover(args: Seq<OperandView>, sizes: Seq<(u32, usize)>, upper: usize) -> bool
    decreases args.len(),
{
    if args.len() == 0 {
        false
    } else {
        args_cover(args.drop_last(), sizes, upper) || (match local_of(args.last()) {
            Some(l) => match size_of(sizes, l) {
                Some(sz) => sz >= upper,
                None => false,
            },
            None => false,
        }) || (match const_usize(args.last()) {
            Some(v) => v >= upper,
            None => false,
        })
    }
}

/// A check inside the loop guarded by `iv < upper` that indexes with `iv`
/// into an array long enough.
pub open spec fn loop_redundant(s: StmtView, sizes: Seq<(u32, usize)>, iv: u32, upper: usize) -> bool {
    is_check(s) && call_args(s).len() >= 2 && (local_of(call_args(s)[1]) == Some(iv) || local_of(
        call_args(s)[0],
    ) == Some(iv)) && args_cover(call_args(s), sizes, upper)
}

pub open spec fn drop_redundant(s: Seq<StmtView>, sizes: Seq<(u32, usize)>, iv: u32, upper: usize) -> Seq<StmtView>
    decreases s.len(),
{
    if s.len() == 0 {
        Seq::empty()
    } else {
        drop_redundant(s.drop_last(), sizes, iv, upper) + if loop_redundant(s.last(), sizes, iv, upper) {
            Seq::empty()
        } else {
            seq![s.last()]
        }
    }
}

pub open spec fn count_redundant(s: Seq<StmtView>, sizes: Seq<(u32, usize)>, iv: u32, upper: usize) -> nat
    decreases s.len(),
{
    if s.len() == 0 {
        0
    } else {
        count_redundant(s.drop_last(), sizes, iv, upper) + if loop_redundant(s.last(), sizes, iv, upper) {
            1nat
        } else {
            0nat
        }
    }
}

/// The loop body with the checks the loop guard makes redundant removed.
pub open spec fn loop_elim(sizes: Seq<(u32, usize)>, cond: OperandView, body: Seq<StmtView>) -> Seq<StmtView> {
    match loop_guard(cond, sizes) {
        Some((iv, upper)) => if has_unit_increment_spec(body, iv) {
            drop_redundant(body, sizes, iv, upper)
        } else {
            body
        },
        None => body,
    }
}

pub open spec fn loop_count(sizes: Seq<(u32, usize)>, cond: OperandView, body: Seq<StmtView>) -> nat {
    match loop_guard(cond, sizes) {
        Some((iv, upper)) => if has_unit_increment_spec(body, iv) {
            count_redundant(body, sizes, iv, upper)
        } else {
            0
        },
        None => 0,
    }
}

/// The statements with redundant checks removed, nested bodies included.
pub open spec fn elim(sizes: Seq<(u32, usize)>, s: Seq<StmtView>) -> Seq<StmtView>
    decreases s,
{
    if s.len() == 0 {
        Seq::empty()
    } else {
        elim(sizes, s.drop_last()) + if removed_last(sizes, s) {
            Seq::empty()
        } else {
            seq![elim_nested(sizes, s.last())]
        }
    }
}

pub open spec fn elim_nested(sizes: Seq<(u32, usize)>, st: StmtView) -> StmtView
    decreases st,
{
    match st {
        StmtView::IfStmt { cond, then_body, else_body } => StmtView::IfStmt {
            cond,
            then_body: elim(sizes, then_body),
            else_body: elim(sizes, else_body),
        },
        StmtView::WhileStmt { cond, body } => StmtView::WhileStmt {
            cond,
            body: loop_elim(sizes, cond, elim(sizes, body)),
        },
        _ => st,
    }
}

/// The number of checks removed from the statements.
pub open spec fn elim_count(sizes: Seq<(u32, usize)>, s: Seq<StmtView>) -> nat
    decreases s,
{
    if s.len() == 0 {
        0
    } else {
        elim_count(sizes, s.drop_last()) + if removed_last(sizes, s) {
            1nat
        } else {
            nested_count(sizes, s.last())
        }
    }
}

pub open spec fn nested_count(sizes: Seq<(u32, usize)>, st: StmtView) -> nat
    decreases st,
{
    match st {
        StmtView::IfStmt { then_body, else_body, .. } => elim_count(sizes, then_body) + elim_count(
            sizes,
            else_body,
        ),
        StmtView::WhileStmt { cond, body } => elim_count(sizes, body) + loop_count(
            sizes,
            cond,
            elim(sizes, body),
        ),
        _ => 0,
    }
}

// ---------------------------------------------------------------------------
// Executable checks
// ---------------------------------------------------------------------------
fn bounds_check_key_from(args: &Vec<Operand>) -> (r: Option<CheckKey>)
    ensures
        r == check_key(operands_view(args@)),
{
    proof {
        crate::mir::lemma_operands_view(args@);
    }
    if args.len() < 2 {
        return None;
    }
    match operand_local(&args[0]) {
        Some(a) => Some((a, operand_key(&args[1]))),
        None => None,
    }
}

fn checked_contains(checked: &Vec<CheckKey>, k: CheckKey) -> (r: bool)
    ensures
        r == checked@.contains(k),
{
    let mut i: usize = 0;
    while i < checked.len()
        invariant
            i <= checked.len(),
            forall|j: int| 0 <= j < i ==> checked@[j] != k,
        decreases checked.len() - i,
    {
        if checked[i].0 == k.0 && checked[i].1 == k.1 {
            assert(checked@[i as int] == k);
            return true;
        }
        i = i + 1;
    }
    false
}

/// Whether a bounds check with these arguments is provably redundant.
fn can_eliminate_builtin_check(
    args: &Vec<Operand>,
    sizes: &Vec<(u32, usize)>,
    checked: &Vec<CheckKey>,
) -> (r: bool)
    ensures
        r == can_eliminate(operands_view(args@), sizes@, checked@),
{
    proof {
        crate::mir::lemma_operands_view(args@);
    }
    if args.len() < 2 {
        return false;
    }
    if let Some(key) = bounds_check_key_from(args) {
        if checked_contains(checked, key) {
            return true;
        }
    }
    if let Some(arr_local) = operand_local(&args[0]) {
        if let Some(size) = lookup_size(sizes, arr_local) {
            if let Some(idx_val) = operand_const_usize(&args[1]) {
                return idx_val < size;
            }
        }
    }
    if let Some(idx_val) = operand_const_usize(&args[0]) {
        if let Some(len_val) = operand_const_usize(&args[1]) {
            return idx_val < len_val;
        }
    }
    false
}

fn increments_exec(s: &MirStmt, iv: u32) -> (r: bool)
    ensures
        r == increments(s@, iv),
{
    proof {
        reveal_with_fuel(stmt_view, 3);
    }
    match s {
        MirStmt::Assign(Place::Local(LocalId(dest)), Rvalue::Use(Operand::BinOp(BinOp::Add, lhs, rhs))) => {
            *dest == iv && unit_step_exec(lhs, rhs, iv)
        },
        MirStmt::Assign(Place::Local(LocalId(dest)), Rvalue::BinaryOp(BinOp::Add, lhs, rhs)) => {
            *dest == iv && unit_step_exec(lhs, rhs, iv)
        },
        _ => false,
    }
}

fn unit_step_exec(lhs: &Operand, rhs: &Operand, iv: u32) -> (r: bool)
    ensures
        r == unit_step(lhs@, rhs@, iv),
{
    let lhs_is_iv = match operand_local(lhs) {
        Some(l) => l == iv,
        None => false,
    };
    let rhs_is_one = match operand_const_usize(rhs) {
        Some(v) => v == 1,
        None => false,
    };
    let rhs_is_iv = match operand_local(rhs) {
        Some(l) => l == iv,
        None => false,
    };
    let lhs_is_one = match operand_const_usize(lhs) {
        Some(v) => v == 1,
        None => false,
    };
    (lhs_is_iv && rhs_is_one) || (rhs_is_iv && lhs_is_one)
}

/// Whether the statements step `iv` by exactly one.
fn has_unit_increment(stmts: &Vec<MirStmt>, iv: u32) -> (r: bool)
    ensures
        r == has_unit_increment_spec(stmts_view(stmts@), iv),
{
    let ghost sv = stmts_view(stmts@);
    proof {
        crate::mir::lemma_stmts_view(stmts@);
        assert(sv.take(0) =~= Seq::<StmtView>::empty());
    }
    let mut i: usize = 0;
    while i < stmts.len()
        invariant
            i <= stmts.len(),
            sv == stmts_view(stmts@),
            sv.len() == stmts.len(),
            !has_unit_increment_spec(sv.take(i as int), iv),
        decreases stmts.len() - i,
    {
        proof {
            crate::mir::lemma_stmts_view(stmts@);
            assert(sv.take(i + 1).drop_last() =~= sv.take(i as int));
            assert(sv.take(i + 1).last() == stmt_view(stmts@[i as int]));
        }
        if increments_exec(&stmts[i], iv) {
            proof {
                lemma_unit_increment_prefix(sv, i + 1, iv);
            }
            return true;
        }
        i = i + 1;
    }
    proof {
        assert(sv.take(stmts.len() as int) =~= sv);
    }
    false
}

proof fn lemma_unit_increment_prefix(s: Seq<StmtView>, n: int, iv: u32)
    requires
        0 <= n <= s.len(),
        has_unit_increment_spec(s.take(n), iv),
    ensures
        has_unit_increment_spec(s, iv),
    decreases s.len() - n,
{
    if n < s.len() {
        assert(s.take(n + 1).drop_last() =~= s.take(n));
        lemma_unit_increment_prefix(s, n + 1, iv);
    } else {
        assert(s.take(n) =~= s);
    }
}

/// A constant bound, or `len(a)` of an array of known size.
fn resolve_bound(op: &Operand, sizes: &Vec<(u32, usize)>) -> (r: Option<usize>)
    ensures
        r == resolve_bound_spec(op@, sizes@),
{
    if let Some(v) = operand_const_usize(op) {
        return Some(v);
    }
    if let Operand::Call(name, args) = op {
        proof {
            crate::mir::lemma_operands_view(args@);
        }
        if crate::strutil::str_eq(name.as_str(), "len") || crate::strutil::str_eq(
            name.as_str(),
            "__intrinsic_len",
        ) {
            if args.len() > 0 {
                if let Some(arr) = operand_local(&args[0]) {
                    return lookup_size(sizes, arr);
                }
            }
        }
    }
    None
}

fn loop_guard_exec(cond: &Operand, sizes: &Vec<(u32, usize)>) -> (r: Option<(u32, usize)>)
    ensures
        r == loop_guard(cond@, sizes@),
{
    match cond {
        Operand::BinOp(BinOp::Lt, lhs, rhs) => match operand_local(lhs) {
            Some(iv) => match resolve_bound(rhs, sizes) {
                Some(u) => Some((iv, u)),
                None => None,
            },
            None => None,
        },
        _ => None,
    }
}

fn args_cover_exec(args: &Vec<Operand>, sizes: &Vec<(u32, usize)>, upper: usize) -> (r: bool)
    ensures
        r == args_cover(operands_view(args@), sizes@, upper),
{
    let ghost av = operands_view(args@);
    proof {
        crate::mir::lemma_operands_view(args@);
        assert(av.take(0) =~= Seq::<OperandView>::empty());
    }
    let mut i: usize = 0;
    while i < args.len()
        invariant
            i <= args.len(),
            av == operands_view(args@),
            av.len() == args.len(),
            !args_cover(av.take(i as int), sizes@, upper),
        decreases args.len() - i,
    {
        proof {
            crate::mir::lemma_operands_view(args@);
            assert(av.take(i + 1).drop_last() =~= av.take(i as int));
            assert(av.take(i + 1).last() == crate::mir::operand_view(args@[i as int]));
        }
        let by_size = match operand_local(&args[i]) {
            Some(l) => match lookup_size(sizes, l) {
                Some(sz) => sz >= upper,
                None => false,
            },
            None => false,
        };
        let by_const = match operand_const_usize(&args[i]) {
            Some(v) => v >= upper,
            None => false,
        };
        if by_size || by_const {
            proof {
                lemma_args_cover_prefix(av, i + 1, sizes@, upper);
            }
            return true;
        }
        i = i + 1;
    }
    proof {
        assert(av.take(args.len() as int) =~= av);
    }
    false
}

proof fn lemma_args_cover_prefix(s: Seq<OperandView>, n: int, sizes: Seq<(u32, usize)>, upper: usize)
    requires
        0 <= n <= s.len(),
        args_cover(s.take(n), sizes, upper),
    ensures
        args_cover(s, sizes, upper),
    decreases s.len() - n,
{
    if n < s.len() {
        assert(s.take(n + 1).drop_last() =~= s.take(n));
        lemma_args_cover_prefix(s, n + 1, sizes, upper);
    } else {
        assert(s.take(n) =~= s);
    }
}

fn loop_redundant_exec(s: &MirStmt, sizes: &Vec<(u32, usize)>, iv: u32, upper: usize) -> (r: bool)
    ensures
        r == loop_redundant(s@, sizes@, iv, upper),
{
    match s {
        MirStmt::CallBuiltin { name, args, .. } => {
            proof {
                crate::mir::lemma_operands_view(args@);
            }
            if !is_bounds_check_name(name.as_str()) || args.len() < 2 {
                return false;
            }
            let idx_is_iv = match operand_local(&args[1]) {
                Some(l) => l == iv,
                None => false,
            } || match operand_local(&args[0]) {
                Some(l) => l == iv,
                None => false,
            };
            idx_is_iv && args_cover_exec(args, sizes, upper)
        },
        _ => false,
    }
}

/// Remove, inside `while iv < upper` stepping `iv` by one, the checks that
/// index with `iv` into an array known to be long enough.
fn eliminate_loop_bounds_checks(
    cond: &Operand,
    body: Vec<MirStmt>,
    sizes: &Vec<(u32, usize)>,
) -> (r: (Vec<MirStmt>, usize))
    ensures
        stmts_view(r.0@) == loop_elim(sizes@, cond@, stmts_view(body@)),
        r.1 == loop_count(sizes@, cond@, stmts_view(body@)),
{
    let (iv, upper) = match loop_guard_exec(cond, sizes) {
        Some(g) => g,
        None => {
            return (body, 0);
        },
    };
    if !has_unit_increment(&body, iv) {
        return (body, 0);
    }
    let ghost bv = stmts_view(body@);
    let mut out: Vec<MirStmt> = Vec::new();
    let mut count: usize = 0;
    let mut i: usize = 0;
    proof {
        crate::mir::lemma_stmts_view(body@);
        assert(bv.take(0) =~= Seq::<StmtView>::empty());
        assert(stmts_view(out@) =~= Seq::<StmtView>::empty());
    }
    while i < body.len()
        invariant
            i <= body.len(),
            bv == stmts_view(body@),
            bv.len() == body.len(),
            stmts_view(out@) == drop_redundant(bv.take(i as int), sizes@, iv, upper),
            count == count_redundant(bv.take(i as int), sizes@, iv, upper),
            count <= i,
        decreases body.len() - i,
    {
        proof {
            crate::mir::lemma_stmts_view(body@);
            assert(bv.take(i + 1).drop_last() =~= bv.take(i as int));
            assert(bv.take(i + 1).last() == stmt_view(body@[i as int]));
        }
        if loop_redundant_exec(&body[i], sizes, iv, upper) {
            count = count + 1;
        } else {
            let st = clone_stmt(&body[i]);
            let ghost before = out@;
            out.push(st);
            proof {
                assert(out@.drop_last() =~= before);
                assert(stmts_view(out@) =~= stmts_view(before) + seq![st@]);
            }
        }
        i = i + 1;
    }
    proof {
        assert(bv.take(body.len() as int) =~= bv);
    }
    (out, count)
}

proof fn lemma_elim_count_prefix(sizes: Seq<(u32, usize)>, s: Seq<StmtView>, n: int)
    requires
        0 <= n <= s.len(),
    ensures
        elim_count(sizes, s.take(n)) <= elim_count(sizes, s),
    decreases s.len() - n,
{
    if n < s.len() {
        assert(s.take(n + 1).drop_last() =~= s.take(n));
        lemma_elim_count_prefix(sizes, s, n + 1);
    } else {
        assert(s.take(n) =~= s);
    }
}

/// Remove the redundant checks among `stmts` (see [`elim`]); returns the
/// new statements and the number removed.
fn eliminate_in_stmts(stmts: &Vec<MirStmt>, sizes: &Vec<(u32, usize)>) -> (r: (Vec<MirStmt>, usize))
    requires
        elim_count(sizes@, stmts_view(stmts@)) <= usize::MAX,
    ensures
        stmts_view(r.0@) == elim(sizes@, stmts_view(stmts@)),
        r.1 == elim_count(sizes@, stmts_view(stmts@)),
    decreases stmts, 1nat,
{
    let ghost sv = stmts_view(stmts@);
    let mut out: Vec<MirStmt> = Vec::new();
    let mut checked: Vec<CheckKey> = Vec::new();
    let mut count: usize = 0;
    let mut i: usize = 0;
    proof {
        crate::mir::lemma_stmts_view(stmts@);
        assert(sv.take(0) =~= Seq::<StmtView>::empty());
        assert(stmts_view(out@) =~= Seq::<StmtView>::empty());
    }
    #[verifier::loop_isolation(false)]
    while i < stmts.len()
        invariant
            i <= stmts.len(),
            sv == stmts_view(stmts@),
            sv.len() == stmts.len(),
            stmts_view(out@) == elim(sizes@, sv.take(i as int)),
            count == elim_count(sizes@, sv.take(i as int)),
            checked@ == checked_after(sizes@, sv.take(i as int)),
        decreases stmts.len() - i,
    {
        proof {
            broadcast use vstd::std_specs::vec::axiom_vec_index_decreases;

            assert(decreases_to!(stmts => stmts[i as int]));
            crate::mir::lemma_stmts_view(stmts@);
            assert(sv.take(i + 1).drop_last() =~= sv.take(i as int));
            assert(sv.take(i + 1).last() == stmt_view(stmts@[i as int]));
            lemma_elim_count_prefix(sizes@, sv, i + 1);
        }
        let st = &stmts[i];
        let mut removed = false;
        if let MirStmt::CallBuiltin { name, args, .. } = st {
            if is_bounds_check_name(name.as_str()) {
                if can_eliminate_builtin_check(args, sizes, &checked) {
                    removed = true;
                } else if let Some(key) = bounds_check_key_from(args) {
                    checked.push(key);
                }
            }
        }
        checked = forget_stale(&checked, st);
        if removed {
            count = count + 1;
        } else {
            let (nst, c) = elim_nested_exec(st, sizes);
            let ghost before = out@;
            out.push(nst);
            proof {
                assert(out@.drop_last() =~= before);
                assert(stmts_view(out@) =~= stmts_view(before) + seq![nst@]);
            }
            count = count + c;
        }
        i = i + 1;
    }
    proof {
        assert(sv.take(stmts.len() as int) =~= sv);
    }
    (out, count)
}

fn elim_nested_exec(st: &MirStmt, sizes: &Vec<(u32, usize)>) -> (r: (MirStmt, usize))
    requires
        nested_count(sizes@, st@) <= usize::MAX,
    ensures
        r.0@ == elim_nested(sizes@, st@),
        r.1 == nested_count(sizes@, st@),
    decreases st, 0nat,
{
    match st {
        MirStmt::IfStmt { cond, then_body, else_body } => {
            let (t, c1) = eliminate_in_stmts(then_body, sizes);
            let (e, c2) = eliminate_in_stmts(else_body, sizes);
            (MirStmt::IfStmt { cond: clone_operand(cond), then_body: t, else_body: e }, c1 + c2)
        },
        MirStmt::WhileStmt { cond, body } => {
            let (b, c1) = eliminate_in_stmts(body, sizes);
            let (b2, c2) = eliminate_loop_bounds_checks(cond, b, sizes);
            (MirStmt::WhileStmt { cond: clone_operand(cond), body: b2 }, c1 + c2)
        },
        _ => (clone_stmt(st), 0),
    }
}

pub open spec fn blocks_elim_count(sizes: Seq<(u32, usize)>, bs: Seq<BlockView>) -> nat
    decreases bs.len(),
{
    if bs.len() == 0 {
        0
    } else {
        blocks_elim_count(sizes, bs.drop_last()) + elim_count(sizes, bs.last().stmts)
    }
}

proof fn lemma_blocks_elim_count_prefix(sizes: Seq<(u32, usize)>, s: Seq<BlockView>, n: int)
    requires
        0 <= n <= s.len(),
    ensures
        blocks_elim_count(sizes, s.take(n)) <= blocks_elim_count(sizes, s),
    decreases s.len() - n,
{
    if n < s.len() {
        assert(s.take(n + 1).drop_last() =~= s.take(n));
        lemma_blocks_elim_count_prefix(sizes, s, n + 1);
    } else {
        assert(s.take(n) =~= s);
    }
}

/// Eliminate redundant bounds checks in every block of `func` (see
/// [`elim`]); reports the number removed.
pub fn bounds_check_elim(func: &mut MirFunction) -> (summary: OptimizationSummary)
    requires
        blocks_elim_count(
            sizes_in_blocks(blocks_view(old(func).blocks@)),
            blocks_view(old(func).blocks@),
        ) <= usize::MAX,
    ensures
        same_header(*old(func), *final(func)),
        final(func).locals == old(func).locals,
        final(func).blocks@.len() == old(func).blocks@.len(),
        forall|i: int|
            0 <= i < old(func).blocks@.len() ==> #[trigger] final(func).blocks@[i]@ == (BlockView {
                stmts: elim(
                    sizes_in_blocks(blocks_view(old(func).blocks@)),
                    old(func).blocks@[i]@.stmts,
                ),
                ..old(func).blocks@[i]@
            }),
        summary == (OptimizationSummary {
            bounds_checks_eliminated: blocks_elim_count(
                sizes_in_blocks(blocks_view(old(func).blocks@)),
                blocks_view(old(func).blocks@),
            ) as usize,
            ..zero_summary()
        }),
{
    let ghost f0 = *func;
    let ghost bv = blocks_view(func.blocks@);
    let mut summary = OptimizationSummary::default();
    let sizes = collect_known_array_sizes(&func.blocks);
    let mut new_blocks: Vec<BasicBlock> = Vec::new();
    let mut i: usize = 0;
    proof {
        assert(bv.take(0) =~= Seq::<BlockView>::empty());
    }
    while i < func.blocks.len()
        invariant
            i <= func.blocks.len(),
            func.blocks == f0.blocks,
            bv == blocks_view(f0.blocks@),
            sizes@ == sizes_in_blocks(bv),
            blocks_elim_count(sizes@, bv) <= usize::MAX,
            new_blocks@.len() == i,
            forall|j: int|
                0 <= j < i ==> #[trigger] new_blocks@[j]@ == (BlockView {
                    stmts: elim(sizes@, f0.blocks@[j]@.stmts),
                    ..f0.blocks@[j]@
                }),
            summary == (OptimizationSummary {
                bounds_checks_eliminated: blocks_elim_count(sizes@, bv.take(i as int)) as usize,
                ..zero_summary()
            }),
        decreases func.blocks.len() - i,
    {
        proof {
            assert(bv.take(i + 1).drop_last() =~= bv.take(i as int));
            assert(bv.take(i + 1).last() == func.blocks@[i as int]@);
            lemma_blocks_elim_count_prefix(sizes@, bv, i + 1);
        }
        let (stmts, c) = eliminate_in_stmts(&func.blocks[i].stmts, &sizes);
        let nb = BasicBlock {
            id: func.blocks[i].id,
            stmts,
            terminator: crate::mir::clone_terminator(&func.blocks[i].terminator),
            source: func.blocks[i].source,
        };
        new_blocks.push(nb);
        summary.bounds_checks_eliminated = summary.bounds_checks_eliminated + c;
        i = i + 1;
    }
    proof {
        assert(bv.take(func.blocks.len() as int) =~= bv);
    }
    func.blocks = new_blocks;
    summary
}

// ---------------------------------------------------------------------------
// Laws
// ---------------------------------------------------------------------------
/// The number of statements of `s` that are not bounds checks.
pub open spec fn non_checks(s: Seq<StmtView>) -> nat
    decreases s.len(),
{
    if s.len() == 0 {
        0
    } else {
        non_checks(s.drop_last()) + if is_check(s.last()) {
            0nat
        } else {
            1nat
        }
    }
}

/// Bounds-check elimination removes nothing but bounds checks: every other
/// statement of a list is kept, and the number removed at the top level is
/// the length lost.
pub proof fn law_elim_removes_only_checks(sizes: Seq<(u32, usize)>, s: Seq<StmtView>)
    ensures
        non_checks(elim(sizes, s)) == non_checks(s),
        elim(sizes, s).len() <= s.len(),
    decreases s.len(),
{
    if s.len() > 0 {
        law_elim_removes_only_checks(sizes, s.drop_last());
        let prev = elim(sizes, s.drop_last());
        if !removed_last(sizes, s) {
            let x = elim_nested(sizes, s.last());
            assert(is_check(x) == is_check(s.last()));
            assert((prev + seq![x]).drop_last() =~= prev);
        } else {
            assert(prev + Seq::<StmtView>::empty() =~= prev);
        }
    }
}
/// A bounds check of a local array of known length `n` at the constant
/// index `v`, whose (array, index) pair was not checked before, is
/// eliminated exactly when the index lies in range: an eliminated check
/// could never fail, and one that could fail stays.
pub proof fn law_constant_index_eliminated_iff_in_range(
    args: Seq<OperandView>,
    sizes: Seq<(u32, usize)>,
    checked: Seq<CheckKey>,
    a: u32,
    v: i32,
    n: usize,
)
    requires
        args.len() >= 2,
        args[0] == OperandView::Place(PlaceView::Local(LocalId(a))),
        args[1] == OperandView::ConstI32(v),
        size_of(sizes, a) == Some(n),
        !checked.contains((a, OperandKey::ConstI32(v))),
    ensures
        can_eliminate(args, sizes, checked) <==> (0 <= v && v < n),
{
}

/// The same for a check as the pass meets it: the last statement of `s`,
/// a check of a local array of known length `n` at the constant index `v`
/// that no kept check before it covers, is removed only when `0 <= v < n`.
pub proof fn law_removed_constant_checks_in_range(
    sizes: Seq<(u32, usize)>,
    s: Seq<StmtView>,
    a: u32,
    v: i32,
    n: usize,
)
    requires
        s.len() > 0,
        call_args(s.last()).len() >= 2,
        call_args(s.last())[0] == OperandView::Place(PlaceView::Local(LocalId(a))),
        call_args(s.last())[1] == OperandView::ConstI32(v),
        size_of(sizes, a) == Some(n),
        !checked_after(sizes, s.drop_last()).contains((a, OperandKey::ConstI32(v))),
        removed_last(sizes, s),
    ensures
        0 <= v && v < n,
{
    law_constant_index_eliminated_iff_in_range(
        call_args(s.last()),
        sizes,
        checked_after(sizes, s.drop_last()),
        a,
        v,
        n,
    );
}
/// A bounds check in the (index, length) form with two `i32` constants is
/// eliminated exactly when the index lies in `0 .. length`.
pub proof fn law_constant_pair_eliminated_iff_in_range(
    args: Seq<OperandView>,
    sizes: Seq<(u32, usize)>,
    checked: Seq<CheckKey>,
    i: i32,
    len: i32,
)
    requires
        args.len() >= 2,
        args[0] == OperandView::ConstI32(i),
        args[1] == OperandView::ConstI32(len),
    ensures
        can_eliminate(args, sizes, checked) <==> (0 <= i && i < len),
{
}
} // verus!
