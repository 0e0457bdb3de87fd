//! What escape analysis decides, and what scalar replacement does, stated
//! over MIR views.
//!
//! A local defined by `x = StructInit { .. }` at the top level of a block
//! is a candidate. It escapes when it is used other than through a field
//! access `x.f` or a field store `x.f = ..`: read whole, passed or returned,
//! stored, borrowed, or used as the base of a place. A candidate that does
//! not escape has each field replaced by a scalar local.
use vstd::prelude::*;

use crate::mir::{
    blocks_view, BlockView, LocalView, MirFunction, MirLocal, OperandView, PlaceView, RvalueView, StmtView,
    TerminatorView,
};
use crate::opt::desugar::max_local_id;
use crate::strutil::decimal;
use crate::types::TypeView;

verus! {

// ---------------------------------------------------------------------------
// Escapes
// ---------------------------------------------------------------------------
/// Whether the place `p` uses candidate `x` as a base.
pub open spec fn place_escapes(x: u32, p: PlaceView) -> bool
    decreases p,
{
    match p {
        PlaceView::Local(id) => id.0 == x,
        PlaceView::Field(inner, _) => place_escapes(x, *inner),
        PlaceView::Index(inner, idx) => place_escapes(x, *inner) || op_escapes(x, *idx),
    }
}

/// Whether the operand `o` uses candidate `x` other than through `x.f`.
pub open spec fn op_escapes(x: u32, o: OperandView) -> bool
    decreases o,
{
    match o {
        OperandView::Place(p) => match p {
            PlaceView::Local(id) => id.0 == x,
            PlaceView::Field(inner, _) => place_escapes(x, *inner),
            PlaceView::Index(inner, idx) => place_escapes(x, *inner) || op_escapes(x, *idx),
        },
        OperandView::FieldAccess { object, .. } => match *object {
            OperandView::Place(PlaceView::Local(_)) => false,
            _ => op_escapes(x, *object),
        },
        OperandView::BinOp(_, a, b) => op_escapes(x, *a) || op_escapes(x, *b),
        OperandView::UnaryOp(_, a) => op_escapes(x, *a),
        OperandView::EnumTag(a) => op_escapes(x, *a),
        OperandView::Call(_, args) => ops_escape(x, args),
        OperandView::ArrayInit { elements } => ops_escape(x, elements),
        OperandView::CallIndirect { callee, args } => op_escapes(x, *callee) || ops_escape(x, args),
        OperandView::StructInit { fields, .. } => fields_escape(x, fields),
        OperandView::EnumInit { payload, .. } => ops_escape(x, payload),
        OperandView::EnumPayload { object, .. } => op_escapes(x, *object),
        OperandView::IndexAccess { object, index } => op_escapes(x, *object) || op_escapes(
            x,
            *index,
        ),
        OperandView::IfExpr { cond, then_body, then_result, else_body, else_result } => {
            op_escapes(x, *cond) || stmts_escape(x, then_body) || res_escapes(x, then_result)
                || stmts_escape(x, else_body) || res_escapes(x, else_result)
        },
        OperandView::LoopExpr { init, body, result } => op_escapes(x, *init) || stmts_escape(
            x,
            body,
        ) || op_escapes(x, *result),
        OperandView::TryExpr { expr, .. } => op_escapes(x, *expr),
        _ => false,
    }
}

pub open spec fn res_escapes(x: u32, r: Option<Box<OperandView>>) -> bool
    decreases r,
{
    match r {
        Some(b) => op_escapes(x, *b),
        None => false,
    }
}

pub open spec fn ops_escape(x: u32, s: Seq<OperandView>) -> bool
    decreases s,
{
    if s.len() == 0 {
        false
    } else {
        ops_escape(x, s.drop_last()) || op_escapes(x, s.last())
    }
}

pub open spec fn fields_escape(x: u32, s: Seq<(Seq<char>, OperandView)>) -> bool
    decreases s,
{
    if s.len() == 0 {
        false
    } else {
        fields_escape(x, s.drop_last()) || op_escapes(x, s.last().1)
    }
}

pub open spec fn rvalue_escapes(x: u32, r: RvalueView) -> bool
    decreases r,
{
    match r {
        RvalueView::Use(o) => op_escapes(x, o),
        RvalueView::BinaryOp(_, a, b) => op_escapes(x, a) || op_escapes(x, b),
        RvalueView::UnaryOp(_, a) => op_escapes(x, a),
        RvalueView::Aggregate(_, v) => ops_escape(x, v),
        RvalueView::Ref(p) => place_escapes(x, p),
    }
}

/// Whether storing into `p` uses candidate `x` other than as `x.f = ..`.
pub open spec fn target_escapes(x: u32, p: PlaceView) -> bool
    decreases p,
{
    match p {
        PlaceView::Local(_) => false,
        PlaceView::Field(inner, _) => match *inner {
            PlaceView::Local(_) => false,
            _ => place_escapes(x, *inner),
        },
        PlaceView::Index(inner, idx) => place_escapes(x, *inner) || op_escapes(x, *idx),
    }
}

pub open spec fn stmt_escapes(x: u32, s: StmtView) -> bool
    decreases s,
{
    match s {
        StmtView::Assign(p, r) => target_escapes(x, p) || rvalue_escapes(x, r),
        StmtView::Call { args, .. } => ops_escape(x, args),
        StmtView::CallBuiltin { args, .. } => ops_escape(x, args),
        StmtView::Return(Some(v)) => op_escapes(x, v),
        StmtView::IfStmt { cond, then_body, else_body } => op_escapes(x, cond) || stmts_escape(
            x,
            then_body,
        ) || stmts_escape(x, else_body),
        StmtView::WhileStmt { cond, body } => op_escapes(x, cond) || stmts_escape(x, body),
        _ => false,
    }
}

pub open spec fn stmts_escape(x: u32, s: Seq<StmtView>) -> bool
    decreases s,
{
    if s.len() == 0 {
        false
    } else {
        stmts_escape(x, s.drop_last()) || stmt_escapes(x, s.last())
    }
}

pub open spec fn term_escapes(x: u32, t: TerminatorView) -> bool {
    match t {
        TerminatorView::Return(Some(v)) => op_escapes(x, v),
        TerminatorView::If { cond, .. } => op_escapes(x, cond),
        TerminatorView::Switch { scrutinee, .. } => op_escapes(x, scrutinee),
        _ => false,
    }
}

/// Whether candidate `x` escapes anywhere in the blocks `bs`.
pub open spec fn blocks_escape(x: u32, bs: Seq<BlockView>) -> bool
    decreases bs.len(),
{
    if bs.len() == 0 {
        false
    } else {
        blocks_escape(x, bs.drop_last()) || stmts_escape(x, bs.last().stmts) || term_escapes(
            x,
            bs.last().terminator,
        )
    }
}

// ---------------------------------------------------------------------------
// Candidates
// ---------------------------------------------------------------------------
/// A candidate: the local's id and the field names of its definition.
pub type Candidate = (u32, Seq<Seq<char>>);

/// The local and field names a statement `x = StructInit { .. }` defines.
pub open spec fn struct_def(s: StmtView) -> Option<Candidate> {
    match s {
        StmtView::Assign(PlaceView::Local(dest), RvalueView::Use(OperandView::StructInit { fields, .. })) => {
            Some((dest.0, fields.map_values(|f: (Seq<char>, OperandView)| f.0)))
        },
        _ => None,
    }
}

/// The position of candidate `x` in `cs`, or -1.
pub open spec fn cand_index(cs: Seq<Candidate>, x: u32) -> int
    decreases cs.len(),
{
    if cs.len() == 0 {
        -1
    } else if cand_index(cs.drop_last(), x) >= 0 {
        cand_index(cs.drop_last(), x)
    } else if cs.last().0 == x {
        cs.len() - 1
    } else {
        -1
    }
}

/// Record a definition: a new local is appended, a redefined one keeps its
/// place and takes the newer field list.
pub open spec fn add_candidate(cs: Seq<Candidate>, c: Candidate) -> Seq<Candidate> {
    let k = cand_index(cs, c.0);
    if k >= 0 {
        cs.update(k, c)
    } else {
        cs.push(c)
    }
}

/// The candidates defined by the statements `s`, in order of first
/// definition.
pub open spec fn candidates_of(s: Seq<StmtView>) -> Seq<Candidate>
    decreases s.len(),
{
    if s.len() == 0 {
        Seq::empty()
    } else {
        let cs = candidates_of(s.drop_last());
        match struct_def(s.last()) {
            Some(c) => add_candidate(cs, c),
            None => cs,
        }
    }
}

/// The top-level statements of `bs`, block after block.
pub open spec fn top_stmts(bs: Seq<BlockView>) -> Seq<StmtView>
    decreases bs.len(),
{
    if bs.len() == 0 {
        Seq::empty()
    } else {
        top_stmts(bs.drop_last()) + bs.last().stmts
    }
}

/// The candidates of `cs` that do not escape in `bs`, in order.
pub open spec fn non_escaping(cs: Seq<Candidate>, bs: Seq<BlockView>) -> Seq<Candidate>
    decreases cs.len(),
{
    if cs.len() == 0 {
        Seq::empty()
    } else {
        let r = non_escaping(cs.drop_last(), bs);
        if blocks_escape(cs.last().0, bs) {
            r
        } else {
            r.push(cs.last())
        }
    }
}

// ---------------------------------------------------------------------------
// Scalar locals
// ---------------------------------------------------------------------------
/// An entry of the scalar map: candidate, field, and the scalar local's id.
pub type ScalarEntry = (u32, Seq<char>, u32);

/// One scalar per field of each candidate, numbered from `start`.
pub open spec fn scalar_entries(cs: Seq<Candidate>, start: nat) -> Seq<ScalarEntry>
    decreases cs.len(),
{
    if cs.len() == 0 {
        Seq::empty()
    } else {
        let prev = scalar_entries(cs.drop_last(), start);
        let c = cs.last();
        prev + Seq::new(
            c.1.len(),
            |j: int| (c.0, c.1[j], (start + prev.len() + j) as u32),
        )
    }
}

/// The scalar local of field `f` of candidate `x`: the last entry for it.
pub open spec fn scalar_of(e: Seq<ScalarEntry>, x: u32, f: Seq<char>) -> Option<u32>
    decreases e.len(),
{
    if e.len() == 0 {
        None
    } else if e.last().0 == x && e.last().1 == f {
        Some(e.last().2)
    } else {
        scalar_of(e.drop_last(), x, f)
    }
}

pub open spec fn cand_ids(cs: Seq<Candidate>) -> Seq<u32> {
    cs.map_values(|c: Candidate| c.0)
}

// ---------------------------------------------------------------------------
// Rewriting
// ---------------------------------------------------------------------------
/// `o` with every `x.f` read, for a replaced candidate `x` whose field `f`
/// has a scalar, turned into a read of that scalar.
pub open spec fn rw_op(ne: Seq<u32>, e: Seq<ScalarEntry>, o: OperandView) -> OperandView
    decreases o,
{
    match o {
        OperandView::FieldAccess { object, struct_name, field } => {
            let direct = match *object {
                OperandView::Place(PlaceView::Local(id)) => if ne.contains(id.0) {
                    scalar_of(e, id.0, field)
                } else {
                    None
                },
                _ => None,
            };
            match direct {
                Some(sid) => OperandView::Place(PlaceView::Local(crate::mir::LocalId(sid))),
                None => OperandView::FieldAccess {
                    object: Box::new(rw_op(ne, e, *object)),
                    struct_name,
                    field,
                },
            }
        },
        OperandView::BinOp(op, a, b) => OperandView::BinOp(
            op,
            Box::new(rw_op(ne, e, *a)),
            Box::new(rw_op(ne, e, *b)),
        ),
        OperandView::UnaryOp(op, a) => OperandView::UnaryOp(op, Box::new(rw_op(ne, e, *a))),
        OperandView::Call(n, args) => OperandView::Call(n, rw_ops(ne, e, args)),
        OperandView::CallIndirect { callee, args } => OperandView::CallIndirect {
            callee: Box::new(rw_op(ne, e, *callee)),
            args: rw_ops(ne, e, args),
        },
        OperandView::StructInit { name, fields } => OperandView::StructInit {
            name,
            fields: rw_fields(ne, e, fields),
        },
        OperandView::EnumInit { enum_name, variant, tag, payload } => OperandView::EnumInit {
            enum_name,
            variant,
            tag,
            payload: rw_ops(ne, e, payload),
        },
        OperandView::EnumTag(a) => OperandView::EnumTag(Box::new(rw_op(ne, e, *a))),
        OperandView::EnumPayload { object, index, enum_name, variant_name } => {
            OperandView::EnumPayload {
                object: Box::new(rw_op(ne, e, *object)),
                index,
                enum_name,
                variant_name,
            }
        },
        OperandView::ArrayInit { elements } => OperandView::ArrayInit {
            elements: rw_ops(ne, e, elements),
        },
        OperandView::IndexAccess { object, index } => OperandView::IndexAccess {
            object: Box::new(rw_op(ne, e, *object)),
            index: Box::new(rw_op(ne, e, *index)),
        },
        OperandView::IfExpr { cond, then_body, then_result, else_body, else_result } => {
            OperandView::IfExpr {
                cond: Box::new(rw_op(ne, e, *cond)),
                then_body: rw_stmts(ne, e, then_body),
                then_result: rw_res(ne, e, then_result),
                else_body: rw_stmts(ne, e, else_body),
                else_result: rw_res(ne, e, else_result),
            }
        },
        OperandView::LoopExpr { init, body, result } => OperandView::LoopExpr {
            init: Box::new(rw_op(ne, e, *init)),
            body: rw_stmts(ne, e, body),
            result: Box::new(rw_op(ne, e, *result)),
        },
        OperandView::TryExpr { expr, from_fn } => OperandView::TryExpr {
            expr: Box::new(rw_op(ne, e, *expr)),
            from_fn,
        },
        _ => o,
    }
}

pub open spec fn rw_res(ne: Seq<u32>, e: Seq<ScalarEntry>, r: Option<Box<OperandView>>) -> Option<
    Box<OperandView>,
>
    decreases r,
{
    match r {
        Some(b) => Some(Box::new(rw_op(ne, e, *b))),
        None => None,
    }
}

pub open spec fn rw_ops(ne: Seq<u32>, e: Seq<ScalarEntry>, s: Seq<OperandView>) -> Seq<
    OperandView,
>
    decreases s,
{
    if s.len() == 0 {
        Seq::empty()
    } else {
        rw_ops(ne, e, s.drop_last()).push(rw_op(ne, e, s.last()))
    }
}

pub open spec fn rw_fields(
    ne: Seq<u32>,
    e: Seq<ScalarEntry>,
    s: Seq<(Seq<char>, OperandView)>,
) -> Seq<(Seq<char>, OperandView)>
    decreases s,
{
    if s.len() == 0 {
        Seq::empty()
    } else {
        rw_fields(ne, e, s.drop_last()).push((s.last().0, rw_op(ne, e, s.last().1)))
    }
}

pub open spec fn rw_rvalue(ne: Seq<u32>, e: Seq<ScalarEntry>, r: RvalueView) -> RvalueView
    decreases r,
{
    match r {
        RvalueView::Use(o) => RvalueView::Use(rw_op(ne, e, o)),
        RvalueView::BinaryOp(op, a, b) => RvalueView::BinaryOp(
            op,
            rw_op(ne, e, a),
            rw_op(ne, e, b),
        ),
        RvalueView::UnaryOp(op, a) => RvalueView::UnaryOp(op, rw_op(ne, e, a)),
        RvalueView::Aggregate(k, v) => RvalueView::Aggregate(k, rw_ops(ne, e, v)),
        RvalueView::Ref(p) => RvalueView::Ref(p),
    }
}

/// The scalar assignments that replace `x = StructInit { fields }`: one per
/// field that has a scalar.
pub open spec fn expand_fields(
    ne: Seq<u32>,
    e: Seq<ScalarEntry>,
    x: u32,
    fields: Seq<(Seq<char>, OperandView)>,
) -> Seq<StmtView>
    decreases fields,
{
    if fields.len() == 0 {
        Seq::empty()
    } else {
        let prev = expand_fields(ne, e, x, fields.drop_last());
        match scalar_of(e, x, fields.last().0) {
            Some(sid) => prev.push(
                StmtView::Assign(
                    PlaceView::Local(crate::mir::LocalId(sid)),
                    RvalueView::Use(rw_op(ne, e, fields.last().1)),
                ),
            ),
            None => prev,
        }
    }
}

/// What a statement becomes under scalar replacement.
pub open spec fn rw_stmt(ne: Seq<u32>, e: Seq<ScalarEntry>, s: StmtView) -> Seq<StmtView>
    decreases s,
{
    match s {
        StmtView::Assign(p, r) => match (p, r) {
            (
                PlaceView::Local(dest),
                RvalueView::Use(OperandView::StructInit { fields, .. }),
            ) if ne.contains(dest.0) => expand_fields(ne, e, dest.0, fields),
            (PlaceView::Field(inner, f), _) if (match *inner {
                PlaceView::Local(id) => ne.contains(id.0),
                _ => false,
            }) => match scalar_of(e, inner->Local_0.0, f) {
                Some(sid) => seq![
                    StmtView::Assign(
                        PlaceView::Local(crate::mir::LocalId(sid)),
                        rw_rvalue(ne, e, r),
                    ),
                ],
                None => seq![s],
            },
            _ => seq![StmtView::Assign(p, rw_rvalue(ne, e, r))],
        },
        StmtView::Call { dest, func, args } => seq![
            StmtView::Call { dest, func, args: rw_ops(ne, e, args) },
        ],
        StmtView::CallBuiltin { dest, name, args } => seq![
            StmtView::CallBuiltin { dest, name, args: rw_ops(ne, e, args) },
        ],
        StmtView::IfStmt { cond, then_body, else_body } => seq![
            StmtView::IfStmt {
                cond: rw_op(ne, e, cond),
                then_body: rw_stmts(ne, e, then_body),
                else_body: rw_stmts(ne, e, else_body),
            },
        ],
        StmtView::WhileStmt { cond, body } => seq![
            StmtView::WhileStmt { cond: rw_op(ne, e, cond), body: rw_stmts(ne, e, body) },
        ],
        StmtView::Return(Some(v)) => seq![StmtView::Return(Some(rw_op(ne, e, v)))],
        _ => seq![s],
    }
}

pub open spec fn rw_stmts(ne: Seq<u32>, e: Seq<ScalarEntry>, s: Seq<StmtView>) -> Seq<StmtView>
    decreases s,
{
    if s.len() == 0 {
        Seq::empty()
    } else {
        rw_stmts(ne, e, s.drop_last()) + rw_stmt(ne, e, s.last())
    }
}

/// Whether rewriting the statement counts as one scalar replacement.
pub open spec fn rw_counts(ne: Seq<u32>, e: Seq<ScalarEntry>, s: StmtView) -> bool {
    match s {
        StmtView::Assign(p, r) => match (p, r) {
            (
                PlaceView::Local(dest),
                RvalueView::Use(OperandView::StructInit { .. }),
            ) => ne.contains(dest.0),
            (PlaceView::Field(inner, f), _) => match *inner {
                PlaceView::Local(id) => ne.contains(id.0) && scalar_of(e, id.0, f) is Some,
                _ => false,
            },
            _ => false,
        },
        _ => false,
    }
}

pub open spec fn rw_count(ne: Seq<u32>, e: Seq<ScalarEntry>, s: Seq<StmtView>) -> nat
    decreases s.len(),
{
    if s.len() == 0 {
        0
    } else {
        rw_count(ne, e, s.drop_last()) + if rw_counts(ne, e, s.last()) {
            1nat
        } else {
            0nat
        }
    }
}

pub open spec fn rw_term(ne: Seq<u32>, e: Seq<ScalarEntry>, t: TerminatorView) -> TerminatorView {
    match t {
        TerminatorView::Return(Some(v)) => TerminatorView::Return(Some(rw_op(ne, e, v))),
        TerminatorView::If { cond, then_block, else_block, hint } => TerminatorView::If {
            cond: rw_op(ne, e, cond),
            then_block,
            else_block,
            hint,
        },
        TerminatorView::Switch { scrutinee, arms, default } => TerminatorView::Switch {
            scrutinee: rw_op(ne, e, scrutinee),
            arms,
            default,
        },
        _ => t,
    }
}

pub open spec fn rw_block(ne: Seq<u32>, e: Seq<ScalarEntry>, b: BlockView) -> BlockView {
    BlockView {
        id: b.id,
        stmts: rw_stmts(ne, e, b.stmts),
        terminator: rw_term(ne, e, b.terminator),
        source: b.source,
    }
}


pub open spec fn blocks_rw_count(ne: Seq<u32>, e: Seq<ScalarEntry>, bs: Seq<BlockView>) -> nat
    decreases bs.len(),
{
    if bs.len() == 0 {
        0
    } else {
        blocks_rw_count(ne, e, bs.drop_last()) + rw_count(ne, e, bs.last().stmts)
    }
}

// ---------------------------------------------------------------------------
// The pass as a whole
// ---------------------------------------------------------------------------
/// The candidates of `f` that are scalar-replaced.
pub open spec fn sroa_candidates(f: MirFunction) -> Seq<Candidate> {
    let bv = blocks_view(f.blocks@);
    non_escaping(candidates_of(top_stmts(bv)), bv)
}

/// The first scalar id: one above every local and parameter id.
pub open spec fn sroa_start(f: MirFunction) -> nat {
    max_local_id(f.locals@ + f.params@) + 1
}

pub open spec fn sroa_entries(f: MirFunction) -> Seq<ScalarEntry> {
    scalar_entries(sroa_candidates(f), sroa_start(f))
}

/// The number of top-level statements scalar replacement rewrites.
pub open spec fn sroa_count(f: MirFunction) -> nat {
    blocks_rw_count(cand_ids(sroa_candidates(f)), sroa_entries(f), blocks_view(f.blocks@))
}

/// The name of the first local with id `x` in `locals`, if that local has one.
pub open spec fn first_local_name(locals: Seq<MirLocal>, x: u32) -> Option<Seq<char>>
    decreases locals.len(),
{
    if locals.len() == 0 {
        None
    } else if locals[0].id.0 == x {
        match locals[0].name {
            Some(n) => Some(n@),
            None => None,
        }
    } else {
        first_local_name(locals.drop_first(), x)
    }
}

/// The name given to the scalar for field `f` of candidate `x`: the
/// candidate's name, or `_s<x>`, then `_` and the field name.
pub open spec fn scalar_name(locals: Seq<MirLocal>, x: u32, f: Seq<char>) -> Seq<char> {
    let base = match first_local_name(locals, x) {
        Some(n) => n,
        None => "_s"@ + decimal(x as nat),
    };
    base + "_"@ + f
}

/// `new` is `old` followed by one scalar local per entry of
/// `scalar_entries(ne, start)`: the entry's id, its name, type `Any`.
pub open spec fn sroa_locals(
    old: Seq<MirLocal>,
    ne: Seq<Candidate>,
    start: nat,
    new: Seq<MirLocal>,
) -> bool
    decreases ne.len(),
{
    if ne.len() == 0 {
        new == old
    } else {
        let prev_len: int = (old.len() + scalar_entries(ne.drop_last(), start).len()) as int;
        let c = ne.last();
        &&& new.len() == prev_len + c.1.len()
        &&& sroa_locals(old, ne.drop_last(), start, new.take(prev_len))
        &&& forall|j: int|
            0 <= j < c.1.len() ==> (#[trigger] new[prev_len + j])@ == (LocalView {
                id: crate::mir::LocalId((start + (prev_len - old.len()) + j) as u32),
                name: Some(scalar_name(new.take(prev_len), c.0, c.1[j])),
                ty: TypeView::Any,
            })
    }
}
} // verus!
