//! MIR pass: escape analysis and scalar replacement of aggregates (SROA).
//!
//! Struct values built at the top level of a block and only ever read or
//! written field by field are split into one scalar local per field.
use vstd::prelude::*;

use crate::mir::{
    blocks_view, clone_opt_place, clone_place, clone_stmt, fields_view, lemma_fields_view_take,
    lemma_operands_view, lemma_operands_view_take, lemma_stmts_view, lemma_stmts_view_add,
    lemma_stmts_view_take, operand_view, operands_view, place_view, stmt_view, stmts_view,
    BasicBlock, BlockView, LocalId, MirFunction, MirLocal, MirStmt, Operand, OperandView, Place,
    PlaceView, Rvalue, RvalueView, StmtView, Terminator, TerminatorView,
};
use crate::opt::escape_spec::{
    add_candidate, blocks_escape, cand_ids, cand_index, candidates_of, expand_fields,
    fields_escape, non_escaping, op_escapes, ops_escape, place_escapes, res_escapes, rvalue_escapes,
    rw_block, rw_count, rw_counts, rw_fields, rw_op, rw_ops, rw_res, rw_rvalue, rw_stmt, rw_stmts,
    rw_term, scalar_entries, scalar_of, stmt_escapes, stmts_escape, struct_def, target_escapes,
    term_escapes, top_stmts, Candidate, ScalarEntry, first_local_name, scalar_name, sroa_locals, sroa_candidates, sroa_count, sroa_entries, sroa_start, blocks_rw_count,
};
use crate::opt::summary::{zero_summary, OptimizationSummary};
use crate::types::Type;
use crate::opt::desugar::{max_local_id, same_header};
use crate::strutil::decimal;

verus! {

// ---------------------------------------------------------------------------
// Phase 1: candidates
// ---------------------------------------------------------------------------
pub open spec fn strings_view(s: Seq<String>) -> Seq<Seq<char>> {
    s.map_values(|x: String| x@)
}

pub open spec fn cands_view(v: Seq<(u32, Vec<String>)>) -> Seq<Candidate> {
    v.map_values(|c: (u32, Vec<String>)| (c.0, strings_view(c.1@)))
}

/// The field names of `x = StructInit { .. }`, if `stmt` is one.
fn def_of(stmt: &MirStmt) -> (r: Option<(u32, Vec<String>)>)
    ensures
        match r {
            Some(c) => struct_def(stmt@) == Some((c.0, strings_view(c.1@))),
            None => struct_def(stmt@) is None,
        },
{
    match stmt {
        MirStmt::Assign(Place::Local(dest), Rvalue::Use(Operand::StructInit { fields, .. })) => {
            let mut names: Vec<String> = Vec::new();
            let mut i: usize = 0;
            while i < fields.len()
                invariant
                    i <= fields.len(),
                    strings_view(names@) == fields_view(fields@).take(i as int).map_values(
                        |f: (Seq<char>, OperandView)| f.0,
                    ),
                decreases fields.len() - i,
            {
                proof {
                    crate::mir::lemma_fields_view(fields@);
                }
                let name = fields[i].0.clone();
                let ghost before = names@;
                names.push(name);
                proof {
                    assert(fields_view(fields@)[i as int] == (fields@[i as int].0@, operand_view(fields@[i as int].1)));
                    assert(strings_view(names@) =~= strings_view(before).push(name@));
                    assert(strings_view(names@) =~= fields_view(fields@).take(i + 1).map_values(
                        |f: (Seq<char>, OperandView)| f.0,
                    ));
                }
                i = i + 1;
            }
            proof {
                crate::mir::lemma_fields_view(fields@);
                assert(fields_view(fields@).take(fields.len() as int) =~= fields_view(fields@));
                reveal_with_fuel(stmt_view, 3);
            }
            Some((dest.0, names))
        },
        _ => {
            proof {
                reveal_with_fuel(stmt_view, 3);
            }
            None
        },
    }
}

fn cand_position(cs: &Vec<(u32, Vec<String>)>, x: u32) -> (r: Option<usize>)
    ensures
        match r {
            Some(k) => k < cs@.len() && cand_index(cands_view(cs@), x) == k,
            None => cand_index(cands_view(cs@), x) == -1,
        },
{
    let ghost v = cands_view(cs@);
    let mut i: usize = 0;
    while i < cs.len()
        invariant
            i <= cs.len(),
            v == cands_view(cs@),
            cand_index(v.take(i as int), x) == -1,
        decreases cs.len() - i,
    {
        proof {
            assert(v.take(i + 1).drop_last() =~= v.take(i as int));
        }
        if cs[i].0 == x {
            proof {
                lemma_cand_index_prefix(v, i + 1);
            }
            return Some(i);
        }
        i = i + 1;
    }
    proof {
        assert(v.take(cs.len() as int) =~= v);
    }
    None
}

/// The index of a candidate is the same in any prefix holding it.
proof fn lemma_cand_index_prefix(v: Seq<Candidate>, n: int)
    requires
        0 <= n <= v.len(),
    ensures
        forall|x: u32| cand_index(#[trigger] v.take(n), x) >= 0 ==> cand_index(v, x) == cand_index(v.take(n), x),
    decreases v.len() - n,
{
    if n < v.len() {
        lemma_cand_index_prefix(v, n + 1);
        assert forall|x: u32| cand_index(#[trigger] v.take(n), x) >= 0 implies cand_index(v, x)
            == cand_index(v.take(n), x) by {
            assert(v.take(n + 1).drop_last() =~= v.take(n));
            assert(cand_index(v.take(n + 1), x) == cand_index(v.take(n), x));
        }
    } else {
        assert(v.take(n) =~= v);
    }
}

proof fn lemma_cand_index_bounds(v: Seq<Candidate>, x: u32)
    ensures
        -1 <= cand_index(v, x) < v.len(),
        cand_index(v, x) >= 0 ==> v[cand_index(v, x)].0 == x,
        cand_index(v, x) == -1 ==> forall|k: int| 0 <= k < v.len() ==> v[k].0 != x,
    decreases v.len(),
{
    if v.len() > 0 {
        lemma_cand_index_bounds(v.drop_last(), x);
        if cand_index(v, x) == -1 {
            assert forall|k: int| 0 <= k < v.len() implies v[k].0 != x by {
                if k < v.len() - 1 {
                    assert(v.drop_last()[k] == v[k]);
                }
            }
        }
    }
}

/// Candidate ids are distinct.
pub open spec fn distinct_ids(v: Seq<Candidate>) -> bool {
    forall|i: int, j: int| 0 <= i < j < v.len() ==> v[i].0 != v[j].0
}

proof fn lemma_add_candidate(cs: Seq<Candidate>, c: Candidate)
    requires
        distinct_ids(cs),
    ensures
        distinct_ids(add_candidate(cs, c)),
{
    lemma_cand_index_bounds(cs, c.0);
}

fn find_candidates(blocks: &Vec<BasicBlock>) -> (r: Vec<(u32, Vec<String>)>)
    ensures
        cands_view(r@) == candidates_of(top_stmts(blocks_view(blocks@))),
        distinct_ids(cands_view(r@)),
{
    let ghost bv = blocks_view(blocks@);
    let mut cs: Vec<(u32, Vec<String>)> = Vec::new();
    let mut i: usize = 0;
    proof {
        assert(bv.take(0) =~= Seq::<BlockView>::empty());
        assert(cands_view(cs@) =~= Seq::<Candidate>::empty());
    }
    while i < blocks.len()
        invariant
            i <= blocks.len(),
            bv == blocks_view(blocks@),
            cands_view(cs@) == candidates_of(top_stmts(bv.take(i as int))),
            distinct_ids(cands_view(cs@)),
        decreases blocks.len() - i,
    {
        let stmts = &blocks[i].stmts;
        let ghost pre = top_stmts(bv.take(i as int));
        let ghost sv = stmts_view(stmts@);
        proof {
            lemma_stmts_view(stmts@);
            assert(pre + sv.take(0) =~= pre);
        }
        let mut j: usize = 0;
        while j < stmts.len()
            invariant
                j <= stmts.len(),
                sv == stmts_view(stmts@),
                sv.len() == stmts.len(),
                cands_view(cs@) == candidates_of(pre + sv.take(j as int)),
                distinct_ids(cands_view(cs@)),
            decreases stmts.len() - j,
        {
            proof {
                lemma_stmts_view(stmts@);
                assert((pre + sv.take(j + 1)).drop_last() =~= pre + sv.take(j as int));
                assert((pre + sv.take(j + 1)).last() == stmt_view(stmts@[j as int]));
            }
            match def_of(&stmts[j]) {
                Some(c) => {
                    let ghost old_v = cands_view(cs@);
                    proof {
                        lemma_add_candidate(old_v, (c.0, strings_view(c.1@)));
                    }
                    match cand_position(&cs, c.0) {
                        Some(k) => {
                            cs.set(k, c);
                            proof {
                                assert(cands_view(cs@) =~= old_v.update(k as int, (c.0, strings_view(c.1@))));
                            }
                        },
                        None => {
                            cs.push(c);
                            proof {
                                assert(cands_view(cs@) =~= old_v.push((c.0, strings_view(c.1@))));
                            }
                        },
                    }
                },
                None => {},
            }
            j = j + 1;
        }
        proof {
            assert(sv.take(stmts.len() as int) =~= sv);
            assert(bv.take(i + 1).drop_last() =~= bv.take(i as int));
            assert(bv.take(i + 1).last() == bv[i as int]);
        }
        i = i + 1;
    }
    proof {
        assert(bv.take(blocks.len() as int) =~= bv);
    }
    cs
}


// ---------------------------------------------------------------------------
// Phase 2: escapes
// ---------------------------------------------------------------------------
pub open spec fn ids_distinct(ids: Seq<u32>) -> bool {
    forall|i: int, j: int| 0 <= i < j < ids.len() ==> ids[i] != ids[j]
}

/// `after` is `before` with the flag of every candidate satisfying `p` set.
pub open spec fn marks(ids: Seq<u32>, before: Seq<bool>, after: Seq<bool>, p: spec_fn(u32) -> bool) -> bool {
    &&& after.len() == before.len()
    &&& forall|k: int| 0 <= k < before.len() ==> #[trigger] after[k] == (before[k] || p(ids[k]))
}

pub(crate) proof fn lemma_marks_seq(
    ids: Seq<u32>,
    f0: Seq<bool>,
    f1: Seq<bool>,
    f2: Seq<bool>,
    p: spec_fn(u32) -> bool,
    q: spec_fn(u32) -> bool,
    r: spec_fn(u32) -> bool,
)
    requires
        marks(ids, f0, f1, p),
        marks(ids, f1, f2, q),
        forall|x: u32| #[trigger] r(x) == (p(x) || q(x)),
    ensures
        marks(ids, f0, f2, r),
{
    assert forall|k: int| 0 <= k < f0.len() implies #[trigger] f2[k] == (f0[k] || r(ids[k])) by {
        assert(f1[k] == (f0[k] || p(ids[k])));
        assert(r(ids[k]) == (p(ids[k]) || q(ids[k])));
    }
}

pub(crate) proof fn lemma_marks_none(ids: Seq<u32>, f: Seq<bool>, p: spec_fn(u32) -> bool)
    requires
        forall|x: u32| !#[trigger] p(x),
    ensures
        marks(ids, f, f, p),
{
}

/// Set the flag of candidate `id`, if it is one.
pub(crate) fn mark_id(id: u32, ids: &Vec<u32>, flags: &mut Vec<bool>)
    requires
        ids_distinct(ids@),
        old(flags)@.len() == ids@.len(),
    ensures
        marks(ids@, old(flags)@, final(flags)@, |x: u32| x == id),
{
    let mut k: usize = 0;
    while k < ids.len()
        invariant
            k <= ids.len(),
            flags@ == old(flags)@,
            flags@.len() == ids@.len(),
            ids_distinct(ids@),
            forall|j: int| 0 <= j < k ==> ids@[j] != id,
        decreases ids.len() - k,
    {
        if ids[k] == id {
            flags.set(k, true);
            proof {
                assert forall|j: int| 0 <= j < ids@.len() && j != k implies ids@[j] != id by {
                    if j > k {
                        assert(ids@[k as int] != ids@[j]);
                    }
                }
            }
            return;
        }
        k = k + 1;
    }
}

fn mark_place(p: &Place, ids: &Vec<u32>, flags: &mut Vec<bool>)
    requires
        ids_distinct(ids@),
        old(flags)@.len() == ids@.len(),
    ensures
        marks(ids@, old(flags)@, final(flags)@, |x: u32| place_escapes(x, p@)),
    decreases p,
{
    match p {
        Place::Local(id) => mark_id(id.0, ids, flags),
        Place::Field(inner, _) => mark_place(inner, ids, flags),
        Place::Index(inner, idx) => {
            let ghost f0 = flags@;
            mark_place(inner, ids, flags);
            let ghost f1 = flags@;
            mark_op(idx, ids, flags);
            proof {
                lemma_marks_seq(
                    ids@,
                    f0,
                    f1,
                    flags@,
                    |x: u32| place_escapes(x, place_view(**inner)),
                    |x: u32| op_escapes(x, operand_view(**idx)),
                    |x: u32| place_escapes(x, p@),
                );
            }
        },
    }
}

fn mark_op(o: &Operand, ids: &Vec<u32>, flags: &mut Vec<bool>)
    requires
        ids_distinct(ids@),
        old(flags)@.len() == ids@.len(),
    ensures
        marks(ids@, old(flags)@, final(flags)@, |x: u32| op_escapes(x, o@)),
    decreases o,
{
    let ghost f0 = flags@;
    match o {
        Operand::Place(p) => {
            proof {
                reveal_with_fuel(place_escapes, 2);
            }
            mark_place(p, ids, flags);
        },
        Operand::FieldAccess { object, .. } => {
            if let Operand::Place(Place::Local(_)) = &**object {
                proof {
                    reveal_with_fuel(operand_view, 3);
                    lemma_marks_none(ids@, f0, |x: u32| op_escapes(x, o@));
                }
            } else {
                mark_op(object, ids, flags);
            }
        },
        Operand::BinOp(_, a, b) | Operand::IndexAccess { object: a, index: b } => {
            mark_op(a, ids, flags);
            let ghost f1 = flags@;
            mark_op(b, ids, flags);
            proof {
                lemma_marks_seq(
                    ids@,
                    f0,
                    f1,
                    flags@,
                    |x: u32| op_escapes(x, operand_view(**a)),
                    |x: u32| op_escapes(x, operand_view(**b)),
                    |x: u32| op_escapes(x, o@),
                );
            }
        },
        Operand::UnaryOp(_, a) | Operand::EnumTag(a) | Operand::EnumPayload { object: a, .. }
        | Operand::TryExpr { expr: a, .. } => {
            mark_op(a, ids, flags);
        },
        Operand::Call(_, args) | Operand::ArrayInit { elements: args } | Operand::EnumInit {
            payload: args,
            ..
        } => {
            mark_ops(args, ids, flags);
        },
        Operand::CallIndirect { callee, args } => {
            mark_op(callee, ids, flags);
            let ghost f1 = flags@;
            mark_ops(args, ids, flags);
            proof {
                lemma_marks_seq(
                    ids@,
                    f0,
                    f1,
                    flags@,
                    |x: u32| op_escapes(x, operand_view(**callee)),
                    |x: u32| ops_escape(x, operands_view(args@)),
                    |x: u32| op_escapes(x, o@),
                );
            }
        },
        Operand::StructInit { fields, .. } => {
            mark_fields(fields, ids, flags);
        },
        Operand::IfExpr { .. } | Operand::LoopExpr { .. } => {
            mark_control(o, ids, flags);
        },
        _ => {
            proof {
                lemma_marks_none(ids@, f0, |x: u32| op_escapes(x, o@));
            }
        },
    }
}

fn mark_control(o: &Operand, ids: &Vec<u32>, flags: &mut Vec<bool>)
    requires
        ids_distinct(ids@),
        old(flags)@.len() == ids@.len(),
        o is IfExpr || o is LoopExpr,
    ensures
        marks(ids@, old(flags)@, final(flags)@, |x: u32| op_escapes(x, o@)),
    decreases o, 0nat,
{
    let ghost f0 = flags@;
    match o {
        Operand::IfExpr { cond, then_body, then_result, else_body, else_result } => {
            mark_op(cond, ids, flags);
            let ghost f1 = flags@;
            mark_stmts(then_body, ids, flags);
            let ghost f2 = flags@;
            mark_res(then_result, ids, flags);
            let ghost f3 = flags@;
            mark_stmts(else_body, ids, flags);
            let ghost f4 = flags@;
            mark_res(else_result, ids, flags);
            proof {
                let c = |x: u32| op_escapes(x, operand_view(**cond));
                let t = |x: u32| stmts_escape(x, stmts_view(then_body@));
                let tr = |x: u32| res_escapes(x, crate::mir::opt_box_operand_view(*then_result));
                let e = |x: u32| stmts_escape(x, stmts_view(else_body@));
                let er = |x: u32| res_escapes(x, crate::mir::opt_box_operand_view(*else_result));
                let p1 = |x: u32| c(x) || t(x);
                let p2 = |x: u32| p1(x) || tr(x);
                let p3 = |x: u32| p2(x) || e(x);
                lemma_marks_seq(ids@, f0, f1, f2, c, t, p1);
                lemma_marks_seq(ids@, f0, f2, f3, p1, tr, p2);
                lemma_marks_seq(ids@, f0, f3, f4, p2, e, p3);
                lemma_marks_seq(ids@, f0, f4, flags@, p3, er, |x: u32| op_escapes(x, o@));
            }
        },
        Operand::LoopExpr { init, body, result } => {
            mark_op(init, ids, flags);
            let ghost f1 = flags@;
            mark_stmts(body, ids, flags);
            let ghost f2 = flags@;
            mark_op(result, ids, flags);
            proof {
                let a = |x: u32| op_escapes(x, operand_view(**init));
                let b = |x: u32| stmts_escape(x, stmts_view(body@));
                let c = |x: u32| op_escapes(x, operand_view(**result));
                let p1 = |x: u32| a(x) || b(x);
                lemma_marks_seq(ids@, f0, f1, f2, a, b, p1);
                lemma_marks_seq(ids@, f0, f2, flags@, p1, c, |x: u32| op_escapes(x, o@));
            }
        },
        _ => {
            proof {
                assert(false);
            }
        },
    }
}

fn mark_res(r: &Option<Box<Operand>>, ids: &Vec<u32>, flags: &mut Vec<bool>)
    requires
        ids_distinct(ids@),
        old(flags)@.len() == ids@.len(),
    ensures
        marks(
            ids@,
            old(flags)@,
            final(flags)@,
            |x: u32| res_escapes(x, crate::mir::opt_box_operand_view(*r)),
        ),
    decreases r,
{
    match r {
        Some(b) => mark_op(b, ids, flags),
        None => {
            proof {
                lemma_marks_none(
                    ids@,
                    flags@,
                    |x: u32| res_escapes(x, crate::mir::opt_box_operand_view(*r)),
                );
            }
        },
    }
}

fn mark_ops(v: &Vec<Operand>, ids: &Vec<u32>, flags: &mut Vec<bool>)
    requires
        ids_distinct(ids@),
        old(flags)@.len() == ids@.len(),
    ensures
        marks(ids@, old(flags)@, final(flags)@, |x: u32| ops_escape(x, operands_view(v@))),
    decreases v,
{
    let ghost f0 = flags@;
    let mut i: usize = 0;
    proof {
        assert(v@.take(0) =~= Seq::<Operand>::empty());
    }
    #[verifier::loop_isolation(false)]
    while i < v.len()
        invariant
            i <= v.len(),
            flags@.len() == ids@.len(),
            marks(ids@, f0, flags@, |x: u32| ops_escape(x, operands_view(v@.take(i as int)))),
        decreases v.len() - i,
    {
        proof {
            broadcast use vstd::std_specs::vec::axiom_vec_index_decreases;

            assert(decreases_to!(v => v[i as int]));
            lemma_operands_view_take(v@, i as int);
            let s0 = operands_view(v@.take(i as int));
            assert(s0.push(operand_view(v@[i as int])).drop_last() =~= s0);
        }
        let ghost f1 = flags@;
        mark_op(&v[i], ids, flags);
        proof {
            lemma_marks_seq(
                ids@,
                f0,
                f1,
                flags@,
                |x: u32| ops_escape(x, operands_view(v@.take(i as int))),
                |x: u32| op_escapes(x, operand_view(v@[i as int])),
                |x: u32| ops_escape(x, operands_view(v@.take(i + 1))),
            );
        }
        i = i + 1;
    }
    proof {
        assert(v@.take(v.len() as int) =~= v@);
    }
}

fn mark_fields(v: &Vec<(String, Operand)>, ids: &Vec<u32>, flags: &mut Vec<bool>)
    requires
        ids_distinct(ids@),
        old(flags)@.len() == ids@.len(),
    ensures
        marks(ids@, old(flags)@, final(flags)@, |x: u32| fields_escape(x, fields_view(v@))),
    decreases v,
{
    let ghost f0 = flags@;
    let mut i: usize = 0;
    proof {
        assert(v@.take(0) =~= Seq::<(String, Operand)>::empty());
    }
    #[verifier::loop_isolation(false)]
    while i < v.len()
        invariant
            i <= v.len(),
            flags@.len() == ids@.len(),
            marks(ids@, f0, flags@, |x: u32| fields_escape(x, fields_view(v@.take(i as int)))),
        decreases v.len() - i,
    {
        proof {
            broadcast use vstd::std_specs::vec::axiom_vec_index_decreases;

            assert(decreases_to!(v => v[i as int]));
            assert(decreases_to!(v[i as int] => v[i as int].1));
            lemma_fields_view_take(v@, i as int);
            let s0 = fields_view(v@.take(i as int));
            assert(s0.push((v@[i as int].0@, operand_view(v@[i as int].1))).drop_last() =~= s0);
        }
        let ghost f1 = flags@;
        mark_op(&v[i].1, ids, flags);
        proof {
            lemma_marks_seq(
                ids@,
                f0,
                f1,
                flags@,
                |x: u32| fields_escape(x, fields_view(v@.take(i as int))),
                |x: u32| op_escapes(x, operand_view(v@[i as int].1)),
                |x: u32| fields_escape(x, fields_view(v@.take(i + 1))),
            );
        }
        i = i + 1;
    }
    proof {
        assert(v@.take(v.len() as int) =~= v@);
    }
}

fn mark_rvalue(r: &Rvalue, ids: &Vec<u32>, flags: &mut Vec<bool>)
    requires
        ids_distinct(ids@),
        old(flags)@.len() == ids@.len(),
    ensures
        marks(ids@, old(flags)@, final(flags)@, |x: u32| rvalue_escapes(x, r@)),
    decreases r,
{
    let ghost f0 = flags@;
    match r {
        Rvalue::Use(o) | Rvalue::UnaryOp(_, o) => mark_op(o, ids, flags),
        Rvalue::BinaryOp(_, a, b) => {
            mark_op(a, ids, flags);
            let ghost f1 = flags@;
            mark_op(b, ids, flags);
            proof {
                lemma_marks_seq(
                    ids@,
                    f0,
                    f1,
                    flags@,
                    |x: u32| op_escapes(x, a@),
                    |x: u32| op_escapes(x, b@),
                    |x: u32| rvalue_escapes(x, r@),
                );
            }
        },
        Rvalue::Aggregate(_, v) => mark_ops(v, ids, flags),
        Rvalue::Ref(p) => mark_place(p, ids, flags),
    }
}

fn mark_target(p: &Place, ids: &Vec<u32>, flags: &mut Vec<bool>)
    requires
        ids_distinct(ids@),
        old(flags)@.len() == ids@.len(),
    ensures
        marks(ids@, old(flags)@, final(flags)@, |x: u32| target_escapes(x, p@)),
    decreases p,
{
    let ghost f0 = flags@;
    proof {
        reveal_with_fuel(place_view, 2);
    }
    match p {
        Place::Local(_) => {
            proof {
                lemma_marks_none(ids@, f0, |x: u32| target_escapes(x, p@));
            }
        },
        Place::Field(inner, _) => {
            if let Place::Local(_) = &**inner {
                proof {
                    lemma_marks_none(ids@, f0, |x: u32| target_escapes(x, p@));
                }
            } else {
                mark_place(inner, ids, flags);
            }
        },
        Place::Index(inner, idx) => {
            mark_place(inner, ids, flags);
            let ghost f1 = flags@;
            mark_op(idx, ids, flags);
            proof {
                lemma_marks_seq(
                    ids@,
                    f0,
                    f1,
                    flags@,
                    |x: u32| place_escapes(x, place_view(**inner)),
                    |x: u32| op_escapes(x, operand_view(**idx)),
                    |x: u32| target_escapes(x, p@),
                );
            }
        },
    }
}

fn mark_stmt(s: &MirStmt, ids: &Vec<u32>, flags: &mut Vec<bool>)
    requires
        ids_distinct(ids@),
        old(flags)@.len() == ids@.len(),
    ensures
        marks(ids@, old(flags)@, final(flags)@, |x: u32| stmt_escapes(x, s@)),
    decreases s,
{
    let ghost f0 = flags@;
    match s {
        MirStmt::Assign(p, r) => {
            mark_target(p, ids, flags);
            let ghost f1 = flags@;
            mark_rvalue(r, ids, flags);
            proof {
                lemma_marks_seq(
                    ids@,
                    f0,
                    f1,
                    flags@,
                    |x: u32| target_escapes(x, p@),
                    |x: u32| rvalue_escapes(x, r@),
                    |x: u32| stmt_escapes(x, s@),
                );
            }
        },
        MirStmt::Call { args, .. } | MirStmt::CallBuiltin { args, .. } => mark_ops(args, ids, flags),
        MirStmt::Return(Some(v)) => mark_op(v, ids, flags),
        MirStmt::IfStmt { cond, then_body, else_body } => {
            mark_op(cond, ids, flags);
            let ghost f1 = flags@;
            mark_stmts(then_body, ids, flags);
            let ghost f2 = flags@;
            mark_stmts(else_body, ids, flags);
            proof {
                let a = |x: u32| op_escapes(x, cond@);
                let b = |x: u32| stmts_escape(x, stmts_view(then_body@));
                let c = |x: u32| stmts_escape(x, stmts_view(else_body@));
                let p1 = |x: u32| a(x) || b(x);
                lemma_marks_seq(ids@, f0, f1, f2, a, b, p1);
                lemma_marks_seq(ids@, f0, f2, flags@, p1, c, |x: u32| stmt_escapes(x, s@));
            }
        },
        MirStmt::WhileStmt { cond, body } => {
            mark_op(cond, ids, flags);
            let ghost f1 = flags@;
            mark_stmts(body, ids, flags);
            proof {
                lemma_marks_seq(
                    ids@,
                    f0,
                    f1,
                    flags@,
                    |x: u32| op_escapes(x, cond@),
                    |x: u32| stmts_escape(x, stmts_view(body@)),
                    |x: u32| stmt_escapes(x, s@),
                );
            }
        },
        _ => {
            proof {
                lemma_marks_none(ids@, f0, |x: u32| stmt_escapes(x, s@));
            }
        },
    }
}

fn mark_stmts(v: &Vec<MirStmt>, ids: &Vec<u32>, flags: &mut Vec<bool>)
    requires
        ids_distinct(ids@),
        old(flags)@.len() == ids@.len(),
    ensures
        marks(ids@, old(flags)@, final(flags)@, |x: u32| stmts_escape(x, stmts_view(v@))),
    decreases v,
{
    let ghost f0 = flags@;
    let mut i: usize = 0;
    proof {
        assert(v@.take(0) =~= Seq::<MirStmt>::empty());
    }
    #[verifier::loop_isolation(false)]
    while i < v.len()
        invariant
            i <= v.len(),
            flags@.len() == ids@.len(),
            marks(ids@, f0, flags@, |x: u32| stmts_escape(x, stmts_view(v@.take(i as int)))),
        decreases v.len() - i,
    {
        proof {
            broadcast use vstd::std_specs::vec::axiom_vec_index_decreases;

            assert(decreases_to!(v => v[i as int]));
            lemma_stmts_view_take(v@, i as int);
            let s0 = stmts_view(v@.take(i as int));
            assert(s0.push(stmt_view(v@[i as int])).drop_last() =~= s0);
        }
        let ghost f1 = flags@;
        mark_stmt(&v[i], ids, flags);
        proof {
            lemma_marks_seq(
                ids@,
                f0,
                f1,
                flags@,
                |x: u32| stmts_escape(x, stmts_view(v@.take(i as int))),
                |x: u32| stmt_escapes(x, stmt_view(v@[i as int])),
                |x: u32| stmts_escape(x, stmts_view(v@.take(i + 1))),
            );
        }
        i = i + 1;
    }
    proof {
        assert(v@.take(v.len() as int) =~= v@);
    }
}

fn mark_term(t: &Terminator, ids: &Vec<u32>, flags: &mut Vec<bool>)
    requires
        ids_distinct(ids@),
        old(flags)@.len() == ids@.len(),
    ensures
        marks(ids@, old(flags)@, final(flags)@, |x: u32| term_escapes(x, t@)),
{
    match t {
        Terminator::Return(Some(v)) => mark_op(v, ids, flags),
        Terminator::If { cond, .. } => mark_op(cond, ids, flags),
        Terminator::Switch { scrutinee, .. } => mark_op(scrutinee, ids, flags),
        _ => {
            proof {
                lemma_marks_none(ids@, flags@, |x: u32| term_escapes(x, t@));
            }
        },
    }
}

// ---------------------------------------------------------------------------
// Phase 4: rewriting
// ---------------------------------------------------------------------------
pub open spec fn entries_view(e: Seq<(u32, String, LocalId)>) -> Seq<ScalarEntry> {
    e.map_values(|t: (u32, String, LocalId)| (t.0, t.1@, t.2.0))
}

pub(crate) fn in_ids(ids: &Vec<u32>, id: u32) -> (r: bool)
    ensures
        r == ids@.contains(id),
{
    let mut k: usize = 0;
    while k < ids.len()
        invariant
            k <= ids.len(),
            forall|j: int| 0 <= j < k ==> ids@[j] != id,
        decreases ids.len() - k,
    {
        if ids[k] == id {
            assert(ids@[k as int] == id);
            return true;
        }
        k = k + 1;
    }
    false
}

/// The scalar local for field `f` of candidate `x`, if any.
fn scalar_lookup(e: &Vec<(u32, String, LocalId)>, x: u32, f: &str) -> (r: Option<LocalId>)
    ensures
        match r {
            Some(l) => scalar_of(entries_view(e@), x, f@) == Some(l.0),
            None => scalar_of(entries_view(e@), x, f@) is None,
        },
{
    let ghost ev = entries_view(e@);
    let mut k: usize = e.len();
    assert(ev.take(k as int) =~= ev);
    while k > 0
        invariant
            k <= e.len(),
            ev == entries_view(e@),
            scalar_of(ev, x, f@) == scalar_of(ev.take(k as int), x, f@),
        decreases k,
    {
        proof {
            assert(ev.take(k as int).drop_last() =~= ev.take(k - 1));
            assert(ev.take(k as int).last() == ev[k - 1]);
        }
        if e[k - 1].0 == x && crate::strutil::str_eq(e[k - 1].1.as_str(), f) {
            return Some(e[k - 1].2);
        }
        k = k - 1;
    }
    None
}

fn rw_op_exec(
    o: &Operand,
    ne: &Vec<u32>,
    e: &Vec<(u32, String, LocalId)>,
) -> (r: Operand)
    ensures
        r@ == rw_op(ne@, entries_view(e@), o@),
    decreases o,
{
    match o {
        Operand::FieldAccess { object, struct_name, field } => {
            proof {
                reveal_with_fuel(operand_view, 3);
            }
            if let Operand::Place(Place::Local(id)) = &**object {
                if in_ids(ne, id.0) {
                    if let Some(sid) = scalar_lookup(e, id.0, field.as_str()) {
                        return Operand::Place(Place::Local(sid));
                    }
                }
            }
            Operand::FieldAccess {
                object: Box::new(rw_op_exec(object, ne, e)),
                struct_name: struct_name.clone(),
                field: field.clone(),
            }
        },
        Operand::BinOp(op, a, b) => Operand::BinOp(
            *op,
            Box::new(rw_op_exec(a, ne, e)),
            Box::new(rw_op_exec(b, ne, e)),
        ),
        Operand::UnaryOp(op, a) => Operand::UnaryOp(*op, Box::new(rw_op_exec(a, ne, e))),
        Operand::Call(n, args) => Operand::Call(n.clone(), rw_ops_exec(args, ne, e)),
        Operand::CallIndirect { callee, args } => Operand::CallIndirect {
            callee: Box::new(rw_op_exec(callee, ne, e)),
            args: rw_ops_exec(args, ne, e),
        },
        Operand::StructInit { name, fields } => Operand::StructInit {
            name: name.clone(),
            fields: rw_fields_exec(fields, ne, e),
        },
        Operand::EnumInit { enum_name, variant, tag, payload } => Operand::EnumInit {
            enum_name: enum_name.clone(),
            variant: variant.clone(),
            tag: *tag,
            payload: rw_ops_exec(payload, ne, e),
        },
        Operand::EnumTag(a) => Operand::EnumTag(Box::new(rw_op_exec(a, ne, e))),
        Operand::EnumPayload { object, index, enum_name, variant_name } => Operand::EnumPayload {
            object: Box::new(rw_op_exec(object, ne, e)),
            index: *index,
            enum_name: enum_name.clone(),
            variant_name: variant_name.clone(),
        },
        Operand::ArrayInit { elements } => Operand::ArrayInit {
            elements: rw_ops_exec(elements, ne, e),
        },
        Operand::IndexAccess { object, index } => Operand::IndexAccess {
            object: Box::new(rw_op_exec(object, ne, e)),
            index: Box::new(rw_op_exec(index, ne, e)),
        },
        Operand::IfExpr { cond, then_body, then_result, else_body, else_result } => {
            Operand::IfExpr {
                cond: Box::new(rw_op_exec(cond, ne, e)),
                then_body: rw_stmts_exec(then_body, ne, e),
                then_result: rw_res_exec(then_result, ne, e),
                else_body: rw_stmts_exec(else_body, ne, e),
                else_result: rw_res_exec(else_result, ne, e),
            }
        },
        Operand::LoopExpr { init, body, result } => Operand::LoopExpr {
            init: Box::new(rw_op_exec(init, ne, e)),
            body: rw_stmts_exec(body, ne, e),
            result: Box::new(rw_op_exec(result, ne, e)),
        },
        Operand::TryExpr { expr, from_fn } => Operand::TryExpr {
            expr: Box::new(rw_op_exec(expr, ne, e)),
            from_fn: crate::mir::clone_opt_string(from_fn),
        },
        _ => clone_operand_here(o),
    }
}

fn clone_operand_here(o: &Operand) -> (r: Operand)
    ensures
        r@ == o@,
{
    crate::mir::clone_operand(o)
}

fn rw_res_exec(
    r: &Option<Box<Operand>>,
    ne: &Vec<u32>,
    e: &Vec<(u32, String, LocalId)>,
) -> (res: Option<Box<Operand>>)
    ensures
        crate::mir::opt_box_operand_view(res) == rw_res(
            ne@,
            entries_view(e@),
            crate::mir::opt_box_operand_view(*r),
        ),
    decreases r,
{
    match r {
        Some(b) => Some(Box::new(rw_op_exec(b, ne, e))),
        None => None,
    }
}

fn rw_ops_exec(v: &Vec<Operand>, ne: &Vec<u32>, e: &Vec<(u32, String, LocalId)>) -> (r: Vec<
    Operand,
>)
    ensures
        operands_view(r@) == rw_ops(ne@, entries_view(e@), operands_view(v@)),
    decreases v,
{
    let mut out: Vec<Operand> = Vec::new();
    let mut i: usize = 0;
    proof {
        assert(v@.take(0) =~= Seq::<Operand>::empty());
        assert(operands_view(out@) =~= Seq::<OperandView>::empty());
    }
    #[verifier::loop_isolation(false)]
    while i < v.len()
        invariant
            i <= v.len(),
            operands_view(out@) == rw_ops(ne@, entries_view(e@), operands_view(v@.take(i as int))),
        decreases v.len() - i,
    {
        proof {
            broadcast use vstd::std_specs::vec::axiom_vec_index_decreases;

            assert(decreases_to!(v => v[i as int]));
            lemma_operands_view_take(v@, i as int);
            let s0 = operands_view(v@.take(i as int));
            assert(s0.push(operand_view(v@[i as int])).drop_last() =~= s0);
        }
        let x = rw_op_exec(&v[i], ne, e);
        let ghost before = out@;
        out.push(x);
        proof {
            assert(out@.drop_last() =~= before);
        }
        i = i + 1;
    }
    proof {
        assert(v@.take(v.len() as int) =~= v@);
    }
    out
}

fn rw_fields_exec(
    v: &Vec<(String, Operand)>,
    ne: &Vec<u32>,
    e: &Vec<(u32, String, LocalId)>,
) -> (r: Vec<(String, Operand)>)
    ensures
        fields_view(r@) == rw_fields(ne@, entries_view(e@), fields_view(v@)),
    decreases v,
{
    let mut out: Vec<(String, Operand)> = Vec::new();
    let mut i: usize = 0;
    proof {
        assert(v@.take(0) =~= Seq::<(String, Operand)>::empty());
        assert(fields_view(out@) =~= Seq::<(Seq<char>, OperandView)>::empty());
    }
    #[verifier::loop_isolation(false)]
    while i < v.len()
        invariant
            i <= v.len(),
            fields_view(out@) == rw_fields(ne@, entries_view(e@), fields_view(v@.take(i as int))),
        decreases v.len() - i,
    {
        proof {
            broadcast use vstd::std_specs::vec::axiom_vec_index_decreases;

            assert(decreases_to!(v => v[i as int]));
            assert(decreases_to!(v[i as int] => v[i as int].1));
            lemma_fields_view_take(v@, i as int);
            let s0 = fields_view(v@.take(i as int));
            assert(s0.push((v@[i as int].0@, operand_view(v@[i as int].1))).drop_last() =~= s0);
        }
        let x = rw_op_exec(&v[i].1, ne, e);
        let n = v[i].0.clone();
        let ghost before = out@;
        out.push((n, x));
        proof {
            assert(out@.drop_last() =~= before);
        }
        i = i + 1;
    }
    proof {
        assert(v@.take(v.len() as int) =~= v@);
    }
    out
}

fn rw_rvalue_exec(r: &Rvalue, ne: &Vec<u32>, e: &Vec<(u32, String, LocalId)>) -> (res: Rvalue)
    ensures
        res@ == rw_rvalue(ne@, entries_view(e@), r@),
    decreases r,
{
    match r {
        Rvalue::Use(o) => Rvalue::Use(rw_op_exec(o, ne, e)),
        Rvalue::BinaryOp(op, a, b) => Rvalue::BinaryOp(*op, rw_op_exec(a, ne, e), rw_op_exec(b, ne, e)),
        Rvalue::UnaryOp(op, a) => Rvalue::UnaryOp(*op, rw_op_exec(a, ne, e)),
        Rvalue::Aggregate(k, v) => Rvalue::Aggregate(
            crate::mir::clone_aggregate_kind(k),
            rw_ops_exec(v, ne, e),
        ),
        Rvalue::Ref(p) => Rvalue::Ref(clone_place(p)),
    }
}

fn push_view(out: &mut Vec<MirStmt>, s: MirStmt)
    ensures
        stmts_view(final(out)@) == stmts_view(old(out)@) + seq![s@],
{
    out.push(s);
    proof {
        assert(final(out)@.drop_last() =~= old(out)@);
        assert(stmts_view(old(out)@).push(s@) =~= stmts_view(old(out)@) + seq![s@]);
    }
}

/// Push the scalar assignments replacing `x = StructInit { fields }`.
fn expand_fields_exec(
    x: u32,
    fields: &Vec<(String, Operand)>,
    ne: &Vec<u32>,
    e: &Vec<(u32, String, LocalId)>,
    out: &mut Vec<MirStmt>,
)
    ensures
        stmts_view(final(out)@) == stmts_view(old(out)@) + expand_fields(
            ne@,
            entries_view(e@),
            x,
            fields_view(fields@),
        ),
    decreases fields, 1nat,
{
    let ghost o0 = stmts_view(out@);
    let mut i: usize = 0;
    proof {
        assert(fields@.take(0) =~= Seq::<(String, Operand)>::empty());
        assert(o0 + Seq::<StmtView>::empty() =~= o0);
    }
    #[verifier::loop_isolation(false)]
    while i < fields.len()
        invariant
            i <= fields.len(),
            stmts_view(out@) == o0 + expand_fields(
                ne@,
                entries_view(e@),
                x,
                fields_view(fields@.take(i as int)),
            ),
        decreases fields.len() - i,
    {
        proof {
            broadcast use vstd::std_specs::vec::axiom_vec_index_decreases;

            assert(decreases_to!(fields => fields[i as int]));
            assert(decreases_to!(fields[i as int] => fields[i as int].1));
            lemma_fields_view_take(fields@, i as int);
            let s0 = fields_view(fields@.take(i as int));
            assert(s0.push((fields@[i as int].0@, operand_view(fields@[i as int].1))).drop_last()
                =~= s0);
        }
        match scalar_lookup(e, x, fields[i].0.as_str()) {
            Some(sid) => {
                let v = rw_op_exec(&fields[i].1, ne, e);
                let s = MirStmt::Assign(Place::Local(sid), Rvalue::Use(v));
                proof {
                    reveal_with_fuel(stmt_view, 3);
                }
                push_view(out, s);
            },
            None => {},
        }
        i = i + 1;
    }
    proof {
        assert(fields@.take(fields.len() as int) =~= fields@);
    }
}

fn rw_stmt_exec(
    s: &MirStmt,
    ne: &Vec<u32>,
    e: &Vec<(u32, String, LocalId)>,
    out: &mut Vec<MirStmt>,
) -> (counted: bool)
    ensures
        stmts_view(final(out)@) == stmts_view(old(out)@) + rw_stmt(ne@, entries_view(e@), s@),
        counted == rw_counts(ne@, entries_view(e@), s@),
    decreases s, 2nat,
{
    proof {
        reveal_with_fuel(stmt_view, 2);
    }
    match s {
        MirStmt::Assign(place, rvalue) => rw_assign_exec(s, ne, e, out),
        MirStmt::Call { dest, func, args } => {
            let st = MirStmt::Call {
                dest: clone_opt_place(dest),
                func: *func,
                args: rw_ops_exec(args, ne, e),
            };
            push_view(out, st);
            false
        },
        MirStmt::CallBuiltin { dest, name, args } => {
            let st = MirStmt::CallBuiltin {
                dest: clone_opt_place(dest),
                name: name.clone(),
                args: rw_ops_exec(args, ne, e),
            };
            push_view(out, st);
            false
        },
        MirStmt::IfStmt { cond, then_body, else_body } => {
            let st = MirStmt::IfStmt {
                cond: rw_op_exec(cond, ne, e),
                then_body: rw_stmts_exec(then_body, ne, e),
                else_body: rw_stmts_exec(else_body, ne, e),
            };
            push_view(out, st);
            false
        },
        MirStmt::WhileStmt { cond, body } => {
            let st = MirStmt::WhileStmt {
                cond: rw_op_exec(cond, ne, e),
                body: rw_stmts_exec(body, ne, e),
            };
            push_view(out, st);
            false
        },
        MirStmt::Return(Some(v)) => {
            let st = MirStmt::Return(Some(rw_op_exec(v, ne, e)));
            push_view(out, st);
            false
        },
        _ => {
            push_view(out, clone_stmt(s));
            false
        },
    }
}

fn rw_assign_exec(
    s: &MirStmt,
    ne: &Vec<u32>,
    e: &Vec<(u32, String, LocalId)>,
    out: &mut Vec<MirStmt>,
) -> (counted: bool)
    requires
        s is Assign,
    ensures
        stmts_view(final(out)@) == stmts_view(old(out)@) + rw_stmt(ne@, entries_view(e@), s@),
        counted == rw_counts(ne@, entries_view(e@), s@),
    decreases s, 1nat,
{
    proof {
        reveal_with_fuel(stmt_view, 3);
        reveal_with_fuel(place_view, 2);
    }
    match s {
        MirStmt::Assign(place, rvalue) => {
            if let Place::Local(dest) = place {
                if let Rvalue::Use(Operand::StructInit { fields, .. }) = rvalue {
                    if in_ids(ne, dest.0) {
                        expand_fields_exec(dest.0, fields, ne, e, out);
                        return true;
                    }
                }
            }
            if let Place::Field(inner, f) = place {
                if let Place::Local(id) = &**inner {
                    if in_ids(ne, id.0) {
                        match scalar_lookup(e, id.0, f.as_str()) {
                            Some(sid) => {
                                let st = MirStmt::Assign(
                                    Place::Local(sid),
                                    rw_rvalue_exec(rvalue, ne, e),
                                );
                                push_view(out, st);
                                return true;
                            },
                            None => {
                                push_view(out, clone_stmt(s));
                                return false;
                            },
                        }
                    }
                }
            }
            let st = MirStmt::Assign(clone_place(place), rw_rvalue_exec(rvalue, ne, e));
            push_view(out, st);
            false
        },
        _ => {
            proof {
                assert(false);
            }
            false
        },
    }
}

fn rw_stmts_exec(v: &Vec<MirStmt>, ne: &Vec<u32>, e: &Vec<(u32, String, LocalId)>) -> (r: Vec<
    MirStmt,
>)
    ensures
        stmts_view(r@) == rw_stmts(ne@, entries_view(e@), stmts_view(v@)),
    decreases v,
{
    let (out, _) = rw_stmts_counted(v, ne, e);
    out
}

fn rw_stmts_counted(
    v: &Vec<MirStmt>,
    ne: &Vec<u32>,
    e: &Vec<(u32, String, LocalId)>,
) -> (r: (Vec<MirStmt>, usize))
    ensures
        stmts_view(r.0@) == rw_stmts(ne@, entries_view(e@), stmts_view(v@)),
        r.1 == rw_count(ne@, entries_view(e@), stmts_view(v@)),
    decreases v, 0nat,
{
    let mut out: Vec<MirStmt> = Vec::new();
    let mut count: usize = 0;
    let mut i: usize = 0;
    proof {
        assert(v@.take(0) =~= Seq::<MirStmt>::empty());
        assert(stmts_view(out@) =~= Seq::<StmtView>::empty());
    }
    #[verifier::loop_isolation(false)]
    while i < v.len()
        invariant
            i <= v.len(),
            stmts_view(out@) == rw_stmts(ne@, entries_view(e@), stmts_view(v@.take(i as int))),
            count == rw_count(ne@, entries_view(e@), stmts_view(v@.take(i as int))),
            count <= i,
        decreases v.len() - i,
    {
        proof {
            broadcast use vstd::std_specs::vec::axiom_vec_index_decreases;

            assert(decreases_to!(v => v[i as int]));
            lemma_stmts_view_take(v@, i as int);
            let s0 = stmts_view(v@.take(i as int));
            assert(s0.push(stmt_view(v@[i as int])).drop_last() =~= s0);
        }
        let c = rw_stmt_exec(&v[i], ne, e, &mut out);
        if c {
            count = count + 1;
        }
        i = i + 1;
    }
    proof {
        assert(v@.take(v.len() as int) =~= v@);
    }
    (out, count)
}

fn rw_term_exec(t: &Terminator, ne: &Vec<u32>, e: &Vec<(u32, String, LocalId)>) -> (r: Terminator)
    ensures
        r@ == rw_term(ne@, entries_view(e@), t@),
{
    match t {
        Terminator::Return(Some(v)) => Terminator::Return(Some(rw_op_exec(v, ne, e))),
        Terminator::If { cond, then_block, else_block, hint } => Terminator::If {
            cond: rw_op_exec(cond, ne, e),
            then_block: *then_block,
            else_block: *else_block,
            hint: *hint,
        },
        Terminator::Switch { scrutinee, arms, default } => Terminator::Switch {
            scrutinee: rw_op_exec(scrutinee, ne, e),
            arms: crate::mir::clone_arms(arms),
            default: *default,
        },
        _ => crate::mir::clone_terminator(t),
    }
}

// ---------------------------------------------------------------------------
// Phase 3: scalar locals
// ---------------------------------------------------------------------------
fn candidate_ids(cs: &Vec<(u32, Vec<String>)>) -> (r: Vec<u32>)
    ensures
        r@ == cand_ids(cands_view(cs@)),
{
    let mut r: Vec<u32> = Vec::new();
    let mut i: usize = 0;
    while i < cs.len()
        invariant
            i <= cs.len(),
            r@ == cand_ids(cands_view(cs@)).take(i as int),
        decreases cs.len() - i,
    {
        r.push(cs[i].0);
        proof {
            assert(r@ =~= cand_ids(cands_view(cs@)).take(i + 1));
        }
        i = i + 1;
    }
    proof {
        assert(cand_ids(cands_view(cs@)).take(cs.len() as int) =~= cand_ids(cands_view(cs@)));
    }
    r
}

fn mark_blocks(blocks: &Vec<BasicBlock>, ids: &Vec<u32>, flags: &mut Vec<bool>)
    requires
        ids_distinct(ids@),
        old(flags)@.len() == ids@.len(),
    ensures
        marks(ids@, old(flags)@, final(flags)@, |x: u32| blocks_escape(x, blocks_view(blocks@))),
{
    let ghost f0 = flags@;
    let ghost bv = blocks_view(blocks@);
    let mut i: usize = 0;
    proof {
        assert(bv.take(0) =~= Seq::<BlockView>::empty());
    }
    while i < blocks.len()
        invariant
            i <= blocks.len(),
            bv == blocks_view(blocks@),
            ids_distinct(ids@),
            flags@.len() == ids@.len(),
            f0.len() == ids@.len(),
            marks(ids@, f0, flags@, |x: u32| blocks_escape(x, bv.take(i as int))),
        decreases blocks.len() - i,
    {
        let ghost f1 = flags@;
        mark_stmts(&blocks[i].stmts, ids, flags);
        let ghost f2 = flags@;
        mark_term(&blocks[i].terminator, ids, flags);
        proof {
            assert(bv.take(i + 1).drop_last() =~= bv.take(i as int));
            assert(bv.take(i + 1).last() == blocks@[i as int]@);
            let p = |x: u32| blocks_escape(x, bv.take(i as int));
            let q = |x: u32| stmts_escape(x, stmts_view(blocks@[i as int].stmts@));
            let r = |x: u32| term_escapes(x, blocks@[i as int].terminator@);
            let pq = |x: u32| p(x) || q(x);
            lemma_marks_seq(ids@, f0, f1, f2, p, q, pq);
            lemma_marks_seq(ids@, f0, f2, flags@, pq, r, |x: u32| blocks_escape(x, bv.take(i + 1)));
        }
        i = i + 1;
    }
    proof {
        assert(bv.take(blocks.len() as int) =~= bv);
    }
}

fn keep_non_escaping(
    cs: &Vec<(u32, Vec<String>)>,
    flags: &Vec<bool>,
    Ghost(bv): Ghost<Seq<BlockView>>,
) -> (r: Vec<(u32, Vec<String>)>)
    requires
        flags@.len() == cs@.len(),
        forall|k: int| 0 <= k < cs@.len() ==> #[trigger] flags@[k] == blocks_escape(cs@[k].0, bv),
    ensures
        cands_view(r@) == non_escaping(cands_view(cs@), bv),
{
    let ghost cv = cands_view(cs@);
    let mut r: Vec<(u32, Vec<String>)> = Vec::new();
    let mut i: usize = 0;
    proof {
        assert(cv.take(0) =~= Seq::<Candidate>::empty());
        assert(cands_view(r@) =~= Seq::<Candidate>::empty());
    }
    while i < cs.len()
        invariant
            i <= cs.len(),
            cv == cands_view(cs@),
            flags@.len() == cs@.len(),
            forall|k: int| 0 <= k < cs@.len() ==> #[trigger] flags@[k] == blocks_escape(cs@[k].0, bv),
            cands_view(r@) == non_escaping(cv.take(i as int), bv),
        decreases cs.len() - i,
    {
        proof {
            assert(cv.take(i + 1).drop_last() =~= cv.take(i as int));
            assert(cv.take(i + 1).last() == cv[i as int]);
            assert(flags@[i as int] == blocks_escape(cs@[i as int].0, bv));
        }
        if !flags[i] {
            let c = (cs[i].0, clone_strings(&cs[i].1));
            let ghost before = r@;
            r.push(c);
            proof {
                assert(cands_view(r@) =~= cands_view(before).push(cv[i as int]));
            }
        }
        i = i + 1;
    }
    proof {
        assert(cv.take(cs.len() as int) =~= cv);
    }
    r
}

proof fn lemma_strings_view_index(v: Seq<String>, k: int)
    requires
        0 <= k < v.len(),
    ensures
        strings_view(v)[k] == v[k]@,
{
}

fn clone_strings(v: &Vec<String>) -> (r: Vec<String>)
    ensures
        strings_view(r@) == strings_view(v@),
{
    let mut r: Vec<String> = Vec::new();
    let mut i: usize = 0;
    while i < v.len()
        invariant
            i <= v.len(),
            strings_view(r@) == strings_view(v@).take(i as int),
        decreases v.len() - i,
    {
        let x = v[i].clone();
        let ghost before = r@;
        r.push(x);
        proof {
            assert(x@ == v@[i as int]@);
            assert(strings_view(r@) =~= strings_view(before).push(x@));
            assert(strings_view(r@) =~= strings_view(v@).take(i + 1));
        }
        i = i + 1;
    }
    proof {
        assert(strings_view(v@).take(v.len() as int) =~= strings_view(v@));
    }
    r
}

/// One above the largest id among `a` and `b`.
fn next_id_after(a: &Vec<MirLocal>, b: &Vec<MirLocal>) -> (r: u32)
    requires
        max_local_id(a@ + b@) < u32::MAX,
    ensures
        r == max_local_id(a@ + b@) + 1,
{
    let ghost s = a@ + b@;
    let mut best: u32 = 0;
    let mut i: usize = 0;
    while i < a.len()
        invariant
            i <= a.len(),
            s == a@ + b@,
            best == max_local_id(s.take(i as int)),
            max_local_id(s) < u32::MAX,
        decreases a.len() - i,
    {
        proof {
            assert(s.take(i + 1).drop_last() =~= s.take(i as int));
            assert(s.take(i + 1).last() == a@[i as int]);
        }
        if best < a[i].id.0 {
            best = a[i].id.0;
        }
        i = i + 1;
    }
    let mut j: usize = 0;
    while j < b.len()
        invariant
            j <= b.len(),
            s == a@ + b@,
            best == max_local_id(s.take(a.len() + j)),
            max_local_id(s) < u32::MAX,
        decreases b.len() - j,
    {
        proof {
            assert(s.take(a.len() + j + 1).drop_last() =~= s.take(a.len() + j));
            assert(s.take(a.len() + j + 1).last() == b@[j as int]);
        }
        if best < b[j].id.0 {
            best = b[j].id.0;
        }
        j = j + 1;
    }
    proof {
        assert(s.take(a.len() + b.len()) =~= s);
    }
    best + 1
}

fn first_name(locals: &Vec<MirLocal>, x: u32) -> (r: Option<String>)
    ensures
        match r {
            Some(n) => first_local_name(locals@, x) == Some(n@),
            None => first_local_name(locals@, x) is None,
        },
{
    let mut i: usize = 0;
    assert(locals@.skip(0) =~= locals@);
    while i < locals.len()
        invariant
            i <= locals.len(),
            first_local_name(locals@, x) == first_local_name(locals@.skip(i as int), x),
        decreases locals.len() - i,
    {
        proof {
            assert(locals@.skip(i as int)[0] == locals@[i as int]);
            assert(locals@.skip(i as int).drop_first() =~= locals@.skip(i + 1));
        }
        if locals[i].id.0 == x {
            return match &locals[i].name {
                Some(n) => Some(n.clone()),
                None => None,
            };
        }
        i = i + 1;
    }
    None
}

/// The base of the scalar names for candidate `x`.
fn base_name(locals: &Vec<MirLocal>, x: u32) -> (r: String)
    ensures
        r@ == match first_local_name(locals@, x) {
            Some(n) => n,
            None => "_s"@ + decimal(x as nat),
        },
{
    match first_name(locals, x) {
        Some(n) => n,
        None => {
            let d = crate::strutil::u64_to_decimal(x as u64);
            crate::strutil::concat_str("_s", d.as_str())
        },
    }
}

proof fn lemma_scalar_entries_len(cs: Seq<Candidate>, start: nat, n: int)
    requires
        0 <= n < cs.len(),
    ensures
        scalar_entries(cs.take(n + 1), start) == scalar_entries(cs.take(n), start) + Seq::new(
            cs[n].1.len(),
            |j: int| (cs[n].0, cs[n].1[j], (start + scalar_entries(cs.take(n), start).len() + j) as u32),
        ),
        scalar_entries(cs.take(n), start).len() + cs[n].1.len() <= scalar_entries(cs, start).len(),
    decreases cs.len(),
{
    assert(cs.take(n + 1).drop_last() =~= cs.take(n));
    assert(cs.take(n + 1).last() == cs[n]);
    if n + 1 == cs.len() {
        assert(cs.take(n + 1) =~= cs);
    } else {
        lemma_scalar_entries_len(cs.drop_last(), start, n);
        assert(cs.drop_last().take(n + 1) =~= cs.take(n + 1));
        assert(cs.drop_last().take(n) =~= cs.take(n));
    }
}

/// Create one scalar local per field of each candidate, numbered from
/// `start`, and return the scalar map.
fn make_scalars(
    ne: &Vec<(u32, Vec<String>)>,
    locals: &mut Vec<MirLocal>,
    start: u32,
) -> (e: Vec<(u32, String, LocalId)>)
    requires
        start + scalar_entries(cands_view(ne@), start as nat).len() <= u32::MAX,
    ensures
        entries_view(e@) == scalar_entries(cands_view(ne@), start as nat),
        sroa_locals(old(locals)@, cands_view(ne@), start as nat, final(locals)@),
{
    let ghost cv = cands_view(ne@);
    let ghost l0 = locals@;
    let mut e: Vec<(u32, String, LocalId)> = Vec::new();
    let mut next: u32 = start;
    let mut j: usize = 0;
    proof {
        assert(cv.take(0) =~= Seq::<Candidate>::empty());
        assert(entries_view(e@) =~= Seq::<ScalarEntry>::empty());
    }
    while j < ne.len()
        invariant
            j <= ne.len(),
            cv == cands_view(ne@),
            start + scalar_entries(cv, start as nat).len() <= u32::MAX,
            entries_view(e@) == scalar_entries(cv.take(j as int), start as nat),
            sroa_locals(l0, cv.take(j as int), start as nat, locals@),
            locals@.len() == l0.len() + e@.len(),
            next == start + e@.len(),
        decreases ne.len() - j,
    {
        proof {
            lemma_scalar_entries_len(cv, start as nat, j as int);
            lemma_sroa_locals_len(l0, cv.take(j as int), start as nat, locals@);
        }
        let x = ne[j].0;
        let fields = &ne[j].1;
        let ghost l1 = locals@;
        let ghost e1 = entries_view(e@);
        let base = base_name(locals, x);
        let mut k: usize = 0;
        while k < fields.len()
            invariant
                k <= fields.len(),
                j < ne.len(),
                cv.len() == ne@.len(),
                x == cv[j as int].0,
                strings_view(fields@) == cv[j as int].1,
                e1 == scalar_entries(cv.take(j as int), start as nat),
                e1.len() + cv[j as int].1.len() <= scalar_entries(cv, start as nat).len(),
                start + scalar_entries(cv, start as nat).len() <= u32::MAX,
                entries_view(e@) == e1 + Seq::new(
                    k as nat,
                    |i: int| (x, cv[j as int].1[i], (start + e1.len() + i) as u32),
                ),
                next == start + e1.len() + k,
                locals@.len() == l1.len() + k,
                l1.len() == l0.len() + e1.len(),
                locals@.take(l1.len() as int) == l1,
                base@ == match first_local_name(l1, x) {
                    Some(n) => n,
                    None => "_s"@ + decimal(x as nat),
                },
                forall|i: int|
                    0 <= i < k ==> (#[trigger] locals@[l1.len() + i])@ == (crate::mir::LocalView {
                        id: LocalId((start + e1.len() + i) as u32),
                        name: Some(scalar_name(l1, x, cv[j as int].1[i])),
                        ty: crate::types::TypeView::Any,
                    }),
            decreases fields.len() - k,
        {
            let with_sep = crate::strutil::concat_str(base.as_str(), "_");
            let name = crate::strutil::concat_str(with_sep.as_str(), fields[k].as_str());
            proof {
                reveal_strlit("_");
                lemma_strings_view_index(fields@, k as int);
            }
            let id = LocalId(next);
            let ghost before = locals@;
            locals.push(MirLocal { id, name: Some(name), ty: Type::Any });
            let ghost ebefore = e@;
            let fk = fields[k].clone();
            e.push((x, fk, id));
            proof {
                assert(fk@ == cv[j as int].1[k as int]);
                assert(entries_view(e@) =~= entries_view(ebefore).push((x, fk@, id.0)));
                assert(entries_view(e@) =~= e1 + Seq::new(
                    (k + 1) as nat,
                    |i: int| (x, cv[j as int].1[i], (start + e1.len() + i) as u32),
                ));
                assert(locals@.take(l1.len() as int) =~= l1);
                assert forall|i: int| 0 <= i < k + 1 implies (#[trigger] locals@[l1.len() + i])@ == (crate::mir::LocalView {
                    id: LocalId((start + e1.len() + i) as u32),
                    name: Some(scalar_name(l1, x, cv[j as int].1[i])),
                    ty: crate::types::TypeView::Any,
                }) by {
                    if i < k {
                        assert(locals@[l1.len() + i] == before[l1.len() + i]);
                    }
                }
            }
            next = next + 1;
            k = k + 1;
        }
        proof {
            let t = cv.take(j + 1);
            assert(t.drop_last() =~= cv.take(j as int));
            assert(t.last() == cv[j as int]);
            assert(entries_view(e@) =~= scalar_entries(t, start as nat));
            assert(locals@.take(l1.len() as int) == l1);
        }
        j = j + 1;
    }
    proof {
        assert(cv.take(ne.len() as int) =~= cv);
    }
    e
}

proof fn lemma_sroa_locals_len(old: Seq<MirLocal>, ne: Seq<Candidate>, start: nat, new: Seq<MirLocal>)
    requires
        sroa_locals(old, ne, start, new),
    ensures
        new.len() == old.len() + scalar_entries(ne, start).len(),
        new.take(old.len() as int) == old,
    decreases ne.len(),
{
    if ne.len() > 0 {
        let prev_len: int = (old.len() + scalar_entries(ne.drop_last(), start).len()) as int;
        lemma_sroa_locals_len(old, ne.drop_last(), start, new.take(prev_len));
        assert(new.take(prev_len).take(old.len() as int) =~= new.take(old.len() as int));
    } else {
        assert(new.take(old.len() as int) =~= old);
    }
}

// ---------------------------------------------------------------------------
// The pass
// ---------------------------------------------------------------------------
/// `f1` is `f0` after scalar replacement: every block rewritten, the scalar
/// locals appended, everything else kept.
pub open spec fn sroa_result(f0: MirFunction, f1: MirFunction) -> bool {
    let ne = sroa_candidates(f0);
    let e = sroa_entries(f0);
    &&& same_header(f0, f1)
    &&& f1.blocks@.len() == f0.blocks@.len()
    &&& forall|i: int|
        0 <= i < f0.blocks@.len() ==> #[trigger] f1.blocks@[i]@ == rw_block(
            cand_ids(ne),
            e,
            f0.blocks@[i]@,
        )
    &&& sroa_locals(f0.locals@, ne, sroa_start(f0), f1.locals@)
}

proof fn lemma_blocks_rw_count_prefix(ne: Seq<u32>, e: Seq<ScalarEntry>, s: Seq<BlockView>, j: int)
    requires
        0 <= j < s.len(),
    ensures
        blocks_rw_count(ne, e, s.take(j + 1)) == blocks_rw_count(ne, e, s.take(j)) + rw_count(
            ne,
            e,
            s[j].stmts,
        ),
        blocks_rw_count(ne, e, s.take(j + 1)) <= blocks_rw_count(ne, e, s),
    decreases s.len(),
{
    assert(s.take(j + 1).drop_last() =~= s.take(j));
    assert(s.take(j + 1).last() == s[j]);
    if j + 1 == s.len() {
        assert(s.take(j + 1) =~= s);
    } else {
        lemma_blocks_rw_count_prefix(ne, e, s.drop_last(), j);
        assert(s.drop_last().take(j + 1) =~= s.take(j + 1));
        assert(s.drop_last().take(j) =~= s.take(j));
    }
}

proof fn lemma_rw_count_none(e: Seq<ScalarEntry>, s: Seq<StmtView>)
    ensures
        rw_count(Seq::empty(), e, s) == 0,
    decreases s.len(),
{
    if s.len() > 0 {
        lemma_rw_count_none(e, s.drop_last());
    }
}

proof fn lemma_blocks_rw_count_none(e: Seq<ScalarEntry>, s: Seq<BlockView>)
    ensures
        blocks_rw_count(Seq::empty(), e, s) == 0,
    decreases s.len(),
{
    if s.len() > 0 {
        lemma_blocks_rw_count_none(e, s.drop_last());
        lemma_rw_count_none(e, s.last().stmts);
    }
}

proof fn lemma_no_candidates(f: MirFunction)
    requires
        sroa_candidates(f).len() == 0,
    ensures
        sroa_count(f) == 0,
{
    assert(cand_ids(sroa_candidates(f)) =~= Seq::<u32>::empty());
    lemma_blocks_rw_count_none(sroa_entries(f), blocks_view(f.blocks@));
}

/// Escape analysis and scalar replacement of aggregates: every candidate
/// struct local that does not escape is replaced by one scalar local per
/// field. Reports the number of top-level statements rewritten.
pub fn escape_analysis_pass(func: &mut MirFunction) -> (summary: OptimizationSummary)
    requires
        sroa_candidates(*old(func)).len() > 0 ==> sroa_start(*old(func)) + sroa_entries(
            *old(func),
        ).len() <= u32::MAX,
        sroa_count(*old(func)) <= usize::MAX,
    ensures
        sroa_candidates(*old(func)).len() == 0 ==> *final(func) == *old(func),
        sroa_candidates(*old(func)).len() > 0 ==> sroa_result(*old(func), *final(func)),
        summary == (OptimizationSummary {
            scalar_replaced: sroa_count(*old(func)) as usize,
            ..zero_summary()
        }),
{
    let ghost f0 = *func;
    let ghost bv = blocks_view(func.blocks@);
    let mut summary = OptimizationSummary::default();
    let cs = find_candidates(&func.blocks);
    if cs.len() == 0 {
        proof {
            assert(cands_view(cs@) =~= Seq::<Candidate>::empty());
            lemma_no_candidates(f0);
        }
        return summary;
    }
    let ids = candidate_ids(&cs);
    let mut flags: Vec<bool> = Vec::new();
    let mut k: usize = 0;
    while k < ids.len()
        invariant
            k <= ids.len(),
            flags@.len() == k,
            forall|j: int| 0 <= j < k ==> !flags@[j],
        decreases ids.len() - k,
    {
        flags.push(false);
        k = k + 1;
    }
    proof {
        assert forall|i: int, j: int| 0 <= i < j < ids@.len() implies ids@[i] != ids@[j] by {
            assert(cands_view(cs@)[i].0 != cands_view(cs@)[j].0);
        }
    }
    let ghost flags0 = flags@;
    mark_blocks(&func.blocks, &ids, &mut flags);
    proof {
        assert forall|j: int| 0 <= j < cs@.len() implies #[trigger] flags@[j] == blocks_escape(
            cs@[j].0,
            bv,
        ) by {
            assert(flags@[j] == (flags0[j] || blocks_escape(ids@[j], bv)));
        }
    }
    let ne = keep_non_escaping(&cs, &flags, Ghost(bv));
    if ne.len() == 0 {
        proof {
            assert(cands_view(ne@) =~= Seq::<Candidate>::empty());
            lemma_no_candidates(f0);
        }
        return summary;
    }
    let start = next_id_after(&func.locals, &func.params);
    let mut locals: Vec<MirLocal> = Vec::new();
    std::mem::swap(&mut locals, &mut func.locals);
    let e = make_scalars(&ne, &mut locals, start);
    func.locals = locals;
    let ne_ids = candidate_ids(&ne);
    let ghost ev = entries_view(e@);
    let mut new_blocks: Vec<BasicBlock> = Vec::new();
    let mut count: usize = 0;
    let mut i: usize = 0;
    proof {
        assert(bv.take(0) =~= Seq::<BlockView>::empty());
    }
    while i < func.blocks.len()
        invariant
            i <= func.blocks.len(),
            func.blocks == f0.blocks,
            bv == blocks_view(f0.blocks@),
            ne_ids@ == cand_ids(sroa_candidates(f0)),
            ev == entries_view(e@),
            ev == sroa_entries(f0),
            sroa_count(f0) <= usize::MAX,
            new_blocks@.len() == i,
            forall|j: int|
                0 <= j < i ==> #[trigger] new_blocks@[j]@ == rw_block(
                    ne_ids@,
                    ev,
                    f0.blocks@[j]@,
                ),
            count == blocks_rw_count(ne_ids@, ev, bv.take(i as int)),
        decreases func.blocks.len() - i,
    {
        proof {
            lemma_blocks_rw_count_prefix(ne_ids@, ev, bv, i as int);
            assert(bv[i as int] == func.blocks@[i as int]@);
        }
        let (stmts, c) = rw_stmts_counted(&func.blocks[i].stmts, &ne_ids, &e);
        let terminator = rw_term_exec(&func.blocks[i].terminator, &ne_ids, &e);
        let nb = BasicBlock {
            id: func.blocks[i].id,
            stmts,
            terminator,
            source: func.blocks[i].source,
        };
        new_blocks.push(nb);
        count = count + c;
        i = i + 1;
    }
    proof {
        assert(bv.take(func.blocks.len() as int) =~= bv);
    }
    func.blocks = new_blocks;
    summary.scalar_replaced = count;
    summary
}

// ---------------------------------------------------------------------------
// Laws
// ---------------------------------------------------------------------------
proof fn lemma_non_escaping_members(cs: Seq<Candidate>, bs: Seq<BlockView>, x: u32)
    ensures
        cand_ids(non_escaping(cs, bs)).contains(x) <==> (cand_ids(cs).contains(x)
            && !blocks_escape(x, bs)),
    decreases cs.len(),
{
    if cs.len() > 0 {
        let d = cs.drop_last();
        lemma_non_escaping_members(d, bs, x);
        let r = non_escaping(d, bs);
        assert(cand_ids(cs) =~= cand_ids(d).push(cs.last().0));
        vstd::seq_lib::lemma_seq_contains_after_push(cand_ids(d), cs.last().0, x);
        if !blocks_escape(cs.last().0, bs) {
            assert(cand_ids(r.push(cs.last())) =~= cand_ids(r).push(cs.last().0));
            vstd::seq_lib::lemma_seq_contains_after_push(cand_ids(r), cs.last().0, x);
        }
    } else {
        assert(cand_ids(cs) =~= Seq::<u32>::empty());
        assert(cand_ids(non_escaping(cs, bs)) =~= Seq::<u32>::empty());
    }
}

/// Scalar replacement splits exactly the struct locals defined at the top
/// level of a block that do not escape.
pub proof fn law_sroa_replaces_exactly_non_escaping(f: MirFunction, x: u32)
    ensures
        cand_ids(sroa_candidates(f)).contains(x) <==> (cand_ids(
            candidates_of(top_stmts(blocks_view(f.blocks@))),
        ).contains(x) && !blocks_escape(x, blocks_view(f.blocks@))),
{
    let bv = blocks_view(f.blocks@);
    lemma_non_escaping_members(candidates_of(top_stmts(bv)), bv, x);
}

proof fn lemma_max_local_id_bound(locals: Seq<MirLocal>, j: int)
    requires
        0 <= j < locals.len(),
    ensures
        locals[j].id.0 <= max_local_id(locals),
    decreases locals.len(),
{
    if j < locals.len() - 1 {
        lemma_max_local_id_bound(locals.drop_last(), j);
        assert(locals.drop_last()[j] == locals[j]);
    }
}

proof fn lemma_scalar_ids_at_least(cs: Seq<Candidate>, start: nat, k: int)
    requires
        0 <= k < scalar_entries(cs, start).len(),
    ensures
        scalar_entries(cs, start)[k].2 as nat == start + k || start + k > u32::MAX,
    decreases cs.len(),
{
    if cs.len() > 0 {
        let prev = scalar_entries(cs.drop_last(), start);
        if k < prev.len() {
            lemma_scalar_ids_at_least(cs.drop_last(), start, k);
        }
    }
}

/// Every scalar introduced gets an id no local or parameter of the
/// function already has.
pub proof fn law_sroa_scalars_fresh(f: MirFunction, k: int, j: int)
    requires
        0 <= k < sroa_entries(f).len(),
        0 <= j < (f.locals@ + f.params@).len(),
        sroa_start(f) + sroa_entries(f).len() <= u32::MAX,
    ensures
        sroa_entries(f)[k].2 != (f.locals@ + f.params@)[j].id.0,
{
    lemma_scalar_ids_at_least(sroa_candidates(f), sroa_start(f), k);
    lemma_max_local_id_bound(f.locals@ + f.params@, j);
}
/// The call argument `Place(Local(x))` at position `k` makes `x` escape
/// through the argument list.
proof fn lemma_arg_escapes(x: u32, args: Seq<OperandView>, k: int)
    requires
        0 <= k < args.len(),
        args[k] == OperandView::Place(PlaceView::Local(LocalId(x))),
    ensures
        ops_escape(x, args),
    decreases args.len(),
{
    if k < args.len() - 1 {
        assert(args.drop_last()[k] == args[k]);
        lemma_arg_escapes(x, args.drop_last(), k);
    } else {
        assert(args.last() == args[k]);
        assert(op_escapes(x, args[k]));
    }
}

proof fn lemma_stmt_in_list_escapes(x: u32, ss: Seq<StmtView>, i: int)
    requires
        0 <= i < ss.len(),
        stmt_escapes(x, ss[i]),
    ensures
        stmts_escape(x, ss),
    decreases ss.len(),
{
    if i < ss.len() - 1 {
        assert(ss.drop_last()[i] == ss[i]);
        lemma_stmt_in_list_escapes(x, ss.drop_last(), i);
    }
}

proof fn lemma_block_in_list_escapes(x: u32, bs: Seq<BlockView>, b: int)
    requires
        0 <= b < bs.len(),
        stmts_escape(x, bs[b].stmts),
    ensures
        blocks_escape(x, bs),
    decreases bs.len(),
{
    if b < bs.len() - 1 {
        assert(bs.drop_last()[b] == bs[b]);
        lemma_block_in_list_escapes(x, bs.drop_last(), b);
    }
}

/// A local passed directly as an argument of a call statement (`Call` or
/// `CallBuiltin`) at the top level of any block escapes: scalar
/// replacement never splits it.
pub proof fn law_sroa_keeps_call_arguments(f: MirFunction, b: int, i: int, k: int, x: u32)
    requires
        0 <= b < f.blocks@.len(),
        0 <= i < f.blocks@[b]@.stmts.len(),
        ({
            let s = f.blocks@[b]@.stmts[i];
            let arg = OperandView::Place(PlaceView::Local(LocalId(x)));
            ||| (s matches StmtView::Call { args, .. } && 0 <= k < args.len() && args[k] == arg)
            ||| (s matches StmtView::CallBuiltin { args, .. } && 0 <= k < args.len() && args[k] == arg)
        }),
    ensures
        !cand_ids(sroa_candidates(f)).contains(x),
{
    let bv = blocks_view(f.blocks@);
    let s = f.blocks@[b]@.stmts[i];
    match s {
        StmtView::Call { args, .. } => lemma_arg_escapes(x, args, k),
        StmtView::CallBuiltin { args, .. } => lemma_arg_escapes(x, args, k),
        _ => {},
    }
    assert(stmt_escapes(x, s));
    assert(bv[b] == f.blocks@[b]@);
    lemma_stmt_in_list_escapes(x, bv[b].stmts, i);
    lemma_block_in_list_escapes(x, bv, b);
    law_sroa_replaces_exactly_non_escaping(f, x);
}
/// Whether statement `s` uses local `x` as a whole value, directly as one
/// of its operands: passing it to a call, returning it, copying it,
/// computing with it, putting it into an aggregate, or taking a reference
/// to it.
pub open spec fn uses_whole(s: StmtView, x: u32) -> bool {
    let v = OperandView::Place(PlaceView::Local(LocalId(x)));
    match s {
        StmtView::Call { args, .. } => args.contains(v),
        StmtView::CallBuiltin { args, .. } => args.contains(v),
        StmtView::Return(Some(o)) => o == v,
        StmtView::Assign(_, RvalueView::Use(o)) => o == v,
        StmtView::Assign(_, RvalueView::BinaryOp(_, a, b)) => a == v || b == v,
        StmtView::Assign(_, RvalueView::UnaryOp(_, a)) => a == v,
        StmtView::Assign(_, RvalueView::Aggregate(_, ops)) => ops.contains(v),
        StmtView::Assign(_, RvalueView::Ref(p)) => p == PlaceView::Local(LocalId(x)),
        _ => false,
    }
}

/// Whether terminator `t` uses local `x` as a whole value: returning it or
/// branching on it.
pub open spec fn term_uses_whole(t: TerminatorView, x: u32) -> bool {
    let v = OperandView::Place(PlaceView::Local(LocalId(x)));
    match t {
        TerminatorView::Return(Some(o)) => o == v,
        TerminatorView::If { cond, .. } => cond == v,
        TerminatorView::Switch { scrutinee, .. } => scrutinee == v,
        _ => false,
    }
}

proof fn lemma_contained_arg_escapes(x: u32, args: Seq<OperandView>)
    requires
        args.contains(OperandView::Place(PlaceView::Local(LocalId(x)))),
    ensures
        ops_escape(x, args),
{
    let k = choose|k: int| 0 <= k < args.len() && args[k] == OperandView::Place(PlaceView::Local(LocalId(x)));
    lemma_arg_escapes(x, args, k);
}

proof fn lemma_block_term_escapes(x: u32, bs: Seq<BlockView>, b: int)
    requires
        0 <= b < bs.len(),
        term_escapes(x, bs[b].terminator),
    ensures
        blocks_escape(x, bs),
    decreases bs.len(),
{
    if b < bs.len() - 1 {
        assert(bs.drop_last()[b] == bs[b]);
        lemma_block_term_escapes(x, bs.drop_last(), b);
    }
}

/// A local used as a whole value by a top-level statement of any block, or
/// by a block's terminator, escapes: scalar replacement never splits it.
pub proof fn law_sroa_keeps_whole_uses(f: MirFunction, b: int, i: int, x: u32)
    requires
        0 <= b < f.blocks@.len(),
        (0 <= i < f.blocks@[b]@.stmts.len() && uses_whole(f.blocks@[b]@.stmts[i], x))
            || term_uses_whole(f.blocks@[b]@.terminator, x),
    ensures
        !cand_ids(sroa_candidates(f)).contains(x),
{
    let bv = blocks_view(f.blocks@);
    assert(bv[b] == f.blocks@[b]@);
    let v = OperandView::Place(PlaceView::Local(LocalId(x)));
    assert(op_escapes(x, v));
    if 0 <= i < f.blocks@[b]@.stmts.len() && uses_whole(f.blocks@[b]@.stmts[i], x) {
        let s = f.blocks@[b]@.stmts[i];
        match s {
            StmtView::Call { args, .. } => lemma_contained_arg_escapes(x, args),
            StmtView::CallBuiltin { args, .. } => lemma_contained_arg_escapes(x, args),
            StmtView::Assign(_, RvalueView::Aggregate(_, ops)) => lemma_contained_arg_escapes(x, ops),
            StmtView::Assign(_, RvalueView::Ref(p)) => {
                assert(place_escapes(x, p));
            },
            _ => {},
        }
        assert(stmt_escapes(x, s));
        lemma_stmt_in_list_escapes(x, bv[b].stmts, i);
        lemma_block_in_list_escapes(x, bv, b);
    } else {
        assert(term_escapes(x, bv[b].terminator));
        lemma_block_term_escapes(x, bv, b);
    }
    law_sroa_replaces_exactly_non_escaping(f, x);
}
} // verus!
