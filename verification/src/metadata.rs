//! Module metadata: the instances and direct call graph of the statistics,
//! and the source spans of functions, blocks and statements.
//!
//! The call graph and the span tables are association lists whose keys
//! occur once each; their meaning is the map they describe.
use vstd::prelude::*;

use crate::mir::{
    BasicBlock, BlockId, FnId, InstanceKey, MirFunction, MirModule, MirSourceMap, MirStats,
    MirStmt, ReductionStats,
};
use crate::mir_ops::{fn_id_name, fn_id_text, provenance_text};
use crate::strutil::{str_eq, strings_view};
use crate::types::Span;

verus! {

// ---------------------------------------------------------------------------
// Association lists
// ---------------------------------------------------------------------------
/// The map an association list describes (a later entry would override an
/// earlier one; the lists kept here have distinct keys).
pub open spec fn assoc<K, V>(v: Seq<(K, V)>) -> Map<K, V>
    decreases v.len(),
{
    if v.len() == 0 {
        Map::empty()
    } else {
        assoc(v.drop_last()).insert(v.last().0, v.last().1)
    }
}

pub open spec fn keys_distinct<K, V>(v: Seq<(K, V)>) -> bool {
    forall|i: int, j: int| 0 <= i < j < v.len() ==> v[i].0 != v[j].0
}

proof fn lemma_assoc_update<K, V>(v: Seq<(K, V)>, i: int, e: (K, V))
    requires
        keys_distinct(v),
        0 <= i < v.len(),
        v[i].0 == e.0,
    ensures
        assoc(v.update(i, e)) == assoc(v).insert(e.0, e.1),
    decreases v.len(),
{
    if i == v.len() - 1 {
        assert(v.update(i, e).drop_last() =~= v.drop_last());
        assert(assoc(v.update(i, e)) =~= assoc(v).insert(e.0, e.1));
    } else {
        assert(v.update(i, e).drop_last() =~= v.drop_last().update(i, e));
        lemma_assoc_update(v.drop_last(), i, e);
        assert(v.last().0 != e.0);
        assert(assoc(v.update(i, e)) =~= assoc(v).insert(e.0, e.1));
    }
}

proof fn lemma_assoc_get<K, V>(v: Seq<(K, V)>, i: int)
    requires
        keys_distinct(v),
        0 <= i < v.len(),
    ensures
        assoc(v).contains_key(v[i].0),
        assoc(v)[v[i].0] == v[i].1,
    decreases v.len(),
{
    if i < v.len() - 1 {
        lemma_assoc_get(v.drop_last(), i);
        assert(v.last().0 != v[i].0);
    }
}

proof fn lemma_assoc_absent<K, V>(v: Seq<(K, V)>, k: K)
    requires
        forall|i: int| 0 <= i < v.len() ==> v[i].0 != k,
    ensures
        !assoc(v).contains_key(k),
    decreases v.len(),
{
    if v.len() > 0 {
        lemma_assoc_absent(v.drop_last(), k);
    }
}

// ---------------------------------------------------------------------------
// Statistics
// ---------------------------------------------------------------------------
/// The parts of an instance key.
pub open spec fn instance_view(k: InstanceKey) -> (Seq<char>, Seq<Seq<char>>, Seq<char>) {
    (k.item@, strings_view(k.substitution@), k.target_shape@)
}

/// The call graph view: each caller name to the set of callee names.
pub open spec fn graph_view(v: Seq<(String, Vec<String>)>) -> Map<Seq<char>, Set<Seq<char>>> {
    assoc(v.map_values(|e: (String, Vec<String>)| (e.0@, strings_view(e.1@).to_set())))
}

pub open spec fn strings_distinct(v: Seq<String>) -> bool {
    forall|i: int, j: int| 0 <= i < j < v.len() ==> v[i]@ != v[j]@
}

/// Caller names occur once, and so does each callee of a caller.
pub open spec fn stats_wf(s: MirStats) -> bool {
    &&& forall|i: int, j: int|
        0 <= i < j < s.direct_call_graph@.len() ==> s.direct_call_graph@[i].0@
            != s.direct_call_graph@[j].0@
    &&& forall|i: int|
        0 <= i < s.direct_call_graph@.len() ==> strings_distinct(
            #[trigger] s.direct_call_graph@[i].1@,
        )
}

/// The names of the functions the statements call by id (not looking inside
/// nested bodies).
pub open spec fn call_names(ss: Seq<MirStmt>) -> Set<Seq<char>>
    decreases ss.len(),
{
    if ss.len() == 0 {
        Set::empty()
    } else {
        call_names(ss.drop_last()).union(
            if ss.last() is Call {
                set![fn_id_text(ss.last()->func)]
            } else {
                Set::empty()
            },
        )
    }
}

pub open spec fn block_call_names(bs: Seq<BasicBlock>) -> Set<Seq<char>>
    decreases bs.len(),
{
    if bs.len() == 0 {
        Set::empty()
    } else {
        block_call_names(bs.drop_last()).union(call_names(bs.last().stmts@))
    }
}

/// The names of the functions `f` calls by id at the top level of its
/// blocks.
pub open spec fn direct_callees(f: MirFunction) -> Set<Seq<char>> {
    block_call_names(f.blocks@)
}

/// The callees recorded for `name` before, if any.
pub open spec fn known_callees(g: Map<Seq<char>, Set<Seq<char>>>, name: Seq<char>) -> Set<Seq<char>> {
    if g.contains_key(name) {
        g[name]
    } else {
        Set::empty()
    }
}

pub(crate) fn clone_strings(v: &Vec<String>) -> (r: Vec<String>)
    ensures
        r@ == v@,
{
    let mut out: Vec<String> = Vec::new();
    let mut i: usize = 0;
    while i < v.len()
        invariant
            i <= v.len(),
            out@ == v@.take(i as int),
        decreases v.len() - i,
    {
        out.push(v[i].clone());
        proof {
            assert(out@ =~= v@.take(i + 1));
        }
        i = i + 1;
    }
    proof {
        assert(v@.take(v.len() as int) =~= v@);
    }
    out
}

pub(crate) fn clone_instance(k: &InstanceKey) -> (r: InstanceKey)
    ensures
        instance_view(r) == instance_view(*k),
{
    let subst = clone_strings(&k.substitution);
    InstanceKey { item: k.item.clone(), substitution: subst, target_shape: k.target_shape.clone() }
}

fn contains_string(v: &Vec<String>, s: &str) -> (r: bool)
    ensures
        r == strings_view(v@).contains(s@),
{
    let mut i: usize = 0;
    while i < v.len()
        invariant
            i <= v.len(),
            forall|j: int| 0 <= j < i ==> v@[j]@ != s@,
        decreases v.len() - i,
    {
        if str_eq(v[i].as_str(), s) {
            assert(strings_view(v@)[i as int] == s@);
            return true;
        }
        i = i + 1;
    }
    proof {
        if strings_view(v@).contains(s@) {
            let j = choose|j: int| 0 <= j < strings_view(v@).len() && strings_view(v@)[j] == s@;
            assert(v@[j]@ == s@);
        }
    }
    false
}

fn caller_position(g: &Vec<(String, Vec<String>)>, name: &str) -> (r: Option<usize>)
    ensures
        match r {
            Some(i) => i < g@.len() && g@[i as int].0@ == name@,
            None => forall|i: int| 0 <= i < g@.len() ==> g@[i].0@ != name@,
        },
{
    let mut i: usize = 0;
    while i < g.len()
        invariant
            i <= g.len(),
            forall|j: int| 0 <= j < i ==> g@[j].0@ != name@,
        decreases g.len() - i,
    {
        if str_eq(g[i].0.as_str(), name) {
            return Some(i);
        }
        i = i + 1;
    }
    None
}

/// `callees` extended with the names of the functions the blocks call by id
/// at their top level, each name once.
fn add_callees(blocks: &Vec<BasicBlock>, callees: &mut Vec<String>)
    requires
        strings_distinct(old(callees)@),
    ensures
        strings_distinct(final(callees)@),
        strings_view(final(callees)@).to_set() == strings_view(old(callees)@).to_set().union(
            block_call_names(blocks@),
        ),
{
    let ghost c0 = strings_view(callees@).to_set();
    let mut b: usize = 0;
    proof {
        assert(blocks@.take(0) =~= Seq::<BasicBlock>::empty());
        assert(strings_view(callees@).to_set() =~= c0.union(block_call_names(blocks@.take(0))));
    }
    while b < blocks.len()
        invariant
            b <= blocks.len(),
            strings_distinct(callees@),
            strings_view(callees@).to_set() == c0.union(block_call_names(blocks@.take(b as int))),
        decreases blocks.len() - b,
    {
        let stmts = &blocks[b].stmts;
        let ghost cb = strings_view(callees@).to_set();
        let mut k: usize = 0;
        proof {
            assert(stmts@.take(0) =~= Seq::<MirStmt>::empty());
            assert(strings_view(callees@).to_set() =~= cb.union(call_names(stmts@.take(0))));
        }
        while k < stmts.len()
            invariant
                k <= stmts.len(),
                strings_distinct(callees@),
                strings_view(callees@).to_set() == cb.union(call_names(stmts@.take(k as int))),
            decreases stmts.len() - k,
        {
            let ghost before = callees@;
            proof {
                assert(stmts@.take(k + 1).drop_last() =~= stmts@.take(k as int));
            }
            if let MirStmt::Call { func, .. } = &stmts[k] {
                let name = fn_id_name(*func);
                if !contains_string(callees, name.as_str()) {
                    callees.push(name);
                    proof {
                        assert(strings_view(callees@) =~= strings_view(before).push(fn_id_text(*func)));
                        assert forall|x: int, y: int| 0 <= x < y < callees@.len() implies callees@[x]@
                            != callees@[y]@ by {
                            if y == before.len() {
                                assert(strings_view(before)[x] == before[x]@);
                            }
                        }
                        strings_view(before).lemma_push_to_set_commute(fn_id_text(*func));
                        assert(strings_view(callees@).to_set() =~= strings_view(before).to_set().insert(
                            fn_id_text(*func),
                        ));
                    }
                } else {
                    proof {
                        assert(strings_view(before).to_set().contains(fn_id_text(*func)));
                    }
                }
                proof {
                    assert(strings_view(callees@).to_set() =~= cb.union(call_names(stmts@.take(k + 1))));
                }
            } else {
                proof {
                    assert(strings_view(callees@).to_set() =~= cb.union(call_names(stmts@.take(k + 1))));
                }
            }
            k = k + 1;
        }
        proof {
            assert(stmts@.take(stmts.len() as int) =~= stmts@);
            assert(blocks@.take(b + 1).drop_last() =~= blocks@.take(b as int));
            assert(strings_view(callees@).to_set() =~= c0.union(block_call_names(blocks@.take(b + 1))));
        }
        b = b + 1;
    }
    proof {
        assert(blocks@.take(blocks.len() as int) =~= blocks@);
    }
}
proof fn lemma_graph_update(v: Seq<(String, Vec<String>)>, i: int, e: (String, Vec<String>))
    requires
        forall|a: int, b: int| 0 <= a < b < v.len() ==> v[a].0@ != v[b].0@,
        0 <= i < v.len(),
        v[i].0@ == e.0@,
    ensures
        graph_view(v.update(i, e)) == graph_view(v).insert(e.0@, strings_view(e.1@).to_set()),
        graph_view(v).contains_key(e.0@),
        graph_view(v)[e.0@] == strings_view(v[i].1@).to_set(),
{
    let f = |x: (String, Vec<String>)| (x.0@, strings_view(x.1@).to_set());
    let m = v.map_values(f);
    assert(v.update(i, e).map_values(f) =~= m.update(i, f(e)));
    assert(keys_distinct(m));
    lemma_assoc_update(m, i, f(e));
    lemma_assoc_get(m, i);
}

proof fn lemma_graph_push(v: Seq<(String, Vec<String>)>, e: (String, Vec<String>))
    requires
        forall|a: int| 0 <= a < v.len() ==> v[a].0@ != e.0@,
    ensures
        graph_view(v.push(e)) == graph_view(v).insert(e.0@, strings_view(e.1@).to_set()),
        !graph_view(v).contains_key(e.0@),
{
    let f = |x: (String, Vec<String>)| (x.0@, strings_view(x.1@).to_set());
    assert(v.push(e).map_values(f).drop_last() =~= v.map_values(f));
    lemma_assoc_absent(v.map_values(f), e.0@);
}

/// Statistics that differ only in their instances and call graph.
pub open spec fn same_counters(a: MirStats, b: MirStats) -> bool {
    &&& a.optimization_rounds == b.optimization_rounds
    &&& a.validation_runs == b.validation_runs
    &&& a.provenance == b.provenance
    &&& a.optimization_trace == b.optimization_trace
    &&& a.pass_reductions == b.pass_reductions
}

/// The call graph after registering `f` in graph `g`: the callees `f` calls
/// by id are added to those recorded for its name.
pub open spec fn graph_after(g: Map<Seq<char>, Set<Seq<char>>>, f: MirFunction) -> Map<
    Seq<char>,
    Set<Seq<char>>,
> {
    g.insert(f.name@, known_callees(g, f.name@).union(direct_callees(f)))
}

impl MirStats {
    /// Record `func`: its instance, and the functions it calls by id under
    /// its name in the call graph.
    pub fn register_function(&mut self, func: &MirFunction)
        requires
            stats_wf(*old(self)),
        ensures
            stats_wf(*final(self)),
            same_counters(*old(self), *final(self)),
            final(self).instance_keys@.len() == old(self).instance_keys@.len() + 1,
            forall|i: int|
                0 <= i < old(self).instance_keys@.len() ==> final(self).instance_keys@[i] == old(
                    self,
                ).instance_keys@[i],
            instance_view(final(self).instance_keys@.last()) == instance_view(func.instance),
            graph_view(final(self).direct_call_graph@) == graph_after(
                graph_view(old(self).direct_call_graph@),
                *func,
            ),
    {
        let ghost g0 = self.direct_call_graph@;
        self.instance_keys.push(clone_instance(&func.instance));
        let pos = caller_position(&self.direct_call_graph, func.name.as_str());
        match pos {
            Some(i) => {
                let mut callees = clone_strings(&self.direct_call_graph[i].1);
                proof {
                    assert(strings_distinct(g0[i as int].1@));
                }
                add_callees(&func.blocks, &mut callees);
                self.direct_call_graph.set(i, (func.name.clone(), callees));
                proof {
                    lemma_graph_update(g0, i as int, self.direct_call_graph@[i as int]);
                    assert(self.direct_call_graph@ == g0.update(i as int, self.direct_call_graph@[i as int]));
                    assert forall|a: int|
                        0 <= a < self.direct_call_graph@.len() implies strings_distinct(
                        #[trigger] self.direct_call_graph@[a].1@,
                    ) by {
                        if a != i {
                            assert(self.direct_call_graph@[a] == g0[a]);
                        }
                    }
                }
            },
            None => {
                let mut callees: Vec<String> = Vec::new();
                add_callees(&func.blocks, &mut callees);
                proof {
                    assert(strings_view(Seq::<String>::empty()).to_set() =~= Set::<Seq<char>>::empty());
                }
                self.direct_call_graph.push((func.name.clone(), callees));
                proof {
                    lemma_graph_push(g0, self.direct_call_graph@.last());
                    assert(self.direct_call_graph@ == g0.push(self.direct_call_graph@.last()));
                    assert forall|a: int|
                        0 <= a < self.direct_call_graph@.len() implies strings_distinct(
                        #[trigger] self.direct_call_graph@[a].1@,
                    ) by {
                        if a < g0.len() {
                            assert(self.direct_call_graph@[a] == g0[a]);
                        }
                    }
                }
            },
        }
    }
}
// ---------------------------------------------------------------------------
// Source spans
// ---------------------------------------------------------------------------
/// Each span table has each key once.
pub open spec fn source_map_wf(m: MirSourceMap) -> bool {
    &&& keys_distinct(m.function_spans@)
    &&& keys_distinct(m.block_spans@)
    &&& keys_distinct(m.stmt_spans@)
}

fn insert_fn_span(v: &mut Vec<(FnId, Span)>, k: FnId, s: Span)
    requires
        keys_distinct(old(v)@),
    ensures
        keys_distinct(final(v)@),
        assoc(final(v)@) == assoc(old(v)@).insert(k, s),
{
    let mut i: usize = 0;
    while i < v.len()
        invariant
            i <= v.len(),
            v@ == old(v)@,
            keys_distinct(v@),
            forall|j: int| 0 <= j < i ==> v@[j].0 != k,
        decreases v.len() - i,
    {
        if v[i].0 == k {
            proof {
                lemma_assoc_update(v@, i as int, (k, s));
            }
            v.set(i, (k, s));
            proof {
                assert forall|a: int, b: int| 0 <= a < b < v@.len() implies v@[a].0 != v@[b].0 by {
                    assert(old(v)@[a].0 != old(v)@[b].0);
                }
            }
            return;
        }
        i = i + 1;
    }
    let ghost v0 = v@;
    v.push((k, s));
    proof {
        assert(v@.drop_last() =~= v0);
    }
}

fn insert_block_span(v: &mut Vec<((FnId, BlockId), Span)>, k: (FnId, BlockId), s: Span)
    requires
        keys_distinct(old(v)@),
    ensures
        keys_distinct(final(v)@),
        assoc(final(v)@) == assoc(old(v)@).insert(k, s),
{
    let mut i: usize = 0;
    while i < v.len()
        invariant
            i <= v.len(),
            v@ == old(v)@,
            keys_distinct(v@),
            forall|j: int| 0 <= j < i ==> v@[j].0 != k,
        decreases v.len() - i,
    {
        if v[i].0.0 == k.0 && v[i].0.1 == k.1 {
            proof {
                lemma_assoc_update(v@, i as int, (k, s));
            }
            v.set(i, (k, s));
            proof {
                assert forall|a: int, b: int| 0 <= a < b < v@.len() implies v@[a].0 != v@[b].0 by {
                    assert(old(v)@[a].0 != old(v)@[b].0);
                }
            }
            return;
        }
        i = i + 1;
    }
    let ghost v0 = v@;
    v.push((k, s));
    proof {
        assert(v@.drop_last() =~= v0);
    }
}

fn same_stmt_key(a: (FnId, BlockId, usize), b: (FnId, BlockId, usize)) -> (r: bool)
    ensures
        r == (a == b),
{
    a.0 == b.0 && a.1 == b.1 && a.2 == b.2
}

fn insert_stmt_span(v: &mut Vec<((FnId, BlockId, usize), Span)>, k: (FnId, BlockId, usize), s: Span)
    requires
        keys_distinct(old(v)@),
    ensures
        keys_distinct(final(v)@),
        assoc(final(v)@) == assoc(old(v)@).insert(k, s),
{
    let mut i: usize = 0;
    while i < v.len()
        invariant
            i <= v.len(),
            v@ == old(v)@,
            keys_distinct(v@),
            forall|j: int| 0 <= j < i ==> v@[j].0 != k,
        decreases v.len() - i,
    {
        if same_stmt_key(v[i].0, k) {
            proof {
                lemma_assoc_update(v@, i as int, (k, s));
            }
            v.set(i, (k, s));
            proof {
                assert forall|a: int, b: int| 0 <= a < b < v@.len() implies v@[a].0 != v@[b].0 by {
                    assert(old(v)@[a].0 != old(v)@[b].0);
                }
            }
            return;
        }
        i = i + 1;
    }
    let ghost v0 = v@;
    v.push((k, s));
    proof {
        assert(v@.drop_last() =~= v0);
    }
}

/// The statement spans without those whose key satisfies `drop`.
fn stmt_spans_without(
    v: &Vec<((FnId, BlockId, usize), Span)>,
    func: FnId,
    block: BlockId,
    from: usize,
    Ghost(dropped): Ghost<Set<(FnId, BlockId, usize)>>,
) -> (r: Vec<((FnId, BlockId, usize), Span)>)
    requires
        keys_distinct(v@),
        dropped == Set::new(|k: (FnId, BlockId, usize)| k.0 == func && k.1 == block && k.2 >= from),
    ensures
        keys_distinct(r@),
        assoc(r@) == assoc(v@).remove_keys(dropped),
{
    let mut out: Vec<((FnId, BlockId, usize), Span)> = Vec::new();
    let mut i: usize = 0;
    proof {
        assert(v@.take(0) =~= Seq::<((FnId, BlockId, usize), Span)>::empty());
        assert(assoc(out@) =~= assoc(v@.take(0)).remove_keys(dropped));
    }
    while i < v.len()
        invariant
            i <= v.len(),
            keys_distinct(v@),
            dropped == Set::new(|k: (FnId, BlockId, usize)| k.0 == func && k.1 == block && k.2 >= from),
            keys_distinct(out@),
            forall|j: int|
                #![trigger out@[j]]
                0 <= j < out@.len() ==> exists|q: int| 0 <= q < i && #[trigger] v@[q].0 == out@[j].0,
            assoc(out@) == assoc(v@.take(i as int)).remove_keys(dropped),
        decreases v.len() - i,
    {
        let ghost before = out@;
        proof {
            assert(v@.take(i + 1).drop_last() =~= v@.take(i as int));
        }
        let e = v[i];
        if e.0.0 == func && e.0.1 == block && e.0.2 >= from {
            proof {
                assert(dropped.contains(e.0));
                assert(assoc(out@) =~= assoc(v@.take(i + 1)).remove_keys(dropped));
            }
        } else {
            out.push(e);
            proof {
                assert(out@.drop_last() =~= before);
                assert(assoc(out@) =~= assoc(v@.take(i + 1)).remove_keys(dropped));
                assert forall|a: int, b: int| 0 <= a < b < out@.len() implies out@[a].0 != out@[b].0 by {
                    if b == before.len() {
                        let q = choose|q: int| 0 <= q < i && #[trigger] v@[q].0 == before[a].0;
                        assert(v@[q].0 != v@[i as int].0);
                    }
                }
                assert forall|j: int| #![trigger out@[j]] 0 <= j < out@.len() implies exists|q: int|
                    0 <= q < i + 1 && #[trigger] v@[q].0 == out@[j].0 by {
                    if j == before.len() {
                        assert(v@[i as int].0 == out@[j].0);
                    } else {
                        let q = choose|q: int| 0 <= q < i && #[trigger] v@[q].0 == before[j].0;
                        assert(v@[q].0 == out@[j].0);
                    }
                }
            }
        }
        i = i + 1;
    }
    proof {
        assert(v@.take(v.len() as int) =~= v@);
    }
    out
}

/// The span a map of statement spans holds for `k`, if any.
pub open spec fn span_in(m: Map<(FnId, BlockId, usize), Span>, k: (FnId, BlockId, usize)) -> Option<Span> {
    if m.contains_key(k) {
        Some(m[k])
    } else {
        None
    }
}

/// The span recorded for a statement, if any.
pub fn statement_span(module: &MirModule, func: FnId, block: BlockId, stmt_index: usize) -> (r: Option<Span>)
    requires
        source_map_wf(module.source_map),
    ensures
        r == span_in(assoc(module.source_map.stmt_spans@), (func, block, stmt_index)),
{
    let v = &module.source_map.stmt_spans;
    let k = (func, block, stmt_index);
    let mut i: usize = 0;
    while i < v.len()
        invariant
            i <= v.len(),
            v@ == module.source_map.stmt_spans@,
            k == (func, block, stmt_index),
            keys_distinct(v@),
            forall|j: int| 0 <= j < i ==> v@[j].0 != k,
        decreases v.len() - i,
    {
        if same_stmt_key(v[i].0, k) {
            proof {
                lemma_assoc_get(v@, i as int);
                assert(v@[i as int].0 == k);
            }
            return Some(v[i].1);
        }
        i = i + 1;
    }
    proof {
        lemma_assoc_absent(v@, k);
    }
    None
}

/// Record the span of a statement, replacing any recorded before.
pub fn record_statement_span(
    module: &mut MirModule,
    func: FnId,
    block: BlockId,
    stmt_index: usize,
    span: Span,
)
    requires
        source_map_wf(old(module).source_map),
    ensures
        source_map_wf(final(module).source_map),
        assoc(final(module).source_map.stmt_spans@) == assoc(old(module).source_map.stmt_spans@).insert(
            (func, block, stmt_index),
            span,
        ),
        final(module).source_map.function_spans == old(module).source_map.function_spans,
        final(module).source_map.block_spans == old(module).source_map.block_spans,
        final(module).functions == old(module).functions,
        final(module).stats == old(module).stats,
{
    insert_stmt_span(&mut module.source_map.stmt_spans, (func, block, stmt_index), span);
}

/// Forget the span of a statement.
pub fn remove_statement_span(module: &mut MirModule, func: FnId, block: BlockId, stmt_index: usize)
    requires
        source_map_wf(old(module).source_map),
    ensures
        source_map_wf(final(module).source_map),
        assoc(final(module).source_map.stmt_spans@) == assoc(old(module).source_map.stmt_spans@).remove(
            (func, block, stmt_index),
        ),
        final(module).source_map.function_spans == old(module).source_map.function_spans,
        final(module).source_map.block_spans == old(module).source_map.block_spans,
        final(module).functions == old(module).functions,
        final(module).stats == old(module).stats,
{
    let k = (func, block, stmt_index);
    let mut out: Vec<((FnId, BlockId, usize), Span)> = Vec::new();
    let ghost v = module.source_map.stmt_spans@;
    let mut i: usize = 0;
    proof {
        assert(assoc(out@) =~= assoc(v.take(0)).remove(k));
    }
    while i < module.source_map.stmt_spans.len()
        invariant
            i <= v.len(),
            v == module.source_map.stmt_spans@,
            keys_distinct(v),
            keys_distinct(out@),
            forall|j: int|
                #![trigger out@[j]]
                0 <= j < out@.len() ==> exists|q: int| 0 <= q < i && #[trigger] v[q].0 == out@[j].0,
            assoc(out@) == assoc(v.take(i as int)).remove(k),
        decreases v.len() - i,
    {
        let ghost before = out@;
        proof {
            assert(v.take(i + 1).drop_last() =~= v.take(i as int));
        }
        let e = module.source_map.stmt_spans[i];
        if same_stmt_key(e.0, k) {
            proof {
                assert(assoc(out@) =~= assoc(v.take(i + 1)).remove(k));
            }
        } else {
            out.push(e);
            proof {
                assert(out@.drop_last() =~= before);
                assert(assoc(out@) =~= assoc(v.take(i + 1)).remove(k));
                assert forall|a: int, b: int| 0 <= a < b < out@.len() implies out@[a].0 != out@[b].0 by {
                    if b == before.len() {
                        let q = choose|q: int| 0 <= q < i && #[trigger] v[q].0 == before[a].0;
                        assert(v[q].0 != v[i as int].0);
                    }
                }
                assert forall|j: int| #![trigger out@[j]] 0 <= j < out@.len() implies exists|q: int|
                    0 <= q < i + 1 && #[trigger] v[q].0 == out@[j].0 by {
                    if j == before.len() {
                        assert(v[i as int].0 == out@[j].0);
                    } else {
                        let q = choose|q: int| 0 <= q < i && #[trigger] v[q].0 == before[j].0;
                        assert(v[q].0 == out@[j].0);
                    }
                }
            }
        }
        i = i + 1;
    }
    proof {
        assert(v.take(v.len() as int) =~= v);
    }
    module.source_map.stmt_spans = out;
}

/// Forget the spans of every statement of a block.
pub fn clear_statement_spans_for_block(module: &mut MirModule, func: FnId, block: BlockId)
    requires
        source_map_wf(old(module).source_map),
    ensures
        source_map_wf(final(module).source_map),
        assoc(final(module).source_map.stmt_spans@) == assoc(
            old(module).source_map.stmt_spans@,
        ).remove_keys(Set::new(|k: (FnId, BlockId, usize)| k.0 == func && k.1 == block && k.2 >= 0)),
        final(module).source_map.function_spans == old(module).source_map.function_spans,
        final(module).source_map.block_spans == old(module).source_map.block_spans,
        final(module).functions == old(module).functions,
        final(module).stats == old(module).stats,
{
    let out = stmt_spans_without(
        &module.source_map.stmt_spans,
        func,
        block,
        0,
        Ghost(Set::new(|k: (FnId, BlockId, usize)| k.0 == func && k.1 == block && k.2 >= 0)),
    );
    module.source_map.stmt_spans = out;
}

/// Keep, of a block's statement spans, only those of its first `len`
/// statements.
pub fn renumber_statement_spans(module: &mut MirModule, func: FnId, block: BlockId, len: usize)
    requires
        source_map_wf(old(module).source_map),
    ensures
        source_map_wf(final(module).source_map),
        assoc(final(module).source_map.stmt_spans@) == assoc(
            old(module).source_map.stmt_spans@,
        ).remove_keys(Set::new(|k: (FnId, BlockId, usize)| k.0 == func && k.1 == block && k.2 >= len)),
        final(module).source_map.function_spans == old(module).source_map.function_spans,
        final(module).source_map.block_spans == old(module).source_map.block_spans,
        final(module).functions == old(module).functions,
        final(module).stats == old(module).stats,
{
    let out = stmt_spans_without(
        &module.source_map.stmt_spans,
        func,
        block,
        len,
        Ghost(Set::new(|k: (FnId, BlockId, usize)| k.0 == func && k.1 == block && k.2 >= len)),
    );
    module.source_map.stmt_spans = out;
}
/// Reading a statement's span right after recording it gives the recorded
/// span; every other statement reads as it did before.
pub proof fn law_span_read_after_record(
    m: Map<(FnId, BlockId, usize), Span>,
    key: (FnId, BlockId, usize),
    span: Span,
    other: (FnId, BlockId, usize),
)
    requires
        other != key,
    ensures
        span_in(m.insert(key, span), key) == Some(span),
        span_in(m.insert(key, span), other) == span_in(m, other),
{
}

/// After a statement's span is removed it reads as absent; every other
/// statement reads as it did before.
pub proof fn law_span_read_after_remove(
    m: Map<(FnId, BlockId, usize), Span>,
    key: (FnId, BlockId, usize),
    other: (FnId, BlockId, usize),
)
    requires
        other != key,
    ensures
        span_in(m.remove(key), key) is None,
        span_in(m.remove(key), other) == span_in(m, other),
{
}

/// Clearing a block's statement spans leaves none of that block and every
/// span of other blocks as it was.
pub proof fn law_clear_block_spans(
    m: Map<(FnId, BlockId, usize), Span>,
    func: FnId,
    block: BlockId,
    k: (FnId, BlockId, usize),
)
    ensures
        ({
            let after = m.remove_keys(
                Set::new(|q: (FnId, BlockId, usize)| q.0 == func && q.1 == block && q.2 >= 0),
            );
            &&& (k.0 == func && k.1 == block) ==> span_in(after, k) is None
            &&& !(k.0 == func && k.1 == block) ==> span_in(after, k) == span_in(m, k)
        }),
{
}

/// Renumbering a block to `len` statements keeps the spans of its first
/// `len` statements, drops the rest, and leaves other blocks as they were.
pub proof fn law_renumber_keeps_prefix(
    m: Map<(FnId, BlockId, usize), Span>,
    func: FnId,
    block: BlockId,
    len: usize,
    k: (FnId, BlockId, usize),
)
    ensures
        ({
            let after = m.remove_keys(
                Set::new(|q: (FnId, BlockId, usize)| q.0 == func && q.1 == block && q.2 >= len),
            );
            &&& (k.0 == func && k.1 == block && k.2 >= len) ==> span_in(after, k) is None
            &&& !(k.0 == func && k.1 == block && k.2 >= len) ==> span_in(after, k) == span_in(m, k)
        }),
{
}

// ---------------------------------------------------------------------------
// Registration
// ---------------------------------------------------------------------------
/// Function spans after recording the span of `f`, if it has one.
pub open spec fn fn_spans_after(m: Map<FnId, Span>, f: MirFunction) -> Map<FnId, Span> {
    match f.source.span {
        Some(sp) => m.insert(f.id, sp),
        None => m,
    }
}

/// Block spans after recording, in order, the span of each of the blocks
/// `bs` of function `fid` that has one.
pub open spec fn block_spans_after(m: Map<(FnId, BlockId), Span>, fid: FnId, bs: Seq<BasicBlock>) -> Map<
    (FnId, BlockId),
    Span,
>
    decreases bs.len(),
{
    if bs.len() == 0 {
        m
    } else {
        let m2 = block_spans_after(m, fid, bs.drop_last());
        match bs.last().source.span {
            Some(sp) => m2.insert((fid, bs.last().id), sp),
            None => m2,
        }
    }
}

fn register_parts(stats: &mut MirStats, map: &mut MirSourceMap, func: &MirFunction)
    requires
        stats_wf(*old(stats)),
        source_map_wf(*old(map)),
    ensures
        stats_wf(*final(stats)),
        source_map_wf(*final(map)),
        same_counters(*old(stats), *final(stats)),
        final(stats).instance_keys@.len() == old(stats).instance_keys@.len() + 1,
        forall|i: int|
            0 <= i < old(stats).instance_keys@.len() ==> final(stats).instance_keys@[i] == old(
                stats,
            ).instance_keys@[i],
        instance_view(final(stats).instance_keys@.last()) == instance_view(func.instance),
        graph_view(final(stats).direct_call_graph@) == graph_after(
            graph_view(old(stats).direct_call_graph@),
            *func,
        ),
        assoc(final(map).function_spans@) == fn_spans_after(assoc(old(map).function_spans@), *func),
        assoc(final(map).block_spans@) == block_spans_after(
            assoc(old(map).block_spans@),
            func.id,
            func.blocks@,
        ),
        final(map).stmt_spans == old(map).stmt_spans,
{
    stats.register_function(func);
    if let Some(span) = func.source.span {
        insert_fn_span(&mut map.function_spans, func.id, span);
    }
    let ghost m0 = assoc(map.block_spans@);
    let mut i: usize = 0;
    proof {
        assert(func.blocks@.take(0) =~= Seq::<BasicBlock>::empty());
    }
    while i < func.blocks.len()
        invariant
            i <= func.blocks.len(),
            source_map_wf(*map),
            assoc(map.block_spans@) == block_spans_after(m0, func.id, func.blocks@.take(i as int)),
            assoc(map.function_spans@) == fn_spans_after(assoc(old(map).function_spans@), *func),
            map.stmt_spans == old(map).stmt_spans,
        decreases func.blocks.len() - i,
    {
        proof {
            assert(func.blocks@.take(i + 1).drop_last() =~= func.blocks@.take(i as int));
        }
        if let Some(span) = func.blocks[i].source.span {
            insert_block_span(&mut map.block_spans, (func.id, func.blocks[i].id), span);
        }
        i = i + 1;
    }
    proof {
        assert(func.blocks@.take(func.blocks.len() as int) =~= func.blocks@);
    }
}

/// Record `func` in the module's statistics and its function and block
/// spans in the source map.
pub fn register_function_metadata(module: &mut MirModule, func: &MirFunction)
    requires
        stats_wf(old(module).stats),
        source_map_wf(old(module).source_map),
    ensures
        stats_wf(final(module).stats),
        source_map_wf(final(module).source_map),
        same_counters(old(module).stats, final(module).stats),
        final(module).stats.instance_keys@.len() == old(module).stats.instance_keys@.len() + 1,
        forall|i: int|
            0 <= i < old(module).stats.instance_keys@.len() ==> final(module).stats.instance_keys@[i]
                == old(module).stats.instance_keys@[i],
        instance_view(final(module).stats.instance_keys@.last()) == instance_view(func.instance),
        graph_view(final(module).stats.direct_call_graph@) == graph_after(
            graph_view(old(module).stats.direct_call_graph@),
            *func,
        ),
        assoc(final(module).source_map.function_spans@) == fn_spans_after(
            assoc(old(module).source_map.function_spans@),
            *func,
        ),
        assoc(final(module).source_map.block_spans@) == block_spans_after(
            assoc(old(module).source_map.block_spans@),
            func.id,
            func.blocks@,
        ),
        final(module).source_map.stmt_spans == old(module).source_map.stmt_spans,
        final(module).functions == old(module).functions,
        final(module).entry_fn == old(module).entry_fn,
{
    register_parts(&mut module.stats, &mut module.source_map, func);
}

/// The call graph after registering `fs` in order, from none.
pub open spec fn graph_fold(fs: Seq<MirFunction>) -> Map<Seq<char>, Set<Seq<char>>>
    decreases fs.len(),
{
    if fs.len() == 0 {
        Map::empty()
    } else {
        graph_after(graph_fold(fs.drop_last()), fs.last())
    }
}

pub open spec fn fn_spans_fold(fs: Seq<MirFunction>) -> Map<FnId, Span>
    decreases fs.len(),
{
    if fs.len() == 0 {
        Map::empty()
    } else {
        fn_spans_after(fn_spans_fold(fs.drop_last()), fs.last())
    }
}

pub open spec fn block_spans_fold(fs: Seq<MirFunction>) -> Map<(FnId, BlockId), Span>
    decreases fs.len(),
{
    if fs.len() == 0 {
        Map::empty()
    } else {
        block_spans_after(block_spans_fold(fs.drop_last()), fs.last().id, fs.last().blocks@)
    }
}

/// Fresh statistics: nothing recorded.
pub open spec fn stats_empty(s: MirStats) -> bool {
    &&& s.instance_keys@.len() == 0
    &&& s.direct_call_graph@.len() == 0
    &&& s.optimization_rounds == 0
    &&& s.validation_runs == 0
    &&& s.provenance is None
    &&& s.optimization_trace@.len() == 0
    &&& s.pass_reductions@.len() == 0
}

impl Default for MirStats {
    fn default() -> (r: Self)
        ensures
            stats_empty(r),
    {
        MirStats {
            instance_keys: Vec::new(),
            direct_call_graph: Vec::new(),
            optimization_rounds: 0,
            validation_runs: 0,
            provenance: None,
            optimization_trace: Vec::new(),
            pass_reductions: Vec::new(),
        }
    }
}

impl Default for MirSourceMap {
    fn default() -> (r: Self)
        ensures
            r.function_spans@.len() == 0,
            r.block_spans@.len() == 0,
            r.stmt_spans@.len() == 0,
    {
        MirSourceMap { function_spans: Vec::new(), block_spans: Vec::new(), stmt_spans: Vec::new() }
    }
}

/// Rebuild the statistics and the source map from the module's functions:
/// everything recorded before is dropped, then each function is registered
/// in order.
pub fn sync_module_metadata(module: &mut MirModule)
    ensures
        final(module).functions == old(module).functions,
        final(module).entry_fn == old(module).entry_fn,
        stats_wf(final(module).stats),
        source_map_wf(final(module).source_map),
        final(module).stats.optimization_rounds == 0,
        final(module).stats.validation_runs == 0,
        final(module).stats.provenance is None,
        final(module).stats.optimization_trace@.len() == 0,
        final(module).stats.pass_reductions@.len() == 0,
        final(module).stats.instance_keys@.len() == old(module).functions@.len(),
        forall|i: int|
            0 <= i < old(module).functions@.len() ==> instance_view(
                #[trigger] final(module).stats.instance_keys@[i],
            ) == instance_view(old(module).functions@[i].instance),
        graph_view(final(module).stats.direct_call_graph@) == graph_fold(old(module).functions@),
        assoc(final(module).source_map.function_spans@) == fn_spans_fold(old(module).functions@),
        assoc(final(module).source_map.block_spans@) == block_spans_fold(old(module).functions@),
        final(module).source_map.stmt_spans@.len() == 0,
{
    module.source_map = MirSourceMap::default();
    module.stats = MirStats::default();
    let ghost fs = module.functions@;
    let mut i: usize = 0;
    proof {
        assert(fs.take(0) =~= Seq::<MirFunction>::empty());
        assert(graph_view(module.stats.direct_call_graph@) =~= Map::<Seq<char>, Set<Seq<char>>>::empty());
        assert(assoc(module.source_map.function_spans@) =~= Map::<FnId, Span>::empty());
        assert(assoc(module.source_map.block_spans@) =~= Map::<(FnId, BlockId), Span>::empty());
    }
    while i < module.functions.len()
        invariant
            i <= fs.len(),
            fs == module.functions@,
            module.functions == old(module).functions,
            module.entry_fn == old(module).entry_fn,
            stats_wf(module.stats),
            source_map_wf(module.source_map),
            module.stats.optimization_rounds == 0,
            module.stats.validation_runs == 0,
            module.stats.provenance is None,
            module.stats.optimization_trace@.len() == 0,
            module.stats.pass_reductions@.len() == 0,
            module.stats.instance_keys@.len() == i,
            forall|j: int|
                0 <= j < i ==> instance_view(#[trigger] module.stats.instance_keys@[j]) == instance_view(
                    fs[j].instance,
                ),
            graph_view(module.stats.direct_call_graph@) == graph_fold(fs.take(i as int)),
            assoc(module.source_map.function_spans@) == fn_spans_fold(fs.take(i as int)),
            assoc(module.source_map.block_spans@) == block_spans_fold(fs.take(i as int)),
            module.source_map.stmt_spans@.len() == 0,
        decreases fs.len() - i,
    {
        proof {
            assert(fs.take(i + 1).drop_last() =~= fs.take(i as int));
        }
        register_parts(&mut module.stats, &mut module.source_map, &module.functions[i]);
        i = i + 1;
    }
    proof {
        assert(fs.take(fs.len() as int) =~= fs);
    }
}
} // verus!
