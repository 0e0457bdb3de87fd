//! Deep copies of MIR modules. A copy agrees with the module it was taken
//! from on every field, compared through the fields' views (strings by their
//! characters, MIR by its view, lists element by element).
use vstd::prelude::*;

use crate::metadata::{clone_instance, clone_strings, instance_view};
use crate::mir::{
    blocks_view, clone_block, clone_local, locals_view, BasicBlock, FnId, InstanceKey, MirFnSig,
    MirFunction, MirImport, MirLocal, MirModule, MirSourceMap, MirStats, TypeTable,
};
use crate::types::clone_type;

verus! {

// ---------------------------------------------------------------------------
// Lists
// ---------------------------------------------------------------------------
/// A copy of a list of plain values.
fn copy_vec<T: Copy>(v: &Vec<T>) -> (r: Vec<T>)
    ensures
        r@ == v@,
{
    let mut out: Vec<T> = Vec::new();
    let mut i: usize = 0;
    while i < v.len()
        invariant
            i <= v.len(),
            out@ == v@.take(i as int),
        decreases v.len() - i,
    {
        out.push(v[i]);
        proof {
            assert(out@ =~= v@.take(i + 1));
        }
        i = i + 1;
    }
    proof {
        assert(v@.take(v.len() as int) =~= v@);
    }
    out
}

fn copy_string_pairs(v: &Vec<(String, String)>) -> (r: Vec<(String, String)>)
    ensures
        r@ == v@,
{
    let mut out: Vec<(String, String)> = Vec::new();
    let mut i: usize = 0;
    while i < v.len()
        invariant
            i <= v.len(),
            out@ == v@.take(i as int),
        decreases v.len() - i,
    {
        out.push((v[i].0.clone(), v[i].1.clone()));
        proof {
            assert(out@ =~= v@.take(i + 1));
        }
        i = i + 1;
    }
    proof {
        assert(v@.take(v.len() as int) =~= v@);
    }
    out
}

fn copy_typed_locals(v: &Vec<(u32, String)>) -> (r: Vec<(u32, String)>)
    ensures
        r@ == v@,
{
    let mut out: Vec<(u32, String)> = Vec::new();
    let mut i: usize = 0;
    while i < v.len()
        invariant
            i <= v.len(),
            out@ == v@.take(i as int),
        decreases v.len() - i,
    {
        out.push((v[i].0, v[i].1.clone()));
        proof {
            assert(out@ =~= v@.take(i + 1));
        }
        i = i + 1;
    }
    proof {
        assert(v@.take(v.len() as int) =~= v@);
    }
    out
}

/// A list of (name, list of names), viewed element by element.
pub open spec fn named_lists_view(s: Seq<(String, Vec<String>)>) -> Seq<(String, Seq<String>)> {
    s.map_values(|p: (String, Vec<String>)| (p.0, p.1@))
}

fn copy_named_lists(v: &Vec<(String, Vec<String>)>) -> (r: Vec<(String, Vec<String>)>)
    ensures
        named_lists_view(r@) == named_lists_view(v@),
{
    let mut out: Vec<(String, Vec<String>)> = Vec::new();
    let mut i: usize = 0;
    while i < v.len()
        invariant
            i <= v.len(),
            named_lists_view(out@) == named_lists_view(v@).take(i as int),
        decreases v.len() - i,
    {
        let x = (v[i].0.clone(), clone_strings(&v[i].1));
        let ghost before = out@;
        out.push(x);
        proof {
            assert(named_lists_view(out@) =~= named_lists_view(before).push((x.0, x.1@)));
            assert(named_lists_view(out@) =~= named_lists_view(v@).take(i + 1));
        }
        i = i + 1;
    }
    proof {
        assert(named_lists_view(v@).take(v.len() as int) =~= named_lists_view(v@));
    }
    out
}

/// Struct layouts, viewed element by element.
pub open spec fn struct_defs_view(s: Seq<(String, Vec<(String, String)>)>) -> Seq<
    (String, Seq<(String, String)>),
> {
    s.map_values(|p: (String, Vec<(String, String)>)| (p.0, p.1@))
}

fn copy_struct_defs(v: &Vec<(String, Vec<(String, String)>)>) -> (r: Vec<
    (String, Vec<(String, String)>),
>)
    ensures
        struct_defs_view(r@) == struct_defs_view(v@),
{
    let mut out: Vec<(String, Vec<(String, String)>)> = Vec::new();
    let mut i: usize = 0;
    while i < v.len()
        invariant
            i <= v.len(),
            struct_defs_view(out@) == struct_defs_view(v@).take(i as int),
        decreases v.len() - i,
    {
        let x = (v[i].0.clone(), copy_string_pairs(&v[i].1));
        let ghost before = out@;
        out.push(x);
        proof {
            assert(struct_defs_view(out@) =~= struct_defs_view(before).push((x.0, x.1@)));
            assert(struct_defs_view(out@) =~= struct_defs_view(v@).take(i + 1));
        }
        i = i + 1;
    }
    proof {
        assert(struct_defs_view(v@).take(v.len() as int) =~= struct_defs_view(v@));
    }
    out
}

/// Enum variants, viewed element by element.
pub open spec fn enum_defs_view(s: Seq<(String, Vec<(String, Vec<String>)>)>) -> Seq<
    (String, Seq<(String, Seq<String>)>),
> {
    s.map_values(|p: (String, Vec<(String, Vec<String>)>)| (p.0, named_lists_view(p.1@)))
}

fn copy_enum_defs(v: &Vec<(String, Vec<(String, Vec<String>)>)>) -> (r: Vec<
    (String, Vec<(String, Vec<String>)>),
>)
    ensures
        enum_defs_view(r@) == enum_defs_view(v@),
{
    let mut out: Vec<(String, Vec<(String, Vec<String>)>)> = Vec::new();
    let mut i: usize = 0;
    while i < v.len()
        invariant
            i <= v.len(),
            enum_defs_view(out@) == enum_defs_view(v@).take(i as int),
        decreases v.len() - i,
    {
        let x = (v[i].0.clone(), copy_named_lists(&v[i].1));
        let ghost before = out@;
        out.push(x);
        proof {
            assert(enum_defs_view(out@) =~= enum_defs_view(before).push((x.0, named_lists_view(x.1@))));
            assert(enum_defs_view(out@) =~= enum_defs_view(v@).take(i + 1));
        }
        i = i + 1;
    }
    proof {
        assert(enum_defs_view(v@).take(v.len() as int) =~= enum_defs_view(v@));
    }
    out
}

/// Function signatures, viewed element by element.
pub open spec fn sigs_view(s: Seq<(String, MirFnSig)>) -> Seq<(String, (String, Seq<String>, String))> {
    s.map_values(|p: (String, MirFnSig)| (p.0, (p.1.name, p.1.params@, p.1.ret)))
}

fn copy_sigs(v: &Vec<(String, MirFnSig)>) -> (r: Vec<(String, MirFnSig)>)
    ensures
        sigs_view(r@) == sigs_view(v@),
{
    let mut out: Vec<(String, MirFnSig)> = Vec::new();
    let mut i: usize = 0;
    while i < v.len()
        invariant
            i <= v.len(),
            sigs_view(out@) == sigs_view(v@).take(i as int),
        decreases v.len() - i,
    {
        let sig = MirFnSig {
            name: v[i].1.name.clone(),
            params: clone_strings(&v[i].1.params),
            ret: v[i].1.ret.clone(),
        };
        let x = (v[i].0.clone(), sig);
        let ghost before = out@;
        out.push(x);
        proof {
            assert(sigs_view(out@) =~= sigs_view(before).push((x.0, (x.1.name, x.1.params@, x.1.ret))));
            assert(sigs_view(out@) =~= sigs_view(v@).take(i + 1));
        }
        i = i + 1;
    }
    proof {
        assert(sigs_view(v@).take(v.len() as int) =~= sigs_view(v@));
    }
    out
}

/// Imports, viewed element by element.
pub open spec fn imports_view(s: Seq<MirImport>) -> Seq<(String, String, Seq<String>, Option<String>)> {
    s.map_values(|m: MirImport| (m.interface, m.name, m.param_types@, m.return_type))
}

fn copy_imports(v: &Vec<MirImport>) -> (r: Vec<MirImport>)
    ensures
        imports_view(r@) == imports_view(v@),
{
    let mut out: Vec<MirImport> = Vec::new();
    let mut i: usize = 0;
    while i < v.len()
        invariant
            i <= v.len(),
            imports_view(out@) == imports_view(v@).take(i as int),
        decreases v.len() - i,
    {
        let ret = match &v[i].return_type {
            Some(s) => Some(s.clone()),
            None => None,
        };
        let x = MirImport {
            interface: v[i].interface.clone(),
            name: v[i].name.clone(),
            param_types: clone_strings(&v[i].param_types),
            return_type: ret,
        };
        let ghost before = out@;
        out.push(x);
        proof {
            assert(imports_view(out@) =~= imports_view(before).push(
                (x.interface, x.name, x.param_types@, x.return_type),
            ));
            assert(imports_view(out@) =~= imports_view(v@).take(i + 1));
        }
        i = i + 1;
    }
    proof {
        assert(imports_view(v@).take(v.len() as int) =~= imports_view(v@));
    }
    out
}

/// Instance keys, viewed element by element.
pub open spec fn instances_view(s: Seq<InstanceKey>) -> Seq<(Seq<char>, Seq<Seq<char>>, Seq<char>)> {
    s.map_values(|k: InstanceKey| instance_view(k))
}

fn copy_instances(v: &Vec<InstanceKey>) -> (r: Vec<InstanceKey>)
    ensures
        instances_view(r@) == instances_view(v@),
{
    let mut out: Vec<InstanceKey> = Vec::new();
    let mut i: usize = 0;
    while i < v.len()
        invariant
            i <= v.len(),
            instances_view(out@) == instances_view(v@).take(i as int),
        decreases v.len() - i,
    {
        let x = clone_instance(&v[i]);
        let ghost before = out@;
        out.push(x);
        proof {
            assert(instances_view(out@) =~= instances_view(before).push(instance_view(x)));
            assert(instances_view(out@) =~= instances_view(v@).take(i + 1));
        }
        i = i + 1;
    }
    proof {
        assert(instances_view(v@).take(v.len() as int) =~= instances_view(v@));
    }
    out
}

fn copy_locals(v: &Vec<MirLocal>) -> (r: Vec<MirLocal>)
    ensures
        locals_view(r@) == locals_view(v@),
{
    let mut out: Vec<MirLocal> = Vec::new();
    let mut i: usize = 0;
    while i < v.len()
        invariant
            i <= v.len(),
            locals_view(out@) == locals_view(v@).take(i as int),
        decreases v.len() - i,
    {
        let x = clone_local(&v[i]);
        let ghost before = out@;
        out.push(x);
        proof {
            assert(locals_view(out@) =~= locals_view(before).push(crate::mir::local_view(x)));
            assert(locals_view(out@) =~= locals_view(v@).take(i + 1));
        }
        i = i + 1;
    }
    proof {
        assert(locals_view(v@).take(v.len() as int) =~= locals_view(v@));
    }
    out
}

fn copy_blocks(v: &Vec<BasicBlock>) -> (r: Vec<BasicBlock>)
    ensures
        blocks_view(r@) == blocks_view(v@),
{
    let mut out: Vec<BasicBlock> = Vec::new();
    let mut i: usize = 0;
    while i < v.len()
        invariant
            i <= v.len(),
            blocks_view(out@) == blocks_view(v@).take(i as int),
        decreases v.len() - i,
    {
        let x = clone_block(&v[i]);
        let ghost before = out@;
        out.push(x);
        proof {
            assert(blocks_view(out@) =~= blocks_view(before).push(crate::mir::block_view(x)));
            assert(blocks_view(out@) =~= blocks_view(v@).take(i + 1));
        }
        i = i + 1;
    }
    proof {
        assert(blocks_view(v@).take(v.len() as int) =~= blocks_view(v@));
    }
    out
}

// ---------------------------------------------------------------------------
// Functions and modules
// ---------------------------------------------------------------------------
/// `b` agrees with `a` on every field.
pub open spec fn same_function(a: MirFunction, b: MirFunction) -> bool {
    &&& b.id == a.id
    &&& b.name == a.name
    &&& instance_view(b.instance) == instance_view(a.instance)
    &&& locals_view(b.params@) == locals_view(a.params@)
    &&& b.return_ty@ == a.return_ty@
    &&& locals_view(b.locals@) == locals_view(a.locals@)
    &&& blocks_view(b.blocks@) == blocks_view(a.blocks@)
    &&& b.entry == a.entry
    &&& b.struct_typed_locals@ == a.struct_typed_locals@
    &&& b.enum_typed_locals@ == a.enum_typed_locals@
    &&& b.type_params@ == a.type_params@
    &&& b.source == a.source
    &&& b.is_exported == a.is_exported
}

/// A copy of one function.
pub fn copy_function(f: &MirFunction) -> (r: MirFunction)
    ensures
        same_function(*f, r),
{
    MirFunction {
        id: f.id,
        name: f.name.clone(),
        instance: clone_instance(&f.instance),
        params: copy_locals(&f.params),
        return_ty: clone_type(&f.return_ty),
        locals: copy_locals(&f.locals),
        blocks: copy_blocks(&f.blocks),
        entry: f.entry,
        struct_typed_locals: copy_typed_locals(&f.struct_typed_locals),
        enum_typed_locals: copy_typed_locals(&f.enum_typed_locals),
        type_params: clone_strings(&f.type_params),
        source: f.source,
        is_exported: f.is_exported,
    }
}

fn copy_functions(v: &Vec<MirFunction>) -> (r: Vec<MirFunction>)
    ensures
        r@.len() == v@.len(),
        forall|i: int| 0 <= i < v@.len() ==> same_function(v@[i], #[trigger] r@[i]),
{
    let mut out: Vec<MirFunction> = Vec::new();
    let mut i: usize = 0;
    while i < v.len()
        invariant
            i <= v.len(),
            out@.len() == i,
            forall|j: int| 0 <= j < i ==> same_function(v@[j], #[trigger] out@[j]),
        decreases v.len() - i,
    {
        out.push(copy_function(&v[i]));
        i = i + 1;
    }
    out
}

/// `b` agrees with `a` on every statistic but, possibly, the provenance.
pub open spec fn same_stats_but_provenance(a: MirStats, b: MirStats) -> bool {
    &&& instances_view(b.instance_keys@) == instances_view(a.instance_keys@)
    &&& named_lists_view(b.direct_call_graph@) == named_lists_view(a.direct_call_graph@)
    &&& b.optimization_rounds == a.optimization_rounds
    &&& b.validation_runs == a.validation_runs
    &&& b.optimization_trace@ == a.optimization_trace@
    &&& b.pass_reductions@ == a.pass_reductions@
}

/// `b` agrees with `a` on everything but, possibly, the recorded provenance.
pub open spec fn same_module_but_provenance(a: MirModule, b: MirModule) -> bool {
    &&& b.functions@.len() == a.functions@.len()
    &&& forall|i: int|
        0 <= i < a.functions@.len() ==> same_function(a.functions@[i], #[trigger] b.functions@[i])
    &&& b.entry_fn == a.entry_fn
    &&& struct_defs_view(b.type_table.struct_defs@) == struct_defs_view(a.type_table.struct_defs@)
    &&& enum_defs_view(b.type_table.enum_defs@) == enum_defs_view(a.type_table.enum_defs@)
    &&& sigs_view(b.type_table.fn_sigs@) == sigs_view(a.type_table.fn_sigs@)
    &&& struct_defs_view(b.struct_defs@) == struct_defs_view(a.struct_defs@)
    &&& enum_defs_view(b.enum_defs@) == enum_defs_view(a.enum_defs@)
    &&& imports_view(b.imports@) == imports_view(a.imports@)
    &&& b.source_map.function_spans@ == a.source_map.function_spans@
    &&& b.source_map.block_spans@ == a.source_map.block_spans@
    &&& b.source_map.stmt_spans@ == a.source_map.stmt_spans@
    &&& same_stats_but_provenance(a.stats, b.stats)
}

/// `b` is a copy of `a`.
pub open spec fn same_module(a: MirModule, b: MirModule) -> bool {
    &&& same_module_but_provenance(a, b)
    &&& b.stats.provenance == a.stats.provenance
}

fn copy_stats(s: &MirStats) -> (r: MirStats)
    ensures
        same_stats_but_provenance(*s, r),
        r.provenance == s.provenance,
{
    MirStats {
        instance_keys: copy_instances(&s.instance_keys),
        direct_call_graph: copy_named_lists(&s.direct_call_graph),
        optimization_rounds: s.optimization_rounds,
        validation_runs: s.validation_runs,
        provenance: match &s.provenance {
            Some(p) => Some(p.clone()),
            None => None,
        },
        optimization_trace: clone_strings(&s.optimization_trace),
        pass_reductions: copy_reductions(&s.pass_reductions),
    }
}

fn copy_reductions(v: &Vec<(String, crate::mir::ReductionStats)>) -> (r: Vec<
    (String, crate::mir::ReductionStats),
>)
    ensures
        r@ == v@,
{
    let mut out: Vec<(String, crate::mir::ReductionStats)> = Vec::new();
    let mut i: usize = 0;
    while i < v.len()
        invariant
            i <= v.len(),
            out@ == v@.take(i as int),
        decreases v.len() - i,
    {
        out.push((v[i].0.clone(), v[i].1));
        proof {
            assert(out@ =~= v@.take(i + 1));
        }
        i = i + 1;
    }
    proof {
        assert(v@.take(v.len() as int) =~= v@);
    }
    out
}

/// A copy of a whole module.
pub fn copy_module(m: &MirModule) -> (r: MirModule)
    ensures
        same_module(*m, r),
{
    MirModule {
        functions: copy_functions(&m.functions),
        entry_fn: m.entry_fn,
        type_table: TypeTable {
            struct_defs: copy_struct_defs(&m.type_table.struct_defs),
            enum_defs: copy_enum_defs(&m.type_table.enum_defs),
            fn_sigs: copy_sigs(&m.type_table.fn_sigs),
        },
        struct_defs: copy_struct_defs(&m.struct_defs),
        enum_defs: copy_enum_defs(&m.enum_defs),
        imports: copy_imports(&m.imports),
        source_map: MirSourceMap {
            function_spans: copy_vec(&m.source_map.function_spans),
            block_spans: copy_vec(&m.source_map.block_spans),
            stmt_spans: copy_vec(&m.source_map.stmt_spans),
        },
        stats: copy_stats(&m.stats),
    }
}

} // verus!
