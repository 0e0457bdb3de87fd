//! Construction and finishing helpers for lowered functions: default
//! instances and sources, function ids for names, and appending a finished
//! function to a module together with its metadata.
use vstd::prelude::*;

use crate::metadata::{
    assoc, block_spans_after, fn_spans_after, graph_after, graph_view, instance_view, same_counters,
    source_map_wf, stats_wf, register_function_metadata,
};
use crate::mir::{BasicBlock, BlockId, FnId, InstanceKey, MirFunction, MirLocal, MirModule, MirStmt, Terminator};
use crate::mir_ops::{default_block_source, default_function_source, legacy_fn_id, legacy_hash};
use crate::types::Type;
use vstd::string::{StringExecFns, StringSliceAdditionalSpecFns};

verus! {

/// The instance a function gets when lowering recorded none: its own name,
/// no substitution, the default target shape.
pub open spec fn default_instance_of(k: InstanceKey, name: Seq<char>) -> bool {
    &&& k.item@ == name
    &&& k.substitution@.len() == 0
    &&& k.target_shape@ == "default"@
}

/// The default instance of a function named `name`.
pub fn default_function_instance(name: &str) -> (r: InstanceKey)
    ensures
        default_instance_of(r, name@),
{
    InstanceKey::simple(name)
}

/// `after` is `before` with every field but the instance unchanged.
pub open spec fn same_but_instance(before: MirFunction, after: MirFunction) -> bool {
    &&& after.id == before.id
    &&& after.name == before.name
    &&& after.params == before.params
    &&& after.return_ty == before.return_ty
    &&& after.locals == before.locals
    &&& after.blocks@ == before.blocks@
    &&& after.entry == before.entry
    &&& after.struct_typed_locals == before.struct_typed_locals
    &&& after.enum_typed_locals == before.enum_typed_locals
    &&& after.type_params == before.type_params
    &&& after.source == before.source
    &&& after.is_exported == before.is_exported
}

/// What finishing does to a function: a function whose instance names no
/// item gets the default instance of its name; nothing else changes.
pub open spec fn finished(before: MirFunction, after: MirFunction) -> bool {
    &&& same_but_instance(before, after)
    &&& if before.instance.item@.len() == 0 {
        default_instance_of(after.instance, before.name@)
    } else {
        after.instance == before.instance
    }
}

/// Give the function the default instance of its name if it has none.
pub fn finalize_function(function: &mut MirFunction)
    ensures
        finished(*old(function), *final(function)),
{
    if function.instance.item.as_str().unicode_len() == 0 {
        function.instance = default_function_instance(function.name.as_str());
    }
}

/// Give the block the default source if it has none. A block with no span
/// already carries the default source, so the block is left as it was.
pub fn finalize_block(block: &mut BasicBlock)
    ensures
        *final(block) == *old(block),
{
    if block.source.span.is_none() {
        block.source = default_block_source();
    }
}

/// Finish every block of the function: the blocks are left as they were.
pub fn finalize_function_blocks(function: &mut MirFunction)
    ensures
        same_but_instance(*old(function), *final(function)),
        final(function).instance == old(function).instance,
{
    let mut i: usize = 0;
    while i < function.blocks.len()
        invariant
            i <= function.blocks@.len(),
            same_but_instance(*old(function), *function),
            function.instance == old(function).instance,
        decreases function.blocks@.len() - i,
    {
        finalize_block(&mut function.blocks[i]);
        proof {
            assert(function.blocks@ =~= old(function).blocks@);
        }
        i = i + 1;
    }
}

/// Finish the function, its blocks and its source.
pub fn finalize_function_metadata(function: &mut MirFunction)
    ensures
        finished(*old(function), *final(function)),
{
    finalize_function(function);
    finalize_function_blocks(function);
    if function.source.span.is_none() {
        function.source = default_function_source();
    }
}

/// Finish `function`, record its metadata in the module, and append it.
pub fn push_function(mir: &mut MirModule, function: MirFunction)
    requires
        stats_wf(old(mir).stats),
        source_map_wf(old(mir).source_map),
    ensures
        exists|f: MirFunction|
            #![trigger finished(function, f)]
            {
                &&& finished(function, f)
                &&& final(mir).functions@ == old(mir).functions@.push(f)
                &&& instance_view(final(mir).stats.instance_keys@.last()) == instance_view(f.instance)
                &&& graph_view(final(mir).stats.direct_call_graph@) == graph_after(
                    graph_view(old(mir).stats.direct_call_graph@),
                    f,
                )
                &&& assoc(final(mir).source_map.function_spans@) == fn_spans_after(
                    assoc(old(mir).source_map.function_spans@),
                    f,
                )
                &&& assoc(final(mir).source_map.block_spans@) == block_spans_after(
                    assoc(old(mir).source_map.block_spans@),
                    f.id,
                    f.blocks@,
                )
            },
        stats_wf(final(mir).stats),
        source_map_wf(final(mir).source_map),
        same_counters(old(mir).stats, final(mir).stats),
        final(mir).stats.instance_keys@.len() == old(mir).stats.instance_keys@.len() + 1,
        forall|i: int|
            0 <= i < old(mir).stats.instance_keys@.len() ==> final(mir).stats.instance_keys@[i]
                == old(mir).stats.instance_keys@[i],
        final(mir).source_map.stmt_spans == old(mir).source_map.stmt_spans,
        final(mir).entry_fn == old(mir).entry_fn,
{
    let mut function = function;
    finalize_function_metadata(&mut function);
    register_function_metadata(mir, &function);
    mir.functions.push(function);
}

/// The id a function named `name` gets: its legacy hash, or `next_fn_id`
/// where the hash is zero.
pub fn infer_fn_id(name: &str, next_fn_id: u32) -> (r: FnId)
    ensures
        r.0 == (if legacy_hash(name.spec_bytes()) == 0 {
            next_fn_id
        } else {
            legacy_hash(name.spec_bytes())
        }),
{
    let inferred = legacy_fn_id(name);
    if inferred.0 == 0 {
        FnId(next_fn_id)
    } else {
        inferred
    }
}

/// A block with the default source.
pub fn fallback_block(id: BlockId, stmts: Vec<MirStmt>, terminator: Terminator) -> (r: BasicBlock)
    ensures
        r.id == id,
        r.stmts == stmts,
        r.terminator == terminator,
        r.source.span is None,
{
    BasicBlock { id, stmts, terminator, source: default_block_source() }
}

/// A function with the default instance of its name and the default source.
pub fn fallback_function(
    id: FnId,
    name: String,
    params: Vec<MirLocal>,
    return_ty: Type,
    locals: Vec<MirLocal>,
    blocks: Vec<BasicBlock>,
    entry: BlockId,
    struct_typed_locals: Vec<(u32, String)>,
    enum_typed_locals: Vec<(u32, String)>,
    type_params: Vec<String>,
    is_exported: bool,
) -> (r: MirFunction)
    ensures
        r.id == id,
        r.name == name,
        default_instance_of(r.instance, name@),
        r.params == params,
        r.return_ty == return_ty,
        r.locals == locals,
        r.blocks == blocks,
        r.entry == entry,
        r.struct_typed_locals == struct_typed_locals,
        r.enum_typed_locals == enum_typed_locals,
        r.type_params == type_params,
        r.source.span is None,
        r.is_exported == is_exported,
{
    let instance = default_function_instance(name.as_str());
    MirFunction {
        id,
        name,
        instance,
        params,
        return_ty,
        locals,
        blocks,
        entry,
        struct_typed_locals,
        enum_typed_locals,
        type_params,
        source: default_function_source(),
        is_exported,
    }
}

} // verus!
