//! Lowering-time helpers over finished MIR: marking where a module came
//! from, desugaring backend-illegal operands, and the one-line reports that
//! compare two lowerings of the same program.
use vstd::prelude::*;

use crate::deep_copy::{copy_module, same_module_but_provenance};
use crate::mir::{opt_string_view, FnId, MirFunction, MirModule, MirProvenance};
use crate::mir_ops::{
    compare_module_shapes, mir_provenance, module_snapshot, optimization_trace,
    provenance_text, push_optimization_trace, runtime_entry, runtime_entry_name,
    set_mir_provenance, snapshot_text,
};
use crate::opt::desugar::{desugar_if_exprs, desugar_loop_exprs, desugar_try_exprs, desugared, fn_count, fn_temps, max_local_id};
use crate::opt::lowering::DesugarMode;
use crate::opt::headroom::{has_room, module_has_room, module_room};
use crate::legality::{is_backend_legal_module, module_legal};
use crate::strutil::{concat_str, decimal, strings_view, u64_to_decimal};
use crate::types::Type;
use vstd::string::StringExecFns;

verus! {

// ---------------------------------------------------------------------------
// Debug rendering of names
// ---------------------------------------------------------------------------
/// The `{:?}` rendering of a string: quoted, with std's escapes.
pub uninterp spec fn debug_quoted(s: Seq<char>) -> Seq<char>;

/// The `{:?}` rendering of a string (std's `Debug` for `str`).
#[verifier::external_body]
pub(crate) fn debug_str(s: &str) -> (r: String)
    ensures
        r@ == debug_quoted(s@),
{
    format!("{:?}", s)
}

/// `{:?}` of an optional name: `Some("..")` or `None`.
pub open spec fn opt_debug(o: Option<Seq<char>>) -> Seq<char> {
    match o {
        Some(s) => "Some("@ + debug_quoted(s) + ")"@,
        None => "None"@,
    }
}

fn opt_debug_str(o: Option<&str>) -> (r: String)
    ensures
        r@ == opt_debug(
            match o {
                Some(s) => Some(s@),
                None => None,
            },
        ),
{
    match o {
        Some(s) => {
            let mut out = concat_str("Some(", debug_str(s).as_str());
            out.append(")");
            out
        },
        None => "None".to_owned(),
    }
}

pub open spec fn bool_text(b: bool) -> Seq<char> {
    if b {
        "true"@
    } else {
        "false"@
    }
}

pub(crate) fn bool_str(b: bool) -> (r: &'static str)
    ensures
        r@ == bool_text(b),
{
    if b {
        "true"
    } else {
        "false"
    }
}

// ---------------------------------------------------------------------------
// Provenance
// ---------------------------------------------------------------------------
/// Mark the module as lowered from the legacy AST.
pub fn mark_legacy_mir(module: &mut MirModule)
    ensures
        opt_string_view(final(module).stats.provenance) == Some(provenance_text(MirProvenance::LegacyAst)),
        final(module).functions == old(module).functions,
        final(module).stats.optimization_trace == old(module).stats.optimization_trace,
{
    set_mir_provenance(module, MirProvenance::LegacyAst);
}

/// Mark the module as lowered from CoreHIR through the fallback path.
pub fn mark_corehir_fallback_mir(module: &mut MirModule)
    ensures
        opt_string_view(final(module).stats.provenance) == Some(
            provenance_text(MirProvenance::CoreHirFallback),
        ),
        final(module).functions == old(module).functions,
        final(module).stats.optimization_trace == old(module).stats.optimization_trace,
{
    set_mir_provenance(module, MirProvenance::CoreHirFallback);
}

/// Mark the module as lowered from CoreHIR.
pub fn mark_corehir_mir(module: &mut MirModule)
    ensures
        opt_string_view(final(module).stats.provenance) == Some(provenance_text(MirProvenance::CoreHir)),
        final(module).functions == old(module).functions,
        final(module).stats.optimization_trace == old(module).stats.optimization_trace,
{
    set_mir_provenance(module, MirProvenance::CoreHir);
}

/// Mark the module with the given provenance.
pub fn mark_lowered(module: &mut MirModule, provenance: MirProvenance)
    ensures
        opt_string_view(final(module).stats.provenance) == Some(provenance_text(provenance)),
        final(module).functions == old(module).functions,
        final(module).stats.optimization_trace == old(module).stats.optimization_trace,
{
    set_mir_provenance(module, provenance);
}

/// A copy of the module marked with `provenance`.
fn clone_with_provenance(module: &MirModule, provenance: MirProvenance) -> (r: MirModule)
    ensures
        same_module_but_provenance(*module, r),
        opt_string_view(r.stats.provenance) == Some(provenance_text(provenance)),
{
    let mut cloned = copy_module(module);
    set_mir_provenance(&mut cloned, provenance);
    cloned
}

/// A copy of the module, marked as lowered from CoreHIR through the
/// fallback path.
pub fn clone_as_corehir_fallback(module: &MirModule) -> (r: MirModule)
    ensures
        same_module_but_provenance(*module, r),
        opt_string_view(r.stats.provenance) == Some(provenance_text(MirProvenance::CoreHirFallback)),
{
    clone_with_provenance(module, MirProvenance::CoreHirFallback)
}

/// A copy of the module, marked as lowered from the legacy AST.
pub fn clone_as_legacy(module: &MirModule) -> (r: MirModule)
    ensures
        same_module_but_provenance(*module, r),
        opt_string_view(r.stats.provenance) == Some(provenance_text(MirProvenance::LegacyAst)),
{
    clone_with_provenance(module, MirProvenance::LegacyAst)
}

/// A copy of the module, marked for the optimised legacy path.
pub fn clone_for_optimized_legacy(module: &MirModule) -> (r: MirModule)
    ensures
        same_module_but_provenance(*module, r),
        opt_string_view(r.stats.provenance) == Some(provenance_text(MirProvenance::LegacyOptimized)),
{
    clone_with_provenance(module, MirProvenance::LegacyOptimized)
}

/// A copy of the module, marked for the optimised CoreHIR path.
pub fn clone_for_optimized_corehir(module: &MirModule) -> (r: MirModule)
    ensures
        same_module_but_provenance(*module, r),
        opt_string_view(r.stats.provenance) == Some(provenance_text(MirProvenance::CoreHirOptimized)),
{
    clone_with_provenance(module, MirProvenance::CoreHirOptimized)
}

/// Where the module came from, if recorded.
pub fn provenance_label(module: &MirModule) -> (r: Option<&str>)
    ensures
        match r {
            Some(s) => opt_string_view(module.stats.provenance) == Some(s@),
            None => module.stats.provenance is None,
        },
{
    mir_provenance(module)
}

/// Where the module came from, if recorded.
pub fn lowering_provenance(module: &MirModule) -> (r: Option<&str>)
    ensures
        match r {
            Some(s) => opt_string_view(module.stats.provenance) == Some(s@),
            None => module.stats.provenance is None,
        },
{
    mir_provenance(module)
}

/// The provenance label, or `unknown`.
pub open spec fn path_name(m: MirModule) -> Seq<char> {
    match opt_string_view(m.stats.provenance) {
        Some(s) => s,
        None => "unknown"@,
    }
}

pub fn lowering_path_name(module: &MirModule) -> (r: &str)
    ensures
        r@ == path_name(*module),
{
    match mir_provenance(module) {
        Some(p) => p,
        None => "unknown",
    }
}

/// Whether the two modules record different provenances.
pub fn compare_lowering_provenance(legacy: &MirModule, corehir: &MirModule) -> (r: bool)
    ensures
        r == (opt_string_view(legacy.stats.provenance) != opt_string_view(corehir.stats.provenance)),
{
    match (mir_provenance(legacy), mir_provenance(corehir)) {
        (Some(a), Some(b)) => !crate::strutil::str_eq(a, b),
        (None, None) => false,
        _ => true,
    }
}

/// Append a note to the module's trace.
pub fn note_lowering_origin(module: &mut MirModule, note: &str)
    ensures
        strings_view(final(module).stats.optimization_trace@) == strings_view(
            old(module).stats.optimization_trace@,
        ).push(note@),
        final(module).functions == old(module).functions,
        final(module).stats.provenance == old(module).stats.provenance,
{
    push_optimization_trace(module, note);
}

/// Note in the trace that the module was validated.
pub fn set_validation_run_note(module: &mut MirModule)
    ensures
        strings_view(final(module).stats.optimization_trace@) == strings_view(
            old(module).stats.optimization_trace@,
        ).push("validated"@),
        final(module).functions == old(module).functions,
        final(module).stats.provenance == old(module).stats.provenance,
{
    note_lowering_origin(module, "validated");
}

/// The module's trace.
pub fn lowering_trace(module: &MirModule) -> (r: &[String])
    ensures
        r@ == module.stats.optimization_trace@,
{
    optimization_trace(module)
}

// ---------------------------------------------------------------------------
// Desugaring at lowering time
// ---------------------------------------------------------------------------
/// Desugaring `f` in mode `m` cannot overflow local ids or the count.
pub open spec fn desugar_fits(m: DesugarMode, f: MirFunction) -> bool {
    &&& max_local_id(f.locals@ + f.params@) + 1 + fn_temps(m, f) <= u32::MAX
    &&& fn_count(m, f) <= usize::MAX
}

/// `after` is `before` desugared in mode `m`, with some count.
#[verifier::opaque]
pub open spec fn was_desugared(m: DesugarMode, before: MirFunction, after: MirFunction) -> bool {
    exists|c: nat| desugared(m, before, after, c)
}

/// Every function of `after` is the matching one of `before` desugared in
/// mode `m`; nothing else changed.
pub open spec fn module_desugared(m: DesugarMode, before: MirModule, after: MirModule) -> bool {
    &&& after.functions@.len() == before.functions@.len()
    &&& forall|i: int|
        0 <= i < before.functions@.len() ==> was_desugared(
            m,
            before.functions@[i],
            #[trigger] after.functions@[i],
        )
    &&& after.entry_fn == before.entry_fn
    &&& after.stats == before.stats
    &&& after.source_map == before.source_map
}

/// Desugar the `if` expressions of a function (with no known function
/// return types).
pub fn lower_if_expr(func: &mut MirFunction)
    requires
        desugar_fits(DesugarMode::IfOnly, *old(func)),
    ensures
        was_desugared(DesugarMode::IfOnly, *old(func), *final(func)),
{
    let fn_return_types: Vec<(String, Type)> = Vec::new();
    let c = desugar_if_exprs(func, &fn_return_types);
    proof {
        reveal(was_desugared);
        assert(desugared(DesugarMode::IfOnly, *old(func), *func, c as nat));
    }
}

/// Desugar the loop expressions of a function.
pub fn lower_loop_expr(func: &mut MirFunction)
    requires
        desugar_fits(DesugarMode::LoopOnly, *old(func)),
    ensures
        was_desugared(DesugarMode::LoopOnly, *old(func), *final(func)),
{
    let fn_return_types: Vec<(String, Type)> = Vec::new();
    let c = desugar_loop_exprs(func, &fn_return_types);
    proof {
        reveal(was_desugared);
        assert(desugared(DesugarMode::LoopOnly, *old(func), *func, c as nat));
    }
}

/// Desugar the `?` expressions of a function.
pub fn lower_try_expr(func: &mut MirFunction)
    requires
        desugar_fits(DesugarMode::TryOnly, *old(func)),
    ensures
        was_desugared(DesugarMode::TryOnly, *old(func), *final(func)),
{
    let fn_return_types: Vec<(String, Type)> = Vec::new();
    let c = desugar_try_exprs(func, &fn_return_types);
    proof {
        reveal(was_desugared);
        assert(desugared(DesugarMode::TryOnly, *old(func), *func, c as nat));
    }
}

fn lower_all(module: &mut MirModule, m: DesugarMode)
    requires
        m != DesugarMode::All,
        forall|i: int|
            0 <= i < old(module).functions@.len() ==> desugar_fits(m, #[trigger] old(module).functions@[i]),
    ensures
        module_desugared(m, *old(module), *final(module)),
{
    let ghost fs = module.functions@;
    let mut i: usize = 0;
    while i < module.functions.len()
        invariant
            m != DesugarMode::All,
            i <= fs.len(),
            module.functions@.len() == fs.len(),
            forall|j: int| 0 <= j < fs.len() ==> desugar_fits(m, #[trigger] fs[j]),
            forall|j: int| i <= j < fs.len() ==> #[trigger] module.functions@[j] == fs[j],
            forall|j: int| 0 <= j < i ==> was_desugared(m, fs[j], #[trigger] module.functions@[j]),
            module.entry_fn == old(module).entry_fn,
            module.stats == old(module).stats,
            module.source_map == old(module).source_map,
            fs == old(module).functions@,
        decreases fs.len() - i,
    {
        let ghost before = module.functions@;
        match m {
            DesugarMode::IfOnly => lower_if_expr(&mut module.functions[i]),
            DesugarMode::LoopOnly => lower_loop_expr(&mut module.functions[i]),
            _ => lower_try_expr(&mut module.functions[i]),
        }
        proof {
            assert forall|j: int| 0 <= j < i + 1 implies was_desugared(
                m,
                fs[j],
                #[trigger] module.functions@[j],
            ) by {
                if j < i {
                    assert(module.functions@[j] == before[j]);
                }
            }
        }
        i = i + 1;
    }
}

/// Desugar the `if` expressions of every function.
pub fn lower_if_exprs(module: &mut MirModule)
    requires
        forall|i: int|
            0 <= i < old(module).functions@.len() ==> desugar_fits(
                DesugarMode::IfOnly,
                #[trigger] old(module).functions@[i],
            ),
    ensures
        module_desugared(DesugarMode::IfOnly, *old(module), *final(module)),
{
    lower_all(module, DesugarMode::IfOnly);
}

/// Desugar the loop expressions of every function.
pub fn lower_loop_exprs(module: &mut MirModule)
    requires
        forall|i: int|
            0 <= i < old(module).functions@.len() ==> desugar_fits(
                DesugarMode::LoopOnly,
                #[trigger] old(module).functions@[i],
            ),
    ensures
        module_desugared(DesugarMode::LoopOnly, *old(module), *final(module)),
{
    lower_all(module, DesugarMode::LoopOnly);
}

/// Desugar the `?` expressions of every function.
pub fn lower_try_exprs(module: &mut MirModule)
    requires
        forall|i: int|
            0 <= i < old(module).functions@.len() ==> desugar_fits(
                DesugarMode::TryOnly,
                #[trigger] old(module).functions@[i],
            ),
    ensures
        module_desugared(DesugarMode::TryOnly, *old(module), *final(module)),
{
    lower_all(module, DesugarMode::TryOnly);
}

/// The desugaring mode of step `i` of the lowering rounds: if, loop and try
/// expressions in turn.
pub open spec fn step_mode(i: nat) -> DesugarMode {
    if i % 3 == 0 {
        DesugarMode::IfOnly
    } else if i % 3 == 1 {
        DesugarMode::LoopOnly
    } else {
        DesugarMode::TryOnly
    }
}

/// `ms` are the modules before and after each step of the lowering
/// rounds: step `i` desugars every function of `ms[i]` in the step's mode,
/// giving `ms[i + 1]`.
#[verifier::opaque]
pub open spec fn lowering_steps(ms: Seq<MirModule>) -> bool {
    forall|i: int|
        #![trigger ms[i]]
        0 <= i && i + 1 < ms.len() ==> module_desugared(step_mode(i as nat), ms[i], ms[i + 1])
}

fn lower_step(module: &mut MirModule, m: DesugarMode, Ghost(ms): Ghost<Seq<MirModule>>)
    requires
        ms.len() >= 1,
        ms.last() == *old(module),
        lowering_steps(ms),
        m == step_mode((ms.len() - 1) as nat),
        module_has_room(m, *old(module)),
    ensures
        lowering_steps(ms.push(*final(module))),
{
    proof {
        reveal(lowering_steps);
        assert forall|i: int| 0 <= i < old(module).functions@.len() implies desugar_fits(
            m,
            #[trigger] old(module).functions@[i],
        ) by {
            assert(has_room(m, old(module).functions@[i]));
        }
    }
    match m {
        DesugarMode::IfOnly => lower_if_exprs(module),
        DesugarMode::LoopOnly => lower_loop_exprs(module),
        _ => lower_try_exprs(module),
    }
    proof {
        let ns = ms.push(*module);
        assert forall|i: int| 0 <= i && i + 1 < ns.len() implies module_desugared(
            step_mode(i as nat),
            #[trigger] ns[i],
            ns[i + 1],
        ) by {
            if i + 1 < ms.len() {
                assert(ns[i] == ms[i]);
                assert(ns[i + 1] == ms[i + 1]);
            } else {
                assert(ns[i] == ms.last());
            }
        }
    }
}

/// What lowering the backend-illegal operands leaves: `ms` runs from the
/// module it started on to the one it ended on through `ms.len() - 1`
/// steps, at most `max_rounds` rounds of three; and it ended because the
/// rounds ran out, because a round left the module backend-legal, or
/// because the next step's temporaries would not fit.
pub open spec fn lowered_backend_operands(
    before: MirModule,
    after: MirModule,
    max_rounds: nat,
    ms: Seq<MirModule>,
) -> bool {
    &&& ms.len() >= 1
    &&& ms[0] == before
    &&& ms.last() == after
    &&& lowering_steps(ms)
    &&& ms.len() - 1 <= 3 * max_rounds
    &&& {
        ||| ms.len() - 1 == 3 * max_rounds
        ||| ((ms.len() - 1) % 3 == 0 && ms.len() > 1 && module_legal(after))
        ||| !module_has_room(step_mode((ms.len() - 1) as nat), after)
    }
}

/// Lower the backend-illegal operands of every function: up to
/// `max_rounds` rounds, each desugaring if, loop and try expressions in
/// turn, stopping after the first round that leaves the module
/// backend-legal. A try expression can hide if and loop expressions from
/// the earlier steps of its round, so one round is not always enough. A
/// step whose temporaries would not fit the local ids is not run.
pub fn lower_backend_illegal_operands(module: &mut MirModule, max_rounds: usize)
    ensures
        exists|ms: Seq<MirModule>|
            #![trigger lowered_backend_operands(*old(module), *final(module), max_rounds as nat, ms)]
            lowered_backend_operands(*old(module), *final(module), max_rounds as nat, ms),
{
    let ghost mut ms: Seq<MirModule> = seq![*module];
    proof {
        reveal(lowering_steps);
    }
    let mut round: usize = 0;
    while round < max_rounds
        invariant
            round <= max_rounds,
            ms.len() == 3 * round + 1,
            ms[0] == *old(module),
            ms.last() == *module,
            lowering_steps(ms),
        decreases max_rounds - round,
    {
        if !module_room(DesugarMode::IfOnly, module) {
            assert(lowered_backend_operands(*old(module), *module, max_rounds as nat, ms));
            return;
        }
        lower_step(module, DesugarMode::IfOnly, Ghost(ms));
        proof {
            ms = ms.push(*module);
        }
        if !module_room(DesugarMode::LoopOnly, module) {
            assert(lowered_backend_operands(*old(module), *module, max_rounds as nat, ms));
            return;
        }
        lower_step(module, DesugarMode::LoopOnly, Ghost(ms));
        proof {
            ms = ms.push(*module);
        }
        if !module_room(DesugarMode::TryOnly, module) {
            assert(lowered_backend_operands(*old(module), *module, max_rounds as nat, ms));
            return;
        }
        lower_step(module, DesugarMode::TryOnly, Ghost(ms));
        proof {
            ms = ms.push(*module);
        }
        if is_backend_legal_module(module) {
            assert(lowered_backend_operands(*old(module), *module, max_rounds as nat, ms));
            return;
        }
        round = round + 1;
    }
    assert(lowered_backend_operands(*old(module), *module, max_rounds as nat, ms));
}

// ---------------------------------------------------------------------------
// Reports over one or two lowered modules
// ---------------------------------------------------------------------------
/// The snapshot of two modules side by side.
pub open spec fn shapes_text(l: MirModule, r: MirModule) -> Seq<char> {
    "lhs: "@ + snapshot_text(l) + "\nrhs: "@ + snapshot_text(r)
}

/// The module's one-line snapshot.
pub fn lowering_path_snapshot(module: &MirModule) -> (r: String)
    ensures
        r@ == snapshot_text(*module),
{
    module_snapshot(module)
}

/// The snapshots of two lowerings side by side.
pub fn compare_lowering_paths(legacy: &MirModule, corehir: &MirModule) -> (r: String)
    ensures
        r@ == shapes_text(*legacy, *corehir),
{
    compare_module_shapes(legacy, corehir)
}

/// Whether lowering produced at least one function.
pub fn has_materialized_functions(module: &MirModule) -> (r: bool)
    ensures
        r == (module.functions@.len() > 0),
{
    module.functions.len() > 0
}

pub open spec fn provenance_pair_text(legacy: MirModule, corehir: MirModule) -> Seq<char> {
    "legacy_provenance="@ + opt_debug(opt_string_view(legacy.stats.provenance))
        + " corehir_provenance="@ + opt_debug(opt_string_view(corehir.stats.provenance)) + "\n"@
        + shapes_text(legacy, corehir)
}

/// Both provenances, then both snapshots.
pub fn legacy_vs_corehir_summary(legacy: &MirModule, corehir: &MirModule) -> (r: String)
    ensures
        r@ == provenance_pair_text(*legacy, *corehir),
{
    let mut out = concat_str("legacy_provenance=", opt_debug_str(mir_provenance(legacy)).as_str());
    out.append(" corehir_provenance=");
    out.append(opt_debug_str(mir_provenance(corehir)).as_str());
    out.append("\n");
    out.append(compare_lowering_paths(legacy, corehir).as_str());
    out
}

/// A module can run when it has a runtime entry or a recorded entry id.
pub open spec fn runnable(m: MirModule) -> bool {
    runtime_entry(m) is Some || m.entry_fn is Some
}

/// Whether the module has something to start from.
pub fn ensure_runtime_candidate(module: &MirModule) -> (r: bool)
    ensures
        r == runnable(*module),
{
    runtime_entry_name(module).is_some() || module.entry_fn.is_some()
}

fn opt_string_debug(o: &Option<String>) -> (r: String)
    ensures
        r@ == opt_debug(opt_string_view(*o)),
{
    match o {
        Some(s) => opt_debug_str(Some(s.as_str())),
        None => opt_debug_str(None),
    }
}

pub open spec fn manifest_text(m: MirModule) -> Seq<char> {
    snapshot_text(m) + "\nentry="@ + opt_debug(runtime_entry(m))
}

/// The snapshot followed by the runtime entry.
pub fn lowering_debug_manifest(module: &MirModule) -> (r: String)
    ensures
        r@ == manifest_text(*module),
{
    let mut out = module_snapshot(module);
    out.append("\nentry=");
    out.append(opt_string_debug(&runtime_entry_name(module)).as_str());
    out
}

pub open spec fn diff_manifest_text(legacy: MirModule, corehir: MirModule) -> Seq<char> {
    "legacy:\n"@ + manifest_text(legacy) + "\n\ncorehir:\n"@ + manifest_text(corehir)
        + "\n\nshape:\n"@ + shapes_text(legacy, corehir)
}

/// Both manifests, then both snapshots.
pub fn lowering_diff_manifest(legacy: &MirModule, corehir: &MirModule) -> (r: String)
    ensures
        r@ == diff_manifest_text(*legacy, *corehir),
{
    let mut out = concat_str("legacy:\n", lowering_debug_manifest(legacy).as_str());
    out.append("\n\ncorehir:\n");
    out.append(lowering_debug_manifest(corehir).as_str());
    out.append("\n\nshape:\n");
    out.append(compare_lowering_paths(legacy, corehir).as_str());
    out
}

/// The snapshot of a module lowered from the legacy AST.
pub fn lower_legacy_only_summary(module: &MirModule) -> (r: String)
    ensures
        r@ == snapshot_text(*module),
{
    module_snapshot(module)
}

/// The function counts of two lowerings.
pub fn compare_mir_counts(legacy: &MirModule, corehir: &MirModule) -> (r: (usize, usize))
    ensures
        r.0 == legacy.functions@.len(),
        r.1 == corehir.functions@.len(),
{
    (legacy.functions.len(), corehir.functions.len())
}

/// The function counts of two lowerings, as text.
pub fn describe_mir_counts(legacy: &MirModule, corehir: &MirModule) -> (r: String)
    ensures
        r@ == "legacy_functions="@ + decimal(legacy.functions@.len()) + " corehir_functions="@
            + decimal(corehir.functions@.len()),
{
    let (legacy_count, corehir_count) = compare_mir_counts(legacy, corehir);
    let mut out = concat_str("legacy_functions=", u64_to_decimal(legacy_count as u64).as_str());
    out.append(" corehir_functions=");
    out.append(u64_to_decimal(corehir_count as u64).as_str());
    out
}

/// The snapshot of a lowered module.
pub fn lower_mir_debug_dump(module: &MirModule) -> (r: String)
    ensures
        r@ == snapshot_text(*module),
{
    module_snapshot(module)
}

/// The diff manifest of two lowerings.
pub fn lower_path_pair_debug_dump(legacy: &MirModule, corehir: &MirModule) -> (r: String)
    ensures
        r@ == diff_manifest_text(*legacy, *corehir),
{
    lowering_diff_manifest(legacy, corehir)
}

/// Whether either lowering can run.
pub fn lowering_paths_have_runtime_candidate(legacy: &MirModule, corehir: &MirModule) -> (r: bool)
    ensures
        r == (runnable(*legacy) || runnable(*corehir)),
{
    ensure_runtime_candidate(legacy) || ensure_runtime_candidate(corehir)
}

pub open spec fn runtime_pair_text(legacy: MirModule, corehir: MirModule) -> Seq<char> {
    "legacy_entry="@ + opt_debug(runtime_entry(legacy)) + " corehir_entry="@ + opt_debug(
        runtime_entry(corehir),
    )
}

/// The runtime entries of two lowerings.
pub fn lowering_paths_runtime_summary(legacy: &MirModule, corehir: &MirModule) -> (r: String)
    ensures
        r@ == runtime_pair_text(*legacy, *corehir),
{
    let mut out = concat_str(
        "legacy_entry=",
        opt_string_debug(&runtime_entry_name(legacy)).as_str(),
    );
    out.append(" corehir_entry=");
    out.append(opt_string_debug(&runtime_entry_name(corehir)).as_str());
    out
}

/// The diff manifest followed by the runtime entries.
pub fn lowering_paths_snapshot(legacy: &MirModule, corehir: &MirModule) -> (r: String)
    ensures
        r@ == diff_manifest_text(*legacy, *corehir) + "\n"@ + runtime_pair_text(*legacy, *corehir),
{
    let mut out = lower_path_pair_debug_dump(legacy, corehir);
    out.append("\n");
    out.append(lowering_paths_runtime_summary(legacy, corehir).as_str());
    out
}

/// Whether the shape comparison says anything; it always does, so this
/// is always `true`.
pub fn lowering_paths_structural_diff(legacy: &MirModule, corehir: &MirModule) -> (r: bool)
    ensures
        r == (shapes_text(*legacy, *corehir).len() > 0),
        r,
{
    let shapes = compare_module_shapes(legacy, corehir);
    proof {
        reveal_strlit("lhs: ");
    }
    shapes.as_str().unicode_len() > 0
}

/// The module's runtime entry.
pub fn lowering_entry(module: &MirModule) -> (r: Option<String>)
    ensures
        opt_string_view(r) == runtime_entry(*module),
{
    runtime_entry_name(module)
}

pub open spec fn function_names(m: MirModule) -> Seq<Seq<char>> {
    m.functions@.map_values(|f: MirFunction| f.name@)
}

/// The names of the module's functions, in order.
pub fn lowering_functions(module: &MirModule) -> (r: Vec<String>)
    ensures
        strings_view(r@) == function_names(*module),
{
    let mut out: Vec<String> = Vec::new();
    let mut i: usize = 0;
    while i < module.functions.len()
        invariant
            i <= module.functions@.len(),
            strings_view(out@) == function_names(*module).take(i as int),
        decreases module.functions@.len() - i,
    {
        out.push(module.functions[i].name.clone());
        proof {
            assert(function_names(*module).take(i + 1) == function_names(*module).take(i as int).push(
                module.functions@[i as int].name@,
            ));
            assert(strings_view(out@) == strings_view(out@.drop_last()).push(out@.last()@));
        }
        i = i + 1;
    }
    proof {
        assert(function_names(*module).take(i as int) == function_names(*module));
    }
    out
}

/// Whether lowering produced no function.
pub fn lowering_is_empty(module: &MirModule) -> (r: bool)
    ensures
        r == (module.functions@.len() == 0),
{
    module.functions.len() == 0
}

/// Whether the module has something to start from.
pub fn lowering_can_run(module: &MirModule) -> (r: bool)
    ensures
        r == runnable(*module),
{
    ensure_runtime_candidate(module)
}

/// The validation count followed by the snapshot.
pub fn lowering_validation_summary(module: &MirModule) -> (r: String)
    ensures
        r@ == "validation_runs="@ + decimal(module.stats.validation_runs as nat) + " snapshot="@
            + snapshot_text(*module),
{
    let mut out = concat_str(
        "validation_runs=",
        u64_to_decimal(module.stats.validation_runs as u64).as_str(),
    );
    out.append(" snapshot=");
    out.append(module_snapshot(module).as_str());
    out
}

/// The function count and the runtime entry.
pub fn lowering_shape_tuple(module: &MirModule) -> (r: (usize, Option<String>))
    ensures
        r.0 == module.functions@.len(),
        opt_string_view(r.1) == runtime_entry(*module),
{
    (module.functions.len(), runtime_entry_name(module))
}

fn opt_string_eq(a: &Option<String>, b: &Option<String>) -> (r: bool)
    ensures
        r == (opt_string_view(*a) == opt_string_view(*b)),
{
    match (a, b) {
        (Some(x), Some(y)) => crate::strutil::str_eq(x.as_str(), y.as_str()),
        (None, None) => true,
        _ => false,
    }
}

pub open spec fn shapes_match(l: MirModule, r: MirModule) -> bool {
    l.functions@.len() == r.functions@.len() && runtime_entry(l) == runtime_entry(r)
}

/// Whether two lowerings have as many functions and the same entry.
pub fn lowering_shape_matches(lhs: &MirModule, rhs: &MirModule) -> (r: bool)
    ensures
        r == shapes_match(*lhs, *rhs),
{
    let (ln, le) = lowering_shape_tuple(lhs);
    let (rn, re) = lowering_shape_tuple(rhs);
    ln == rn && opt_string_eq(&le, &re)
}

/// Whether the shapes match, then both snapshots.
pub fn lowering_path_compare(lhs: &MirModule, rhs: &MirModule) -> (r: String)
    ensures
        r@ == "matches="@ + bool_text(shapes_match(*lhs, *rhs)) + "\n"@ + shapes_text(*lhs, *rhs),
{
    let mut out = concat_str("matches=", bool_str(lowering_shape_matches(lhs, rhs)));
    out.append("\n");
    out.append(compare_module_shapes(lhs, rhs).as_str());
    out
}

pub open spec fn export_text(m: MirModule) -> Seq<char> {
    "entry="@ + opt_debug(runtime_entry(m)) + " functions="@ + decimal(m.functions@.len())
}

/// The runtime entry and the function count.
pub fn lowering_path_export_summary(module: &MirModule) -> (r: String)
    ensures
        r@ == export_text(*module),
{
    let mut out = concat_str("entry=", opt_string_debug(&runtime_entry_name(module)).as_str());
    out.append(" functions=");
    out.append(u64_to_decimal(module.functions.len() as u64).as_str());
    out
}

pub open spec fn parity_text(m: MirModule) -> Seq<char> {
    "runtime_candidate="@ + bool_text(runnable(m)) + " "@ + export_text(m)
}

/// Whether the module can run, then its export summary.
pub fn lowering_runtime_parity_hint(module: &MirModule) -> (r: String)
    ensures
        r@ == parity_text(*module),
{
    let mut out = concat_str("runtime_candidate=", bool_str(ensure_runtime_candidate(module)));
    out.append(" ");
    out.append(lowering_path_export_summary(module).as_str());
    out
}

/// The parity hints of two lowerings.
pub fn lowering_runtime_parity_pair(lhs: &MirModule, rhs: &MirModule) -> (r: String)
    ensures
        r@ == "legacy_runtime="@ + parity_text(*lhs) + "\ncorehir_runtime="@ + parity_text(*rhs),
{
    let mut out = concat_str("legacy_runtime=", lowering_runtime_parity_hint(lhs).as_str());
    out.append("\ncorehir_runtime=");
    out.append(lowering_runtime_parity_hint(rhs).as_str());
    out
}

/// Whether two lowerings start at the same runtime entry.
pub fn compare_lowering_runtime_entries(legacy: &MirModule, corehir: &MirModule) -> (r: bool)
    ensures
        r == (runtime_entry(*legacy) == runtime_entry(*corehir)),
{
    opt_string_eq(&runtime_entry_name(legacy), &runtime_entry_name(corehir))
}

/// Whether both lowerings can run.
pub fn lowering_pair_can_run(legacy: &MirModule, corehir: &MirModule) -> (r: bool)
    ensures
        r == (runnable(*legacy) && runnable(*corehir)),
{
    ensure_runtime_candidate(legacy) && ensure_runtime_candidate(corehir)
}

pub open spec fn pair_status_text(legacy: MirModule, corehir: MirModule) -> Seq<char> {
    "entries_match="@ + bool_text(runtime_entry(legacy) == runtime_entry(corehir)) + " can_run="@
        + bool_text(runnable(legacy) && runnable(corehir)) + " legacy="@ + path_name(legacy)
        + " corehir="@ + path_name(corehir)
}

/// Whether the entries match, whether both can run, and both paths.
pub fn lowering_pair_status(legacy: &MirModule, corehir: &MirModule) -> (r: String)
    ensures
        r@ == pair_status_text(*legacy, *corehir),
{
    let mut out = concat_str(
        "entries_match=",
        bool_str(compare_lowering_runtime_entries(legacy, corehir)),
    );
    out.append(" can_run=");
    out.append(bool_str(lowering_pair_can_run(legacy, corehir)));
    out.append(" legacy=");
    out.append(lowering_path_name(legacy));
    out.append(" corehir=");
    out.append(lowering_path_name(corehir));
    out
}

/// The pair status, then both snapshots.
pub fn lowering_pair_full_status(legacy: &MirModule, corehir: &MirModule) -> (r: String)
    ensures
        r@ == pair_status_text(*legacy, *corehir) + "\n"@ + shapes_text(*legacy, *corehir),
{
    let mut out = lowering_pair_status(legacy, corehir);
    out.append("\n");
    out.append(compare_module_shapes(legacy, corehir).as_str());
    out
}

/// Whether lowering produced at least one function.
pub fn lowering_has_functions(module: &MirModule) -> (r: bool)
    ensures
        r == (module.functions@.len() > 0),
{
    module.functions.len() > 0
}

pub open spec fn empty_reason(m: MirModule) -> Seq<char> {
    if m.functions@.len() == 0 {
        "no-functions"@
    } else {
        "has-functions"@
    }
}

/// `no-functions` or `has-functions`.
pub fn lowering_empty_reason(module: &MirModule) -> (r: String)
    ensures
        r@ == empty_reason(*module),
{
    if module.functions.len() == 0 {
        "no-functions".to_owned()
    } else {
        "has-functions".to_owned()
    }
}

pub open spec fn status_line(m: MirModule) -> Seq<char> {
    "path="@ + path_name(m) + " entry="@ + opt_debug(runtime_entry(m)) + " reason="@
        + empty_reason(m)
}

/// The path, the runtime entry and whether there are functions.
pub fn lowering_status_line(module: &MirModule) -> (r: String)
    ensures
        r@ == status_line(*module),
{
    let mut out = concat_str("path=", lowering_path_name(module));
    out.append(" entry=");
    out.append(opt_string_debug(&runtime_entry_name(module)).as_str());
    out.append(" reason=");
    out.append(lowering_empty_reason(module).as_str());
    out
}

pub open spec fn status_lines(legacy: MirModule, corehir: MirModule) -> Seq<char> {
    "legacy="@ + status_line(legacy) + "\ncorehir="@ + status_line(corehir)
}

/// The status lines of two lowerings.
pub fn compare_status_lines(legacy: &MirModule, corehir: &MirModule) -> (r: String)
    ensures
        r@ == status_lines(*legacy, *corehir),
{
    let mut out = concat_str("legacy=", lowering_status_line(legacy).as_str());
    out.append("\ncorehir=");
    out.append(lowering_status_line(corehir).as_str());
    out
}

/// The status lines, then both snapshots.
pub fn lowering_pair_report(legacy: &MirModule, corehir: &MirModule) -> (r: String)
    ensures
        r@ == status_lines(*legacy, *corehir) + "\n"@ + shapes_text(*legacy, *corehir),
{
    let mut out = compare_status_lines(legacy, corehir);
    out.append("\n");
    out.append(compare_module_shapes(legacy, corehir).as_str());
    out
}
} // verus!
