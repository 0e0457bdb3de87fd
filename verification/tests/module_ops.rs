use ark_mir::builders::{
    default_function_instance, fallback_block, fallback_function, finalize_function,
    finalize_function_metadata, infer_fn_id, push_function,
};
use ark_mir::dump::{function_size_line, phase_full_dump};
use ark_mir::escape::{analyze_function, analyze_module, format_escape_info, AllocHint};
use ark_mir::facade::{
    clone_as_corehir_fallback, clone_as_legacy, clone_for_optimized_corehir, clone_for_optimized_legacy,
    compare_lowering_provenance, compare_lowering_runtime_entries, compare_mir_counts,
    compare_status_lines, describe_mir_counts, ensure_runtime_candidate, has_materialized_functions,
    legacy_vs_corehir_summary, lowering_debug_manifest, lowering_empty_reason, lowering_entry,
    lowering_functions, lowering_pair_can_run, lowering_pair_report, lowering_pair_status,
    lowering_path_compare, lowering_path_export_summary, lowering_path_name,
    lowering_paths_runtime_summary, lowering_paths_structural_diff, lowering_runtime_parity_hint,
    lowering_shape_matches, lowering_status_line, lowering_trace, lowering_validation_summary,
    mark_corehir_mir, mark_legacy_mir, note_lowering_origin, provenance_label,
    set_validation_run_note,
};
use ark_mir::metadata::{
    clear_statement_spans_for_block, record_statement_span, remove_statement_span,
    renumber_statement_spans, statement_span, sync_module_metadata,
};
use ark_mir::mir::{
    BinOp, GcHintKind, BasicBlock, BlockId, FnId, InstanceKey, LocalId, MirFunction, MirLocal, MirModule,
    MirProvenance, MirStats, MirStmt, Operand, Place, ReductionStats, Rvalue, SourceInfo,
    Terminator,
};
use ark_mir::mir_ops::{
    collect_function_ids, compare_module_shapes, fn_id_name, function_by_id_mut,
    function_by_name, function_by_name_mut, function_id_by_name, instance_display,
    legacy_fn_id, legacy_name_for_id, mir_provenance, mir_size_summary, module_snapshot,
    next_available_block_id, next_available_fn_id, next_available_local_id, operand_calls,
    push_optimization_trace, push_pass_reduction, runtime_entry_name, set_mir_provenance,
};
use ark_mir::text::{function_text_pieces, module_text_pieces, TextPiece};
use ark_mir::types::{Span, Type};

fn function(id: u32, name: &str, stmts: Vec<MirStmt>) -> MirFunction {
    MirFunction {
        id: FnId(id),
        name: name.to_string(),
        instance: InstanceKey { item: name.to_string(), substitution: vec![], target_shape: String::new() },
        params: vec![],
        return_ty: Type::I32,
        locals: vec![MirLocal { id: LocalId(0), name: None, ty: Type::I32 }],
        blocks: vec![BasicBlock {
            id: BlockId(0),
            stmts,
            terminator: Terminator::Return(None),
            source: SourceInfo::default(),
        }],
        entry: BlockId(0),
        struct_typed_locals: vec![],
        enum_typed_locals: vec![],
        type_params: vec![],
        source: SourceInfo::default(),
        is_exported: false,
    }
}

fn module_of(functions: Vec<MirFunction>) -> MirModule {
    let mut m = MirModule::new();
    m.functions = functions;
    m
}

fn span(start: u32) -> Span {
    Span { file_id: 0, start, end: start + 1 }
}

#[test]
fn fn_id_names() {
    assert_eq!(fn_id_name(FnId(7)), "fn#7");
    assert_eq!(legacy_name_for_id(FnId(0)), "fn#0");
}

#[test]
fn legacy_fn_id_hashes_bytes() {
    assert_eq!(legacy_fn_id("").0, 0);
    assert_eq!(legacy_fn_id("a").0, 97);
    assert_eq!(legacy_fn_id("ab").0, 1627429073);
}

#[test]
fn instance_display_shows_substitution() {
    let k = InstanceKey {
        item: "f".to_string(),
        substitution: vec!["a".to_string(), "b".to_string()],
        target_shape: "shape".to_string(),
    };
    assert_eq!(instance_display(&k), "f<a,b>@shape");
    assert_eq!(instance_display(&InstanceKey::simple("g")), "g");
    assert_eq!(InstanceKey::simple("g").target_shape, "default");
}

#[test]
fn reduction_stats_eliminated_is_signed() {
    assert_eq!(ReductionStats { instructions_before: 10, instructions_after: 7 }.eliminated(), 3);
    assert_eq!(ReductionStats { instructions_before: 2, instructions_after: 5 }.eliminated(), -3);
}

#[test]
fn provenance_round_trips() {
    let mut m = MirModule::new();
    assert_eq!(mir_provenance(&m), None);
    set_mir_provenance(&mut m, MirProvenance::CoreHirFallback);
    assert_eq!(mir_provenance(&m), Some("corehir-fallback"));
    assert_eq!(MirProvenance::LegacyOptimized.as_str(), "legacy-optimized");
}

#[test]
fn trace_and_reductions_append() {
    let mut m = MirModule::new();
    push_optimization_trace(&mut m, "const_fold");
    push_optimization_trace(&mut m, "cse");
    push_pass_reduction(&mut m, "cse", 4, 3);
    assert_eq!(m.stats.optimization_trace, vec!["const_fold".to_string(), "cse".to_string()]);
    assert_eq!(m.stats.pass_reductions.len(), 1);
    assert_eq!(m.stats.pass_reductions[0].0, "cse");
    assert_eq!(m.stats.pass_reductions[0].1.instructions_after, 3);
}

#[test]
fn lookups_find_the_first_match() {
    let m = module_of(vec![function(3, "a", vec![]), function(5, "b", vec![]), function(6, "b", vec![])]);
    assert_eq!(function_by_name(&m, "b").map(|f| f.id.0), Some(5));
    assert!(function_by_name(&m, "zz").is_none());
    assert_eq!(function_id_by_name(&m, "b"), Some(FnId(5)));
    assert_eq!(next_available_fn_id(&m), FnId(7));
    assert_eq!(next_available_fn_id(&MirModule::new()), FnId(1));
    let ids = collect_function_ids(&m);
    assert_eq!(ids.len(), 3);
}

#[test]
fn mutable_lookups_edit_in_place() {
    let mut m = module_of(vec![function(3, "a", vec![]), function(5, "b", vec![])]);
    if let Some(f) = function_by_name_mut(&mut m, "b") {
        f.is_exported = true;
    }
    if let Some(f) = function_by_id_mut(&mut m, FnId(3)) {
        f.name = "renamed".to_string();
    }
    assert!(function_by_id_mut(&mut m, FnId(9)).is_none());
    assert!(m.functions[1].is_exported);
    assert_eq!(m.functions[0].name, "renamed");
}

#[test]
fn next_ids_saturate() {
    let mut f = function(0, "f", vec![]);
    assert_eq!(next_available_block_id(&f), BlockId(1));
    f.params.push(MirLocal { id: LocalId(9), name: None, ty: Type::I32 });
    assert_eq!(next_available_local_id(&f), LocalId(10));
    f.locals.push(MirLocal { id: LocalId(u32::MAX), name: None, ty: Type::I32 });
    assert_eq!(next_available_local_id(&f), LocalId(u32::MAX));
}

#[test]
fn operand_calls_lists_callees_in_order() {
    let op = Operand::Call(
        "outer".to_string(),
        vec![
            Operand::Call("inner".to_string(), vec![]),
            Operand::BinOp(
                BinOp::Add,
                Box::new(Operand::Call("left".to_string(), vec![])),
                Box::new(Operand::ConstI32(1)),
            ),
        ],
    );
    let mut out = vec!["seed".to_string()];
    operand_calls(&op, &mut out);
    assert_eq!(out, vec!["seed", "outer", "inner", "left"]);
}

#[test]
fn snapshots_and_size_summary() {
    let mut m = module_of(vec![function(1, "main", vec![MirStmt::Break, MirStmt::Continue])]);
    m.entry_fn = Some(FnId(1));
    push_optimization_trace(&mut m, "cse");
    assert_eq!(module_snapshot(&m), "functions=1 entry=Some(1) provenance=unknown rounds=0 trace=[cse]");
    assert_eq!(mir_size_summary(&m), "functions=1 blocks=1 stmts=2");
    let empty = MirModule::new();
    assert_eq!(
        compare_module_shapes(&empty, &m),
        "lhs: functions=0 entry=None provenance=unknown rounds=0 trace=[]\nrhs: functions=1 entry=Some(1) provenance=unknown rounds=0 trace=[cse]"
    );
}

#[test]
fn runtime_entry_prefers_start() {
    let mut m = module_of(vec![function(1, "main", vec![])]);
    assert_eq!(runtime_entry_name(&m), None);
    m.entry_fn = Some(FnId(1));
    assert_eq!(runtime_entry_name(&m), Some("main".to_string()));
    m.entry_fn = Some(FnId(42));
    assert_eq!(runtime_entry_name(&m), Some("fn#42".to_string()));
    m.functions.push(function(2, "_start", vec![]));
    assert_eq!(runtime_entry_name(&m), Some("_start".to_string()));
}

#[test]
fn statement_spans_insert_remove_and_renumber() {
    let mut m = MirModule::new();
    let (f, b) = (FnId(1), BlockId(0));
    record_statement_span(&mut m, f, b, 0, span(10));
    record_statement_span(&mut m, f, b, 3, span(30));
    record_statement_span(&mut m, f, BlockId(1), 0, span(50));
    record_statement_span(&mut m, f, b, 0, span(11));
    assert_eq!(statement_span(&m, f, b, 0), Some(span(11)));
    renumber_statement_spans(&mut m, f, b, 2);
    assert_eq!(statement_span(&m, f, b, 0), Some(span(11)));
    assert_eq!(statement_span(&m, f, b, 3), None);
    assert_eq!(statement_span(&m, f, BlockId(1), 0), Some(span(50)));
    remove_statement_span(&mut m, f, b, 0);
    assert_eq!(statement_span(&m, f, b, 0), None);
    clear_statement_spans_for_block(&mut m, f, BlockId(1));
    assert_eq!(statement_span(&m, f, BlockId(1), 0), None);
}

#[test]
fn register_function_records_callees_once() {
    let mut stats = MirStats::default();
    let calls = vec![
        MirStmt::Call { dest: None, func: FnId(4), args: vec![] },
        MirStmt::Call { dest: None, func: FnId(4), args: vec![] },
        MirStmt::Call { dest: None, func: FnId(2), args: vec![] },
    ];
    stats.register_function(&function(1, "main", calls));
    assert_eq!(stats.instance_keys.len(), 1);
    assert_eq!(stats.direct_call_graph.len(), 1);
    let (name, callees) = &stats.direct_call_graph[0];
    assert_eq!(name, "main");
    let mut callees = callees.clone();
    callees.sort();
    assert_eq!(callees, vec!["fn#2".to_string(), "fn#4".to_string()]);
}

#[test]
fn sync_rebuilds_metadata_from_functions() {
    let mut f = function(1, "main", vec![]);
    f.source = SourceInfo { span: Some(span(5)) };
    let mut m = module_of(vec![f, function(2, "other", vec![])]);
    push_optimization_trace(&mut m, "stale");
    sync_module_metadata(&mut m);
    assert_eq!(m.stats.instance_keys.len(), 2);
    assert!(m.stats.optimization_trace.is_empty());
    assert_eq!(m.source_map.function_spans, vec![(FnId(1), span(5))]);
}

#[test]
fn escape_analysis_classifies_heap_locals() {
    let mut f = function(1, "f", vec![MirStmt::Call { dest: None, func: FnId(2), args: vec![Operand::Place(Place::Local(LocalId(2)))] }]);
    f.locals = vec![
        MirLocal { id: LocalId(0), name: None, ty: Type::String },
        MirLocal { id: LocalId(1), name: None, ty: Type::I32 },
        MirLocal { id: LocalId(2), name: None, ty: Type::Vec(Box::new(Type::I32)) },
    ];
    let info = analyze_function(&f);
    assert_eq!(info.stack_eligible, 1);
    assert_eq!(info.heap_required, 1);
    let mut heap = info.heap_locals.clone();
    heap.sort();
    assert_eq!(heap, vec![0, 2]);
    assert!(info.hints.contains(&(0, AllocHint::Stack)));
    assert!(info.hints.contains(&(2, AllocHint::Heap)));
}

#[test]
fn escape_report_lists_functions_with_heap_locals() {
    let mut f = function(1, "f", vec![]);
    f.locals = vec![MirLocal { id: LocalId(0), name: None, ty: Type::String }];
    let g = function(2, "g", vec![]);
    let m = module_of(vec![f, g]);
    let info = analyze_module(&m);
    assert_eq!(info.functions.len(), 2);
    assert_eq!(
        format_escape_info(&info),
        "=== Escape Analysis ===\nfn f: 1 heap locals (1 stack-eligible, 0 heap-required)\n  local_0: Stack\n"
    );
}

#[test]
fn builders_finish_functions() {
    let mut f = function(1, "main", vec![]);
    f.instance.item = String::new();
    finalize_function(&mut f);
    assert_eq!(f.instance.item, "main");
    assert_eq!(f.instance.target_shape, "default");
    let mut g = function(2, "g", vec![]);
    finalize_function_metadata(&mut g);
    assert_eq!(g.instance.item, "g");
    assert_eq!(g.instance.target_shape, "");
    assert_eq!(default_function_instance("h").item, "h");
    assert_eq!(infer_fn_id("a", 9), FnId(97));
    assert_eq!(infer_fn_id("", 9), FnId(9));
    let b = fallback_block(BlockId(3), vec![], Terminator::Unreachable);
    assert_eq!(b.id, BlockId(3));
    assert_eq!(b.source.span, None);
    let h = fallback_function(
        FnId(4), "h".to_string(), vec![], Type::Unit, vec![], vec![b], BlockId(3), vec![], vec![], vec![], true,
    );
    assert_eq!(h.instance.item, "h");
    assert!(h.is_exported);
}

#[test]
fn push_function_appends_and_registers() {
    let mut m = MirModule::new();
    let mut f = function(1, "main", vec![MirStmt::Call { dest: None, func: FnId(2), args: vec![] }]);
    f.instance.item = String::new();
    push_function(&mut m, f);
    assert_eq!(m.functions.len(), 1);
    assert_eq!(m.functions[0].instance.item, "main");
    assert_eq!(m.stats.instance_keys.len(), 1);
    assert_eq!(m.stats.direct_call_graph[0].1, vec!["fn#2".to_string()]);
}

#[test]
fn facade_provenance_and_trace() {
    let mut m = MirModule::new();
    assert_eq!(provenance_label(&m), None);
    assert_eq!(lowering_path_name(&m), "unknown");
    mark_legacy_mir(&mut m);
    assert_eq!(provenance_label(&m), Some("legacy-ast"));
    let mut c = MirModule::new();
    mark_corehir_mir(&mut c);
    assert!(compare_lowering_provenance(&m, &c));
    assert!(!compare_lowering_provenance(&m, &m));
    note_lowering_origin(&mut m, "from-ast");
    set_validation_run_note(&mut m);
    assert_eq!(lowering_trace(&m), &["from-ast".to_string(), "validated".to_string()][..]);
}

#[test]
fn facade_summaries() {
    let mut legacy = module_of(vec![function(1, "main", vec![])]);
    legacy.entry_fn = Some(FnId(1));
    mark_legacy_mir(&mut legacy);
    let corehir = MirModule::new();
    assert!(has_materialized_functions(&legacy));
    assert!(!has_materialized_functions(&corehir));
    assert!(ensure_runtime_candidate(&legacy));
    assert!(!ensure_runtime_candidate(&corehir));
    assert!(!lowering_pair_can_run(&legacy, &corehir));
    assert!(!compare_lowering_runtime_entries(&legacy, &corehir));
    assert!(!lowering_shape_matches(&legacy, &corehir));
    assert!(lowering_shape_matches(&legacy, &legacy));
    assert!(lowering_paths_structural_diff(&corehir, &corehir));
    assert_eq!(compare_mir_counts(&legacy, &corehir), (1, 0));
    assert_eq!(describe_mir_counts(&legacy, &corehir), "legacy_functions=1 corehir_functions=0");
    assert_eq!(lowering_entry(&legacy), Some("main".to_string()));
    assert_eq!(lowering_functions(&legacy), vec!["main".to_string()]);
    assert_eq!(lowering_empty_reason(&corehir), "no-functions");
    assert_eq!(
        legacy_vs_corehir_summary(&legacy, &corehir),
        "legacy_provenance=Some(\"legacy-ast\") corehir_provenance=None\nlhs: functions=1 entry=Some(1) provenance=legacy-ast rounds=0 trace=[]\nrhs: functions=0 entry=None provenance=unknown rounds=0 trace=[]"
    );
    assert_eq!(
        lowering_debug_manifest(&legacy),
        "functions=1 entry=Some(1) provenance=legacy-ast rounds=0 trace=[]\nentry=Some(\"main\")"
    );
    assert_eq!(lowering_path_export_summary(&legacy), "entry=Some(\"main\") functions=1");
    assert_eq!(
        lowering_runtime_parity_hint(&corehir),
        "runtime_candidate=false entry=None functions=0"
    );
    assert_eq!(
        lowering_paths_runtime_summary(&legacy, &corehir),
        "legacy_entry=Some(\"main\") corehir_entry=None"
    );
    assert_eq!(
        lowering_validation_summary(&corehir),
        "validation_runs=0 snapshot=functions=0 entry=None provenance=unknown rounds=0 trace=[]"
    );
    assert_eq!(
        lowering_path_compare(&corehir, &corehir),
        "matches=true\nlhs: functions=0 entry=None provenance=unknown rounds=0 trace=[]\nrhs: functions=0 entry=None provenance=unknown rounds=0 trace=[]"
    );
    assert_eq!(
        lowering_pair_status(&legacy, &corehir),
        "entries_match=false can_run=false legacy=legacy-ast corehir=unknown"
    );
    assert_eq!(
        lowering_status_line(&legacy),
        "path=legacy-ast entry=Some(\"main\") reason=has-functions"
    );
    assert_eq!(
        compare_status_lines(&legacy, &corehir),
        "legacy=path=legacy-ast entry=Some(\"main\") reason=has-functions\ncorehir=path=unknown entry=None reason=no-functions"
    );
    assert!(lowering_pair_report(&legacy, &corehir).starts_with("legacy=path=legacy-ast"));
}

#[test]
fn facade_debug_quotes_escape_names() {
    let mut m = MirModule::new();
    m.stats.provenance = Some("a\"b".to_string());
    assert_eq!(
        legacy_vs_corehir_summary(&m, &MirModule::new()).lines().next().unwrap(),
        "legacy_provenance=Some(\"a\\\"b\") corehir_provenance=None"
    );
}

#[test]
fn phase_dumps_follow_the_setting() {
    assert!(phase_full_dump(Some("all"), "lowered"));
    assert!(phase_full_dump(Some("optimized-mir"), "pre-opt"));
    assert!(phase_full_dump(Some("optimized-mir"), "post-opt"));
    assert!(!phase_full_dump(Some("optimized-mir"), "lowered"));
    assert!(!phase_full_dump(Some("other"), "pre-opt"));
    assert!(!phase_full_dump(None, "pre-opt"));
}

#[test]
fn function_size_line_counts_blocks_and_statements() {
    let f = function(1, "main", vec![MirStmt::Break, MirStmt::Continue, MirStmt::Break]);
    assert_eq!(function_size_line(&f), "fn main \u{2014} 1 blocks, 3 stmts");
}

#[test]
fn clones_carry_everything_but_the_provenance() {
    let mut m = module_of(vec![function(1, "main", vec![MirStmt::Break])]);
    m.entry_fn = Some(FnId(1));
    push_optimization_trace(&mut m, "cse");
    record_statement_span(&mut m, FnId(1), BlockId(0), 0, span(4));
    let legacy = clone_as_legacy(&m);
    assert_eq!(mir_provenance(&legacy), Some("legacy-ast"));
    assert_eq!(mir_provenance(&m), None);
    assert_eq!(module_snapshot(&legacy), "functions=1 entry=Some(1) provenance=legacy-ast rounds=0 trace=[cse]");
    assert_eq!(legacy.functions[0].name, "main");
    assert_eq!(legacy.functions[0].blocks[0].stmts.len(), 1);
    assert_eq!(statement_span(&legacy, FnId(1), BlockId(0), 0), Some(span(4)));
    assert_eq!(mir_provenance(&clone_as_corehir_fallback(&m)), Some("corehir-fallback"));
    assert_eq!(mir_provenance(&clone_for_optimized_legacy(&m)), Some("legacy-optimized"));
    assert_eq!(mir_provenance(&clone_for_optimized_corehir(&legacy)), Some("corehir-optimized"));
}

fn render(pieces: Vec<TextPiece>) -> String {
    let mut out = String::new();
    for piece in pieces {
        match piece {
            TextPiece::Text(s) => out.push_str(&s),
            TextPiece::Char(c) => out.push(c),
            TextPiece::F32(bits) => out.push_str(&format!("{}", f32::from_bits(bits))),
            TextPiece::F64(bits) => out.push_str(&format!("{}", f64::from_bits(bits))),
            TextPiece::Ty(ty) => out.push_str(&format!("{:?}", ty)),
        }
    }
    out
}

#[test]
fn function_text_matches_the_dump_format() {
    let mut f = function(1, "main", vec![]);
    f.params = vec![MirLocal { id: LocalId(0), name: Some("x".to_string()), ty: Type::I32 }];
    f.return_ty = Type::Unit;
    f.blocks = vec![
        BasicBlock {
            id: BlockId(0),
            stmts: vec![
                MirStmt::Assign(
                    Place::Local(LocalId(1)),
                    Rvalue::BinaryOp(BinOp::Add, Operand::Place(Place::Local(LocalId(0))), Operand::ConstF64(1.5f64.to_bits())),
                ),
                MirStmt::IfStmt { cond: Operand::ConstBool(true), then_body: vec![MirStmt::Break], else_body: vec![] },
                MirStmt::GcHint { local: LocalId(1), hint: GcHintKind::ShortLived },
                MirStmt::Call {
                    dest: Some(Place::Index(
                        Box::new(Place::Field(Box::new(Place::Local(LocalId(0))), "a".to_string())),
                        Box::new(Operand::ConstI32(3)),
                    )),
                    func: FnId(7),
                    args: vec![Operand::Unit],
                },
                MirStmt::Return(Some(Operand::Call(
                    "g".to_string(),
                    vec![
                        Operand::ConstChar('a'),
                        Operand::ConstString("hi".to_string()),
                        Operand::ConstI64(-5),
                        Operand::ConstF32(2.5f32.to_bits()),
                    ],
                ))),
            ],
            terminator: Terminator::If {
                cond: Operand::Place(Place::Local(LocalId(1))),
                then_block: BlockId(1),
                else_block: BlockId(2),
                hint: None,
            },
            source: SourceInfo::default(),
        },
        BasicBlock {
            id: BlockId(1),
            stmts: vec![],
            terminator: Terminator::Switch {
                scrutinee: Operand::ConstI32(-3),
                arms: vec![(1, BlockId(2)), (-2, BlockId(0))],
                default: BlockId(2),
            },
            source: SourceInfo::default(),
        },
    ];
    let expected = "fn main(x: I32) -> Unit:\n  bb0 [entry]:\n    _1 = _0 + 1.5\n    if true {\n      break\n    }\n    gc_hint _1 ShortLived\n    _0.a[3] = call fn#7(())\n    return g('a', \"hi\", -5i64, 2.5f32)\n    if _1 \u{2192} bb1 else bb2\n  bb1:\n    switch -3 [ 1 => bb2, -2 => bb0, _ => bb2 ]";
    assert_eq!(render(function_text_pieces(&f)), expected);
    let mut m = module_of(vec![f]);
    push_optimization_trace(&mut m, "cse");
    assert_eq!(
        render(module_text_pieces(&m)),
        format!("// MIR module: 1 fn(s), passes: [cse]\n\n{}", expected)
    );
}

#[test]
fn storing_into_a_field_escapes() {
    let mut f = function(1, "f", vec![MirStmt::Assign(
        Place::Field(Box::new(Place::Local(LocalId(1))), "f".to_string()),
        Rvalue::Use(Operand::Place(Place::Local(LocalId(0)))),
    )]);
    f.locals = vec![MirLocal { id: LocalId(0), name: None, ty: Type::String }];
    let info = analyze_function(&f);
    assert_eq!(info.hints, vec![(0, AllocHint::Heap)]);
    assert_eq!(info.heap_required, 1);
    assert_eq!(info.stack_eligible, 0);
}
