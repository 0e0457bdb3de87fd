use ark_mir::hir::{
    compare_program_and_mir, corehir_lowering_summary, is_corehir_lowering_connected,
    lower_check_output_to_mir, lower_corehir_only, lower_corehir_with_fallback, lower_dual_paths,
    lower_prefer_corehir, lower_expr_shape_count,
    lower_hir_debug_dump, lower_hir_to_mir, lower_legacy_and_corehir, lowering_paths_ready,
    program_shape_snapshot, referenced_body_ids, Body, BodyId, Expr, ExprKind, Item, ItemKind,
    Module, Program, Stmt,
};
use ark_mir::mir::MirModule;

fn sample_program() -> Program {
    Program {
        modules: vec![Module {
            items: vec![Item { kind: ItemKind::Function }, Item { kind: ItemKind::Other }],
        }],
        bodies: vec![Body {
            id: BodyId(3),
            stmts: vec![
                Stmt::While,
                Stmt::Expr(Expr { kind: ExprKind::Match }),
                Stmt::Expr(Expr { kind: ExprKind::Other }),
                Stmt::Other,
            ],
            tail: Some(Expr { kind: ExprKind::Try }),
        }],
    }
}

fn empty_program() -> Program {
    Program { modules: vec![], bodies: vec![] }
}

#[test]
fn program_without_modules_is_refused() {
    let r = lower_hir_to_mir(&empty_program(), None);
    assert_eq!(r.err(), Some("CoreHIR program has no modules".to_string()));
}

#[test]
fn corehir_lowering_records_a_snapshot() {
    let m = lower_hir_to_mir(&sample_program(), None).unwrap();
    assert!(m.functions.is_empty());
    assert_eq!(m.entry_fn, None);
    assert_eq!(m.stats.provenance.as_deref(), Some("corehir"));
    assert_eq!(
        m.stats.optimization_trace,
        vec![
            "corehir-snapshot items=2 functions=1 bodies=1 cfg_nodes=1 complex_exprs=2 mirror_items=2"
                .to_string()
        ]
    );
}

#[test]
fn corehir_snapshot_mirrors_the_checker_program() {
    let checker = Program {
        modules: vec![Module { items: vec![Item { kind: ItemKind::Other }; 5] }],
        bodies: vec![],
    };
    let m = lower_hir_to_mir(&sample_program(), Some(&checker)).unwrap();
    assert!(m.stats.optimization_trace[0].ends_with("mirror_items=5"));
    let m = lower_hir_to_mir(&sample_program(), Some(&empty_program())).unwrap();
    assert!(m.stats.optimization_trace[0].ends_with("mirror_items=0"));
}

#[test]
fn program_shape_is_reported() {
    assert_eq!(
        program_shape_snapshot(&sample_program()),
        "modules=1 functions=1 bodies=1 first_body=3"
    );
    assert_eq!(
        program_shape_snapshot(&empty_program()),
        "modules=0 functions=0 bodies=0 first_body=0"
    );
    assert_eq!(referenced_body_ids(&sample_program()), vec![BodyId(3)]);
    assert_eq!(lower_expr_shape_count(&sample_program()), 5);
}

#[test]
fn connection_needs_a_module_and_a_body() {
    assert!(is_corehir_lowering_connected(&sample_program()));
    assert!(!is_corehir_lowering_connected(&empty_program()));
    let no_bodies = Program { modules: sample_program().modules, bodies: vec![] };
    assert!(!lowering_paths_ready(&no_bodies));
}

#[test]
fn corehir_summary_text() {
    assert_eq!(
        corehir_lowering_summary(&sample_program()),
        "connected=true expr_shapes=5 bodies=1 modules=1"
    );
    assert_eq!(
        lower_hir_debug_dump(&empty_program()),
        "connected=false expr_shapes=0 bodies=0 modules=0"
    );
    let text = compare_program_and_mir(&sample_program(), &MirModule::new());
    assert!(text.starts_with("program=connected=true expr_shapes=5 bodies=1 modules=1\nmir=functions=0"));
}

#[test]
fn fallback_lowering_marks_the_legacy_module() {
    let r = lower_corehir_with_fallback(&sample_program(), None, MirModule::new()).unwrap();
    assert_eq!(r.stats.provenance.as_deref(), Some("corehir-fallback"));
    assert!(r.functions.is_empty());
    let r = lower_check_output_to_mir(&empty_program(), None, MirModule::new()).unwrap();
    assert_eq!(r.stats.provenance.as_deref(), Some("corehir-fallback"));
    let (legacy, corehir) =
        lower_legacy_and_corehir(&sample_program(), None, MirModule::new()).unwrap();
    assert_eq!(legacy.stats.provenance.as_deref(), Some("legacy-ast"));
    assert_eq!(corehir.stats.provenance.as_deref(), Some("corehir-fallback"));
}

#[test]
fn dual_lowering_keeps_both_paths() {
    let (legacy, corehir) = lower_dual_paths(&sample_program(), None, MirModule::new()).unwrap();
    assert_eq!(legacy.stats.provenance.as_deref(), Some("legacy-ast"));
    assert_eq!(corehir.stats.provenance.as_deref(), Some("corehir-fallback"));
    let only = lower_corehir_only(&sample_program(), None, MirModule::new()).unwrap();
    assert_eq!(only.stats.provenance.as_deref(), Some("corehir-fallback"));
    let preferred = lower_prefer_corehir(&empty_program(), None, MirModule::new()).unwrap();
    assert_eq!(preferred.stats.provenance.as_deref(), Some("corehir-fallback"));
}
