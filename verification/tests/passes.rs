use ark_mir::mir::{
    AggregateKind, BasicBlock, BinOp, BlockId, FnId, GcHintKind, InstanceKey, LocalId, MirFunction,
    MirLocal, MirStmt, Operand, Place, Rvalue, SourceInfo, Terminator, UnaryOp,
};
use ark_mir::opt::aggregate_simplify::aggregate_simplify;
use ark_mir::opt::algebraic_simplify::algebraic_simplify;
use ark_mir::opt::branch_fold::branch_fold;
use ark_mir::opt::branch_hint::is_panic_name;
use ark_mir::opt::cfg_simplify::cfg_simplify;
use ark_mir::opt::const_fold::const_fold;
use ark_mir::opt::const_prop::const_prop;
use ark_mir::opt::copy_prop::copy_prop;
use ark_mir::opt::cse::{cse, is_pure_binop};
use ark_mir::opt::dead_block_elim::dead_block_elim;
use ark_mir::opt::dead_local_elim::dead_local_elim;
use ark_mir::opt::gc_hint::{gc_hint_pass, gc_hint_pass_inner};
use ark_mir::opt::inline_small_leaf::inline_small_leaf;
use ark_mir::opt::licm::licm;
use ark_mir::types::Type;

fn local(id: u32) -> Place {
    Place::Local(LocalId(id))
}

fn read(id: u32) -> Operand {
    Operand::Place(local(id))
}

fn block(id: u32, stmts: Vec<MirStmt>, terminator: Terminator) -> BasicBlock {
    BasicBlock { id: BlockId(id), stmts, terminator, source: SourceInfo::default() }
}

fn function(n_locals: u32, blocks: Vec<BasicBlock>) -> MirFunction {
    MirFunction {
        id: FnId(0),
        name: "f".to_string(),
        instance: InstanceKey { item: "f".to_string(), substitution: vec![], target_shape: String::new() },
        params: vec![],
        return_ty: Type::I32,
        locals: (0..n_locals).map(|i| MirLocal { id: LocalId(i), name: None, ty: Type::I32 }).collect(),
        blocks,
        entry: BlockId(0),
        struct_typed_locals: vec![],
        enum_typed_locals: vec![],
        type_params: vec![],
        source: SourceInfo::default(),
        is_exported: false,
    }
}

fn one_block(stmts: Vec<MirStmt>, terminator: Terminator) -> MirFunction {
    function(4, vec![block(0, stmts, terminator)])
}

#[test]
fn const_prop_substitutes_known_constants() {
    let mut f = one_block(
        vec![
            MirStmt::Assign(local(0), Rvalue::Use(Operand::ConstI32(5))),
            MirStmt::Assign(local(1), Rvalue::BinaryOp(BinOp::Add, read(0), Operand::ConstI32(1))),
        ],
        Terminator::Return(Some(read(0))),
    );
    let summary = const_prop(&mut f);
    assert_eq!(summary.const_propagated, 2);
    assert!(matches!(
        &f.blocks[0].stmts[1],
        MirStmt::Assign(Place::Local(LocalId(1)), Rvalue::BinaryOp(BinOp::Add, Operand::ConstI32(5), Operand::ConstI32(1)))
    ));
    assert!(matches!(&f.blocks[0].terminator, Terminator::Return(Some(Operand::ConstI32(5)))));
}

#[test]
fn const_prop_leaves_loop_variables_alone() {
    let mut f = one_block(
        vec![
            MirStmt::Assign(local(0), Rvalue::Use(Operand::ConstI32(0))),
            MirStmt::WhileStmt {
                cond: Operand::BinOp(BinOp::Lt, Box::new(read(0)), Box::new(Operand::ConstI32(10))),
                body: vec![MirStmt::Assign(
                    local(0),
                    Rvalue::BinaryOp(BinOp::Add, read(0), Operand::ConstI32(1)),
                )],
            },
        ],
        Terminator::Return(None),
    );
    let summary = const_prop(&mut f);
    assert_eq!(summary.const_propagated, 0);
    match &f.blocks[0].stmts[1] {
        MirStmt::WhileStmt { cond: Operand::BinOp(BinOp::Lt, lhs, _), .. } => {
            assert!(matches!(**lhs, Operand::Place(Place::Local(LocalId(0)))));
        }
        other => panic!("unexpected statement {:?}", other),
    }
}

#[test]
fn copy_prop_forwards_copies() {
    let mut f = one_block(
        vec![
            MirStmt::Assign(local(1), Rvalue::Use(read(0))),
            MirStmt::Assign(local(2), Rvalue::BinaryOp(BinOp::Add, read(1), Operand::ConstI32(1))),
        ],
        Terminator::Return(Some(read(1))),
    );
    let summary = copy_prop(&mut f);
    assert_eq!(summary.copy_propagated, 1);
    assert!(matches!(
        &f.blocks[0].stmts[1],
        MirStmt::Assign(_, Rvalue::BinaryOp(BinOp::Add, Operand::Place(Place::Local(LocalId(0))), Operand::ConstI32(1)))
    ));
    assert!(matches!(&f.blocks[0].terminator, Terminator::Return(Some(Operand::Place(Place::Local(LocalId(0)))))));
}

#[test]
fn dead_local_elim_drops_unused_locals() {
    let mut f = one_block(
        vec![MirStmt::Assign(local(0), Rvalue::Use(Operand::ConstI32(1)))],
        Terminator::Return(Some(read(2))),
    );
    let summary = dead_local_elim(&mut f);
    assert_eq!(summary.dead_locals_removed, 2);
    let ids: Vec<u32> = f.locals.iter().map(|l| l.id.0).collect();
    assert_eq!(ids, vec![0, 2]);
}

#[test]
fn dead_local_elim_keeps_params() {
    let mut f = one_block(vec![], Terminator::Return(None));
    f.params = vec![MirLocal { id: LocalId(3), name: Some("p".to_string()), ty: Type::I32 }];
    let summary = dead_local_elim(&mut f);
    assert_eq!(summary.dead_locals_removed, 3);
    let ids: Vec<u32> = f.locals.iter().map(|l| l.id.0).collect();
    assert_eq!(ids, vec![3]);
}

#[test]
fn cfg_simplify_counts_empty_forwarding_blocks() {
    let mut f = function(
        1,
        vec![
            block(0, vec![], Terminator::Goto(BlockId(1))),
            block(1, vec![MirStmt::Break], Terminator::Goto(BlockId(2))),
            block(2, vec![], Terminator::Return(None)),
        ],
    );
    let summary = cfg_simplify(&mut f);
    assert_eq!(summary.cfg_simplified, 1);
    assert_eq!(f.blocks.len(), 3);
}

#[test]
fn branch_fold_resolves_constant_conditions() {
    let mut f = function(
        1,
        vec![
            block(
                0,
                vec![],
                Terminator::If {
                    cond: Operand::ConstBool(false),
                    then_block: BlockId(1),
                    else_block: BlockId(2),
                    hint: None,
                },
            ),
            block(
                1,
                vec![],
                Terminator::If { cond: read(0), then_block: BlockId(2), else_block: BlockId(2), hint: None },
            ),
            block(2, vec![], Terminator::Return(None)),
        ],
    );
    let summary = branch_fold(&mut f);
    assert_eq!(summary.branch_folded, 1);
    assert!(matches!(f.blocks[0].terminator, Terminator::Goto(BlockId(2))));
    assert!(matches!(f.blocks[1].terminator, Terminator::If { .. }));
}

#[test]
fn aggregate_simplify_unwraps_single_element_aggregates() {
    let mut f = one_block(
        vec![
            MirStmt::Assign(local(0), Rvalue::Aggregate(AggregateKind::Tuple, vec![Operand::ConstI32(7)])),
            MirStmt::Assign(
                local(1),
                Rvalue::Aggregate(AggregateKind::Tuple, vec![Operand::ConstI32(1), Operand::ConstI32(2)]),
            ),
        ],
        Terminator::Return(None),
    );
    let summary = aggregate_simplify(&mut f);
    assert_eq!(summary.aggregate_simplified, 1);
    assert!(matches!(&f.blocks[0].stmts[0], MirStmt::Assign(Place::Local(LocalId(0)), Rvalue::Use(Operand::ConstI32(7)))));
    assert!(matches!(&f.blocks[0].stmts[1], MirStmt::Assign(_, Rvalue::Aggregate(_, ops)) if ops.len() == 2));
}

#[test]
fn inline_small_leaf_rewrites_identity_calls() {
    let mut f = one_block(
        vec![MirStmt::CallBuiltin {
            dest: Some(local(2)),
            name: "identity".to_string(),
            args: vec![Operand::ConstI32(3)],
        }],
        Terminator::Return(None),
    );
    let summary = inline_small_leaf(&mut f);
    assert_eq!(summary.inline_small_leaf, 1);
    assert!(matches!(&f.blocks[0].stmts[0], MirStmt::Assign(Place::Local(LocalId(0)), Rvalue::Use(Operand::ConstI32(3)))));
}

#[test]
fn inline_small_leaf_skips_large_functions() {
    let mut stmts = vec![MirStmt::CallBuiltin {
        dest: None,
        name: "identity".to_string(),
        args: vec![Operand::ConstI32(3)],
    }];
    for _ in 0..8 {
        stmts.push(MirStmt::Break);
    }
    let mut f = one_block(stmts, Terminator::Return(None));
    let summary = inline_small_leaf(&mut f);
    assert_eq!(summary.inline_small_leaf, 0);
    assert!(matches!(&f.blocks[0].stmts[0], MirStmt::CallBuiltin { .. }));
}

#[test]
fn const_fold_evaluates_constant_binops() {
    let mut f = one_block(
        vec![
            MirStmt::Assign(local(0), Rvalue::BinaryOp(BinOp::Add, Operand::ConstI32(2), Operand::ConstI32(3))),
            MirStmt::Assign(local(1), Rvalue::BinaryOp(BinOp::Sub, Operand::ConstI32(2), Operand::ConstI32(5))),
            MirStmt::Assign(local(2), Rvalue::BinaryOp(BinOp::Mul, Operand::ConstI32(4), Operand::ConstI32(5))),
            MirStmt::Assign(
                local(3),
                Rvalue::BinaryOp(BinOp::Eq, Operand::ConstBool(true), Operand::ConstBool(false)),
            ),
            MirStmt::Assign(local(3), Rvalue::BinaryOp(BinOp::Div, Operand::ConstI32(4), Operand::ConstI32(2))),
        ],
        Terminator::Return(None),
    );
    let summary = const_fold(&mut f);
    assert_eq!(summary.const_folded, 4);
    let s = &f.blocks[0].stmts;
    assert!(matches!(&s[0], MirStmt::Assign(Place::Local(LocalId(0)), Rvalue::Use(Operand::ConstI32(5)))));
    assert!(matches!(&s[1], MirStmt::Assign(_, Rvalue::Use(Operand::ConstI32(-3)))));
    assert!(matches!(&s[2], MirStmt::Assign(_, Rvalue::Use(Operand::ConstI32(20)))));
    assert!(matches!(&s[3], MirStmt::Assign(_, Rvalue::Use(Operand::ConstBool(false)))));
    assert!(matches!(&s[4], MirStmt::Assign(_, Rvalue::BinaryOp(BinOp::Div, _, _))));
}

#[test]
fn dead_block_elim_keeps_exactly_the_reachable_blocks() {
    let mut f = function(
        1,
        vec![
            block(0, vec![], Terminator::Goto(BlockId(2))),
            block(1, vec![], Terminator::Return(None)),
            block(
                2,
                vec![],
                Terminator::Switch { scrutinee: read(0), arms: vec![(1, BlockId(3))], default: BlockId(4) },
            ),
            block(3, vec![], Terminator::Return(None)),
            block(4, vec![], Terminator::Unreachable),
            block(5, vec![], Terminator::Goto(BlockId(1))),
        ],
    );
    let summary = dead_block_elim(&mut f);
    assert_eq!(summary.dead_blocks_removed, 2);
    let ids: Vec<u32> = f.blocks.iter().map(|b| b.id.0).collect();
    assert_eq!(ids, vec![0, 2, 3, 4]);
}

#[test]
fn algebraic_simplify_applies_identities() {
    let mut f = one_block(
        vec![
            MirStmt::Assign(local(1), Rvalue::BinaryOp(BinOp::Add, read(0), Operand::ConstI32(0))),
            MirStmt::Assign(local(1), Rvalue::BinaryOp(BinOp::Mul, Operand::ConstI64(0), read(0))),
            MirStmt::Assign(local(1), Rvalue::BinaryOp(BinOp::Or, read(0), Operand::ConstBool(true))),
            MirStmt::Assign(
                local(1),
                Rvalue::UnaryOp(UnaryOp::Not, Operand::UnaryOp(UnaryOp::Not, Box::new(read(2)))),
            ),
            MirStmt::Assign(local(1), Rvalue::BinaryOp(BinOp::Sub, Operand::ConstI32(0), read(0))),
        ],
        Terminator::Return(None),
    );
    let summary = algebraic_simplify(&mut f);
    assert_eq!(summary.algebraic_simplified, 4);
    let s = &f.blocks[0].stmts;
    assert!(matches!(&s[0], MirStmt::Assign(_, Rvalue::Use(Operand::Place(Place::Local(LocalId(0)))))));
    assert!(matches!(&s[1], MirStmt::Assign(_, Rvalue::Use(Operand::ConstI64(0)))));
    assert!(matches!(&s[2], MirStmt::Assign(_, Rvalue::Use(Operand::ConstBool(true)))));
    assert!(matches!(&s[3], MirStmt::Assign(_, Rvalue::Use(Operand::Place(Place::Local(LocalId(2)))))));
    assert!(matches!(&s[4], MirStmt::Assign(_, Rvalue::BinaryOp(BinOp::Sub, _, _))));
}

#[test]
fn cse_reuses_earlier_results() {
    let mut f = one_block(
        vec![
            MirStmt::Assign(local(2), Rvalue::BinaryOp(BinOp::Add, read(0), read(1))),
            MirStmt::Assign(local(3), Rvalue::BinaryOp(BinOp::Add, read(0), read(1))),
        ],
        Terminator::Return(None),
    );
    let summary = cse(&mut f);
    assert_eq!(summary.cse_eliminated, 1);
    assert!(matches!(
        &f.blocks[0].stmts[1],
        MirStmt::Assign(Place::Local(LocalId(3)), Rvalue::Use(Operand::Place(Place::Local(LocalId(2)))))
    ));
}

#[test]
fn cse_forgets_expressions_over_reassigned_locals() {
    let mut f = one_block(
        vec![
            MirStmt::Assign(local(2), Rvalue::BinaryOp(BinOp::Add, read(0), read(1))),
            MirStmt::Assign(local(0), Rvalue::Use(Operand::ConstI32(9))),
            MirStmt::Assign(local(3), Rvalue::BinaryOp(BinOp::Add, read(0), read(1))),
            MirStmt::Assign(local(2), Rvalue::UnaryOp(UnaryOp::Neg, read(1))),
            MirStmt::Call { dest: None, func: FnId(4), args: vec![] },
            MirStmt::Assign(local(3), Rvalue::UnaryOp(UnaryOp::Neg, read(1))),
        ],
        Terminator::Return(None),
    );
    let summary = cse(&mut f);
    assert_eq!(summary.cse_eliminated, 0);
    assert!(matches!(&f.blocks[0].stmts[2], MirStmt::Assign(_, Rvalue::BinaryOp(BinOp::Add, _, _))));
    assert!(matches!(&f.blocks[0].stmts[5], MirStmt::Assign(_, Rvalue::UnaryOp(UnaryOp::Neg, _))));
}

#[test]
fn cse_pure_binops() {
    assert!(is_pure_binop(BinOp::Add));
    assert!(is_pure_binop(BinOp::Shr));
    assert!(is_pure_binop(BinOp::Ge));
}

#[test]
fn licm_hoists_invariant_assignments() {
    let mut f = one_block(
        vec![MirStmt::WhileStmt {
            cond: read(0),
            body: vec![
                MirStmt::Assign(local(1), Rvalue::BinaryOp(BinOp::Add, Operand::ConstI32(1), Operand::ConstI32(2))),
                MirStmt::Assign(local(0), Rvalue::BinaryOp(BinOp::Add, read(0), Operand::ConstI32(1))),
                MirStmt::Assign(local(2), Rvalue::Use(read(0))),
            ],
        }],
        Terminator::Return(None),
    );
    let summary = licm(&mut f);
    assert_eq!(summary.licm_hoisted, 1);
    let s = &f.blocks[0].stmts;
    assert_eq!(s.len(), 2);
    assert!(matches!(&s[0], MirStmt::Assign(Place::Local(LocalId(1)), Rvalue::BinaryOp(BinOp::Add, _, _))));
    match &s[1] {
        MirStmt::WhileStmt { body, .. } => assert_eq!(body.len(), 2),
        other => panic!("unexpected statement {:?}", other),
    }
}

#[test]
fn gc_hint_marks_short_lived_struct_allocations() {
    let mut f = one_block(
        vec![MirStmt::WhileStmt {
            cond: read(0),
            body: vec![MirStmt::Assign(
                local(1),
                Rvalue::Use(Operand::StructInit { name: "P".to_string(), fields: vec![] }),
            )],
        }],
        Terminator::Return(None),
    );
    assert!(gc_hint_pass(&mut f));
    match &f.blocks[0].stmts[0] {
        MirStmt::WhileStmt { body, .. } => {
            assert_eq!(body.len(), 2);
            assert!(matches!(
                &body[1],
                MirStmt::GcHint { local: LocalId(1), hint: GcHintKind::ShortLived }
            ));
        }
        other => panic!("unexpected statement {:?}", other),
    }
}

#[test]
fn gc_hint_skips_escaping_allocations() {
    let mut f = one_block(
        vec![MirStmt::WhileStmt {
            cond: read(0),
            body: vec![
                MirStmt::Assign(local(1), Rvalue::Aggregate(AggregateKind::Struct("P".to_string()), vec![])),
                MirStmt::Call { dest: None, func: FnId(1), args: vec![read(1)] },
            ],
        }],
        Terminator::Return(None),
    );
    let summary = gc_hint_pass_inner(&mut f);
    assert_eq!(summary.gc_hinted, 0);
    match &f.blocks[0].stmts[0] {
        MirStmt::WhileStmt { body, .. } => assert_eq!(body.len(), 2),
        other => panic!("unexpected statement {:?}", other),
    }
}

#[test]
fn panic_names_are_matched_without_case() {
    assert!(is_panic_name("rt_PANIC_handler"));
    assert!(is_panic_name("Option_Unwrap_Failed"));
    assert!(is_panic_name("abort"));
    assert!(!is_panic_name("print_line"));
}

#[test]
fn cse_does_not_reuse_an_expression_over_its_own_target() {
    let mut f = one_block(
        vec![
            MirStmt::Assign(local(0), Rvalue::BinaryOp(BinOp::Add, read(0), Operand::ConstI32(1))),
            MirStmt::Assign(local(1), Rvalue::BinaryOp(BinOp::Add, read(0), Operand::ConstI32(1))),
        ],
        Terminator::Return(None),
    );
    let summary = cse(&mut f);
    assert_eq!(summary.cse_eliminated, 0);
    assert!(matches!(&f.blocks[0].stmts[1], MirStmt::Assign(_, Rvalue::BinaryOp(BinOp::Add, _, _))));
}

#[test]
fn panic_names_include_assertions() {
    assert!(is_panic_name("assert_eq"));
    assert!(is_panic_name("core_assert"));
}
