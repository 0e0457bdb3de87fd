use ark_mir::mir::{
    BasicBlock, BlockId, FnId, InstanceKey, LocalId, MirFunction, MirLocal, MirStmt, Operand,
    Place, Rvalue, Terminator,
};
use ark_mir::mir_ops::{default_block_source, default_function_source};
use ark_mir::facade::{lower_backend_illegal_operands, lower_if_expr, lower_if_exprs};
use ark_mir::legality::{is_backend_legal_module, is_backend_legal_stmt};
use ark_mir::mir::MirModule;
use ark_mir::opt::desugar::desugar_exprs;
use ark_mir::types::Type;

#[test]
fn desugar_tryexpr_with_from_wraps_converted_err_in_result() {
    let mut func = MirFunction {
        id: FnId(0),
        name: "process".to_string(),
        instance: InstanceKey::simple("process"),
        params: Vec::new(),
        return_ty: Type::Result(Box::new(Type::I32), Box::new(Type::Any)),
        locals: vec![
            MirLocal {
                id: LocalId(0),
                name: Some("input".to_string()),
                ty: Type::Result(Box::new(Type::String), Box::new(Type::String)),
            },
            MirLocal { id: LocalId(1), name: Some("value".to_string()), ty: Type::String },
        ],
        blocks: vec![BasicBlock {
            id: BlockId(0),
            stmts: vec![MirStmt::Assign(
                Place::Local(LocalId(1)),
                Rvalue::Use(Operand::TryExpr {
                    expr: Box::new(Operand::Place(Place::Local(LocalId(0)))),
                    from_fn: Some("AppError__from".to_string()),
                }),
            )],
            terminator: Terminator::Return(None),
            source: default_block_source(),
        }],
        entry: BlockId(0),
        struct_typed_locals: Default::default(),
        enum_typed_locals: Default::default(),
        type_params: vec![],
        source: default_function_source(),
        is_exported: false,
    };

    let fn_return_types = vec![("AppError__from".to_string(), Type::Any)];

    assert_eq!(desugar_exprs(&mut func, &fn_return_types), 1);

    let then_body = func.blocks[0]
        .stmts
        .iter()
        .find_map(|stmt| match stmt {
            MirStmt::IfStmt { then_body, .. } => Some(then_body),
            _ => None,
        })
        .expect("desugared try expression should emit an IfStmt");

    match then_body.as_slice() {
        [MirStmt::Return(Some(Operand::EnumInit { enum_name, variant, tag, payload }))] => {
            assert_eq!(enum_name, "Result");
            assert_eq!(variant, "Err");
            assert_eq!(*tag, 1);
            match payload.as_slice() {
                [Operand::Call(name, args)] => {
                    assert_eq!(name, "AppError__from");
                    assert!(matches!(
                        args.as_slice(),
                        [Operand::EnumPayload { variant_name, .. }] if variant_name == "Err"
                    ));
                },
                other => panic!("expected converted payload call, got {other:?}"),
            }
        },
        other => panic!("expected Err-wrapped early return, got {other:?}"),
    }
}

fn if_expr_function() -> MirFunction {
    MirFunction {
        id: FnId(0),
        name: "pick".to_string(),
        instance: InstanceKey::simple("pick"),
        params: Vec::new(),
        return_ty: Type::I32,
        locals: vec![
            MirLocal { id: LocalId(0), name: Some("flag".to_string()), ty: Type::Bool },
            MirLocal { id: LocalId(3), name: Some("out".to_string()), ty: Type::I32 },
        ],
        blocks: vec![BasicBlock {
            id: BlockId(0),
            stmts: vec![MirStmt::Assign(
                Place::Local(LocalId(3)),
                Rvalue::Use(Operand::IfExpr {
                    cond: Box::new(Operand::Place(Place::Local(LocalId(0)))),
                    then_body: vec![],
                    then_result: Some(Box::new(Operand::ConstI32(1))),
                    else_body: vec![],
                    else_result: Some(Box::new(Operand::ConstI32(2))),
                }),
            )],
            terminator: Terminator::Return(None),
            source: default_block_source(),
        }],
        entry: BlockId(0),
        struct_typed_locals: Default::default(),
        enum_typed_locals: Default::default(),
        type_params: vec![],
        source: default_function_source(),
        is_exported: false,
    }
}

#[test]
fn desugar_if_expr_leaves_legal_statements_and_fresh_temporaries() {
    let mut func = if_expr_function();
    assert!(!is_backend_legal_stmt(&func.blocks[0].stmts[0]));
    assert_eq!(desugar_exprs(&mut func, &vec![]), 1);
    assert!(func.blocks[0].stmts.iter().all(is_backend_legal_stmt));
    assert_eq!(func.locals.len(), 3);
    assert_eq!(func.locals[2].id, LocalId(4));
    let again = func.blocks[0].stmts.len();
    assert_eq!(desugar_exprs(&mut func, &vec![]), 0);
    assert_eq!(func.blocks[0].stmts.len(), again);
    assert_eq!(func.locals.len(), 3);
}

#[test]
fn lowering_time_desugar_makes_modules_legal() {
    let mut func = if_expr_function();
    lower_if_expr(&mut func);
    assert!(func.blocks[0].stmts.iter().all(is_backend_legal_stmt));
    let mut module = MirModule::new();
    module.functions.push(if_expr_function());
    assert!(!is_backend_legal_module(&module));
    lower_if_exprs(&mut module);
    assert!(is_backend_legal_module(&module));
}

#[test]
fn backend_lowering_rounds_reach_legal_mir() {
    let mut module = MirModule::new();
    module.functions.push(if_expr_function());
    lower_backend_illegal_operands(&mut module, 0);
    assert!(!is_backend_legal_module(&module));
    lower_backend_illegal_operands(&mut module, 16);
    assert!(is_backend_legal_module(&module));
    assert_eq!(module.functions[0].locals.len(), 3);
}

#[test]
fn try_expressions_can_need_a_second_round() {
    let mut func = if_expr_function();
    let inner = match func.blocks[0].stmts.pop() {
        Some(MirStmt::Assign(_, Rvalue::Use(op))) => op,
        other => panic!("unexpected statement {other:?}"),
    };
    func.blocks[0].stmts.push(MirStmt::Assign(
        Place::Local(LocalId(3)),
        Rvalue::Use(Operand::TryExpr { expr: Box::new(inner), from_fn: None }),
    ));
    let mut module = MirModule::new();
    module.functions.push(func);
    lower_backend_illegal_operands(&mut module, 1);
    assert!(!is_backend_legal_module(&module));
    lower_backend_illegal_operands(&mut module, 1);
    assert!(is_backend_legal_module(&module));
}

#[test]
fn temporaries_start_above_parameters() {
    let mut func = if_expr_function();
    func.params = vec![MirLocal { id: LocalId(9), name: Some("p".to_string()), ty: Type::I32 }];
    assert_eq!(desugar_exprs(&mut func, &vec![]), 1);
    assert_eq!(func.locals[2].id, LocalId(10));
}

#[test]
fn block_ends_are_made_legal() {
    let mut func = if_expr_function();
    let inner = match func.blocks[0].stmts.pop() {
        Some(MirStmt::Assign(_, Rvalue::Use(op))) => op,
        other => panic!("unexpected statement {other:?}"),
    };
    func.blocks[0].terminator = Terminator::Return(Some(Operand::TryExpr { expr: Box::new(inner), from_fn: None }));
    let mut module = MirModule::new();
    module.functions.push(func);
    assert!(!is_backend_legal_module(&module));
    assert_eq!(desugar_exprs(&mut module.functions[0], &vec![]), 2);
    assert!(is_backend_legal_module(&module));
    assert!(matches!(module.functions[0].blocks[0].terminator, Terminator::Return(Some(Operand::Place(_)))));

    let mut cond_func = if_expr_function();
    let cond = match cond_func.blocks[0].stmts.pop() {
        Some(MirStmt::Assign(_, Rvalue::Use(op))) => op,
        other => panic!("unexpected statement {other:?}"),
    };
    cond_func.blocks[0].terminator = Terminator::If {
        cond,
        then_block: BlockId(0),
        else_block: BlockId(0),
        hint: None,
    };
    let mut module = MirModule::new();
    module.functions.push(cond_func);
    assert!(!is_backend_legal_module(&module));
    assert_eq!(desugar_exprs(&mut module.functions[0], &vec![]), 1);
    assert!(is_backend_legal_module(&module));
}

#[test]
fn desugared_if_expr_keeps_its_branches_in_order() {
    let mut func = if_expr_function();
    assert_eq!(desugar_exprs(&mut func, &vec![]), 1);
    let stmts = &func.blocks[0].stmts;
    assert_eq!(stmts.len(), 2);
    match &stmts[0] {
        MirStmt::IfStmt { cond, then_body, else_body } => {
            assert!(matches!(cond, Operand::Place(Place::Local(LocalId(0)))));
            assert_eq!(then_body.len(), 1);
            assert!(matches!(&then_body[0],
                MirStmt::Assign(Place::Local(LocalId(4)), Rvalue::Use(Operand::ConstI32(1)))));
            assert_eq!(else_body.len(), 1);
            assert!(matches!(&else_body[0],
                MirStmt::Assign(Place::Local(LocalId(4)), Rvalue::Use(Operand::ConstI32(2)))));
        }
        _ => panic!("expected an if statement"),
    }
    assert!(matches!(&stmts[1],
        MirStmt::Assign(Place::Local(LocalId(3)), Rvalue::Use(Operand::Place(Place::Local(LocalId(4)))))));
    assert_eq!(func.locals[2].name.as_deref(), Some("_if_result"));
}

#[test]
fn if_desugaring_twice_changes_nothing_more() {
    let mut func = if_expr_function();
    assert_eq!(ark_mir::opt::desugar::desugar_if_exprs(&mut func, &vec![]), 1);
    let stmts = func.blocks[0].stmts.len();
    let locals = func.locals.len();
    assert_eq!(ark_mir::opt::desugar::desugar_if_exprs(&mut func, &vec![]), 0);
    assert_eq!(func.blocks[0].stmts.len(), stmts);
    assert_eq!(func.locals.len(), locals);
}

#[test]
fn legacy_ids_step_by_appended_characters() {
    let empty = ark_mir::mir_ops::legacy_fn_id("");
    assert_eq!(empty, FnId(0));
    let a = ark_mir::mir_ops::legacy_fn_id("mai").0;
    let b = ark_mir::mir_ops::legacy_fn_id("main").0;
    assert_eq!(b, a.wrapping_mul(16777619) ^ ('n' as u32));
}
