use ark_mir::mir::{
    BasicBlock, BlockId, FnId, InstanceKey, LocalId, MirFunction, MirLocal, MirStmt, Operand,
    Place, Rvalue, SourceInfo, Terminator,
};
use ark_mir::opt::escape_analysis::escape_analysis_pass;
use ark_mir::types::Type;

fn make_instance() -> InstanceKey {
    InstanceKey { item: String::new(), substitution: vec![], target_shape: String::new() }
}

fn point_init() -> MirStmt {
    MirStmt::Assign(
        Place::Local(LocalId(0)),
        Rvalue::Use(Operand::StructInit {
            name: "Point".into(),
            fields: vec![("x".into(), Operand::ConstI32(1)), ("y".into(), Operand::ConstI32(2))],
        }),
    )
}

fn function(return_ty: Type, locals: Vec<MirLocal>, stmts: Vec<MirStmt>, terminator: Terminator) -> MirFunction {
    MirFunction {
        id: FnId(0),
        name: "test".into(),
        instance: make_instance(),
        params: vec![],
        return_ty,
        locals,
        blocks: vec![BasicBlock { id: BlockId(0), stmts, terminator, source: SourceInfo::unknown() }],
        entry: BlockId(0),
        struct_typed_locals: Default::default(),
        enum_typed_locals: Default::default(),
        type_params: vec![],
        source: SourceInfo::unknown(),
        is_exported: false,
    }
}

#[test]
fn test_non_escaping_struct_is_scalar_replaced() {
    let field_read = |dest: u32, field: &str| {
        MirStmt::Assign(
            Place::Local(LocalId(dest)),
            Rvalue::Use(Operand::FieldAccess {
                object: Box::new(Operand::Place(Place::Local(LocalId(0)))),
                struct_name: "Point".into(),
                field: field.into(),
            }),
        )
    };
    let mut func = function(
        Type::Unit,
        vec![
            MirLocal { id: LocalId(0), name: Some("tmp".into()), ty: Type::I32 },
            MirLocal { id: LocalId(1), name: Some("a".into()), ty: Type::I32 },
            MirLocal { id: LocalId(2), name: Some("b".into()), ty: Type::I32 },
        ],
        vec![point_init(), field_read(1, "x"), field_read(2, "y")],
        Terminator::Return(None),
    );

    let summary = escape_analysis_pass(&mut func);
    assert_eq!(summary.scalar_replaced, 1);

    let stmts = &func.blocks[0].stmts;
    assert_eq!(stmts.len(), 4);
    for stmt in stmts {
        if let MirStmt::Assign(_, Rvalue::Use(op)) = stmt {
            assert!(!matches!(op, Operand::FieldAccess { .. }));
        }
    }
}

#[test]
fn test_escaping_struct_is_not_replaced() {
    let mut func = function(
        Type::I32,
        vec![MirLocal { id: LocalId(0), name: Some("tmp".into()), ty: Type::I32 }],
        vec![point_init()],
        Terminator::Return(Some(Operand::Place(Place::Local(LocalId(0))))),
    );

    let summary = escape_analysis_pass(&mut func);
    assert_eq!(summary.scalar_replaced, 0);
    assert!(matches!(
        &func.blocks[0].stmts[0],
        MirStmt::Assign(_, Rvalue::Use(Operand::StructInit { .. }))
    ));
}

#[test]
fn test_struct_passed_to_call_escapes() {
    let mut func = function(
        Type::Unit,
        vec![MirLocal { id: LocalId(0), name: Some("tmp".into()), ty: Type::I32 }],
        vec![
            point_init(),
            MirStmt::Call {
                dest: None,
                func: FnId(1),
                args: vec![Operand::Place(Place::Local(LocalId(0)))],
            },
        ],
        Terminator::Return(None),
    );

    let summary = escape_analysis_pass(&mut func);
    assert_eq!(summary.scalar_replaced, 0);
}
