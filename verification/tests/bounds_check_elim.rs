use ark_mir::mir::{
    BasicBlock, BlockId, FnId, InstanceKey, LocalId, MirFunction, MirLocal, MirStmt, Operand,
    Place, Rvalue, SourceInfo, Terminator,
};
use ark_mir::opt::bounds_check_elim::{bounds_check_elim, is_bounds_check_name};
use ark_mir::types::Type;

fn dummy_function(stmts: Vec<MirStmt>) -> MirFunction {
    MirFunction {
        id: FnId(0),
        name: "test".to_string(),
        instance: InstanceKey {
            item: "test".to_string(),
            substitution: vec![],
            target_shape: String::new(),
        },
        params: vec![],
        return_ty: Type::I32,
        locals: vec![
            MirLocal { id: LocalId(0), name: None, ty: Type::I32 },
            MirLocal { id: LocalId(1), name: None, ty: Type::I32 },
            MirLocal { id: LocalId(2), name: None, ty: Type::I32 },
        ],
        blocks: vec![BasicBlock {
            id: BlockId(0),
            stmts,
            terminator: Terminator::Return(None),
            source: SourceInfo::default(),
        }],
        entry: BlockId(0),
        struct_typed_locals: Default::default(),
        enum_typed_locals: Default::default(),
        type_params: vec![],
        source: SourceInfo::default(),
        is_exported: false,
    }
}

#[test]
fn constant_index_within_known_array_size() {
    let stmts = vec![
        MirStmt::Assign(
            Place::Local(LocalId(0)),
            Rvalue::Use(Operand::ArrayInit {
                elements: vec![Operand::ConstI32(10), Operand::ConstI32(20), Operand::ConstI32(30)],
            }),
        ),
        MirStmt::CallBuiltin {
            dest: None,
            name: "bounds_check".to_string(),
            args: vec![Operand::Place(Place::Local(LocalId(0))), Operand::ConstI32(1)],
        },
    ];
    let mut func = dummy_function(stmts);
    let summary = bounds_check_elim(&mut func);
    assert_eq!(summary.bounds_checks_eliminated, 1);
    assert_eq!(func.blocks[0].stmts.len(), 1);
}

#[test]
fn constant_index_out_of_range_not_eliminated() {
    let stmts = vec![
        MirStmt::Assign(
            Place::Local(LocalId(0)),
            Rvalue::Use(Operand::ArrayInit { elements: vec![Operand::ConstI32(10)] }),
        ),
        MirStmt::CallBuiltin {
            dest: None,
            name: "bounds_check".to_string(),
            args: vec![Operand::Place(Place::Local(LocalId(0))), Operand::ConstI32(5)],
        },
    ];
    let mut func = dummy_function(stmts);
    let summary = bounds_check_elim(&mut func);
    assert_eq!(summary.bounds_checks_eliminated, 0);
    assert_eq!(func.blocks[0].stmts.len(), 2);
}

#[test]
fn duplicate_bounds_check_eliminated() {
    let stmts = vec![
        MirStmt::CallBuiltin {
            dest: None,
            name: "bounds_check".to_string(),
            args: vec![
                Operand::Place(Place::Local(LocalId(0))),
                Operand::Place(Place::Local(LocalId(1))),
            ],
        },
        MirStmt::CallBuiltin {
            dest: None,
            name: "bounds_check".to_string(),
            args: vec![
                Operand::Place(Place::Local(LocalId(0))),
                Operand::Place(Place::Local(LocalId(1))),
            ],
        },
    ];
    let mut func = dummy_function(stmts);
    let summary = bounds_check_elim(&mut func);
    assert_eq!(summary.bounds_checks_eliminated, 1);
    assert_eq!(func.blocks[0].stmts.len(), 1);
}

#[test]
fn no_bounds_check_noop() {
    let stmts = vec![MirStmt::Assign(Place::Local(LocalId(0)), Rvalue::Use(Operand::ConstI32(42)))];
    let mut func = dummy_function(stmts);
    let summary = bounds_check_elim(&mut func);
    assert_eq!(summary.bounds_checks_eliminated, 0);
    assert_eq!(func.blocks[0].stmts.len(), 1);
}

#[test]
fn non_bounds_builtin_not_touched() {
    let stmts = vec![MirStmt::CallBuiltin {
        dest: None,
        name: "println".to_string(),
        args: vec![Operand::ConstI32(1)],
    }];
    let mut func = dummy_function(stmts);
    let summary = bounds_check_elim(&mut func);
    assert_eq!(summary.bounds_checks_eliminated, 0);
    assert_eq!(func.blocks[0].stmts.len(), 1);
}

#[test]
fn check_names_are_recognised() {
    assert!(is_bounds_check_name("index_check"));
    assert!(is_bounds_check_name("Bounds"));
    assert!(!is_bounds_check_name("println"));
}

#[test]
fn reassigned_index_is_checked_again() {
    let check = || MirStmt::CallBuiltin {
        dest: None,
        name: "bounds_check".to_string(),
        args: vec![Operand::Place(Place::Local(LocalId(0))), Operand::Place(Place::Local(LocalId(1)))],
    };
    let stmts = vec![
        check(),
        MirStmt::Assign(
            Place::Local(LocalId(1)),
            Rvalue::BinaryOp(ark_mir::mir::BinOp::Add, Operand::Place(Place::Local(LocalId(1))), Operand::ConstI32(100)),
        ),
        check(),
    ];
    let mut func = dummy_function(stmts);
    let summary = bounds_check_elim(&mut func);
    assert_eq!(summary.bounds_checks_eliminated, 0);
    assert_eq!(func.blocks[0].stmts.len(), 3);
}
