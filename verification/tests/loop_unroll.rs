use ark_mir::mir::{
    BasicBlock, BinOp, BlockId, FnId, InstanceKey, LocalId, MirFunction, MirLocal, MirStmt,
    Operand, Place, Rvalue, SourceInfo, Terminator,
};
use ark_mir::opt::loop_unroll::{compute_trip_count, loop_unroll, MAX_BODY_STMTS};
use ark_mir::types::Type;

fn make_function(blocks: Vec<BasicBlock>) -> MirFunction {
    let entry = blocks.first().map(|b| b.id).unwrap_or(BlockId(0));
    MirFunction {
        id: FnId(0),
        name: "test".into(),
        instance: InstanceKey { item: "test".into(), substitution: vec![], target_shape: String::new() },
        params: vec![],
        return_ty: Type::Unit,
        locals: vec![MirLocal { id: LocalId(0), name: Some("i".into()), ty: Type::I32 }],
        blocks,
        entry,
        struct_typed_locals: Default::default(),
        enum_typed_locals: Default::default(),
        type_params: vec![],
        source: SourceInfo::unknown(),
        is_exported: false,
    }
}

fn header(bound: i32) -> BasicBlock {
    BasicBlock {
        id: BlockId(0),
        stmts: vec![MirStmt::Assign(Place::Local(LocalId(0)), Rvalue::Use(Operand::ConstI32(0)))],
        terminator: Terminator::If {
            cond: Operand::BinOp(
                BinOp::Lt,
                Box::new(Operand::Place(Place::Local(LocalId(0)))),
                Box::new(Operand::ConstI32(bound)),
            ),
            then_block: BlockId(1),
            else_block: BlockId(2),
            hint: None,
        },
        source: SourceInfo::unknown(),
    }
}

fn increment() -> MirStmt {
    MirStmt::Assign(
        Place::Local(LocalId(0)),
        Rvalue::BinaryOp(BinOp::Add, Operand::Place(Place::Local(LocalId(0))), Operand::ConstI32(1)),
    )
}

fn body(stmts: Vec<MirStmt>) -> BasicBlock {
    BasicBlock { id: BlockId(1), stmts, terminator: Terminator::Goto(BlockId(0)), source: SourceInfo::unknown() }
}

fn exit() -> BasicBlock {
    BasicBlock { id: BlockId(2), stmts: vec![], terminator: Terminator::Return(None), source: SourceInfo::unknown() }
}

#[test]
fn unroll_simple_loop() {
    let mut func = make_function(vec![header(3), body(vec![increment()]), exit()]);
    let summary = loop_unroll(&mut func);

    assert_eq!(summary.loops_unrolled, 1);
    assert!(matches!(func.blocks[0].terminator, Terminator::Goto(_)));
    assert!(matches!(func.blocks[1].terminator, Terminator::Unreachable));
    assert_eq!(func.blocks.len(), 3 + 3);
}

#[test]
fn skip_large_body() {
    let stmts: Vec<MirStmt> = (0..=MAX_BODY_STMTS)
        .map(|_| MirStmt::Assign(Place::Local(LocalId(0)), Rvalue::Use(Operand::ConstI32(0))))
        .collect();
    let mut func = make_function(vec![header(2), body(stmts), exit()]);
    let summary = loop_unroll(&mut func);
    assert_eq!(summary.loops_unrolled, 0);
}

#[test]
fn skip_too_many_iterations() {
    let mut func = make_function(vec![header(5), body(vec![increment()]), exit()]);
    let summary = loop_unroll(&mut func);
    assert_eq!(summary.loops_unrolled, 0);
}

#[test]
fn no_loops_is_noop() {
    let block = BasicBlock {
        id: BlockId(0),
        stmts: vec![],
        terminator: Terminator::Return(None),
        source: SourceInfo::unknown(),
    };
    let mut func = make_function(vec![block]);
    let summary = loop_unroll(&mut func);
    assert_eq!(summary.loops_unrolled, 0);
}

#[test]
fn trip_counts_follow_the_loop() {
    assert_eq!(compute_trip_count(0, 3, 1, BinOp::Lt, true), Some(3));
    assert_eq!(compute_trip_count(0, 3, 1, BinOp::Le, true), Some(4));
    assert_eq!(compute_trip_count(0, 7, 2, BinOp::Lt, true), Some(4));
    assert_eq!(compute_trip_count(3, 0, 1, BinOp::Gt, true), None);
    assert_eq!(compute_trip_count(3, 0, 1, BinOp::Le, false), None);
    assert_eq!(compute_trip_count(-1, i64::MAX, 1, BinOp::Lt, true), None);
    assert_eq!(compute_trip_count(i64::MIN, i64::MAX, 1, BinOp::Le, true), None);
    assert_eq!(compute_trip_count(0, 3, 0, BinOp::Lt, true), None);
}
