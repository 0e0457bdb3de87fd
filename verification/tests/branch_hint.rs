use ark_mir::mir::{
    BasicBlock, BlockId, BranchHint, FnId, InstanceKey, LocalId, MirFunction, MirLocal, MirStmt,
    Operand, Place, SourceInfo, Terminator,
};
use ark_mir::opt::branch_hint::{branch_hint_infer, infer_if_stmt_branch_hint};
use ark_mir::types::Type;

fn make_function(blocks: Vec<BasicBlock>) -> MirFunction {
    MirFunction {
        id: FnId(0),
        name: "test".into(),
        instance: InstanceKey::simple("test"),
        params: vec![],
        return_ty: Type::Unit,
        locals: vec![MirLocal { id: LocalId(0), name: Some("x".into()), ty: Type::Bool }],
        blocks,
        entry: BlockId(0),
        struct_typed_locals: Default::default(),
        enum_typed_locals: Default::default(),
        type_params: vec![],
        source: SourceInfo::unknown(),
        is_exported: false,
    }
}

fn if_block(hint: Option<BranchHint>) -> BasicBlock {
    BasicBlock {
        id: BlockId(0),
        stmts: vec![],
        terminator: Terminator::If {
            cond: Operand::Place(Place::Local(LocalId(0))),
            then_block: BlockId(1),
            else_block: BlockId(2),
            hint,
        },
        source: SourceInfo::unknown(),
    }
}

fn plain_block(id: u32, stmts: Vec<MirStmt>, terminator: Terminator) -> BasicBlock {
    BasicBlock { id: BlockId(id), stmts, terminator, source: SourceInfo::unknown() }
}

#[test]
fn hint_unlikely_when_then_is_unreachable() {
    let blocks = vec![
        if_block(None),
        plain_block(1, vec![], Terminator::Unreachable),
        plain_block(2, vec![], Terminator::Return(None)),
    ];
    let mut func = make_function(blocks);
    let summary = branch_hint_infer(&mut func);
    assert_eq!(summary.branch_hinted, 1);
    match &func.blocks[0].terminator {
        Terminator::If { hint, .. } => assert_eq!(*hint, Some(BranchHint::Unlikely)),
        _ => panic!("expected If terminator"),
    }
}

#[test]
fn hint_likely_when_else_is_panic() {
    let blocks = vec![
        if_block(None),
        plain_block(1, vec![], Terminator::Return(None)),
        plain_block(
            2,
            vec![MirStmt::CallBuiltin { dest: None, name: "panic".into(), args: vec![] }],
            Terminator::Unreachable,
        ),
    ];
    let mut func = make_function(blocks);
    let summary = branch_hint_infer(&mut func);
    assert_eq!(summary.branch_hinted, 1);
    match &func.blocks[0].terminator {
        Terminator::If { hint, .. } => assert_eq!(*hint, Some(BranchHint::Likely)),
        _ => panic!("expected If terminator"),
    }
}

#[test]
fn no_hint_when_neither_is_panic() {
    let blocks = vec![
        if_block(None),
        plain_block(1, vec![], Terminator::Return(None)),
        plain_block(2, vec![], Terminator::Return(None)),
    ];
    let mut func = make_function(blocks);
    let summary = branch_hint_infer(&mut func);
    assert_eq!(summary.branch_hinted, 0);
}

#[test]
fn preserves_existing_hint() {
    let blocks = vec![
        if_block(Some(BranchHint::Likely)),
        plain_block(1, vec![], Terminator::Unreachable),
        plain_block(2, vec![], Terminator::Return(None)),
    ];
    let mut func = make_function(blocks);
    let summary = branch_hint_infer(&mut func);
    assert_eq!(summary.branch_hinted, 0);
    match &func.blocks[0].terminator {
        Terminator::If { hint, .. } => assert_eq!(*hint, Some(BranchHint::Likely)),
        _ => panic!("expected If terminator"),
    }
}

#[test]
fn infer_if_stmt_matches_terminator_panic_heuristic() {
    let then_body = vec![MirStmt::CallBuiltin { dest: None, name: "panic".into(), args: vec![] }];
    let else_body = vec![MirStmt::Return(None)];
    assert_eq!(infer_if_stmt_branch_hint(&then_body, &else_body), Some(BranchHint::Unlikely));
    assert_eq!(infer_if_stmt_branch_hint(&else_body, &then_body), Some(BranchHint::Likely));
}
