//! Effect classification and backend legality of MIR nodes.
//!
//! The backend cannot lower expression-level control flow (`IfExpr`,
//! `LoopExpr`, `TryExpr`) where a statement or terminator uses an operand
//! directly; the desugaring passes remove them from those positions.
use vstd::prelude::*;

use crate::mir::{
    group_view_lemmas, operand_view, opt_place_view, operands_view, stmt_view, stmts_view, EffectKind, MirModule,
    MirFunction, MirStmt, Operand, OperandView, Rvalue, RvalueView, StmtView, Terminator,
    TerminatorView, BlockView, BasicBlock,
};

verus! {



impl EffectKind {
    /// Anything but `Pure` has an effect.
    pub fn is_effectful(self) -> (r: bool)
        ensures
            r == (self != EffectKind::Pure),
    {
        !matches!(self, EffectKind::Pure)
    }
}

pub open spec fn combine_effects_spec(lhs: EffectKind, rhs: EffectKind) -> EffectKind {
    if lhs != EffectKind::Pure {
        lhs
    } else {
        rhs
    }
}

/// The effect of a binary combination: the left effect if it has one,
/// else the right.
pub fn combine_effects(lhs: EffectKind, rhs: EffectKind) -> (r: EffectKind)
    ensures
        r == combine_effects_spec(lhs, rhs),
{
    if lhs.is_effectful() {
        lhs
    } else {
        rhs
    }
}

pub open spec fn operand_effect(o: OperandView) -> EffectKind
    decreases o,
{
    match o {
        OperandView::BinOp(_, a, b) => combine_effects_spec(operand_effect(*a), operand_effect(*b)),
        OperandView::UnaryOp(_, a) => operand_effect(*a),
        OperandView::Call(_, _) | OperandView::IfExpr { .. } | OperandView::LoopExpr { .. }
        | OperandView::TryExpr { .. } | OperandView::CallIndirect { .. } => EffectKind::Call,
        OperandView::StructInit { .. } | OperandView::FieldAccess { .. }
        | OperandView::EnumInit { .. } | OperandView::EnumTag(_) | OperandView::EnumPayload { .. }
        | OperandView::ArrayInit { .. } | OperandView::IndexAccess { .. } => EffectKind::ReadsMemory,
        _ => EffectKind::Pure,
    }
}

pub open spec fn rvalue_effect(r: RvalueView) -> EffectKind {
    match r {
        RvalueView::Use(o) => operand_effect(o),
        RvalueView::Ref(_) => EffectKind::ReadsMemory,
        _ => EffectKind::Pure,
    }
}

pub open spec fn stmt_effect(s: StmtView) -> EffectKind {
    match s {
        StmtView::Assign(_, r) => rvalue_effect(r),
        StmtView::Call { .. } | StmtView::CallBuiltin { .. } => EffectKind::Call,
        StmtView::GcHint { .. } => EffectKind::Pure,
        _ => EffectKind::ControlFlow,
    }
}

pub open spec fn terminator_effect(t: TerminatorView) -> EffectKind {
    match t {
        TerminatorView::Unreachable => EffectKind::Unknown,
        _ => EffectKind::ControlFlow,
    }
}

impl Operand {
    pub fn effect_kind(&self) -> (r: EffectKind)
        ensures
            r == operand_effect(self@),
        decreases self,
    {
        match self {
            Operand::BinOp(_, lhs, rhs) => combine_effects(lhs.effect_kind(), rhs.effect_kind()),
            Operand::UnaryOp(_, operand) => operand.effect_kind(),
            Operand::Call(_, _) | Operand::IfExpr { .. } | Operand::LoopExpr { .. }
            | Operand::TryExpr { .. } | Operand::CallIndirect { .. } => EffectKind::Call,
            Operand::StructInit { .. } | Operand::FieldAccess { .. } | Operand::EnumInit { .. }
            | Operand::EnumTag(_) | Operand::EnumPayload { .. } | Operand::ArrayInit { .. }
            | Operand::IndexAccess { .. } => EffectKind::ReadsMemory,
            _ => EffectKind::Pure,
        }
    }
}

impl Rvalue {
    pub fn effect_kind(&self) -> (r: EffectKind)
        ensures
            r == rvalue_effect(self@),
    {
        match self {
            Rvalue::Use(operand) => operand.effect_kind(),
            Rvalue::BinaryOp(..) | Rvalue::UnaryOp(..) | Rvalue::Aggregate(..) => EffectKind::Pure,
            Rvalue::Ref(_) => EffectKind::ReadsMemory,
        }
    }
}

impl MirStmt {
    pub fn effect_kind(&self) -> (r: EffectKind)
        ensures
            r == stmt_effect(self@),
    {
        match self {
            MirStmt::Assign(_, rvalue) => rvalue.effect_kind(),
            MirStmt::Call { .. } | MirStmt::CallBuiltin { .. } => EffectKind::Call,
            MirStmt::IfStmt { .. } | MirStmt::WhileStmt { .. } | MirStmt::Break
            | MirStmt::Continue | MirStmt::Return(_) => EffectKind::ControlFlow,
            MirStmt::GcHint { .. } => EffectKind::Pure,
        }
    }
}

impl Terminator {
    pub fn effect_kind(&self) -> (r: EffectKind)
        ensures
            r == terminator_effect(self@),
    {
        match self {
            Terminator::Unreachable => EffectKind::Unknown,
            _ => EffectKind::ControlFlow,
        }
    }
}

/// An operand the backend can emit where a value is used directly.
pub open spec fn operand_legal(o: OperandView) -> bool {
    !(o is IfExpr || o is LoopExpr || o is TryExpr)
}

pub open spec fn operands_legal(s: Seq<OperandView>) -> bool {
    forall|i: int| 0 <= i < s.len() ==> operand_legal(#[trigger] s[i])
}

pub open spec fn opt_operand_legal(o: Option<OperandView>) -> bool {
    match o {
        Some(x) => operand_legal(x),
        None => true,
    }
}

pub open spec fn rvalue_legal(r: RvalueView) -> bool {
    match r {
        RvalueView::Use(o) => operand_legal(o),
        RvalueView::BinaryOp(_, a, b) => operand_legal(a) && operand_legal(b),
        RvalueView::UnaryOp(_, a) => operand_legal(a),
        RvalueView::Aggregate(_, v) => operands_legal(v),
        RvalueView::Ref(_) => true,
    }
}

/// A statement whose directly used operands, and those of its nested
/// bodies, are all backend-legal.
pub open spec fn stmt_legal(s: StmtView) -> bool
    decreases s,
{
    match s {
        StmtView::Assign(_, r) => rvalue_legal(r),
        StmtView::Call { args, .. } => operands_legal(args),
        StmtView::CallBuiltin { args, .. } => operands_legal(args),
        StmtView::IfStmt { cond, then_body, else_body } => operand_legal(cond) && stmts_legal(
            then_body,
        ) && stmts_legal(else_body),
        StmtView::WhileStmt { cond, body } => operand_legal(cond) && stmts_legal(body),
        StmtView::Return(v) => opt_operand_legal(v),
        _ => true,
    }
}

pub open spec fn stmts_legal(s: Seq<StmtView>) -> bool
    decreases s,
{
    if s.len() == 0 {
        true
    } else {
        stmts_legal(s.drop_last()) && stmt_legal(s.last())
    }
}

pub proof fn lemma_stmts_legal(s: Seq<StmtView>)
    ensures
        stmts_legal(s) <==> (forall|i: int| 0 <= i < s.len() ==> #[trigger] stmt_legal(s[i])),
    decreases s.len(),
{
    if s.len() > 0 {
        let d = s.drop_last();
        lemma_stmts_legal(d);
        assert(stmts_legal(s) == (stmts_legal(d) && stmt_legal(s.last())));
        assert forall|i: int| 0 <= i < d.len() implies d[i] == s[i] by {}
        if forall|i: int| 0 <= i < s.len() ==> #[trigger] stmt_legal(s[i]) {
            assert forall|i: int| 0 <= i < d.len() implies #[trigger] stmt_legal(d[i]) by {
                assert(stmt_legal(s[i]));
            }
            assert(stmt_legal(s[s.len() - 1]));
        }
        if stmts_legal(s) {
            assert forall|i: int| 0 <= i < s.len() implies #[trigger] stmt_legal(s[i]) by {
                if i < d.len() {
                    assert(stmt_legal(d[i]));
                }
            }
        }
    }
}

pub open spec fn terminator_legal(t: TerminatorView) -> bool {
    match t {
        TerminatorView::If { cond, .. } => operand_legal(cond),
        TerminatorView::Switch { scrutinee, .. } => operand_legal(scrutinee),
        TerminatorView::Return(v) => opt_operand_legal(v),
        TerminatorView::TailCall { args, .. } => operands_legal(args),
        TerminatorView::TailCallIndirect { callee, args } => operand_legal(*callee)
            && operands_legal(args),
        _ => true,
    }
}

pub open spec fn block_legal(b: BlockView) -> bool {
    stmts_legal(b.stmts) && terminator_legal(b.terminator)
}

pub open spec fn function_legal(f: MirFunction) -> bool {
    forall|i: int| 0 <= i < f.blocks@.len() ==> block_legal(#[trigger] f.blocks@[i]@)
}

pub open spec fn module_legal(m: MirModule) -> bool {
    forall|i: int| 0 <= i < m.functions@.len() ==> function_legal(#[trigger] m.functions@[i])
}

/// Whether the backend can emit `operand` where a value is used directly.
pub fn is_backend_legal_operand(operand: &Operand) -> (r: bool)
    ensures
        r == operand_legal(operand@),
{
    !matches!(operand, Operand::IfExpr { .. } | Operand::LoopExpr { .. } | Operand::TryExpr { .. })
}

fn all_operands_legal(v: &Vec<Operand>) -> (r: bool)
    ensures
        r == operands_legal(operands_view(v@)),
{
    let mut i: usize = 0;
    while i < v.len()
        invariant
            i <= v.len(),
            forall|j: int| 0 <= j < i ==> operand_legal(#[trigger] operand_view(v@[j])),
        decreases v.len() - i,
    {
        if !is_backend_legal_operand(&v[i]) {
            proof { crate::mir::lemma_operands_view(v@); }
            assert(operands_view(v@)[i as int] == operand_view(v@[i as int]));
            return false;
        }
        i = i + 1;
    }
    proof { crate::mir::lemma_operands_view(v@); }
    assert forall|j: int| 0 <= j < v@.len() implies operand_legal(
        #[trigger] operands_view(v@)[j],
    ) by {
        assert(operands_view(v@)[j] == operand_view(v@[j]));
    }
    true
}

fn all_stmts_legal(v: &Vec<MirStmt>) -> (r: bool)
    ensures
        r == stmts_legal(stmts_view(v@)),
    decreases v,
{
    proof {
        crate::mir::lemma_stmts_view(v@);
        lemma_stmts_legal(stmts_view(v@));
    }
    let mut i: usize = 0;
    #[verifier::loop_isolation(false)]
    while i < v.len()
        invariant
            i <= v.len(),
            forall|j: int| 0 <= j < i ==> stmt_legal(#[trigger] stmt_view(v@[j])),
        decreases v.len() - i,
    {
        proof {
            broadcast use vstd::std_specs::vec::axiom_vec_index_decreases;

            assert(decreases_to!(v => v[i as int]));
        }
        if !is_backend_legal_stmt(&v[i]) {
            proof { crate::mir::lemma_stmts_view(v@); }
            assert(stmts_view(v@)[i as int] == stmt_view(v@[i as int]));
            return false;
        }
        i = i + 1;
    }
    proof { crate::mir::lemma_stmts_view(v@); }
    assert forall|j: int| 0 <= j < v@.len() implies stmt_legal(#[trigger] stmts_view(v@)[j]) by {
        assert(stmts_view(v@)[j] == stmt_view(v@[j]));
    }
    true
}

fn is_backend_legal_rvalue(rvalue: &Rvalue) -> (r: bool)
    ensures
        r == rvalue_legal(rvalue@),
{
    match rvalue {
        Rvalue::Use(operand) => is_backend_legal_operand(operand),
        Rvalue::BinaryOp(_, lhs, rhs) => is_backend_legal_operand(lhs) && is_backend_legal_operand(
            rhs,
        ),
        Rvalue::UnaryOp(_, operand) => is_backend_legal_operand(operand),
        Rvalue::Aggregate(_, operands) => all_operands_legal(operands),
        Rvalue::Ref(_) => true,
    }
}

/// Whether the operands `stmt` uses directly, and those of its nested
/// bodies, are all backend-legal.
pub fn is_backend_legal_stmt(stmt: &MirStmt) -> (r: bool)
    ensures
        r == stmt_legal(stmt@),
    decreases stmt,
{
    match stmt {
        MirStmt::Assign(_, rvalue) => is_backend_legal_rvalue(rvalue),
        MirStmt::Call { args, .. } => all_operands_legal(args),
        MirStmt::CallBuiltin { args, .. } => all_operands_legal(args),
        MirStmt::IfStmt { cond, then_body, else_body } => is_backend_legal_operand(cond)
            && all_stmts_legal(then_body) && all_stmts_legal(else_body),
        MirStmt::WhileStmt { cond, body } => is_backend_legal_operand(cond) && all_stmts_legal(
            body,
        ),
        MirStmt::Return(value) => match value {
            Some(v) => is_backend_legal_operand(v),
            None => true,
        },
        _ => true,
    }
}

/// Whether the operands `terminator` uses are backend-legal.
pub fn terminator_backend_legal(terminator: &Terminator) -> (r: bool)
    ensures
        r == terminator_legal(terminator@),
{
    match terminator {
        Terminator::If { cond, .. } => is_backend_legal_operand(cond),
        Terminator::Switch { scrutinee, .. } => is_backend_legal_operand(scrutinee),
        Terminator::Return(value) => match value {
            Some(v) => is_backend_legal_operand(v),
            None => true,
        },
        Terminator::TailCall { args, .. } => all_operands_legal(args),
        Terminator::TailCallIndirect { callee, args } => is_backend_legal_operand(callee)
            && all_operands_legal(args),
        _ => true,
    }
}

fn block_is_legal(block: &BasicBlock) -> (r: bool)
    ensures
        r == block_legal(block@),
{
    let a = all_stmts_legal(&block.stmts);
    let b = terminator_backend_legal(&block.terminator);
    a && b
}

fn function_is_legal(func: &MirFunction) -> (r: bool)
    ensures
        r == function_legal(*func),
{
    let mut j: usize = 0;
    while j < func.blocks.len()
        invariant
            j <= func.blocks.len(),
            forall|k: int| 0 <= k < j ==> block_legal(#[trigger] func.blocks@[k]@),
        decreases func.blocks.len() - j,
    {
        if !block_is_legal(&func.blocks[j]) {
            return false;
        }
        j = j + 1;
    }
    true
}

/// Whether every block of every function can be handed to the backend.
pub fn is_backend_legal_module(module: &MirModule) -> (r: bool)
    ensures
        r == module_legal(*module),
{
    let mut i: usize = 0;
    while i < module.functions.len()
        invariant
            i <= module.functions.len(),
            forall|k: int| 0 <= k < i ==> function_legal(#[trigger] module.functions@[k]),
        decreases module.functions.len() - i,
    {
        if !function_is_legal(&module.functions[i]) {
            return false;
        }
        i = i + 1;
    }
    true
}

} // verus!
