//! MIR type definitions and their mathematical views.
//!
//! Every recursive MIR type has a view: the same tree, with sequences in
//! place of vectors. Contracts throughout the crate speak of these views, so
//! that a value and its copy are known to be the same.
use vstd::prelude::*;

use crate::types::{Span, Type, TypeView};

verus! {

/// Unique block identifier.
#[derive(Debug, Clone, Copy, PartialEq, Eq, Structural, Hash)]
pub struct BlockId(pub u32);

/// Unique local variable identifier.
#[derive(Debug, Clone, Copy, PartialEq, Eq, Structural, Hash)]
pub struct LocalId(pub u32);

/// Unique function identifier.
#[derive(Debug, Clone, Copy, PartialEq, Eq, Structural, Hash)]
pub struct FnId(pub u32);

/// GC hint kind for allocation annotations.
#[derive(Debug, Clone, Copy, PartialEq, Eq, Structural, Hash)]
pub enum GcHintKind {
    ShortLived,
}

/// Hint for branch prediction (pure annotation, no semantic effect).
#[derive(Debug, Clone, Copy, PartialEq, Eq, Structural)]
pub enum BranchHint {
    /// The branch is expected to be taken (then-path likely).
    Likely,
    /// The branch is expected to fall through (then-path unlikely).
    Unlikely,
}

/// Binary operations.
#[derive(Debug, Clone, Copy, PartialEq, Eq, Structural, Hash)]
pub enum BinOp {
    Add,
    Sub,
    Mul,
    Div,
    Mod,
    Eq,
    Ne,
    Lt,
    Le,
    Gt,
    Ge,
    And,
    Or,
    BitAnd,
    BitOr,
    BitXor,
    Shl,
    Shr,
}

/// Unary operations.
#[derive(Debug, Clone, Copy, PartialEq, Eq, Structural, Hash)]
pub enum UnaryOp {
    Neg,
    Not,
    BitNot,
    /// Sign-extend the low 8 bits.
    SignExtend8,
    /// Sign-extend the low 16 bits.
    SignExtend16,
    /// Sign-extend the low 32 bits. Only meaningful for i64.
    SignExtend32,
}

/// Kind of aggregate being constructed.
#[derive(Debug)]
pub enum AggregateKind {
    Tuple,
    Array,
    Struct(String),
    /// Enum name, variant name.
    EnumVariant(String, String),
}

/// Where a statement or function came from in the source, if known.
#[derive(Debug, Clone, Copy, PartialEq, Eq, Structural)]
pub struct SourceInfo {
    pub span: Option<Span>,
}

impl SourceInfo {
    pub fn unknown() -> (r: Self)
        ensures
            r.span is None,
    {
        Self { span: None }
    }
}

impl Default for SourceInfo {
    /// No known source.
    fn default() -> (r: Self)
        ensures
            r.span is None,
    {
        SourceInfo::unknown()
    }
}

/// A value reference (lvalue).
#[derive(Debug)]
pub enum Place {
    Local(LocalId),
    Field(Box<Place>, String),
    Index(Box<Place>, Box<Operand>),
}

/// An rvalue expression.
#[derive(Debug)]
pub enum Rvalue {
    Use(Operand),
    BinaryOp(BinOp, Operand, Operand),
    UnaryOp(UnaryOp, Operand),
    Aggregate(AggregateKind, Vec<Operand>),
    Ref(Place),
}

/// A value operand.
///
/// Floating-point constants are held as their IEEE-754 bit patterns.
#[derive(Debug)]
pub enum Operand {
    Place(Place),
    ConstI32(i32),
    ConstI64(i64),
    ConstF32(u32),
    ConstF64(u64),
    ConstBool(bool),
    ConstChar(char),
    ConstString(String),
    ConstU8(u8),
    ConstU16(u16),
    ConstU32(u32),
    ConstU64(u64),
    ConstI8(i8),
    ConstI16(i16),
    Unit,
    BinOp(BinOp, Box<Operand>, Box<Operand>),
    UnaryOp(UnaryOp, Box<Operand>),
    Call(String, Vec<Operand>),
    IfExpr {
        cond: Box<Operand>,
        then_body: Vec<MirStmt>,
        then_result: Option<Box<Operand>>,
        else_body: Vec<MirStmt>,
        else_result: Option<Box<Operand>>,
    },
    StructInit { name: String, fields: Vec<(String, Operand)> },
    FieldAccess { object: Box<Operand>, struct_name: String, field: String },
    /// Construct an enum variant with optional payload values.
    EnumInit { enum_name: String, variant: String, tag: i32, payload: Vec<Operand> },
    /// Extract the tag from an enum value.
    EnumTag(Box<Operand>),
    /// Extract payload field at `index` from an enum value.
    EnumPayload { object: Box<Operand>, index: u32, enum_name: String, variant_name: String },
    /// Loop as expression: execute body (which includes a `WhileStmt`), then
    /// yield the result.
    LoopExpr { init: Box<Operand>, body: Vec<MirStmt>, result: Box<Operand> },
    /// Try expression (`expr?`): unwrap Ok or early-return Err.
    TryExpr {
        expr: Box<Operand>,
        /// If set, call this function to convert the Err value.
        from_fn: Option<String>,
    },
    /// Reference to a named function (for passing as value).
    FnRef(String),
    /// Indirect call via function pointer.
    CallIndirect { callee: Box<Operand>, args: Vec<Operand> },
    /// Construct a fixed-size array from elements.
    ArrayInit { elements: Vec<Operand> },
    /// Index into an array: array[index].
    IndexAccess { object: Box<Operand>, index: Box<Operand> },
}

/// A MIR statement (within a basic block).
#[derive(Debug)]
pub enum MirStmt {
    Assign(Place, Rvalue),
    Call { dest: Option<Place>, func: FnId, args: Vec<Operand> },
    CallBuiltin { dest: Option<Place>, name: String, args: Vec<Operand> },
    IfStmt { cond: Operand, then_body: Vec<MirStmt>, else_body: Vec<MirStmt> },
    WhileStmt { cond: Operand, body: Vec<MirStmt> },
    Break,
    Continue,
    Return(Option<Operand>),
    GcHint { local: LocalId, hint: GcHintKind },
}

/// How a basic block ends.
#[derive(Debug)]
pub enum Terminator {
    Goto(BlockId),
    If { cond: Operand, then_block: BlockId, else_block: BlockId, hint: Option<BranchHint> },
    Switch { scrutinee: Operand, arms: Vec<(i64, BlockId)>, default: BlockId },
    Return(Option<Operand>),
    Unreachable,
    /// Tail-call return of a named function.
    TailCall { func: String, args: Vec<Operand> },
    /// Tail-call via function pointer.
    TailCallIndirect { callee: Box<Operand>, args: Vec<Operand> },
}

/// A local variable (parameter or temporary).
#[derive(Debug)]
pub struct MirLocal {
    pub id: LocalId,
    pub name: Option<String>,
    pub ty: Type,
}

/// A basic block in the CFG.
#[derive(Debug)]
pub struct BasicBlock {
    pub id: BlockId,
    pub stmts: Vec<MirStmt>,
    pub terminator: Terminator,
    pub source: SourceInfo,
}

/// The kind of side effect an operation may have.
#[derive(Debug, Clone, Copy, PartialEq, Eq, Structural)]
pub enum EffectKind {
    Pure,
    ReadsMemory,
    WritesMemory,
    ControlFlow,
    Call,
    Unknown,
}

/// Identifies one monomorphised instance of a source item.
#[derive(Debug)]
pub struct InstanceKey {
    pub item: String,
    pub substitution: Vec<String>,
    pub target_shape: String,
}

/// Where a MIR module came from.
#[derive(Debug, Clone, Copy, PartialEq, Eq, Structural)]
pub enum MirProvenance {
    LegacyAst,
    CoreHir,
    CoreHirFallback,
    LegacyOptimized,
    CoreHirOptimized,
}

/// Per-pass instruction reduction statistics.
#[derive(Debug, Clone, Copy, PartialEq, Eq, Structural)]
pub struct ReductionStats {
    /// Total instruction (statement) count before the pass ran.
    pub instructions_before: usize,
    /// Total instruction (statement) count after the pass ran.
    pub instructions_after: usize,
}

/// Module-wide bookkeeping: instances, call graph, optimisation history.
///
/// The direct call graph maps each function name to the names of the
/// functions it calls, each listed once, in order of first registration.
#[derive(Debug)]
pub struct MirStats {
    pub instance_keys: Vec<InstanceKey>,
    pub direct_call_graph: Vec<(String, Vec<String>)>,
    pub optimization_rounds: u32,
    pub validation_runs: u32,
    pub provenance: Option<String>,
    pub optimization_trace: Vec<String>,
    /// Per-pass reduction stats: (pass_name, before/after instruction counts).
    pub pass_reductions: Vec<(String, ReductionStats)>,
}

/// Source spans of functions, blocks and statements; each key occurs at
/// most once in its list.
#[derive(Debug)]
pub struct MirSourceMap {
    pub function_spans: Vec<(FnId, Span)>,
    pub block_spans: Vec<((FnId, BlockId), Span)>,
    pub stmt_spans: Vec<((FnId, BlockId, usize), Span)>,
}

/// Function signature as seen by the backend (string-based types).
#[derive(Debug)]
pub struct MirFnSig {
    pub name: String,
    pub params: Vec<String>,
    pub ret: String,
}

/// Nominal type table: all type information the backend needs.
#[derive(Debug)]
pub struct TypeTable {
    /// Struct layouts: struct name to ordered (field name, field type name).
    pub struct_defs: Vec<(String, Vec<(String, String)>)>,
    /// Enum variant types: enum name to (variant name, payload type names).
    pub enum_defs: Vec<(String, Vec<(String, Vec<String>)>)>,
    /// Function signatures: fn name to simplified signature.
    pub fn_sigs: Vec<(String, MirFnSig)>,
}

/// A WIT-derived import declaration for Component Model support.
#[derive(Debug)]
pub struct MirImport {
    /// WIT interface name (e.g., "wasi:cli/stdout@0.2.0")
    pub interface: String,
    /// Function name within the interface
    pub name: String,
    /// Parameter type names (WIT type strings)
    pub param_types: Vec<String>,
    /// Return type name (WIT type string), None for void
    pub return_type: Option<String>,
}

/// A single function in MIR form.
#[derive(Debug)]
pub struct MirFunction {
    pub id: FnId,
    pub name: String,
    pub instance: InstanceKey,
    pub params: Vec<MirLocal>,
    pub return_ty: Type,
    pub locals: Vec<MirLocal>,
    pub blocks: Vec<BasicBlock>,
    pub entry: BlockId,
    /// Local id to struct type name (for field access/store).
    pub struct_typed_locals: Vec<(u32, String)>,
    /// Local id to enum type name.
    pub enum_typed_locals: Vec<(u32, String)>,
    /// Type parameter names (empty for non-generic functions).
    pub type_params: Vec<String>,
    pub source: SourceInfo,
    /// Whether this function is a user-defined `pub fn`.
    pub is_exported: bool,
}

/// A MIR module (after monomorphization).
#[derive(Debug)]
pub struct MirModule {
    pub functions: Vec<MirFunction>,
    pub entry_fn: Option<FnId>,
    /// Nominal type table for backend consumers.
    pub type_table: TypeTable,
    /// Struct layouts: struct name to ordered (field name, field type name).
    pub struct_defs: Vec<(String, Vec<(String, String)>)>,
    /// Enum variant types: enum name to (variant name, payload type names).
    pub enum_defs: Vec<(String, Vec<(String, Vec<String>)>)>,
    /// WIT-derived imports for Component Model.
    pub imports: Vec<MirImport>,
    pub source_map: MirSourceMap,
    pub stats: MirStats,
}

// ---------------------------------------------------------------------------
// Views
// ---------------------------------------------------------------------------
pub enum AggregateKindView {
    Tuple,
    Array,
    Struct(Seq<char>),
    EnumVariant(Seq<char>, Seq<char>),
}

pub enum PlaceView {
    Local(LocalId),
    Field(Box<PlaceView>, Seq<char>),
    Index(Box<PlaceView>, Box<OperandView>),
}

pub enum RvalueView {
    Use(OperandView),
    BinaryOp(BinOp, OperandView, OperandView),
    UnaryOp(UnaryOp, OperandView),
    Aggregate(AggregateKindView, Seq<OperandView>),
    Ref(PlaceView),
}

pub enum OperandView {
    Place(PlaceView),
    ConstI32(i32),
    ConstI64(i64),
    ConstF32(u32),
    ConstF64(u64),
    ConstBool(bool),
    ConstChar(char),
    ConstString(Seq<char>),
    ConstU8(u8),
    ConstU16(u16),
    ConstU32(u32),
    ConstU64(u64),
    ConstI8(i8),
    ConstI16(i16),
    Unit,
    BinOp(BinOp, Box<OperandView>, Box<OperandView>),
    UnaryOp(UnaryOp, Box<OperandView>),
    Call(Seq<char>, Seq<OperandView>),
    IfExpr {
        cond: Box<OperandView>,
        then_body: Seq<StmtView>,
        then_result: Option<Box<OperandView>>,
        else_body: Seq<StmtView>,
        else_result: Option<Box<OperandView>>,
    },
    StructInit { name: Seq<char>, fields: Seq<(Seq<char>, OperandView)> },
    FieldAccess { object: Box<OperandView>, struct_name: Seq<char>, field: Seq<char> },
    EnumInit { enum_name: Seq<char>, variant: Seq<char>, tag: i32, payload: Seq<OperandView> },
    EnumTag(Box<OperandView>),
    EnumPayload {
        object: Box<OperandView>,
        index: u32,
        enum_name: Seq<char>,
        variant_name: Seq<char>,
    },
    LoopExpr { init: Box<OperandView>, body: Seq<StmtView>, result: Box<OperandView> },
    TryExpr { expr: Box<OperandView>, from_fn: Option<Seq<char>> },
    FnRef(Seq<char>),
    CallIndirect { callee: Box<OperandView>, args: Seq<OperandView> },
    ArrayInit { elements: Seq<OperandView> },
    IndexAccess { object: Box<OperandView>, index: Box<OperandView> },
}

pub enum StmtView {
    Assign(PlaceView, RvalueView),
    Call { dest: Option<PlaceView>, func: FnId, args: Seq<OperandView> },
    CallBuiltin { dest: Option<PlaceView>, name: Seq<char>, args: Seq<OperandView> },
    IfStmt { cond: OperandView, then_body: Seq<StmtView>, else_body: Seq<StmtView> },
    WhileStmt { cond: OperandView, body: Seq<StmtView> },
    Break,
    Continue,
    Return(Option<OperandView>),
    GcHint { local: LocalId, hint: GcHintKind },
}

pub enum TerminatorView {
    Goto(BlockId),
    If { cond: OperandView, then_block: BlockId, else_block: BlockId, hint: Option<BranchHint> },
    Switch { scrutinee: OperandView, arms: Seq<(i64, BlockId)>, default: BlockId },
    Return(Option<OperandView>),
    Unreachable,
    TailCall { func: Seq<char>, args: Seq<OperandView> },
    TailCallIndirect { callee: Box<OperandView>, args: Seq<OperandView> },
}

pub struct LocalView {
    pub id: LocalId,
    pub name: Option<Seq<char>>,
    pub ty: TypeView,
}

pub struct BlockView {
    pub id: BlockId,
    pub stmts: Seq<StmtView>,
    pub terminator: TerminatorView,
    pub source: SourceInfo,
}

pub open spec fn opt_string_view(s: Option<String>) -> Option<Seq<char>> {
    match s {
        Some(x) => Some(x@),
        None => None,
    }
}

pub open spec fn aggregate_kind_view(k: AggregateKind) -> AggregateKindView {
    match k {
        AggregateKind::Tuple => AggregateKindView::Tuple,
        AggregateKind::Array => AggregateKindView::Array,
        AggregateKind::Struct(s) => AggregateKindView::Struct(s@),
        AggregateKind::EnumVariant(e, v) => AggregateKindView::EnumVariant(e@, v@),
    }
}

pub open spec fn place_view(p: Place) -> PlaceView
    decreases p,
{
    match p {
        Place::Local(id) => PlaceView::Local(id),
        Place::Field(b, f) => PlaceView::Field(Box::new(place_view(*b)), f@),
        Place::Index(b, i) => PlaceView::Index(Box::new(place_view(*b)), Box::new(operand_view(*i))),
    }
}

pub open spec fn opt_place_view(p: Option<Place>) -> Option<PlaceView>
    decreases p,
{
    match p {
        Some(x) => Some(place_view(x)),
        None => None,
    }
}

pub open spec fn rvalue_view(r: Rvalue) -> RvalueView
    decreases r,
{
    match r {
        Rvalue::Use(o) => RvalueView::Use(operand_view(o)),
        Rvalue::BinaryOp(op, a, b) => RvalueView::BinaryOp(op, operand_view(a), operand_view(b)),
        Rvalue::UnaryOp(op, a) => RvalueView::UnaryOp(op, operand_view(a)),
        Rvalue::Aggregate(k, v) => RvalueView::Aggregate(aggregate_kind_view(k), operands_view(v@)),
        Rvalue::Ref(p) => RvalueView::Ref(place_view(p)),
    }
}

pub open spec fn opt_box_operand_view(o: Option<Box<Operand>>) -> Option<Box<OperandView>>
    decreases o,
{
    match o {
        Some(b) => Some(Box::new(operand_view(*b))),
        None => None,
    }
}

pub open spec fn opt_operand_view(o: Option<Operand>) -> Option<OperandView>
    decreases o,
{
    match o {
        Some(b) => Some(operand_view(b)),
        None => None,
    }
}

pub open spec fn operand_view(o: Operand) -> OperandView
    decreases o,
{
    match o {
        Operand::Place(p) => OperandView::Place(place_view(p)),
        Operand::ConstI32(v) => OperandView::ConstI32(v),
        Operand::ConstI64(v) => OperandView::ConstI64(v),
        Operand::ConstF32(v) => OperandView::ConstF32(v),
        Operand::ConstF64(v) => OperandView::ConstF64(v),
        Operand::ConstBool(v) => OperandView::ConstBool(v),
        Operand::ConstChar(v) => OperandView::ConstChar(v),
        Operand::ConstString(v) => OperandView::ConstString(v@),
        Operand::ConstU8(v) => OperandView::ConstU8(v),
        Operand::ConstU16(v) => OperandView::ConstU16(v),
        Operand::ConstU32(v) => OperandView::ConstU32(v),
        Operand::ConstU64(v) => OperandView::ConstU64(v),
        Operand::ConstI8(v) => OperandView::ConstI8(v),
        Operand::ConstI16(v) => OperandView::ConstI16(v),
        Operand::Unit => OperandView::Unit,
        Operand::BinOp(op, a, b) => OperandView::BinOp(
            op,
            Box::new(operand_view(*a)),
            Box::new(operand_view(*b)),
        ),
        Operand::UnaryOp(op, a) => OperandView::UnaryOp(op, Box::new(operand_view(*a))),
        Operand::Call(n, args) => OperandView::Call(n@, operands_view(args@)),
        Operand::IfExpr { cond, then_body, then_result, else_body, else_result } => {
            OperandView::IfExpr {
                cond: Box::new(operand_view(*cond)),
                then_body: stmts_view(then_body@),
                then_result: opt_box_operand_view(then_result),
                else_body: stmts_view(else_body@),
                else_result: opt_box_operand_view(else_result),
            }
        },
        Operand::StructInit { name, fields } => OperandView::StructInit {
            name: name@,
            fields: fields_view(fields@),
        },
        Operand::FieldAccess { object, struct_name, field } => OperandView::FieldAccess {
            object: Box::new(operand_view(*object)),
            struct_name: struct_name@,
            field: field@,
        },
        Operand::EnumInit { enum_name, variant, tag, payload } => OperandView::EnumInit {
            enum_name: enum_name@,
            variant: variant@,
            tag,
            payload: operands_view(payload@),
        },
        Operand::EnumTag(a) => OperandView::EnumTag(Box::new(operand_view(*a))),
        Operand::EnumPayload { object, index, enum_name, variant_name } => {
            OperandView::EnumPayload {
                object: Box::new(operand_view(*object)),
                index,
                enum_name: enum_name@,
                variant_name: variant_name@,
            }
        },
        Operand::LoopExpr { init, body, result } => OperandView::LoopExpr {
            init: Box::new(operand_view(*init)),
            body: stmts_view(body@),
            result: Box::new(operand_view(*result)),
        },
        Operand::TryExpr { expr, from_fn } => OperandView::TryExpr {
            expr: Box::new(operand_view(*expr)),
            from_fn: opt_string_view(from_fn),
        },
        Operand::FnRef(n) => OperandView::FnRef(n@),
        Operand::CallIndirect { callee, args } => OperandView::CallIndirect {
            callee: Box::new(operand_view(*callee)),
            args: operands_view(args@),
        },
        Operand::ArrayInit { elements } => OperandView::ArrayInit {
            elements: operands_view(elements@),
        },
        Operand::IndexAccess { object, index } => OperandView::IndexAccess {
            object: Box::new(operand_view(*object)),
            index: Box::new(operand_view(*index)),
        },
    }
}

pub open spec fn operands_view(s: Seq<Operand>) -> Seq<OperandView>
    decreases s,
{
    if s.len() == 0 {
        Seq::empty()
    } else {
        operands_view(s.drop_last()).push(operand_view(s.last()))
    }
}

pub open spec fn fields_view(s: Seq<(String, Operand)>) -> Seq<(Seq<char>, OperandView)>
    decreases s,
{
    if s.len() == 0 {
        Seq::empty()
    } else {
        fields_view(s.drop_last()).push((s.last().0@, operand_view(s.last().1)))
    }
}

pub open spec fn stmt_view(s: MirStmt) -> StmtView
    decreases s,
{
    match s {
        MirStmt::Assign(p, r) => StmtView::Assign(place_view(p), rvalue_view(r)),
        MirStmt::Call { dest, func, args } => StmtView::Call {
            dest: opt_place_view(dest),
            func,
            args: operands_view(args@),
        },
        MirStmt::CallBuiltin { dest, name, args } => StmtView::CallBuiltin {
            dest: opt_place_view(dest),
            name: name@,
            args: operands_view(args@),
        },
        MirStmt::IfStmt { cond, then_body, else_body } => StmtView::IfStmt {
            cond: operand_view(cond),
            then_body: stmts_view(then_body@),
            else_body: stmts_view(else_body@),
        },
        MirStmt::WhileStmt { cond, body } => StmtView::WhileStmt {
            cond: operand_view(cond),
            body: stmts_view(body@),
        },
        MirStmt::Break => StmtView::Break,
        MirStmt::Continue => StmtView::Continue,
        MirStmt::Return(o) => StmtView::Return(opt_operand_view(o)),
        MirStmt::GcHint { local, hint } => StmtView::GcHint { local, hint },
    }
}

pub open spec fn stmts_view(s: Seq<MirStmt>) -> Seq<StmtView>
    decreases s,
{
    if s.len() == 0 {
        Seq::empty()
    } else {
        stmts_view(s.drop_last()).push(stmt_view(s.last()))
    }
}

pub open spec fn terminator_view(t: Terminator) -> TerminatorView {
    match t {
        Terminator::Goto(b) => TerminatorView::Goto(b),
        Terminator::If { cond, then_block, else_block, hint } => TerminatorView::If {
            cond: operand_view(cond),
            then_block,
            else_block,
            hint,
        },
        Terminator::Switch { scrutinee, arms, default } => TerminatorView::Switch {
            scrutinee: operand_view(scrutinee),
            arms: arms@,
            default,
        },
        Terminator::Return(o) => TerminatorView::Return(opt_operand_view(o)),
        Terminator::Unreachable => TerminatorView::Unreachable,
        Terminator::TailCall { func, args } => TerminatorView::TailCall {
            func: func@,
            args: operands_view(args@),
        },
        Terminator::TailCallIndirect { callee, args } => TerminatorView::TailCallIndirect {
            callee: Box::new(operand_view(*callee)),
            args: operands_view(args@),
        },
    }
}

impl View for AggregateKind {
    type V = AggregateKindView;

    open spec fn view(&self) -> AggregateKindView {
        aggregate_kind_view(*self)
    }
}

impl View for Place {
    type V = PlaceView;

    open spec fn view(&self) -> PlaceView {
        place_view(*self)
    }
}

impl View for Rvalue {
    type V = RvalueView;

    open spec fn view(&self) -> RvalueView {
        rvalue_view(*self)
    }
}

impl View for Operand {
    type V = OperandView;

    open spec fn view(&self) -> OperandView {
        operand_view(*self)
    }
}

impl View for MirStmt {
    type V = StmtView;

    open spec fn view(&self) -> StmtView {
        stmt_view(*self)
    }
}

impl View for Terminator {
    type V = TerminatorView;

    open spec fn view(&self) -> TerminatorView {
        terminator_view(*self)
    }
}

pub open spec fn local_view(l: MirLocal) -> LocalView {
    LocalView { id: l.id, name: opt_string_view(l.name), ty: l.ty@ }
}

pub open spec fn locals_view(s: Seq<MirLocal>) -> Seq<LocalView> {
    s.map_values(|l: MirLocal| local_view(l))
}

impl View for MirLocal {
    type V = LocalView;

    open spec fn view(&self) -> LocalView {
        local_view(*self)
    }
}

pub open spec fn block_view(b: BasicBlock) -> BlockView {
    BlockView {
        id: b.id,
        stmts: stmts_view(b.stmts@),
        terminator: terminator_view(b.terminator),
        source: b.source,
    }
}

pub open spec fn blocks_view(s: Seq<BasicBlock>) -> Seq<BlockView> {
    s.map_values(|b: BasicBlock| block_view(b))
}

impl View for BasicBlock {
    type V = BlockView;

    open spec fn view(&self) -> BlockView {
        block_view(*self)
    }
}

// ---------------------------------------------------------------------------
// Sequence-view lemmas
// ---------------------------------------------------------------------------
pub broadcast proof fn lemma_operands_view(s: Seq<Operand>)
    ensures
        #[trigger] operands_view(s).len() == s.len(),
        forall|i: int| 0 <= i < s.len() ==> #[trigger] operands_view(s)[i] == operand_view(s[i]),
    decreases s.len(),
{
    if s.len() > 0 {
        lemma_operands_view(s.drop_last());
    }
}

pub broadcast proof fn lemma_stmts_view(s: Seq<MirStmt>)
    ensures
        #[trigger] stmts_view(s).len() == s.len(),
        forall|i: int| 0 <= i < s.len() ==> #[trigger] stmts_view(s)[i] == stmt_view(s[i]),
    decreases s.len(),
{
    if s.len() > 0 {
        lemma_stmts_view(s.drop_last());
    }
}

pub broadcast proof fn lemma_fields_view(s: Seq<(String, Operand)>)
    ensures
        #[trigger] fields_view(s).len() == s.len(),
        forall|i: int|
            0 <= i < s.len() ==> #[trigger] fields_view(s)[i] == (s[i].0@, operand_view(s[i].1)),
    decreases s.len(),
{
    if s.len() > 0 {
        lemma_fields_view(s.drop_last());
    }
}

pub broadcast group group_view_lemmas {
    lemma_operands_view,
    lemma_stmts_view,
    lemma_fields_view,
}

/// Two sequences with equal element views have equal views.
pub proof fn lemma_operands_view_ext(a: Seq<Operand>, b: Seq<Operand>)
    requires
        a.len() == b.len(),
        forall|i: int| 0 <= i < a.len() ==> operand_view(#[trigger] a[i]) == operand_view(b[i]),
    ensures
        operands_view(a) == operands_view(b),
{
    lemma_operands_view(a);
    lemma_operands_view(b);
    assert(operands_view(a) =~= operands_view(b));
}

pub proof fn lemma_stmts_view_ext(a: Seq<MirStmt>, b: Seq<MirStmt>)
    requires
        a.len() == b.len(),
        forall|i: int| 0 <= i < a.len() ==> stmt_view(#[trigger] a[i]) == stmt_view(b[i]),
    ensures
        stmts_view(a) == stmts_view(b),
{
    lemma_stmts_view(a);
    lemma_stmts_view(b);
    assert(stmts_view(a) =~= stmts_view(b));
}

pub proof fn lemma_stmts_view_add(a: Seq<MirStmt>, b: Seq<MirStmt>)
    ensures
        stmts_view(a + b) == stmts_view(a) + stmts_view(b),
{
    lemma_stmts_view(a);
    lemma_stmts_view(b);
    lemma_stmts_view(a + b);
    assert(stmts_view(a + b) =~= stmts_view(a) + stmts_view(b));
}

pub proof fn lemma_operands_view_add(a: Seq<Operand>, b: Seq<Operand>)
    ensures
        operands_view(a + b) == operands_view(a) + operands_view(b),
{
    lemma_operands_view(a);
    lemma_operands_view(b);
    lemma_operands_view(a + b);
    assert(operands_view(a + b) =~= operands_view(a) + operands_view(b));
}


/// Extending a prefix by one element extends its view by one view.
pub proof fn lemma_operands_view_take(s: Seq<Operand>, j: int)
    requires
        0 <= j < s.len(),
    ensures
        operands_view(s.take(j + 1)) == operands_view(s.take(j)).push(operand_view(s[j])),
{
    assert(s.take(j + 1).drop_last() =~= s.take(j));
}

pub proof fn lemma_stmts_view_take(s: Seq<MirStmt>, j: int)
    requires
        0 <= j < s.len(),
    ensures
        stmts_view(s.take(j + 1)) == stmts_view(s.take(j)).push(stmt_view(s[j])),
{
    assert(s.take(j + 1).drop_last() =~= s.take(j));
}

/// The view of a prefix is the prefix of the view.
pub proof fn lemma_stmts_view_prefix(s: Seq<MirStmt>, n: int)
    requires
        0 <= n <= s.len(),
    ensures
        stmts_view(s.take(n)) == stmts_view(s).take(n),
{
    lemma_stmts_view(s.take(n));
    lemma_stmts_view(s);
    assert(stmts_view(s.take(n)) =~= stmts_view(s).take(n));
}

pub proof fn lemma_fields_view_take(s: Seq<(String, Operand)>, j: int)
    requires
        0 <= j < s.len(),
    ensures
        fields_view(s.take(j + 1)) == fields_view(s.take(j)).push((s[j].0@, operand_view(s[j].1))),
{
    assert(s.take(j + 1).drop_last() =~= s.take(j));
}

// ---------------------------------------------------------------------------
// Copies
// ---------------------------------------------------------------------------
pub fn clone_aggregate_kind(k: &AggregateKind) -> (r: AggregateKind)
    ensures
        r@ == k@,
{
    match k {
        AggregateKind::Tuple => AggregateKind::Tuple,
        AggregateKind::Array => AggregateKind::Array,
        AggregateKind::Struct(s) => AggregateKind::Struct(s.clone()),
        AggregateKind::EnumVariant(e, v) => AggregateKind::EnumVariant(e.clone(), v.clone()),
    }
}

pub fn clone_opt_string(s: &Option<String>) -> (r: Option<String>)
    ensures
        opt_string_view(r) == opt_string_view(*s),
{
    match s {
        Some(x) => Some(x.clone()),
        None => None,
    }
}

pub fn clone_place(p: &Place) -> (r: Place)
    ensures
        r@ == p@,
    decreases p,
{
    match p {
        Place::Local(id) => Place::Local(*id),
        Place::Field(b, f) => Place::Field(Box::new(clone_place(b)), f.clone()),
        Place::Index(b, i) => Place::Index(Box::new(clone_place(b)), Box::new(clone_operand(i))),
    }
}

pub fn clone_opt_place(p: &Option<Place>) -> (r: Option<Place>)
    ensures
        opt_place_view(r) == opt_place_view(*p),
    decreases p,
{
    match p {
        Some(x) => Some(clone_place(x)),
        None => None,
    }
}

pub fn clone_opt_box_operand(o: &Option<Box<Operand>>) -> (r: Option<Box<Operand>>)
    ensures
        opt_box_operand_view(r) == opt_box_operand_view(*o),
    decreases o,
{
    match o {
        Some(x) => Some(Box::new(clone_operand(x))),
        None => None,
    }
}

pub fn clone_opt_operand(o: &Option<Operand>) -> (r: Option<Operand>)
    ensures
        opt_operand_view(r) == opt_operand_view(*o),
    decreases o,
{
    match o {
        Some(x) => Some(clone_operand(x)),
        None => None,
    }
}

pub fn clone_operands(v: &Vec<Operand>) -> (r: Vec<Operand>)
    ensures
        operands_view(r@) == operands_view(v@),
    decreases v,
{
    let mut out: Vec<Operand> = Vec::new();
    let mut i: usize = 0;
    #[verifier::loop_isolation(false)]
    while i < v.len()
        invariant
            i <= v.len(),
            operands_view(out@) == operands_view(v@.take(i as int)),
        decreases v.len() - i,
    {
        proof {
            broadcast use vstd::std_specs::vec::axiom_vec_index_decreases;

            assert(decreases_to!(v => v[i as int]));
        }
        let c = clone_operand(&v[i]);
        proof {
            assert(v@.take(i as int + 1).drop_last() =~= v@.take(i as int));
            assert(out@.push(c).drop_last() =~= out@);
        }
        out.push(c);
        i = i + 1;
    }
    assert(v@.take(v.len() as int) =~= v@);
    out
}

pub fn clone_fields(v: &Vec<(String, Operand)>) -> (r: Vec<(String, Operand)>)
    ensures
        fields_view(r@) == fields_view(v@),
    decreases v,
{
    let mut out: Vec<(String, Operand)> = Vec::new();
    let mut i: usize = 0;
    #[verifier::loop_isolation(false)]
    while i < v.len()
        invariant
            i <= v.len(),
            fields_view(out@) == fields_view(v@.take(i as int)),
        decreases v.len() - i,
    {
        proof {
            broadcast use vstd::std_specs::vec::axiom_vec_index_decreases;

            assert(decreases_to!(v => v[i as int]));
            assert(decreases_to!(v[i as int] => v[i as int].1));
        }
        let c = clone_operand(&v[i].1);
        let n = v[i].0.clone();
        proof {
            assert(v@.take(i as int + 1).drop_last() =~= v@.take(i as int));
            assert(out@.push((n, c)).drop_last() =~= out@);
        }
        out.push((n, c));
        i = i + 1;
    }
    assert(v@.take(v.len() as int) =~= v@);
    out
}

pub fn clone_stmts(v: &Vec<MirStmt>) -> (r: Vec<MirStmt>)
    ensures
        stmts_view(r@) == stmts_view(v@),
    decreases v,
{
    let mut out: Vec<MirStmt> = Vec::new();
    let mut i: usize = 0;
    #[verifier::loop_isolation(false)]
    while i < v.len()
        invariant
            i <= v.len(),
            stmts_view(out@) == stmts_view(v@.take(i as int)),
        decreases v.len() - i,
    {
        proof {
            broadcast use vstd::std_specs::vec::axiom_vec_index_decreases;

            assert(decreases_to!(v => v[i as int]));
        }
        let c = clone_stmt(&v[i]);
        proof {
            assert(v@.take(i as int + 1).drop_last() =~= v@.take(i as int));
            assert(out@.push(c).drop_last() =~= out@);
        }
        out.push(c);
        i = i + 1;
    }
    assert(v@.take(v.len() as int) =~= v@);
    out
}

pub fn clone_rvalue(r: &Rvalue) -> (res: Rvalue)
    ensures
        res@ == r@,
    decreases r,
{
    match r {
        Rvalue::Use(o) => Rvalue::Use(clone_operand(o)),
        Rvalue::BinaryOp(op, a, b) => Rvalue::BinaryOp(*op, clone_operand(a), clone_operand(b)),
        Rvalue::UnaryOp(op, a) => Rvalue::UnaryOp(*op, clone_operand(a)),
        Rvalue::Aggregate(k, v) => Rvalue::Aggregate(clone_aggregate_kind(k), clone_operands(v)),
        Rvalue::Ref(p) => Rvalue::Ref(clone_place(p)),
    }
}

pub fn clone_operand(o: &Operand) -> (r: Operand)
    ensures
        r@ == o@,
    decreases o,
{
    match o {
        Operand::Place(p) => Operand::Place(clone_place(p)),
        Operand::ConstI32(v) => Operand::ConstI32(*v),
        Operand::ConstI64(v) => Operand::ConstI64(*v),
        Operand::ConstF32(v) => Operand::ConstF32(*v),
        Operand::ConstF64(v) => Operand::ConstF64(*v),
        Operand::ConstBool(v) => Operand::ConstBool(*v),
        Operand::ConstChar(v) => Operand::ConstChar(*v),
        Operand::ConstString(v) => Operand::ConstString(v.clone()),
        Operand::ConstU8(v) => Operand::ConstU8(*v),
        Operand::ConstU16(v) => Operand::ConstU16(*v),
        Operand::ConstU32(v) => Operand::ConstU32(*v),
        Operand::ConstU64(v) => Operand::ConstU64(*v),
        Operand::ConstI8(v) => Operand::ConstI8(*v),
        Operand::ConstI16(v) => Operand::ConstI16(*v),
        Operand::Unit => Operand::Unit,
        Operand::BinOp(op, a, b) => Operand::BinOp(
            *op,
            Box::new(clone_operand(a)),
            Box::new(clone_operand(b)),
        ),
        Operand::UnaryOp(op, a) => Operand::UnaryOp(*op, Box::new(clone_operand(a))),
        Operand::Call(n, args) => Operand::Call(n.clone(), clone_operands(args)),
        Operand::IfExpr { cond, then_body, then_result, else_body, else_result } => {
            Operand::IfExpr {
                cond: Box::new(clone_operand(cond)),
                then_body: clone_stmts(then_body),
                then_result: clone_opt_box_operand(then_result),
                else_body: clone_stmts(else_body),
                else_result: clone_opt_box_operand(else_result),
            }
        },
        Operand::StructInit { name, fields } => Operand::StructInit {
            name: name.clone(),
            fields: clone_fields(fields),
        },
        Operand::FieldAccess { object, struct_name, field } => Operand::FieldAccess {
            object: Box::new(clone_operand(object)),
            struct_name: struct_name.clone(),
            field: field.clone(),
        },
        Operand::EnumInit { enum_name, variant, tag, payload } => Operand::EnumInit {
            enum_name: enum_name.clone(),
            variant: variant.clone(),
            tag: *tag,
            payload: clone_operands(payload),
        },
        Operand::EnumTag(a) => Operand::EnumTag(Box::new(clone_operand(a))),
        Operand::EnumPayload { object, index, enum_name, variant_name } => Operand::EnumPayload {
            object: Box::new(clone_operand(object)),
            index: *index,
            enum_name: enum_name.clone(),
            variant_name: variant_name.clone(),
        },
        Operand::LoopExpr { init, body, result } => Operand::LoopExpr {
            init: Box::new(clone_operand(init)),
            body: clone_stmts(body),
            result: Box::new(clone_operand(result)),
        },
        Operand::TryExpr { expr, from_fn } => Operand::TryExpr {
            expr: Box::new(clone_operand(expr)),
            from_fn: clone_opt_string(from_fn),
        },
        Operand::FnRef(n) => Operand::FnRef(n.clone()),
        Operand::CallIndirect { callee, args } => Operand::CallIndirect {
            callee: Box::new(clone_operand(callee)),
            args: clone_operands(args),
        },
        Operand::ArrayInit { elements } => Operand::ArrayInit { elements: clone_operands(elements) },
        Operand::IndexAccess { object, index } => Operand::IndexAccess {
            object: Box::new(clone_operand(object)),
            index: Box::new(clone_operand(index)),
        },
    }
}

pub fn clone_stmt(s: &MirStmt) -> (r: MirStmt)
    ensures
        r@ == s@,
    decreases s,
{
    match s {
        MirStmt::Assign(p, r) => MirStmt::Assign(clone_place(p), clone_rvalue(r)),
        MirStmt::Call { dest, func, args } => MirStmt::Call {
            dest: clone_opt_place(dest),
            func: *func,
            args: clone_operands(args),
        },
        MirStmt::CallBuiltin { dest, name, args } => MirStmt::CallBuiltin {
            dest: clone_opt_place(dest),
            name: name.clone(),
            args: clone_operands(args),
        },
        MirStmt::IfStmt { cond, then_body, else_body } => MirStmt::IfStmt {
            cond: clone_operand(cond),
            then_body: clone_stmts(then_body),
            else_body: clone_stmts(else_body),
        },
        MirStmt::WhileStmt { cond, body } => MirStmt::WhileStmt {
            cond: clone_operand(cond),
            body: clone_stmts(body),
        },
        MirStmt::Break => MirStmt::Break,
        MirStmt::Continue => MirStmt::Continue,
        MirStmt::Return(o) => MirStmt::Return(clone_opt_operand(o)),
        MirStmt::GcHint { local, hint } => MirStmt::GcHint { local: *local, hint: *hint },
    }
}

pub fn clone_arms(v: &Vec<(i64, BlockId)>) -> (r: Vec<(i64, BlockId)>)
    ensures
        r@ == v@,
{
    let mut out: Vec<(i64, BlockId)> = Vec::new();
    let mut i: usize = 0;
    while i < v.len()
        invariant
            i <= v.len(),
            out@ == v@.take(i as int),
        decreases v.len() - i,
    {
        let (a, b) = v[i];
        out.push((a, b));
        proof {
            assert(out@ =~= v@.take(i as int + 1));
        }
        i = i + 1;
    }
    assert(v@.take(v.len() as int) =~= v@);
    out
}

pub fn clone_terminator(t: &Terminator) -> (r: Terminator)
    ensures
        r@ == t@,
{
    match t {
        Terminator::Goto(b) => Terminator::Goto(*b),
        Terminator::If { cond, then_block, else_block, hint } => Terminator::If {
            cond: clone_operand(cond),
            then_block: *then_block,
            else_block: *else_block,
            hint: *hint,
        },
        Terminator::Switch { scrutinee, arms, default } => Terminator::Switch {
            scrutinee: clone_operand(scrutinee),
            arms: clone_arms(arms),
            default: *default,
        },
        Terminator::Return(o) => Terminator::Return(clone_opt_operand(o)),
        Terminator::Unreachable => Terminator::Unreachable,
        Terminator::TailCall { func, args } => Terminator::TailCall {
            func: func.clone(),
            args: clone_operands(args),
        },
        Terminator::TailCallIndirect { callee, args } => Terminator::TailCallIndirect {
            callee: Box::new(clone_operand(callee)),
            args: clone_operands(args),
        },
    }
}

impl Clone for AggregateKind {
    fn clone(&self) -> (r: Self)
        ensures
            r@ == self@,
    {
        clone_aggregate_kind(self)
    }
}

impl Clone for Place {
    fn clone(&self) -> (r: Self)
        ensures
            r@ == self@,
    {
        clone_place(self)
    }
}

impl Clone for Operand {
    fn clone(&self) -> (r: Self)
        ensures
            r@ == self@,
    {
        clone_operand(self)
    }
}

impl Clone for Rvalue {
    fn clone(&self) -> (r: Self)
        ensures
            r@ == self@,
    {
        clone_rvalue(self)
    }
}

impl Clone for MirStmt {
    fn clone(&self) -> (r: Self)
        ensures
            r@ == self@,
    {
        clone_stmt(self)
    }
}

impl Clone for Terminator {
    fn clone(&self) -> (r: Self)
        ensures
            r@ == self@,
    {
        clone_terminator(self)
    }
}

pub fn clone_local(l: &MirLocal) -> (r: MirLocal)
    ensures
        r@ == l@,
{
    MirLocal { id: l.id, name: clone_opt_string(&l.name), ty: crate::types::clone_type(&l.ty) }
}

impl Clone for MirLocal {
    fn clone(&self) -> (r: Self)
        ensures
            r@ == self@,
    {
        clone_local(self)
    }
}

pub fn clone_block(b: &BasicBlock) -> (r: BasicBlock)
    ensures
        r@ == b@,
{
    BasicBlock {
        id: b.id,
        stmts: clone_stmts(&b.stmts),
        terminator: clone_terminator(&b.terminator),
        source: b.source,
    }
}

impl Clone for BasicBlock {
    fn clone(&self) -> (r: Self)
        ensures
            r@ == self@,
    {
        clone_block(self)
    }
}

} // verus!
