//! Queries and bookkeeping over MIR modules and functions: lookups by name
//! and id, fresh ids, and the module's statistics and source map.
use vstd::prelude::*;

use crate::mir::{
    blocks_view, fields_view, lemma_fields_view_take, lemma_operands_view_take,
    lemma_stmts_view_take, locals_view, operand_view, operands_view, opt_string_view, stmt_view,
    stmts_view, MirStmt, Operand, OperandView, Rvalue, RvalueView, StmtView, BasicBlock, BinOp, BlockId, BlockView, FnId,
    InstanceKey, LocalId, LocalView, MirFunction, MirModule, MirProvenance, MirSourceMap,
    MirStats, ReductionStats, SourceInfo, TypeTable, UnaryOp,
};
use crate::strutil::{
    concat_str, decimal, join_strings, join_with, str_eq, strings_view, u64_to_decimal,
};
use vstd::string::StringExecFns;
use vstd::string::StringSliceAdditionalSpecFns;

verus! {

/// The largest id among `blocks`, or 0 when there are none.
pub open spec fn max_block_id(blocks: Seq<BlockView>) -> nat
    decreases blocks.len(),
{
    if blocks.len() == 0 {
        0
    } else {
        let a = max_block_id(blocks.drop_last());
        let b = blocks.last().id.0 as nat;
        if a < b {
            b
        } else {
            a
        }
    }
}

/// One above the largest block id, saturating at `u32::MAX`.
pub open spec fn next_block_id_spec(blocks: Seq<BlockView>) -> u32 {
    if max_block_id(blocks) < u32::MAX {
        (max_block_id(blocks) + 1) as u32
    } else {
        u32::MAX
    }
}

pub fn next_available_block_id_in(blocks: &Vec<BasicBlock>) -> (r: BlockId)
    ensures
        r.0 == next_block_id_spec(crate::mir::blocks_view(blocks@)),
{
    let ghost bv = crate::mir::blocks_view(blocks@);
    let mut best: u32 = 0;
    let mut i: usize = 0;
    while i < blocks.len()
        invariant
            i <= blocks.len(),
            bv == crate::mir::blocks_view(blocks@),
            best == max_block_id(bv.take(i as int)),
        decreases blocks.len() - i,
    {
        proof {
            assert(bv.take(i + 1).drop_last() =~= bv.take(i as int));
            assert(bv.take(i + 1).last() == blocks@[i as int]@);
        }
        if best < blocks[i].id.0 {
            best = blocks[i].id.0;
        }
        i = i + 1;
    }
    proof {
        assert(bv.take(blocks.len() as int) =~= bv);
    }
    BlockId(best.saturating_add(1))
}

// ---------------------------------------------------------------------------
// Instances, provenance and reduction statistics
// ---------------------------------------------------------------------------
impl InstanceKey {
    /// The instance of `item` with no substitution and the default target
    /// shape.
    pub fn simple(item: &str) -> (r: Self)
        ensures
            r.item@ == item@,
            r.substitution@.len() == 0,
            r.target_shape@ == "default"@,
    {
        InstanceKey { item: item.to_owned(), substitution: Vec::new(), target_shape: "default".to_owned() }
    }
}

/// How an instance is displayed: the bare item when nothing is
/// substituted, else `item<s1,s2,...>@shape`.
pub open spec fn instance_text(item: Seq<char>, subst: Seq<Seq<char>>, shape: Seq<char>) -> Seq<char> {
    if subst.len() == 0 {
        item
    } else {
        item + "<"@ + join_with(subst, ","@) + ">@"@ + shape
    }
}

pub fn instance_display(instance: &InstanceKey) -> (r: String)
    ensures
        r@ == instance_text(
            instance.item@,
            strings_view(instance.substitution@),
            instance.target_shape@,
        ),
{
    if instance.substitution.len() == 0 {
        return instance.item.clone();
    }
    let mut out = concat_str(instance.item.as_str(), "<");
    let joined = join_strings(&instance.substitution, ",");
    out.append(joined.as_str());
    out.append(">@");
    out.append(instance.target_shape.as_str());
    out
}

impl ReductionStats {
    /// Net instructions eliminated (positive when the pass shrank the code,
    /// negative when it grew it).
    pub fn eliminated(&self) -> (r: isize)
        requires
            self.instructions_before <= isize::MAX,
            self.instructions_after <= isize::MAX,
        ensures
            r == self.instructions_before - self.instructions_after,
    {
        (self.instructions_before as isize) - (self.instructions_after as isize)
    }
}

pub open spec fn provenance_text(p: MirProvenance) -> Seq<char> {
    match p {
        MirProvenance::LegacyAst => "legacy-ast"@,
        MirProvenance::CoreHir => "corehir"@,
        MirProvenance::CoreHirFallback => "corehir-fallback"@,
        MirProvenance::LegacyOptimized => "legacy-optimized"@,
        MirProvenance::CoreHirOptimized => "corehir-optimized"@,
    }
}

impl MirProvenance {
    /// The label under which the provenance is recorded.
    pub fn as_str(self) -> (r: &'static str)
        ensures
            r@ == provenance_text(self),
    {
        match self {
            MirProvenance::LegacyAst => "legacy-ast",
            MirProvenance::CoreHir => "corehir",
            MirProvenance::CoreHirFallback => "corehir-fallback",
            MirProvenance::LegacyOptimized => "legacy-optimized",
            MirProvenance::CoreHirOptimized => "corehir-optimized",
        }
    }
}

/// Where a function with no recorded source came from: nowhere known.
pub fn default_function_source() -> (r: SourceInfo)
    ensures
        r.span is None,
{
    SourceInfo::unknown()
}

/// Where a block with no recorded source came from: nowhere known.
pub fn default_block_source() -> (r: SourceInfo)
    ensures
        r.span is None,
{
    SourceInfo::unknown()
}

// ---------------------------------------------------------------------------
// Function names and ids
// ---------------------------------------------------------------------------
/// The placeholder name of a function known only by id: `fn#<id>`.
pub open spec fn fn_id_text(id: FnId) -> Seq<char> {
    "fn#"@ + decimal(id.0 as nat)
}

pub fn fn_id_name(func: FnId) -> (r: String)
    ensures
        r@ == fn_id_text(func),
{
    let digits = u64_to_decimal(func.0 as u64);
    concat_str("fn#", digits.as_str())
}

/// The name recorded for a function id by the legacy lowering.
pub fn legacy_name_for_id(id: FnId) -> (r: String)
    ensures
        r@ == fn_id_text(id),
{
    fn_id_name(id)
}

/// The legacy id hash of a name's UTF-8 bytes: start from 0 and, for each
/// byte, multiply by 16777619 (wrapping at 2^32) and xor in the byte.
pub open spec fn legacy_hash(bytes: Seq<u8>) -> u32
    decreases bytes.len(),
{
    if bytes.len() == 0 {
        0
    } else {
        (((legacy_hash(bytes.drop_last()) as nat * 16777619nat) % 0x1_0000_0000nat) as u32) ^ (
        bytes.last() as u32)
    }
}

proof fn lemma_encode_concat(a: Seq<char>, b: Seq<char>)
    ensures
        vstd::utf8::encode_utf8(a + b) == vstd::utf8::encode_utf8(a) + vstd::utf8::encode_utf8(b),
    decreases a.len(),
{
    if a.len() > 0 {
        lemma_encode_concat(a.drop_first(), b);
        assert((a + b).drop_first() =~= a.drop_first() + b);
        assert((a + b)[0] == a[0]);
        assert(vstd::utf8::encode_scalar(a[0] as u32) + (vstd::utf8::encode_utf8(a.drop_first())
            + vstd::utf8::encode_utf8(b)) =~= (vstd::utf8::encode_scalar(a[0] as u32)
            + vstd::utf8::encode_utf8(a.drop_first())) + vstd::utf8::encode_utf8(b));
    } else {
        assert(a + b =~= b);
        assert(vstd::utf8::encode_utf8(a) =~= Seq::<u8>::empty());
        assert(Seq::<u8>::empty() + vstd::utf8::encode_utf8(b) =~= vstd::utf8::encode_utf8(b));
    }
}

/// The legacy id of the empty name is 0, and appending an ASCII character
/// to a name multiplies its id by 16777619 (wrapping at 2^32) and xors in
/// the character: the id depends on the name's bytes alone.
pub proof fn law_legacy_id_append(s: Seq<char>, c: char)
    requires
        (c as u32) < 128,
    ensures
        legacy_hash(vstd::utf8::encode_utf8(Seq::<char>::empty())) == 0,
        legacy_hash(vstd::utf8::encode_utf8(s.push(c))) == (((legacy_hash(
            vstd::utf8::encode_utf8(s),
        ) as nat * 16777619nat) % 0x1_0000_0000nat) as u32) ^ (c as u32),
{
    assert(vstd::utf8::encode_utf8(Seq::<char>::empty()) =~= Seq::<u8>::empty());
    lemma_encode_concat(s, seq![c]);
    assert(s.push(c) =~= s + seq![c]);
    let x = c as u32;
    assert((x & 0x7F) as u8 == x as u8 && (x as u8) as u32 == x) by (bit_vector)
        requires
            x < 128,
    ;
    assert(seq![c].drop_first() =~= Seq::<char>::empty());
    assert(vstd::utf8::encode_utf8(seq![c]) =~= seq![x as u8]);
    let e = vstd::utf8::encode_utf8(s.push(c));
    assert(e.drop_last() =~= vstd::utf8::encode_utf8(s));
    assert(e.last() == x as u8);
}

pub fn legacy_fn_id(name: &str) -> (r: FnId)
    ensures
        r.0 == legacy_hash(name.spec_bytes()),
{
    let bytes = name.as_bytes();
    let mut hash: u32 = 0;
    let mut i: usize = 0;
    while i < bytes.len()
        invariant
            i <= bytes@.len(),
            bytes@ == name.spec_bytes(),
            hash == legacy_hash(bytes@.take(i as int)),
        decreases bytes.len() - i,
    {
        proof {
            assert(bytes@.take(i + 1).drop_last() =~= bytes@.take(i as int));
        }
        hash = hash.wrapping_mul(16777619) ^ (bytes[i] as u32);
        i = i + 1;
    }
    proof {
        assert(bytes@.take(bytes@.len() as int) =~= bytes@);
    }
    FnId(hash)
}

// ---------------------------------------------------------------------------
// Operator symbols
// ---------------------------------------------------------------------------
pub open spec fn binop_text(op: BinOp) -> Seq<char> {
    match op {
        BinOp::Add => "+"@,
        BinOp::Sub => "-"@,
        BinOp::Mul => "*"@,
        BinOp::Div => "/"@,
        BinOp::Mod => "%"@,
        BinOp::Eq => "=="@,
        BinOp::Ne => "!="@,
        BinOp::Lt => "<"@,
        BinOp::Le => "<="@,
        BinOp::Gt => ">"@,
        BinOp::Ge => ">="@,
        BinOp::And => "&&"@,
        BinOp::Or => "||"@,
        BinOp::BitAnd => "&"@,
        BinOp::BitOr => "|"@,
        BinOp::BitXor => "^"@,
        BinOp::Shl => "<<"@,
        BinOp::Shr => ">>"@,
    }
}

/// The source symbol of a binary operator.
pub fn binop_sym(op: BinOp) -> (r: &'static str)
    ensures
        r@ == binop_text(op),
{
    match op {
        BinOp::Add => "+",
        BinOp::Sub => "-",
        BinOp::Mul => "*",
        BinOp::Div => "/",
        BinOp::Mod => "%",
        BinOp::Eq => "==",
        BinOp::Ne => "!=",
        BinOp::Lt => "<",
        BinOp::Le => "<=",
        BinOp::Gt => ">",
        BinOp::Ge => ">=",
        BinOp::And => "&&",
        BinOp::Or => "||",
        BinOp::BitAnd => "&",
        BinOp::BitOr => "|",
        BinOp::BitXor => "^",
        BinOp::Shl => "<<",
        BinOp::Shr => ">>",
    }
}

pub open spec fn unaryop_text(op: UnaryOp) -> Seq<char> {
    match op {
        UnaryOp::Neg => "-"@,
        UnaryOp::Not => "!"@,
        UnaryOp::BitNot => "~"@,
        UnaryOp::SignExtend8 => "sext8"@,
        UnaryOp::SignExtend16 => "sext16"@,
        UnaryOp::SignExtend32 => "sext32"@,
    }
}

/// The source symbol of a unary operator.
pub fn unaryop_sym(op: UnaryOp) -> (r: &'static str)
    ensures
        r@ == unaryop_text(op),
{
    match op {
        UnaryOp::Neg => "-",
        UnaryOp::Not => "!",
        UnaryOp::BitNot => "~",
        UnaryOp::SignExtend8 => "sext8",
        UnaryOp::SignExtend16 => "sext16",
        UnaryOp::SignExtend32 => "sext32",
    }
}
// ---------------------------------------------------------------------------
// Provenance and optimisation history
// ---------------------------------------------------------------------------
/// Record where the module came from.
pub fn set_mir_provenance(module: &mut MirModule, provenance: MirProvenance)
    ensures
        opt_string_view(final(module).stats.provenance) == Some(provenance_text(provenance)),
        final(module).stats.optimization_trace == old(module).stats.optimization_trace,
        final(module).stats.optimization_rounds == old(module).stats.optimization_rounds,
        final(module).stats.validation_runs == old(module).stats.validation_runs,
        final(module).functions == old(module).functions,
        final(module).entry_fn == old(module).entry_fn,
        final(module).type_table == old(module).type_table,
        final(module).struct_defs == old(module).struct_defs,
        final(module).enum_defs == old(module).enum_defs,
        final(module).imports == old(module).imports,
        final(module).source_map == old(module).source_map,
        final(module).stats.instance_keys == old(module).stats.instance_keys,
        final(module).stats.direct_call_graph == old(module).stats.direct_call_graph,
        final(module).stats.pass_reductions == old(module).stats.pass_reductions,
{
    module.stats.provenance = Some(provenance.as_str().to_owned());
}

/// Where the module came from, if recorded.
pub fn mir_provenance(module: &MirModule) -> (r: Option<&str>)
    ensures
        match r {
            Some(s) => opt_string_view(module.stats.provenance) == Some(s@),
            None => module.stats.provenance is None,
        },
{
    match &module.stats.provenance {
        Some(p) => Some(p.as_str()),
        None => None,
    }
}

/// Append a label to the optimisation trace.
pub fn push_optimization_trace(module: &mut MirModule, label: &str)
    ensures
        strings_view(final(module).stats.optimization_trace@) == strings_view(
            old(module).stats.optimization_trace@,
        ).push(label@),
        final(module).stats.provenance == old(module).stats.provenance,
        final(module).functions == old(module).functions,
        final(module).entry_fn == old(module).entry_fn,
{
    module.stats.optimization_trace.push(label.to_owned());
    proof {
        assert(strings_view(module.stats.optimization_trace@) =~= strings_view(
            old(module).stats.optimization_trace@,
        ).push(label@));
    }
}

/// Record the instruction counts before and after a pass.
pub fn push_pass_reduction(
    module: &mut MirModule,
    pass_name: &str,
    instructions_before: usize,
    instructions_after: usize,
)
    ensures
        final(module).stats.pass_reductions@.len() == old(module).stats.pass_reductions@.len() + 1,
        forall|i: int|
            0 <= i < old(module).stats.pass_reductions@.len() ==> final(module).stats.pass_reductions@[i]
                == old(module).stats.pass_reductions@[i],
        final(module).stats.pass_reductions@.last().0@ == pass_name@,
        final(module).stats.pass_reductions@.last().1 == (ReductionStats {
            instructions_before,
            instructions_after,
        }),
        final(module).stats.optimization_trace == old(module).stats.optimization_trace,
        final(module).functions == old(module).functions,
{
    module.stats.pass_reductions.push(
        (pass_name.to_owned(), ReductionStats { instructions_before, instructions_after }),
    );
}

/// The optimisation trace.
pub fn optimization_trace(module: &MirModule) -> (r: &[String])
    ensures
        r@ == module.stats.optimization_trace@,
{
    module.stats.optimization_trace.as_slice()
}

// ---------------------------------------------------------------------------
// Lookups
// ---------------------------------------------------------------------------
/// Function `i` is the first of `fs` named `name`.
pub open spec fn first_named(fs: Seq<MirFunction>, name: Seq<char>, i: int) -> bool {
    &&& 0 <= i < fs.len()
    &&& fs[i].name@ == name
    &&& forall|j: int| 0 <= j < i ==> fs[j].name@ != name
}

/// Function `i` is the first of `fs` with id `id`.
pub open spec fn first_with_id(fs: Seq<MirFunction>, id: FnId, i: int) -> bool {
    &&& 0 <= i < fs.len()
    &&& fs[i].id == id
    &&& forall|j: int| 0 <= j < i ==> fs[j].id != id
}

fn position_by_name(fs: &Vec<MirFunction>, name: &str) -> (r: Option<usize>)
    ensures
        match r {
            Some(i) => first_named(fs@, name@, i as int),
            None => forall|j: int| 0 <= j < fs@.len() ==> fs@[j].name@ != name@,
        },
{
    let mut i: usize = 0;
    while i < fs.len()
        invariant
            i <= fs.len(),
            forall|j: int| 0 <= j < i ==> fs@[j].name@ != name@,
        decreases fs.len() - i,
    {
        if str_eq(fs[i].name.as_str(), name) {
            return Some(i);
        }
        i = i + 1;
    }
    None
}

fn position_by_id(fs: &Vec<MirFunction>, id: FnId) -> (r: Option<usize>)
    ensures
        match r {
            Some(i) => first_with_id(fs@, id, i as int),
            None => forall|j: int| 0 <= j < fs@.len() ==> fs@[j].id != id,
        },
{
    let mut i: usize = 0;
    while i < fs.len()
        invariant
            i <= fs.len(),
            forall|j: int| 0 <= j < i ==> fs@[j].id != id,
        decreases fs.len() - i,
    {
        if fs[i].id == id {
            return Some(i);
        }
        i = i + 1;
    }
    None
}

/// The first function named `name`.
pub fn function_by_name<'a>(module: &'a MirModule, name: &str) -> (r: Option<&'a MirFunction>)
    ensures
        match r {
            Some(f) => exists|i: int| first_named(module.functions@, name@, i) && *f == module.functions@[i],
            None => forall|j: int| 0 <= j < module.functions@.len() ==> module.functions@[j].name@ != name@,
        },
{
    match position_by_name(&module.functions, name) {
        Some(i) => Some(&module.functions[i]),
        None => None,
    }
}

/// The first function with id `id`.
pub fn function_by_id(module: &MirModule, id: FnId) -> (r: Option<&MirFunction>)
    ensures
        match r {
            Some(f) => exists|i: int| first_with_id(module.functions@, id, i) && *f == module.functions@[i],
            None => forall|j: int| 0 <= j < module.functions@.len() ==> module.functions@[j].id != id,
        },
{
    match position_by_id(&module.functions, id) {
        Some(i) => Some(&module.functions[i]),
        None => None,
    }
}

/// The first function named `name`, to modify in place. Nothing else of
/// the module changes.
pub fn function_by_name_mut<'a>(module: &'a mut MirModule, name: &str) -> (r: Option<&'a mut MirFunction>)
    ensures
        match r {
            Some(f) => exists|i: int|
                first_named(old(module).functions@, name@, i) && *f == old(module).functions@[i]
                    && final(module).functions@ == old(module).functions@.update(i, *final(f)),
            None => forall|j: int|
                0 <= j < old(module).functions@.len() ==> old(module).functions@[j].name@ != name@,
        },
        match r {
            Some(f) => final(module).entry_fn == old(module).entry_fn && final(module).stats
                == old(module).stats && final(module).source_map == old(module).source_map,
            None => *final(module) == *old(module),
        },
{
    match position_by_name(&module.functions, name) {
        Some(i) => Some(&mut module.functions[i]),
        None => None,
    }
}

/// The first function with id `id`, to modify in place. Nothing else of
/// the module changes.
pub fn function_by_id_mut(module: &mut MirModule, id: FnId) -> (r: Option<&mut MirFunction>)
    ensures
        match r {
            Some(f) => exists|i: int|
                first_with_id(old(module).functions@, id, i) && *f == old(module).functions@[i]
                    && final(module).functions@ == old(module).functions@.update(i, *final(f)),
            None => forall|j: int|
                0 <= j < old(module).functions@.len() ==> old(module).functions@[j].id != id,
        },
        match r {
            Some(f) => final(module).entry_fn == old(module).entry_fn && final(module).stats
                == old(module).stats && final(module).source_map == old(module).source_map,
            None => *final(module) == *old(module),
        },
{
    match position_by_id(&module.functions, id) {
        Some(i) => Some(&mut module.functions[i]),
        None => None,
    }
}

/// The name of the first function with id `id`.
pub fn function_name(module: &MirModule, id: FnId) -> (r: Option<&str>)
    ensures
        match r {
            Some(n) => exists|i: int| first_with_id(module.functions@, id, i) && n@ == module.functions@[i].name@,
            None => forall|j: int| 0 <= j < module.functions@.len() ==> module.functions@[j].id != id,
        },
{
    match position_by_id(&module.functions, id) {
        Some(i) => Some(module.functions[i].name.as_str()),
        None => None,
    }
}

/// The name of the first function of `fs` with id `id`, else the
/// placeholder `fn#<id>`.
pub open spec fn name_or_fallback(fs: Seq<MirFunction>, id: FnId) -> Seq<char> {
    if exists|i: int| first_with_id(fs, id, i) {
        fs[choose|i: int| first_with_id(fs, id, i)].name@
    } else {
        fn_id_text(id)
    }
}

proof fn lemma_first_with_id_unique(fs: Seq<MirFunction>, id: FnId, i: int)
    requires
        first_with_id(fs, id, i),
    ensures
        (choose|k: int| first_with_id(fs, id, k)) == i,
{
    let k = choose|k: int| first_with_id(fs, id, k);
    assert(first_with_id(fs, id, k));
    if k < i {
        assert(fs[k].id != id);
    }
    if i < k {
        assert(fs[i].id != id);
    }
}

/// The name of the first function with id `id`, else the placeholder
/// `fn#<id>`.
pub fn function_name_or_fallback(module: &MirModule, id: FnId) -> (r: String)
    ensures
        r@ == name_or_fallback(module.functions@, id),
{
    match position_by_id(&module.functions, id) {
        Some(i) => {
            proof {
                lemma_first_with_id_unique(module.functions@, id, i as int);
            }
            module.functions[i].name.clone()
        },
        None => fn_id_name(id),
    }
}

/// The id of the first function named `name`.
pub fn function_id_by_name(module: &MirModule, name: &str) -> (r: Option<FnId>)
    ensures
        match r {
            Some(id) => exists|i: int| first_named(module.functions@, name@, i) && id == module.functions@[i].id,
            None => forall|j: int| 0 <= j < module.functions@.len() ==> module.functions@[j].name@ != name@,
        },
{
    match position_by_name(&module.functions, name) {
        Some(i) => Some(module.functions[i].id),
        None => None,
    }
}

/// The ids of the module's functions, each once.
pub fn collect_function_ids(module: &MirModule) -> (r: Vec<FnId>)
    ensures
        forall|a: int, b: int| 0 <= a < b < r@.len() ==> r@[a] != r@[b],
        forall|id: FnId|
            r@.contains(id) <==> exists|i: int| 0 <= i < module.functions@.len() && #[trigger] module.functions@[i].id == id,
{
    let mut out: Vec<FnId> = Vec::new();
    let mut i: usize = 0;
    while i < module.functions.len()
        invariant
            i <= module.functions.len(),
            forall|a: int, b: int| 0 <= a < b < out@.len() ==> out@[a] != out@[b],
            forall|id: FnId|
                out@.contains(id) <==> exists|k: int| 0 <= k < i && #[trigger] module.functions@[k].id == id,
        decreases module.functions.len() - i,
    {
        let id = module.functions[i].id;
        let mut found = false;
        let mut q: usize = 0;
        while q < out.len()
            invariant
                q <= out.len(),
                found == exists|k: int| 0 <= k < q && out@[k] == id,
            decreases out.len() - q,
        {
            if out[q] == id {
                found = true;
            }
            q = q + 1;
        }
        let ghost before = out@;
        if !found {
            out.push(id);
            proof {
                assert forall|a: int, b: int| 0 <= a < b < out@.len() implies out@[a] != out@[b] by {
                    if b == before.len() {
                        assert(before.contains(before[a]));
                    }
                }
            }
        }
        proof {
            assert forall|x: FnId| out@.contains(x) <==> exists|k: int|
                0 <= k < i + 1 && #[trigger] module.functions@[k].id == x by {
                vstd::seq_lib::lemma_seq_contains_after_push(before, id, x);
                if x == id {
                    assert(module.functions@[i as int].id == x);
                    if found {
                        let k = choose|k: int| 0 <= k < before.len() && before[k] == id;
                        assert(before.contains(x));
                    }
                }
                if exists|k: int| 0 <= k < i + 1 && #[trigger] module.functions@[k].id == x {
                    let k = choose|k: int| 0 <= k < i + 1 && #[trigger] module.functions@[k].id == x;
                    if k < i {
                        assert(before.contains(x));
                    }
                }
            }
        }
        i = i + 1;
    }
    out
}

// ---------------------------------------------------------------------------
// Fresh ids
// ---------------------------------------------------------------------------
/// One above the largest function id (0 when there are none), saturating.
pub open spec fn max_fn_id(fs: Seq<MirFunction>) -> nat
    decreases fs.len(),
{
    if fs.len() == 0 {
        0
    } else {
        let a = max_fn_id(fs.drop_last());
        let b = fs.last().id.0 as nat;
        if a < b {
            b
        } else {
            a
        }
    }
}

pub open spec fn saturating_next(m: nat) -> u32 {
    if m < u32::MAX {
        (m + 1) as u32
    } else {
        u32::MAX
    }
}

pub fn next_available_fn_id(module: &MirModule) -> (r: FnId)
    ensures
        r.0 == saturating_next(max_fn_id(module.functions@)),
{
    let ghost fs = module.functions@;
    let mut best: u32 = 0;
    let mut i: usize = 0;
    while i < module.functions.len()
        invariant
            i <= fs.len(),
            fs == module.functions@,
            best == max_fn_id(fs.take(i as int)),
        decreases fs.len() - i,
    {
        proof {
            assert(fs.take(i + 1).drop_last() =~= fs.take(i as int));
        }
        if best < module.functions[i].id.0 {
            best = module.functions[i].id.0;
        }
        i = i + 1;
    }
    proof {
        assert(fs.take(fs.len() as int) =~= fs);
    }
    FnId(best.saturating_add(1))
}

pub fn next_available_block_id(function: &MirFunction) -> (r: BlockId)
    ensures
        r.0 == next_block_id_spec(blocks_view(function.blocks@)),
{
    next_available_block_id_in(&function.blocks)
}

/// The largest id among the locals `ls`, or 0.
pub open spec fn max_id_of(ls: Seq<LocalView>) -> nat
    decreases ls.len(),
{
    if ls.len() == 0 {
        0
    } else {
        let a = max_id_of(ls.drop_last());
        let b = ls.last().id.0 as nat;
        if a < b {
            b
        } else {
            a
        }
    }
}

fn max_local_in(ls: &Vec<crate::mir::MirLocal>, start: u32) -> (r: u32)
    ensures
        r == (if max_id_of(locals_view(ls@)) < start {
            start as nat
        } else {
            max_id_of(locals_view(ls@))
        }),
{
    let ghost lv = locals_view(ls@);
    let mut best: u32 = start;
    let mut i: usize = 0;
    while i < ls.len()
        invariant
            i <= ls.len(),
            lv == locals_view(ls@),
            lv.len() == ls@.len(),
            best == (if max_id_of(lv.take(i as int)) < start {
                start as nat
            } else {
                max_id_of(lv.take(i as int))
            }),
        decreases ls.len() - i,
    {
        proof {
            assert(lv.take(i + 1).drop_last() =~= lv.take(i as int));
            assert(lv.take(i + 1).last() == ls@[i as int]@);
        }
        if best < ls[i].id.0 {
            best = ls[i].id.0;
        }
        i = i + 1;
    }
    proof {
        assert(lv.take(ls.len() as int) =~= lv);
    }
    best
}

/// One above the largest id among the locals and parameters (0 when there
/// are none), saturating.
pub fn next_available_local_id(function: &MirFunction) -> (r: LocalId)
    ensures
        r.0 == saturating_next(
            if max_id_of(locals_view(function.locals@)) < max_id_of(locals_view(function.params@)) {
                max_id_of(locals_view(function.params@))
            } else {
                max_id_of(locals_view(function.locals@))
            },
        ),
{
    let a = max_local_in(&function.locals, 0);
    let b = max_local_in(&function.params, a);
    LocalId(b.saturating_add(1))
}

// ---------------------------------------------------------------------------
// Construction
// ---------------------------------------------------------------------------
impl Default for TypeTable {
    fn default() -> (r: Self)
        ensures
            r.struct_defs@.len() == 0,
            r.enum_defs@.len() == 0,
            r.fn_sigs@.len() == 0,
    {
        TypeTable { struct_defs: Vec::new(), enum_defs: Vec::new(), fn_sigs: Vec::new() }
    }
}

/// The module has no functions, entry, types, imports, spans or history.
pub open spec fn module_empty(m: MirModule) -> bool {
    &&& m.functions@.len() == 0
    &&& m.entry_fn is None
    &&& m.type_table.struct_defs@.len() == 0
    &&& m.type_table.enum_defs@.len() == 0
    &&& m.type_table.fn_sigs@.len() == 0
    &&& m.struct_defs@.len() == 0
    &&& m.enum_defs@.len() == 0
    &&& m.imports@.len() == 0
    &&& m.source_map.function_spans@.len() == 0
    &&& m.source_map.block_spans@.len() == 0
    &&& m.source_map.stmt_spans@.len() == 0
    &&& crate::metadata::stats_empty(m.stats)
}

impl MirModule {
    pub fn new() -> (r: Self)
        ensures
            module_empty(r),
    {
        MirModule {
            functions: Vec::new(),
            entry_fn: None,
            type_table: TypeTable::default(),
            struct_defs: Vec::new(),
            enum_defs: Vec::new(),
            imports: Vec::new(),
            source_map: MirSourceMap::default(),
            stats: MirStats::default(),
        }
    }
}

impl Default for MirModule {
    fn default() -> (r: Self)
        ensures
            module_empty(r),
    {
        MirModule::new()
    }
}
// ---------------------------------------------------------------------------
// Called names
// ---------------------------------------------------------------------------
/// The names an operand calls or refers to, in order: called and referenced
/// functions, and the conversion function of a `?`.
pub open spec fn calls_op(o: OperandView) -> Seq<Seq<char>>
    decreases o,
{
    match o {
        OperandView::Call(name, args) => seq![name] + calls_ops(args),
        OperandView::BinOp(_, a, b) => calls_op(*a) + calls_op(*b),
        OperandView::UnaryOp(_, a) => calls_op(*a),
        OperandView::EnumTag(a) => calls_op(*a),
        OperandView::FnRef(name) => seq![name],
        OperandView::IfExpr { cond, then_body, then_result, else_body, else_result } => calls_op(
            *cond,
        ) + calls_stmts(then_body) + calls_res(then_result) + calls_stmts(else_body) + calls_res(
            else_result,
        ),
        OperandView::StructInit { fields, .. } => calls_fields(fields),
        OperandView::FieldAccess { object, .. } => calls_op(*object),
        OperandView::EnumInit { payload, .. } => calls_ops(payload),
        OperandView::EnumPayload { object, .. } => calls_op(*object),
        OperandView::LoopExpr { init, body, result } => calls_op(*init) + calls_stmts(body)
            + calls_op(*result),
        OperandView::TryExpr { expr, from_fn } => calls_op(*expr) + match from_fn {
            Some(f) => seq![f],
            None => Seq::empty(),
        },
        OperandView::CallIndirect { callee, args } => calls_op(*callee) + calls_ops(args),
        OperandView::ArrayInit { elements } => calls_ops(elements),
        OperandView::IndexAccess { object, index } => calls_op(*object) + calls_op(*index),
        _ => Seq::empty(),
    }
}

pub open spec fn calls_res(r: Option<Box<OperandView>>) -> Seq<Seq<char>>
    decreases r,
{
    match r {
        Some(b) => calls_op(*b),
        None => Seq::empty(),
    }
}

pub open spec fn calls_ops(s: Seq<OperandView>) -> Seq<Seq<char>>
    decreases s,
{
    if s.len() == 0 {
        Seq::empty()
    } else {
        calls_ops(s.drop_last()) + calls_op(s.last())
    }
}

pub open spec fn calls_fields(s: Seq<(Seq<char>, OperandView)>) -> Seq<Seq<char>>
    decreases s,
{
    if s.len() == 0 {
        Seq::empty()
    } else {
        calls_fields(s.drop_last()) + calls_op(s.last().1)
    }
}

/// The names a statement calls, in order: a call by id gives `fn#<id>`,
/// a builtin its name, then the names its operands call.
pub open spec fn calls_stmt(s: StmtView) -> Seq<Seq<char>>
    decreases s,
{
    match s {
        StmtView::Assign(_, r) => match r {
            RvalueView::Use(o) => calls_op(o),
            RvalueView::BinaryOp(_, a, b) => calls_op(a) + calls_op(b),
            RvalueView::UnaryOp(_, a) => calls_op(a),
            RvalueView::Aggregate(_, v) => calls_ops(v),
            RvalueView::Ref(_) => Seq::empty(),
        },
        StmtView::Call { func, args, .. } => seq![fn_id_text(func)] + calls_ops(args),
        StmtView::CallBuiltin { name, args, .. } => seq![name] + calls_ops(args),
        StmtView::IfStmt { cond, then_body, else_body } => calls_op(cond) + calls_stmts(then_body)
            + calls_stmts(else_body),
        StmtView::WhileStmt { cond, body } => calls_op(cond) + calls_stmts(body),
        StmtView::Return(Some(v)) => calls_op(v),
        _ => Seq::empty(),
    }
}

pub open spec fn calls_stmts(s: Seq<StmtView>) -> Seq<Seq<char>>
    decreases s,
{
    if s.len() == 0 {
        Seq::empty()
    } else {
        calls_stmts(s.drop_last()) + calls_stmt(s.last())
    }
}

fn push_name(out: &mut Vec<String>, name: String)
    ensures
        strings_view(final(out)@) == strings_view(old(out)@) + seq![name@],
{
    out.push(name);
    proof {
        assert(strings_view(final(out)@) =~= strings_view(old(out)@) + seq![name@]);
    }
}

/// Append the names `operand` calls (see [`calls_op`]) to `out`.
pub fn operand_calls(operand: &Operand, out: &mut Vec<String>)
    ensures
        strings_view(final(out)@) == strings_view(old(out)@) + calls_op(operand@),
    decreases operand,
{
    let ghost o0 = strings_view(out@);
    match operand {
        Operand::Call(name, args) => {
            push_name(out, name.clone());
            ops_calls(args, out);
        },
        Operand::BinOp(_, a, b) | Operand::IndexAccess { object: a, index: b } => {
            operand_calls(a, out);
            operand_calls(b, out);
        },
        Operand::UnaryOp(_, a) | Operand::EnumTag(a) | Operand::FieldAccess { object: a, .. }
        | Operand::EnumPayload { object: a, .. } => operand_calls(a, out),
        Operand::FnRef(name) => push_name(out, name.clone()),
        Operand::IfExpr { cond, then_body, then_result, else_body, else_result } => {
            operand_calls(cond, out);
            stmts_calls(then_body, out);
            res_calls(then_result, out);
            stmts_calls(else_body, out);
            res_calls(else_result, out);
        },
        Operand::StructInit { fields, .. } => fields_calls(fields, out),
        Operand::EnumInit { payload: v, .. } | Operand::ArrayInit { elements: v } => ops_calls(v, out),
        Operand::LoopExpr { init, body, result } => {
            operand_calls(init, out);
            stmts_calls(body, out);
            operand_calls(result, out);
        },
        Operand::TryExpr { expr, from_fn } => {
            operand_calls(expr, out);
            if let Some(f) = from_fn {
                push_name(out, f.clone());
            }
        },
        Operand::CallIndirect { callee, args } => {
            operand_calls(callee, out);
            ops_calls(args, out);
        },
        _ => {},
    }
    proof {
        assert(strings_view(out@) =~= o0 + calls_op(operand@));
    }
}

fn res_calls(r: &Option<Box<Operand>>, out: &mut Vec<String>)
    ensures
        strings_view(final(out)@) == strings_view(old(out)@) + calls_res(
            crate::mir::opt_box_operand_view(*r),
        ),
    decreases r,
{
    match r {
        Some(b) => operand_calls(b, out),
        None => {
            proof {
                assert(strings_view(out@) =~= strings_view(out@) + Seq::<Seq<char>>::empty());
            }
        },
    }
}

fn ops_calls(v: &Vec<Operand>, out: &mut Vec<String>)
    ensures
        strings_view(final(out)@) == strings_view(old(out)@) + calls_ops(operands_view(v@)),
    decreases v,
{
    let ghost o0 = strings_view(out@);
    let mut i: usize = 0;
    proof {
        assert(v@.take(0) =~= Seq::<Operand>::empty());
        assert(strings_view(out@) =~= o0 + calls_ops(operands_view(v@.take(0))));
    }
    #[verifier::loop_isolation(false)]
    while i < v.len()
        invariant
            i <= v.len(),
            strings_view(out@) == o0 + calls_ops(operands_view(v@.take(i as int))),
        decreases v.len() - i,
    {
        proof {
            broadcast use vstd::std_specs::vec::axiom_vec_index_decreases;

            assert(decreases_to!(v => v[i as int]));
            lemma_operands_view_take(v@, i as int);
            let s0 = operands_view(v@.take(i as int));
            assert(s0.push(operand_view(v@[i as int])).drop_last() =~= s0);
        }
        operand_calls(&v[i], out);
        proof {
            assert(strings_view(out@) =~= o0 + calls_ops(operands_view(v@.take(i + 1))));
        }
        i = i + 1;
    }
    proof {
        assert(v@.take(v.len() as int) =~= v@);
    }
}

fn fields_calls(v: &Vec<(String, Operand)>, out: &mut Vec<String>)
    ensures
        strings_view(final(out)@) == strings_view(old(out)@) + calls_fields(fields_view(v@)),
    decreases v,
{
    let ghost o0 = strings_view(out@);
    let mut i: usize = 0;
    proof {
        assert(v@.take(0) =~= Seq::<(String, Operand)>::empty());
        assert(strings_view(out@) =~= o0 + calls_fields(fields_view(v@.take(0))));
    }
    #[verifier::loop_isolation(false)]
    while i < v.len()
        invariant
            i <= v.len(),
            strings_view(out@) == o0 + calls_fields(fields_view(v@.take(i as int))),
        decreases v.len() - i,
    {
        proof {
            broadcast use vstd::std_specs::vec::axiom_vec_index_decreases;

            assert(decreases_to!(v => v[i as int]));
            assert(decreases_to!(v[i as int] => v[i as int].1));
            lemma_fields_view_take(v@, i as int);
            let s0 = fields_view(v@.take(i as int));
            assert(s0.push((v@[i as int].0@, operand_view(v@[i as int].1))).drop_last() =~= s0);
        }
        operand_calls(&v[i].1, out);
        proof {
            assert(strings_view(out@) =~= o0 + calls_fields(fields_view(v@.take(i + 1))));
        }
        i = i + 1;
    }
    proof {
        assert(v@.take(v.len() as int) =~= v@);
    }
}

/// Append the names `stmt` calls (see [`calls_stmt`]) to `out`.
pub fn stmt_calls(stmt: &MirStmt, out: &mut Vec<String>)
    ensures
        strings_view(final(out)@) == strings_view(old(out)@) + calls_stmt(stmt@),
    decreases stmt,
{
    let ghost o0 = strings_view(out@);
    match stmt {
        MirStmt::Assign(_, rvalue) => match rvalue {
            Rvalue::Use(o) => operand_calls(o, out),
            Rvalue::BinaryOp(_, a, b) => {
                operand_calls(a, out);
                operand_calls(b, out);
            },
            Rvalue::UnaryOp(_, a) => operand_calls(a, out),
            Rvalue::Aggregate(_, v) => ops_calls(v, out),
            Rvalue::Ref(_) => {},
        },
        MirStmt::Call { func, args, .. } => {
            push_name(out, fn_id_name(*func));
            ops_calls(args, out);
        },
        MirStmt::CallBuiltin { name, args, .. } => {
            push_name(out, name.clone());
            ops_calls(args, out);
        },
        MirStmt::IfStmt { cond, then_body, else_body } => {
            operand_calls(cond, out);
            stmts_calls(then_body, out);
            stmts_calls(else_body, out);
        },
        MirStmt::WhileStmt { cond, body } => {
            operand_calls(cond, out);
            stmts_calls(body, out);
        },
        MirStmt::Return(Some(v)) => operand_calls(v, out),
        _ => {},
    }
    proof {
        assert(strings_view(out@) =~= o0 + calls_stmt(stmt@));
    }
}

fn stmts_calls(v: &Vec<MirStmt>, out: &mut Vec<String>)
    ensures
        strings_view(final(out)@) == strings_view(old(out)@) + calls_stmts(stmts_view(v@)),
    decreases v,
{
    let ghost o0 = strings_view(out@);
    let mut i: usize = 0;
    proof {
        assert(v@.take(0) =~= Seq::<MirStmt>::empty());
        assert(strings_view(out@) =~= o0 + calls_stmts(stmts_view(v@.take(0))));
    }
    #[verifier::loop_isolation(false)]
    while i < v.len()
        invariant
            i <= v.len(),
            strings_view(out@) == o0 + calls_stmts(stmts_view(v@.take(i as int))),
        decreases v.len() - i,
    {
        proof {
            broadcast use vstd::std_specs::vec::axiom_vec_index_decreases;

            assert(decreases_to!(v => v[i as int]));
            lemma_stmts_view_take(v@, i as int);
            let s0 = stmts_view(v@.take(i as int));
            assert(s0.push(stmt_view(v@[i as int])).drop_last() =~= s0);
        }
        stmt_calls(&v[i], out);
        proof {
            assert(strings_view(out@) =~= o0 + calls_stmts(stmts_view(v@.take(i + 1))));
        }
        i = i + 1;
    }
    proof {
        assert(v@.take(v.len() as int) =~= v@);
    }
}
// ---------------------------------------------------------------------------
// Summaries
// ---------------------------------------------------------------------------
/// The function the runtime starts: `_start` when the module has a
/// function of that name, else the entry function's name (or placeholder).
pub open spec fn runtime_entry(m: MirModule) -> Option<Seq<char>> {
    if exists|i: int| 0 <= i < m.functions@.len() && m.functions@[i].name@ == "_start"@ {
        Some("_start"@)
    } else {
        match m.entry_fn {
            Some(id) => Some(name_or_fallback(m.functions@, id)),
            None => None,
        }
    }
}

pub fn runtime_entry_name(module: &MirModule) -> (r: Option<String>)
    ensures
        opt_string_view(r) == runtime_entry(*module),
{
    match position_by_name(&module.functions, "_start") {
        Some(_) => Some("_start".to_owned()),
        None => match module.entry_fn {
            Some(id) => Some(function_name_or_fallback(module, id)),
            None => None,
        },
    }
}

/// `Some(<n>)` or `None`, as `{:?}` renders an optional id.
pub open spec fn opt_id_text(o: Option<FnId>) -> Seq<char> {
    match o {
        Some(id) => "Some("@ + decimal(id.0 as nat) + ")"@,
        None => "None"@,
    }
}

pub open spec fn provenance_field_text(p: Option<String>) -> Seq<char> {
    match p {
        Some(s) => s@,
        None => "unknown"@,
    }
}

/// The one-line snapshot of a module.
pub open spec fn snapshot_text(m: MirModule) -> Seq<char> {
    "functions="@ + decimal(m.functions@.len()) + " entry="@ + opt_id_text(m.entry_fn)
        + " provenance="@ + provenance_field_text(m.stats.provenance) + " rounds="@ + decimal(
        m.stats.optimization_rounds as nat,
    ) + " trace=["@ + join_with(strings_view(m.stats.optimization_trace@), ", "@) + "]"@
}

pub fn module_snapshot(module: &MirModule) -> (r: String)
    ensures
        r@ == snapshot_text(*module),
{
    let mut out = concat_str("functions=", u64_to_decimal(module.functions.len() as u64).as_str());
    out.append(" entry=");
    match module.entry_fn {
        Some(id) => {
            out.append("Some(");
            out.append(u64_to_decimal(id.0 as u64).as_str());
            out.append(")");
        },
        None => out.append("None"),
    }
    out.append(" provenance=");
    match mir_provenance(module) {
        Some(p) => out.append(p),
        None => out.append("unknown"),
    }
    out.append(" rounds=");
    out.append(u64_to_decimal(module.stats.optimization_rounds as u64).as_str());
    out.append(" trace=[");
    out.append(join_strings(&module.stats.optimization_trace, ", ").as_str());
    out.append("]");
    proof {
        assert(out@ =~= snapshot_text(*module));
    }
    out
}

/// The snapshots of two modules, one per line.
pub fn compare_module_shapes(lhs: &MirModule, rhs: &MirModule) -> (r: String)
    ensures
        r@ == "lhs: "@ + snapshot_text(*lhs) + "\nrhs: "@ + snapshot_text(*rhs),
{
    let mut out = concat_str("lhs: ", module_snapshot(lhs).as_str());
    out.append("\nrhs: ");
    out.append(module_snapshot(rhs).as_str());
    out
}

pub open spec fn total_blocks(fs: Seq<MirFunction>) -> nat
    decreases fs.len(),
{
    if fs.len() == 0 {
        0
    } else {
        total_blocks(fs.drop_last()) + fs.last().blocks@.len()
    }
}

pub open spec fn block_stmts(bs: Seq<BasicBlock>) -> nat
    decreases bs.len(),
{
    if bs.len() == 0 {
        0
    } else {
        block_stmts(bs.drop_last()) + bs.last().stmts@.len()
    }
}

pub open spec fn total_stmts(fs: Seq<MirFunction>) -> nat
    decreases fs.len(),
{
    if fs.len() == 0 {
        0
    } else {
        total_stmts(fs.drop_last()) + block_stmts(fs.last().blocks@)
    }
}

proof fn lemma_total_blocks_prefix(fs: Seq<MirFunction>, n: int)
    requires
        0 <= n <= fs.len(),
    ensures
        total_blocks(fs.take(n)) <= total_blocks(fs),
    decreases fs.len() - n,
{
    if n < fs.len() {
        assert(fs.take(n + 1).drop_last() =~= fs.take(n));
        lemma_total_blocks_prefix(fs, n + 1);
    } else {
        assert(fs.take(n) =~= fs);
    }
}

proof fn lemma_total_stmts_prefix(fs: Seq<MirFunction>, n: int)
    requires
        0 <= n <= fs.len(),
    ensures
        total_stmts(fs.take(n)) <= total_stmts(fs),
    decreases fs.len() - n,
{
    if n < fs.len() {
        assert(fs.take(n + 1).drop_last() =~= fs.take(n));
        lemma_total_stmts_prefix(fs, n + 1);
    } else {
        assert(fs.take(n) =~= fs);
    }
}

proof fn lemma_block_stmts_prefix(bs: Seq<BasicBlock>, n: int)
    requires
        0 <= n <= bs.len(),
    ensures
        block_stmts(bs.take(n)) <= block_stmts(bs),
    decreases bs.len() - n,
{
    if n < bs.len() {
        assert(bs.take(n + 1).drop_last() =~= bs.take(n));
        lemma_block_stmts_prefix(bs, n + 1);
    } else {
        assert(bs.take(n) =~= bs);
    }
}

pub(crate) fn count_stmts(bs: &Vec<BasicBlock>) -> (r: usize)
    requires
        block_stmts(bs@) <= usize::MAX,
    ensures
        r == block_stmts(bs@),
{
    let mut n: usize = 0;
    let mut i: usize = 0;
    while i < bs.len()
        invariant
            i <= bs.len(),
            block_stmts(bs@) <= usize::MAX,
            n == block_stmts(bs@.take(i as int)),
        decreases bs.len() - i,
    {
        proof {
            assert(bs@.take(i + 1).drop_last() =~= bs@.take(i as int));
            lemma_block_stmts_prefix(bs@, i + 1);
        }
        n = n + bs[i].stmts.len();
        i = i + 1;
    }
    proof {
        assert(bs@.take(bs.len() as int) =~= bs@);
    }
    n
}

/// The numbers of functions, blocks and statements (top level) of the
/// module.
pub fn mir_size_summary(module: &MirModule) -> (r: String)
    requires
        total_blocks(module.functions@) <= usize::MAX,
        total_stmts(module.functions@) <= usize::MAX,
    ensures
        r@ == "functions="@ + decimal(module.functions@.len()) + " blocks="@ + decimal(
            total_blocks(module.functions@),
        ) + " stmts="@ + decimal(total_stmts(module.functions@)),
{
    let ghost fs = module.functions@;
    let mut blocks: usize = 0;
    let mut stmts: usize = 0;
    let mut i: usize = 0;
    while i < module.functions.len()
        invariant
            i <= fs.len(),
            fs == module.functions@,
            total_blocks(fs) <= usize::MAX,
            total_stmts(fs) <= usize::MAX,
            blocks == total_blocks(fs.take(i as int)),
            stmts == total_stmts(fs.take(i as int)),
        decreases fs.len() - i,
    {
        proof {
            assert(fs.take(i + 1).drop_last() =~= fs.take(i as int));
            lemma_total_blocks_prefix(fs, i + 1);
            lemma_total_stmts_prefix(fs, i + 1);
        }
        blocks = blocks + module.functions[i].blocks.len();
        stmts = stmts + count_stmts(&module.functions[i].blocks);
        i = i + 1;
    }
    proof {
        assert(fs.take(fs.len() as int) =~= fs);
    }
    let mut out = concat_str("functions=", u64_to_decimal(module.functions.len() as u64).as_str());
    out.append(" blocks=");
    out.append(u64_to_decimal(blocks as u64).as_str());
    out.append(" stmts=");
    out.append(u64_to_decimal(stmts as u64).as_str());
    out
}
} // verus!
