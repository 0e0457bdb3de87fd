//! The CoreHIR program as the lowering entry points read it: its modules
//! with their items, and its bodies with their statements and tail
//! expressions, each told apart by the kinds that lowering counts.
//!
//! The counts are stated as spec functions over these views and the entry
//! points' contracts are given over them.
use vstd::prelude::*;

use crate::mir::{opt_string_view, MirModule, MirProvenance};
use crate::mir_ops::{
    module_snapshot, provenance_text, push_optimization_trace, set_mir_provenance, snapshot_text,
};
use crate::facade::{bool_str, bool_text};
use crate::strutil::{concat_str, decimal, strings_view, u64_to_decimal};

verus! {

/// The kind of a CoreHIR item, as far as lowering tells them apart.
#[derive(Debug, Clone, Copy, PartialEq, Eq, Structural)]
pub enum ItemKind {
    Function,
    Other,
}

#[derive(Debug, Clone)]
pub struct Item {
    pub kind: ItemKind,
}

#[derive(Debug, Clone)]
pub struct Module {
    pub items: Vec<Item>,
}

/// The kind of a CoreHIR expression, as far as lowering tells them apart.
#[derive(Debug, Clone, Copy, PartialEq, Eq, Structural)]
pub enum ExprKind {
    Match,
    Try,
    Closure,
    Other,
}

#[derive(Debug, Clone, Copy, PartialEq, Eq, Structural)]
pub struct Expr {
    pub kind: ExprKind,
}

/// A CoreHIR statement: an expression statement, one of the four looping
/// forms, or anything else.
#[derive(Debug, Clone, Copy, PartialEq, Eq, Structural)]
pub enum Stmt {
    Expr(Expr),
    While,
    Loop,
    ForRange,
    ForValues,
    Other,
}

#[derive(Debug, Clone, Copy, PartialEq, Eq, Structural)]
pub struct BodyId(pub u32);

#[derive(Debug, Clone)]
pub struct Body {
    pub id: BodyId,
    pub stmts: Vec<Stmt>,
    pub tail: Option<Expr>,
}

#[derive(Debug, Clone)]
pub struct Program {
    pub modules: Vec<Module>,
    pub bodies: Vec<Body>,
}

// ---------------------------------------------------------------------------
// Counts
// ---------------------------------------------------------------------------
/// The number of function items among `items`.
pub open spec fn function_count(items: Seq<Item>) -> nat
    decreases items.len(),
{
    if items.len() == 0 {
        0
    } else {
        function_count(items.drop_last()) + if items.last().kind is Function {
            1nat
        } else {
            0nat
        }
    }
}

/// The number of function items over all of `modules`.
pub open spec fn modules_function_count(modules: Seq<Module>) -> nat
    decreases modules.len(),
{
    if modules.len() == 0 {
        0
    } else {
        modules_function_count(modules.drop_last()) + function_count(modules.last().items@)
    }
}

pub open spec fn is_loop_stmt(s: Stmt) -> bool {
    s is While || s is Loop || s is ForRange || s is ForValues
}

pub open spec fn is_complex_expr(e: Expr) -> bool {
    e.kind is Match || e.kind is Try || e.kind is Closure
}

/// The number of looping statements among `stmts`.
pub open spec fn loop_count(stmts: Seq<Stmt>) -> nat
    decreases stmts.len(),
{
    if stmts.len() == 0 {
        0
    } else {
        loop_count(stmts.drop_last()) + if is_loop_stmt(stmts.last()) {
            1nat
        } else {
            0nat
        }
    }
}

/// The number of expression statements among `stmts` whose expression is a
/// match, a `?` or a closure.
pub open spec fn complex_stmt_count(stmts: Seq<Stmt>) -> nat
    decreases stmts.len(),
{
    if stmts.len() == 0 {
        0
    } else {
        complex_stmt_count(stmts.drop_last()) + match stmts.last() {
            Stmt::Expr(e) => if is_complex_expr(e) {
                1nat
            } else {
                0nat
            },
            _ => 0nat,
        }
    }
}

/// The complex expressions of a body: its tail and its expression statements.
pub open spec fn body_complex_count(b: Body) -> nat {
    complex_stmt_count(b.stmts@) + match b.tail {
        Some(e) => if is_complex_expr(e) {
            1nat
        } else {
            0nat
        },
        None => 0nat,
    }
}

/// The expression shapes of a body: one per statement, and one for a tail.
pub open spec fn body_shape_count(b: Body) -> nat {
    b.stmts@.len() + if b.tail is Some {
        1nat
    } else {
        0nat
    }
}

pub open spec fn bodies_loop_count(bodies: Seq<Body>) -> nat
    decreases bodies.len(),
{
    if bodies.len() == 0 {
        0
    } else {
        bodies_loop_count(bodies.drop_last()) + loop_count(bodies.last().stmts@)
    }
}

pub open spec fn bodies_complex_count(bodies: Seq<Body>) -> nat
    decreases bodies.len(),
{
    if bodies.len() == 0 {
        0
    } else {
        bodies_complex_count(bodies.drop_last()) + body_complex_count(bodies.last())
    }
}

pub open spec fn bodies_shape_count(bodies: Seq<Body>) -> nat
    decreases bodies.len(),
{
    if bodies.len() == 0 {
        0
    } else {
        bodies_shape_count(bodies.drop_last()) + body_shape_count(bodies.last())
    }
}

/// Every count over the program fits in a `usize`.
pub open spec fn counts_fit(p: Program) -> bool {
    &&& bodies_shape_count(p.bodies@) <= usize::MAX
    &&& modules_function_count(p.modules@) <= usize::MAX
}

proof fn lemma_stmt_counts_bounded(stmts: Seq<Stmt>)
    ensures
        loop_count(stmts) <= stmts.len(),
        complex_stmt_count(stmts) <= stmts.len(),
    decreases stmts.len(),
{
    if stmts.len() > 0 {
        lemma_stmt_counts_bounded(stmts.drop_last());
    }
}

proof fn lemma_function_count_bounded(items: Seq<Item>)
    ensures
        function_count(items) <= items.len(),
    decreases items.len(),
{
    if items.len() > 0 {
        lemma_function_count_bounded(items.drop_last());
    }
}

/// Over any prefix of the bodies, each count is at most the shape count of
/// all of them.
proof fn lemma_body_counts_bounded(bodies: Seq<Body>, i: int)
    requires
        0 <= i <= bodies.len(),
    ensures
        bodies_loop_count(bodies.take(i)) <= bodies_shape_count(bodies.take(i)),
        bodies_complex_count(bodies.take(i)) <= bodies_shape_count(bodies.take(i)),
        bodies_shape_count(bodies.take(i)) <= bodies_shape_count(bodies),
    decreases bodies.len() - i,
{
    lemma_body_counts_upto(bodies.take(i));
    if i < bodies.len() {
        lemma_body_counts_bounded(bodies, i + 1);
        assert(bodies.take(i + 1).drop_last() =~= bodies.take(i));
    } else {
        assert(bodies.take(i) =~= bodies);
    }
}

proof fn lemma_body_counts_upto(bodies: Seq<Body>)
    ensures
        bodies_loop_count(bodies) <= bodies_shape_count(bodies),
        bodies_complex_count(bodies) <= bodies_shape_count(bodies),
    decreases bodies.len(),
{
    if bodies.len() > 0 {
        lemma_body_counts_upto(bodies.drop_last());
        lemma_stmt_counts_bounded(bodies.last().stmts@);
    }
}

fn count_functions(items: &Vec<Item>) -> (r: usize)
    ensures
        r == function_count(items@),
{
    let mut n: usize = 0;
    let mut i: usize = 0;
    while i < items.len()
        invariant
            i <= items.len(),
            n == function_count(items@.take(i as int)),
        decreases items.len() - i,
    {
        proof {
            assert(items@.take(i + 1).drop_last() =~= items@.take(i as int));
            lemma_function_count_bounded(items@.take(i as int));
        }
        if matches!(items[i].kind, ItemKind::Function) {
            n = n + 1;
        }
        i = i + 1;
    }
    proof {
        assert(items@.take(i as int) =~= items@);
    }
    n
}

/// The loop statements, complex expressions and expression shapes over all
/// bodies.
fn body_counts(bodies: &Vec<Body>) -> (r: (usize, usize, usize))
    requires
        bodies_shape_count(bodies@) <= usize::MAX,
    ensures
        r.0 == bodies_loop_count(bodies@),
        r.1 == bodies_complex_count(bodies@),
        r.2 == bodies_shape_count(bodies@),
{
    let mut loops: usize = 0;
    let mut complex: usize = 0;
    let mut shapes: usize = 0;
    let mut i: usize = 0;
    while i < bodies.len()
        invariant
            i <= bodies.len(),
            bodies_shape_count(bodies@) <= usize::MAX,
            loops == bodies_loop_count(bodies@.take(i as int)),
            complex == bodies_complex_count(bodies@.take(i as int)),
            shapes == bodies_shape_count(bodies@.take(i as int)),
        decreases bodies.len() - i,
    {
        let b = &bodies[i];
        proof {
            assert(bodies@.take(i + 1).drop_last() =~= bodies@.take(i as int));
            assert(bodies@.take(i + 1).last() == *b);
            lemma_body_counts_bounded(bodies@, i + 1);
            lemma_body_counts_bounded(bodies@, i as int);
        }
        let mut j: usize = 0;
        while j < b.stmts.len()
            invariant
                j <= b.stmts.len(),
                *b == bodies@[i as int],
                i < bodies.len(),
                bodies_loop_count(bodies@.take(i as int)) <= bodies_shape_count(bodies@.take(i as int)),
                bodies_complex_count(bodies@.take(i as int)) <= bodies_shape_count(
                    bodies@.take(i as int),
                ),
                bodies_shape_count(bodies@.take(i as int)) + b.stmts.len() <= usize::MAX,
                loops == bodies_loop_count(bodies@.take(i as int)) + loop_count(b.stmts@.take(j as int)),
                complex == bodies_complex_count(bodies@.take(i as int)) + complex_stmt_count(
                    b.stmts@.take(j as int),
                ),
                shapes == bodies_shape_count(bodies@.take(i as int)) + j,
            decreases b.stmts.len() - j,
        {
            proof {
                assert(b.stmts@.take(j + 1).drop_last() =~= b.stmts@.take(j as int));
                lemma_stmt_counts_bounded(b.stmts@.take(j as int));
            }
            match &b.stmts[j] {
                Stmt::While | Stmt::Loop | Stmt::ForRange | Stmt::ForValues => {
                    loops = loops + 1;
                },
                Stmt::Expr(e) => {
                    if matches!(e.kind, ExprKind::Match | ExprKind::Try | ExprKind::Closure) {
                        complex = complex + 1;
                    }
                },
                Stmt::Other => {},
            }
            shapes = shapes + 1;
            j = j + 1;
        }
        proof {
            assert(b.stmts@.take(j as int) =~= b.stmts@);
            assert(bodies@.take(i + 1).drop_last() =~= bodies@.take(i as int));
            assert(bodies@.take(i + 1).last() == *b);
            lemma_body_counts_bounded(bodies@, i + 1);
        }
        match &b.tail {
            Some(e) => {
                if matches!(e.kind, ExprKind::Match | ExprKind::Try | ExprKind::Closure) {
                    complex = complex + 1;
                }
                shapes = shapes + 1;
            },
            None => {},
        }
        i = i + 1;
    }
    proof {
        assert(bodies@.take(i as int) =~= bodies@);
    }
    (loops, complex, shapes)
}

fn count_module_functions(modules: &Vec<Module>) -> (r: usize)
    requires
        modules_function_count(modules@) <= usize::MAX,
    ensures
        r == modules_function_count(modules@),
{
    let mut n: usize = 0;
    let mut i: usize = 0;
    while i < modules.len()
        invariant
            i <= modules.len(),
            modules_function_count(modules@) <= usize::MAX,
            n == modules_function_count(modules@.take(i as int)),
        decreases modules.len() - i,
    {
        proof {
            assert(modules@.take(i + 1).drop_last() =~= modules@.take(i as int));
            lemma_modules_prefix(modules@, i + 1);
        }
        let c = count_functions(&modules[i].items);
        n = n + c;
        i = i + 1;
    }
    proof {
        assert(modules@.take(i as int) =~= modules@);
    }
    n
}

proof fn lemma_modules_prefix(modules: Seq<Module>, i: int)
    requires
        0 <= i <= modules.len(),
    ensures
        modules_function_count(modules.take(i)) <= modules_function_count(modules),
    decreases modules.len() - i,
{
    if i < modules.len() {
        lemma_modules_prefix(modules, i + 1);
        assert(modules.take(i + 1).drop_last() =~= modules.take(i));
    } else {
        assert(modules.take(i) =~= modules);
    }
}

// ---------------------------------------------------------------------------
// Entry points
// ---------------------------------------------------------------------------
/// The item count the checker's latest CoreHIR program mirrors: that of its
/// first module (0 without one), or the lowered program's own where the
/// checker holds no program.
pub open spec fn mirrored_items(p: Program, checker: Option<Program>) -> nat {
    match checker {
        Some(c) => if c.modules@.len() > 0 {
            c.modules@[0].items@.len()
        } else {
            0
        },
        None => p.modules@[0].items@.len(),
    }
}

/// The snapshot `lower_hir_to_mir` records of a program with at least one
/// module.
pub open spec fn corehir_snapshot_text(p: Program, mirror: nat) -> Seq<char> {
    let first = p.modules@[0];
    "corehir-snapshot items="@ + decimal(first.items@.len()) + " functions="@ + decimal(
        function_count(first.items@),
    ) + " bodies="@ + decimal(p.bodies@.len()) + " cfg_nodes="@ + decimal(
        bodies_loop_count(p.bodies@),
    ) + " complex_exprs="@ + decimal(bodies_complex_count(p.bodies@)) + " mirror_items="@
        + decimal(mirror)
}

/// A module with no functions and no entry, marked as lowered from CoreHIR,
/// whose optimisation trace is `trace`.
pub open spec fn snapshot_module(m: MirModule, trace: Seq<char>) -> bool {
    &&& m.functions@.len() == 0
    &&& m.entry_fn is None
    &&& opt_string_view(m.stats.provenance) == Some(provenance_text(MirProvenance::CoreHir))
    &&& strings_view(m.stats.optimization_trace@) == seq![trace]
}

pub open spec fn opt_program(o: Option<&Program>) -> Option<Program> {
    match o {
        Some(p) => Some(*p),
        None => None,
    }
}

/// Lower a CoreHIR program. No function is materialised yet: the result is
/// an empty module marked as CoreHIR that records a snapshot of the
/// program's shape; a program without modules is refused. `checker_hir` is
/// the program the type checker last produced, if it holds one.
pub fn lower_hir_to_mir(core_hir: &Program, checker_hir: Option<&Program>) -> (r: Result<
    MirModule,
    String,
>)
    requires
        counts_fit(*core_hir),
    ensures
        core_hir.modules@.len() == 0 <==> r is Err,
        match r {
            Err(e) => e@ == "CoreHIR program has no modules"@,
            Ok(m) => snapshot_module(
                m,
                corehir_snapshot_text(*core_hir, mirrored_items(*core_hir, opt_program(checker_hir))),
            ),
        },
{
    if core_hir.modules.len() == 0 {
        return Err("CoreHIR program has no modules".to_owned());
    }
    let module = &core_hir.modules[0];
    let item_count = module.items.len();
    let function_count = count_functions(&module.items);
    let body_count = core_hir.bodies.len();
    let (control_flow_nodes, expr_complexity, _) = body_counts(&core_hir.bodies);
    let mirrored: usize = match checker_hir {
        Some(p) => if p.modules.len() > 0 {
            p.modules[0].items.len()
        } else {
            0
        },
        None => item_count,
    };
    let mut text = concat_str("corehir-snapshot items=", u64_to_decimal(item_count as u64).as_str());
    text.append(" functions=");
    text.append(u64_to_decimal(function_count as u64).as_str());
    text.append(" bodies=");
    text.append(u64_to_decimal(body_count as u64).as_str());
    text.append(" cfg_nodes=");
    text.append(u64_to_decimal(control_flow_nodes as u64).as_str());
    text.append(" complex_exprs=");
    text.append(u64_to_decimal(expr_complexity as u64).as_str());
    text.append(" mirror_items=");
    text.append(u64_to_decimal(mirrored as u64).as_str());
    let mut mir = MirModule::new();
    set_mir_provenance(&mut mir, MirProvenance::CoreHir);
    proof {
        assert(strings_view(mir.stats.optimization_trace@) =~= Seq::<Seq<char>>::empty());
    }
    push_optimization_trace(&mut mir, text.as_str());
    proof {
        assert(strings_view(mir.stats.optimization_trace@) =~= seq![text@]);
    }
    Ok(mir)
}

/// The same lowering as `lower_hir_to_mir`.
pub fn lower_hir_to_mir_placeholder(core_hir: &Program, checker_hir: Option<&Program>) -> (r:
    Result<MirModule, String>)
    requires
        counts_fit(*core_hir),
    ensures
        core_hir.modules@.len() == 0 <==> r is Err,
        match r {
            Err(e) => e@ == "CoreHIR program has no modules"@,
            Ok(m) => snapshot_module(
                m,
                corehir_snapshot_text(*core_hir, mirrored_items(*core_hir, opt_program(checker_hir))),
            ),
        },
{
    lower_hir_to_mir(core_hir, checker_hir)
}

/// The shape of a program as text.
pub open spec fn shape_text(p: Program) -> Seq<char> {
    "modules="@ + decimal(p.modules@.len()) + " functions="@ + decimal(
        modules_function_count(p.modules@),
    ) + " bodies="@ + decimal(p.bodies@.len()) + " first_body="@ + decimal(
        if p.bodies@.len() > 0 {
            p.bodies@[0].id.0 as nat
        } else {
            0
        },
    )
}

/// The numbers of modules, functions over all modules and bodies, and the
/// id of the first body (0 without one).
pub fn program_shape_snapshot(core_hir: &Program) -> (r: String)
    requires
        counts_fit(*core_hir),
    ensures
        r@ == shape_text(*core_hir),
{
    let function_count = count_module_functions(&core_hir.modules);
    let first_body: u32 = if core_hir.bodies.len() > 0 {
        core_hir.bodies[0].id.0
    } else {
        0
    };
    let mut text = concat_str("modules=", u64_to_decimal(core_hir.modules.len() as u64).as_str());
    text.append(" functions=");
    text.append(u64_to_decimal(function_count as u64).as_str());
    text.append(" bodies=");
    text.append(u64_to_decimal(core_hir.bodies.len() as u64).as_str());
    text.append(" first_body=");
    text.append(u64_to_decimal(first_body as u64).as_str());
    text
}

/// The ids of the program's bodies, in order.
pub fn referenced_body_ids(core_hir: &Program) -> (r: Vec<BodyId>)
    ensures
        r@ == core_hir.bodies@.map_values(|b: Body| b.id),
{
    let mut r: Vec<BodyId> = Vec::new();
    let mut i: usize = 0;
    while i < core_hir.bodies.len()
        invariant
            i <= core_hir.bodies.len(),
            r@ == core_hir.bodies@.take(i as int).map_values(|b: Body| b.id),
        decreases core_hir.bodies.len() - i,
    {
        r.push(core_hir.bodies[i].id);
        i = i + 1;
        proof {
            assert(r@ =~= core_hir.bodies@.take(i as int).map_values(|b: Body| b.id));
        }
    }
    proof {
        assert(core_hir.bodies@.take(i as int) =~= core_hir.bodies@);
    }
    r
}

pub open spec fn connected(p: Program) -> bool {
    p.modules@.len() > 0 && p.bodies@.len() > 0
}

/// Whether the program has both a module and a body to lower.
pub fn is_corehir_lowering_connected(core_hir: &Program) -> (r: bool)
    ensures
        r == connected(*core_hir),
{
    core_hir.modules.len() > 0 && core_hir.bodies.len() > 0
}

pub fn lowering_paths_connected(program: &Program) -> (r: bool)
    ensures
        r == connected(*program),
{
    is_corehir_lowering_connected(program)
}

pub fn lowering_paths_ready(program: &Program) -> (r: bool)
    ensures
        r == connected(*program),
{
    lowering_paths_connected(program)
}

/// The expression shapes over all bodies: one per statement and one per tail.
pub fn lower_expr_shape_count(program: &Program) -> (r: usize)
    requires
        counts_fit(*program),
    ensures
        r == bodies_shape_count(program.bodies@),
{
    let (_, _, shapes) = body_counts(&program.bodies);
    shapes
}

pub open spec fn summary_text(p: Program) -> Seq<char> {
    "connected="@ + bool_text(connected(p)) + " expr_shapes="@ + decimal(
        bodies_shape_count(p.bodies@),
    ) + " bodies="@ + decimal(p.bodies@.len()) + " modules="@ + decimal(p.modules@.len())
}

/// Whether the program is connected, its expression shapes, bodies and
/// modules, as text.
pub fn corehir_lowering_summary(program: &Program) -> (r: String)
    requires
        counts_fit(*program),
    ensures
        r@ == summary_text(*program),
{
    let mut text = concat_str("connected=", bool_str(is_corehir_lowering_connected(program)));
    text.append(" expr_shapes=");
    text.append(u64_to_decimal(lower_expr_shape_count(program) as u64).as_str());
    text.append(" bodies=");
    text.append(u64_to_decimal(program.bodies.len() as u64).as_str());
    text.append(" modules=");
    text.append(u64_to_decimal(program.modules.len() as u64).as_str());
    text
}

pub fn lower_corehir_only_summary(program: &Program) -> (r: String)
    requires
        counts_fit(*program),
    ensures
        r@ == summary_text(*program),
{
    corehir_lowering_summary(program)
}

pub fn lower_hir_debug_dump(program: &Program) -> (r: String)
    requires
        counts_fit(*program),
    ensures
        r@ == summary_text(*program),
{
    corehir_lowering_summary(program)
}

/// The program's summary beside the module's snapshot.
pub fn compare_program_and_mir(program: &Program, module: &MirModule) -> (r: String)
    requires
        counts_fit(*program),
    ensures
        r@ == "program="@ + summary_text(*program) + "\nmir="@ + snapshot_text(*module),
{
    let mut text = concat_str("program=", corehir_lowering_summary(program).as_str());
    text.append("\nmir=");
    text.append(module_snapshot(module).as_str());
    text
}

/// `after` is `before` marked with the provenance `p`, all else kept.
pub open spec fn marked(before: MirModule, after: MirModule, p: MirProvenance) -> bool {
    &&& opt_string_view(after.stats.provenance) == Some(provenance_text(p))
    &&& after.stats.optimization_trace == before.stats.optimization_trace
    &&& after.stats.optimization_rounds == before.stats.optimization_rounds
    &&& after.stats.validation_runs == before.stats.validation_runs
    &&& after.functions == before.functions
    &&& after.entry_fn == before.entry_fn
    &&& after.type_table == before.type_table
    &&& after.struct_defs == before.struct_defs
    &&& after.enum_defs == before.enum_defs
    &&& after.imports == before.imports
    &&& after.source_map == before.source_map
    &&& after.stats.instance_keys == before.stats.instance_keys
    &&& after.stats.direct_call_graph == before.stats.direct_call_graph
    &&& after.stats.pass_reductions == before.stats.pass_reductions
}

/// What lowering with a fallback gives: the CoreHIR lowering where it
/// materialises functions, else `legacy` marked as the CoreHIR fallback;
/// then up to 16 rounds of lowering the backend-illegal operands.
pub open spec fn lowered_with_fallback(legacy: MirModule, r: MirModule) -> bool {
    exists|start: MirModule, ms: Seq<MirModule>|
        #![trigger crate::facade::lowered_backend_operands(start, r, 16, ms)]
        marked(legacy, start, MirProvenance::CoreHirFallback)
            && crate::facade::lowered_backend_operands(start, r, 16, ms)
}

/// Lower a CoreHIR program, falling back on `legacy`, the lowering of the
/// same program from its typed AST, where the CoreHIR lowering fails or
/// materialises no function (it materialises none yet, so the fallback is
/// always taken). The result is then freed of backend-illegal operands in
/// up to 16 rounds.
pub fn lower_corehir_with_fallback(
    core_hir: &Program,
    checker_hir: Option<&Program>,
    legacy: MirModule,
) -> (r: Result<MirModule, String>)
    requires
        counts_fit(*core_hir),
    ensures
        r is Ok,
        lowered_with_fallback(legacy, r->Ok_0),
{
    let mut mir = match lower_hir_to_mir(core_hir, checker_hir) {
        Ok(m) => {
            if m.functions.len() > 0 {
                m
            } else {
                let mut l = legacy;
                set_mir_provenance(&mut l, MirProvenance::CoreHirFallback);
                l
            }
        },
        Err(_) => {
            let mut l = legacy;
            set_mir_provenance(&mut l, MirProvenance::CoreHirFallback);
            l
        },
    };
    let ghost start = mir;
    crate::facade::lower_backend_illegal_operands(&mut mir, 16);
    proof {
        let ms = choose|ms: Seq<MirModule>|
            crate::facade::lowered_backend_operands(start, mir, 16, ms);
        assert(crate::facade::lowered_backend_operands(start, mir, 16, ms));
    }
    Ok(mir)
}

/// Lower the output of the type checker: its CoreHIR `program`, with
/// `legacy` as the fallback.
pub fn lower_check_output_to_mir(
    program: &Program,
    checker_hir: Option<&Program>,
    legacy: MirModule,
) -> (r: Result<MirModule, String>)
    requires
        counts_fit(*program),
    ensures
        r is Ok,
        lowered_with_fallback(legacy, r->Ok_0),
{
    lower_corehir_with_fallback(program, checker_hir, legacy)
}

/// Both lowerings of one program: `legacy`, the lowering from its typed AST,
/// marked as such, and the CoreHIR lowering with `legacy` as its fallback.
pub fn lower_legacy_and_corehir(
    core_hir: &Program,
    checker_hir: Option<&Program>,
    legacy: MirModule,
) -> (r: Result<(MirModule, MirModule), String>)
    requires
        counts_fit(*core_hir),
    ensures
        r is Ok,
        crate::deep_copy::same_module_but_provenance(legacy, r->Ok_0.0),
        opt_string_view(r->Ok_0.0.stats.provenance) == Some(provenance_text(MirProvenance::LegacyAst)),
        lowered_with_fallback(legacy, r->Ok_0.1),
{
    let mut first = crate::deep_copy::copy_module(&legacy);
    set_mir_provenance(&mut first, MirProvenance::LegacyAst);
    match lower_corehir_with_fallback(core_hir, checker_hir, legacy) {
        Ok(corehir) => Ok((first, corehir)),
        Err(e) => Err(e),
    }
}

/// Both lowerings of the checker's output: see `lower_legacy_and_corehir`.
pub fn lower_module_from_corehir_bundle(
    program: &Program,
    checker_hir: Option<&Program>,
    legacy: MirModule,
) -> (r: Result<(MirModule, MirModule), String>)
    requires
        counts_fit(*program),
    ensures
        r is Ok,
        crate::deep_copy::same_module_but_provenance(legacy, r->Ok_0.0),
        opt_string_view(r->Ok_0.0.stats.provenance) == Some(provenance_text(MirProvenance::LegacyAst)),
        lowered_with_fallback(legacy, r->Ok_0.1),
{
    lower_legacy_and_corehir(program, checker_hir, legacy)
}

/// Both lowerings of the checker's output.
pub fn lower_dual_paths(
    program: &Program,
    checker_hir: Option<&Program>,
    legacy: MirModule,
) -> (r: Result<(MirModule, MirModule), String>)
    requires
        counts_fit(*program),
    ensures
        r is Ok,
        crate::deep_copy::same_module_but_provenance(legacy, r->Ok_0.0),
        opt_string_view(r->Ok_0.0.stats.provenance) == Some(provenance_text(MirProvenance::LegacyAst)),
        lowered_with_fallback(legacy, r->Ok_0.1),
{
    lower_module_from_corehir_bundle(program, checker_hir, legacy)
}

/// The CoreHIR lowering of the checker's output alone.
pub fn lower_corehir_only(
    program: &Program,
    checker_hir: Option<&Program>,
    legacy: MirModule,
) -> (r: Result<MirModule, String>)
    requires
        counts_fit(*program),
    ensures
        r is Ok,
        lowered_with_fallback(legacy, r->Ok_0),
{
    lower_check_output_to_mir(program, checker_hir, legacy)
}

/// The CoreHIR lowering, preferred over the legacy one.
pub fn lower_prefer_corehir(
    program: &Program,
    checker_hir: Option<&Program>,
    legacy: MirModule,
) -> (r: Result<MirModule, String>)
    requires
        counts_fit(*program),
    ensures
        r is Ok,
        lowered_with_fallback(legacy, r->Ok_0),
{
    lower_corehir_only(program, checker_hir, legacy)
}

} // verus!
