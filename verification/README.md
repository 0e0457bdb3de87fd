# ark_mir

The mid-level IR of the Arukellt compiler: the MIR data model, its
optimisation and desugaring passes, escape analysis, source-span and
statistics bookkeeping, and the reports that compare two lowerings of the
same program. Every function of the library is verified with Verus against
a contract stated over views of the MIR.

Layout:

- `src/mir.rs`, `src/types.rs`: the MIR types, their views and deep copies
  of the IR trees.
- `src/legality.rs`: which MIR the backend accepts.
- `src/mir_ops.rs`, `src/metadata.rs`, `src/builders.rs`, `src/deep_copy.rs`:
  lookups, ids, provenance, statistics, source spans, finishing and copying
  functions and modules.
- `src/escape.rs`: escape analysis of heap-typed locals.
- `src/opt/`: the passes (constant and copy propagation, folding, CSE, LICM,
  dead code, GC hints, bounds checks, branch hints, loop unrolling, scalar
  replacement, desugaring) and the headroom desugaring needs.
- `src/facade.rs`, `src/dump.rs`: lowering-time desugaring, provenance marks
  and the text reports.
- `src/hir.rs`: the CoreHIR program as the lowering entry points read it,
  and those entry points: the CoreHIR snapshot lowering, the fallback on
  the lowering from the typed AST, and the program summaries.
- `src/ast.rs`, `src/scope.rs`: the helpers of lowering from the typed AST
  that stand here: type expressions (checker types, display names,
  specialised `Result` enums, the expressions of checker types), function
  signatures, operators, the test for void expressions, and the local scope
  with shadowing.
- `src/opt/desugar_out.rs`: what desugaring writes, as spec functions of
  the input and the id counter; the pass's contracts equate its output
  with them.
- `src/text.rs`: the human-readable MIR text, as pieces of literal text and
  atoms (characters, float bits, checker types).
- `app/`: the environment-driven phase dumps and the rendering of the text
  pieces, which holds floating-point constants.

The lowering of the typed AST's expressions, statements, patterns and
function bodies into MIR is not part of this library yet; only the helpers
listed above are. The CoreHIR entry points therefore take the module that
lowering produced as an argument, their fallback, where they would
otherwise run it on the AST themselves.
