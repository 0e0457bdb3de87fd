//! Per-pass counters reported by the optimisation passes.
use vstd::prelude::*;

verus! {

/// How much each optimisation pass changed; a pass sets only its own
/// counter.
#[derive(Debug, Clone, Copy, PartialEq, Eq, Structural)]
pub struct OptimizationSummary {
    pub cfg_simplified: usize,
    pub branch_folded: usize,
    pub aggregate_simplified: usize,
    pub dead_locals_removed: usize,
    pub const_propagated: usize,
    pub inline_small_leaf: usize,
    pub copy_propagated: usize,
    pub const_folded: usize,
    pub dead_blocks_removed: usize,
    pub cse_eliminated: usize,
    pub gc_hinted: usize,
    pub licm_hoisted: usize,
    pub algebraic_simplified: usize,
    pub branch_hinted: usize,
    pub bounds_checks_eliminated: usize,
    pub loops_unrolled: usize,
    pub scalar_replaced: usize,
}

pub open spec fn zero_summary() -> OptimizationSummary {
    OptimizationSummary {
        cfg_simplified: 0,
        branch_folded: 0,
        aggregate_simplified: 0,
        dead_locals_removed: 0,
        const_propagated: 0,
        inline_small_leaf: 0,
        copy_propagated: 0,
        const_folded: 0,
        dead_blocks_removed: 0,
        cse_eliminated: 0,
        gc_hinted: 0,
        licm_hoisted: 0,
        algebraic_simplified: 0,
        branch_hinted: 0,
        bounds_checks_eliminated: 0,
        loops_unrolled: 0,
        scalar_replaced: 0,
    }
}

impl Default for OptimizationSummary {
    /// All counters zero.
    fn default() -> (r: Self)
        ensures
            r == zero_summary(),
    {
        OptimizationSummary {
            cfg_simplified: 0,
            branch_folded: 0,
            aggregate_simplified: 0,
            dead_locals_removed: 0,
            const_propagated: 0,
            inline_small_leaf: 0,
            copy_propagated: 0,
            const_folded: 0,
            dead_blocks_removed: 0,
            cse_eliminated: 0,
            gc_hinted: 0,
            licm_hoisted: 0,
            algebraic_simplified: 0,
            branch_hinted: 0,
            bounds_checks_eliminated: 0,
            loops_unrolled: 0,
            scalar_replaced: 0,
        }
    }
}

} // verus!
