//! MIR optimisation and desugaring passes.
pub mod summary;
pub mod infer;
pub mod helpers;
pub mod const_prop;
pub mod copy_prop;
pub mod dead_local_elim;
pub mod cfg_simplify;
pub mod branch_fold;
pub mod aggregate_simplify;
pub mod inline_small_leaf;
pub mod const_fold;
pub mod dead_block_elim;
pub mod algebraic_simplify;
pub mod cse;
pub mod licm;
pub mod gc_hint;
pub mod lowering;
pub mod desugar;
pub mod desugar_out;
pub mod headroom;
pub mod escape_spec;
pub mod escape_analysis;
pub mod loop_unroll;
pub mod bounds_check_elim;
pub mod branch_hint;
