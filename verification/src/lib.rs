//! Mid-level intermediate representation (MIR) for Arukellt: a CFG-based IR
//! between the typed AST and Wasm code generation, with its analyses and
//! optimisation passes.
pub mod types;
pub mod escape;
pub mod mir;
pub mod mir_ops;
pub mod metadata;
pub mod facade;
pub mod hir;
pub mod ast;
pub mod scope;
pub mod builders;
pub mod dump;
pub mod deep_copy;
pub mod text;
pub mod strutil;
pub mod legality;
pub mod opt;
