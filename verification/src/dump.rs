//! Decisions behind the phase dumps: which phases print the full MIR text,
//! and the per-function size line.
use vstd::prelude::*;

use crate::mir::MirFunction;
use crate::mir_ops::{block_stmts, count_stmts};
use crate::strutil::{concat_str, decimal, str_eq, u64_to_decimal};
use vstd::string::StringExecFns;

verus! {

/// Whether a phase prints the full MIR text: always under `all`, and only
/// the phases right before and after optimisation under `optimized-mir`.
pub open spec fn full_dump_wanted(dump: Option<Seq<char>>, label: Seq<char>) -> bool {
    match dump {
        Some(d) => d == "all"@ || (d == "optimized-mir"@ && (label == "pre-opt"@ || label
            == "post-opt"@)),
        None => false,
    }
}

/// Whether the phase `label` prints the full MIR text, given the requested
/// dump setting.
pub fn phase_full_dump(dump: Option<&str>, label: &str) -> (r: bool)
    ensures
        r == full_dump_wanted(
            match dump {
                Some(d) => Some(d@),
                None => None,
            },
            label@,
        ),
{
    match dump {
        Some(d) => str_eq(d, "all") || (str_eq(d, "optimized-mir") && (str_eq(label, "pre-opt")
            || str_eq(label, "post-opt"))),
        None => false,
    }
}

/// `fn <name> — <blocks> blocks, <stmts> stmts`.
pub open spec fn size_line(f: MirFunction) -> Seq<char> {
    "fn "@ + f.name@ + " — "@ + decimal(f.blocks@.len()) + " blocks, "@ + decimal(
        block_stmts(f.blocks@),
    ) + " stmts"@
}

/// The size line of one function, as the phase dump prints it.
pub fn function_size_line(func: &MirFunction) -> (r: String)
    requires
        block_stmts(func.blocks@) <= usize::MAX,
    ensures
        r@ == size_line(*func),
{
    let mut out = concat_str("fn ", func.name.as_str());
    out.append(" — ");
    out.append(u64_to_decimal(func.blocks.len() as u64).as_str());
    out.append(" blocks, ");
    out.append(u64_to_decimal(count_stmts(&func.blocks) as u64).as_str());
    out.append(" stmts");
    out
}

} // verus!
