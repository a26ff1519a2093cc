//! `index`: build or refresh the symbol index.
use vstd::prelude::*;

verus! {

/// Whether the whole codebase is indexed: only when `--full` is given. By
/// default, and with `--changed`, only the files git reports as changed are.
pub fn full_index(full: bool, changed: bool) -> (r: bool)
    ensures
        r == full,
{
    full
}

} // verus!
