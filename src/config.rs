use vstd::prelude::*;

verus! {

/// Number of distinct syscall identifiers counted for each task.
pub const MAX_SYSCALL_NUM: usize = 500;

} // verus!
