//! Machine and kernel layout constants.
use vstd::prelude::*;

verus! {

/// Size of a page and of a physical frame, in bytes.
pub const PAGE_SIZE: usize = 4096;

/// Number of syscall ids that per-task counters are kept for.
pub const MAX_SYSCALL_NUM: usize = 500;

/// Size of each task's kernel-mode stack, in bytes.
pub const KERNEL_STACK_SIZE: usize = 8192;

} // verus!
