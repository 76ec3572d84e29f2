//! Verified core of a small RISC-V teaching kernel: the block cache of its
//! file system, the trap and timer decisions, the console log format and the
//! boot sequence.
use vstd::prelude::*;

pub mod block_dev;
pub mod block_cache;
pub mod console;
pub mod text;
pub mod boot;
pub mod trap;
pub mod timer;
pub mod syscall;
pub mod task;
pub mod panic_trace;

verus! {

} // verus!
