//! Verified decision logic of a small teaching kernel: batch and round-robin
//! scheduling, per-process tables, ramdisk addressing, kernel stacks, clock
//! values and the hexadecimal dump used for debugging.
use vstd::prelude::*;

pub mod batch;
pub mod calls;
pub mod clock;
pub mod dispatch;
pub mod hexdump;
pub mod linker;
pub mod ramdisk;
pub mod ready_queue;
pub mod signal;
pub mod stack;
pub mod tables;

verus! {


} // verus!
