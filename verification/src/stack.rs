//! Kernel stacks of processes.
use vstd::prelude::*;
use std::sync::Arc;

verus! {

/// Size in bytes of a kernel stack.
pub const KERNEL_STACK_SIZE: usize = 8192;

/// Number of 16-byte words in a kernel stack.
pub const KERNEL_STACK_WORDS: usize = 512;

/// Address of the first byte of the buffer behind `buf`.
///
/// Calls `Arc::as_ptr`, which gives a valid pointer to the shared value.
/// std's documentation of allocated objects says that an object's base
/// address is not null and that the base plus the object's size never
/// exceeds `usize::MAX`; a valid pointer to a value is aligned for its type.
/// That is all the contract claims: the address itself is the allocator's
/// choice.
#[verifier::external_body]
fn buffer_address(buf: &Arc<[u128; 512]>) -> (addr: usize)
    ensures
        addr != 0,
        addr + KERNEL_STACK_SIZE <= usize::MAX,
        addr as nat % vstd::layout::align_of::<u128>() == 0,
{
    Arc::as_ptr(buf) as usize
}

/// A zeroed kernel stack of `KERNEL_STACK_SIZE` bytes, shared by reference
/// counting. Its base address is taken once, when it is made; the buffer
/// never moves while the stack lives, so the base stays the stack's own.
pub struct KernelStack {
    inner: Arc<[u128; 512]>,
    bottom: usize,
}

impl KernelStack {
    /// The stack's contents, word by word.
    pub closed spec fn words(&self) -> Seq<u128> {
        self.inner@
    }

    /// The address of the stack's lowest byte, fixed when it was made.
    pub closed spec fn bottom(&self) -> nat {
        self.bottom as nat
    }

    /// The base is not null, the stack ends within the address space, and
    /// the base is aligned for the stack's words.
    #[verifier::type_invariant]
    spec fn base_valid(&self) -> bool {
        &&& self.bottom != 0
        &&& self.bottom + KERNEL_STACK_SIZE <= usize::MAX
        &&& self.bottom as nat % vstd::layout::align_of::<u128>() == 0
    }

    /// A new stack, every word zero, with its base address recorded.
    pub fn new() -> (s: Self)
        ensures
            s.bottom() != 0,
            s.bottom() % vstd::layout::align_of::<u128>() == 0,
            s.words() == Seq::new(KERNEL_STACK_WORDS as nat, |i: int| 0u128),
    {
        let inner = Arc::new([0u128; 512]);
        let bottom = buffer_address(&inner);
        let s = KernelStack { inner, bottom };
        assert(s.words() =~= Seq::new(KERNEL_STACK_WORDS as nat, |i: int| 0u128));
        s
    }

    /// The bottom and the top of this stack: its own base address, and the
    /// address `KERNEL_STACK_SIZE` bytes above it. Every call on the same
    /// stack gives the same pair.
    pub fn get_position(&self) -> (pos: (usize, usize))
        ensures
            pos.0 == self.bottom(),
            pos.1 == self.bottom() + KERNEL_STACK_SIZE,
            pos.0 != 0,
            pos.0 as nat % vstd::layout::align_of::<u128>() == 0,
    {
        proof {
            use_type_invariant(self);
        }
        (self.bottom, self.bottom + KERNEL_STACK_SIZE)
    }
}

/// Size in bytes of the user stack given to each new thread.
pub const THREAD_STACK_SIZE: usize = 0x4000;

/// Stack pointer of a new thread when the process's user-stack mark is
/// `usr_stack`: the mark moved down by `THREAD_STACK_SIZE`, which also
/// becomes the process's new mark.
pub fn next_thread_stack(usr_stack: usize) -> (top: usize)
    requires
        usr_stack >= THREAD_STACK_SIZE,
    ensures
        top == usr_stack - THREAD_STACK_SIZE,
        top + THREAD_STACK_SIZE == usr_stack,
{
    usr_stack - THREAD_STACK_SIZE
}

} // verus!
