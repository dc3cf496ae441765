//! Replies of the process system calls `exec`, `wait` and `waittid`.
use vstd::prelude::*;

verus! {

/// The ELF magic number.
pub open spec fn elf_magic() -> Seq<u8> {
    seq![0x7fu8, 0x45, 0x4c, 0x46]
}

/// Whether xmas-elf's `ElfFile::new` accepts `data`: at least the 16-byte
/// identification, starting with the ELF magic number, and then the whole
/// second header part for its class: 36 more bytes for class 1 (32-bit),
/// 48 more for class 2 (64-bit); any other class is refused.
pub open spec fn elf_accepted(data: Seq<u8>) -> bool {
    &&& data.len() >= 16
    &&& data.subrange(0, 4) == elf_magic()
    &&& ((data[4] == 1 && data.len() >= 52) || (data[4] == 2 && data.len() >= 64))
}

/// Whether `data` holds an ELF header that xmas-elf accepts.
pub fn elf_header_accepted(data: &[u8]) -> (ok: bool)
    ensures
        ok == elf_accepted(data@),
{
    if data.len() < 16 {
        return false;
    }
    if !(data[0] == 0x7f && data[1] == 0x45 && data[2] == 0x4c && data[3] == 0x46) {
        assert(data@.subrange(0, 4)[0] == data@[0]);
        assert(data@.subrange(0, 4)[1] == data@[1]);
        assert(data@.subrange(0, 4)[2] == data@[2]);
        assert(data@.subrange(0, 4)[3] == data@[3]);
        return false;
    }
    assert(data@.subrange(0, 4) =~= elf_magic());
    (data[4] == 1 && data.len() >= 52) || (data[4] == 2 && data.len() >= 64)
}

/// `exec`'s reply once the program name was looked up: `0` when a program
/// `image` was found and it is an ELF file xmas-elf accepts, `-1` otherwise
/// (the kernel then lists the programs it has).
pub fn exec_reply(image: Option<&[u8]>) -> (r: isize)
    ensures
        r == (match image {
            Some(d) => if elf_accepted(d@) {
                0isize
            } else {
                -1isize
            },
            None => -1isize,
        }),
{
    match image {
        Some(data) => if elf_header_accepted(data) {
            0
        } else {
            -1
        },
        None => -1,
    }
}

/// Replies of `fork`: `0` for the child, the child's id for the parent.
pub fn fork_replies(child_pid: usize) -> (r: (isize, isize))
    ensures
        r.0 == 0,
        r.1 == child_pid as isize,
{
    (0, child_pid as isize)
}

/// Reply of `semaphore_down`, `mutex_lock` and `condvar_wait`: `0` when the
/// caller got the resource, `-1` when it has to wait.
pub fn acquire_reply(acquired: bool) -> (r: isize)
    ensures
        r == (if acquired {
            0isize
        } else {
            -1isize
        }),
{
    if acquired {
        0
    } else {
        -1
    }
}

/// What `wait` does with the process manager's answer: for an exited child
/// `(pid, exit_code)`, the exit code to store for the caller and the child's
/// id as the reply; without one, nothing to store and `-1`.
pub fn wait_reply(found: Option<(usize, isize)>) -> (r: (isize, Option<isize>))
    ensures
        r == (match found {
            Some((pid, code)) => (pid as isize, Some(code)),
            None => (-1isize, None::<isize>),
        }),
{
    match found {
        Some((pid, code)) => (pid as isize, Some(code)),
        None => (-1, None),
    }
}

/// Next step of `waittid`.
#[derive(Clone, Copy, Debug, PartialEq, Eq, Structural)]
pub enum WaitStep {
    /// Return this value to the caller.
    Reply(isize),
    /// Ask the thread manager for the thread's exit code.
    Ask,
}

/// First step of `waittid(tid)` by thread `current_tid`: a thread may not
/// wait for itself.
pub fn waittid_begin(tid: usize, current_tid: usize) -> (s: WaitStep)
    ensures
        s == (if tid == current_tid {
            WaitStep::Reply(-1isize)
        } else {
            WaitStep::Ask
        }),
{
    if tid == current_tid {
        WaitStep::Reply(-1isize)
    } else {
        WaitStep::Ask
    }
}

/// Reply of `waittid` once the thread manager answered: the thread's exit
/// code, or `-1` when it has none to give.
pub fn waittid_finish(exit_code: Option<isize>) -> (r: isize)
    ensures
        r == (match exit_code {
            Some(c) => c,
            None => -1isize,
        }),
{
    match exit_code {
        Some(c) => c,
        None => -1,
    }
}

} // verus!
