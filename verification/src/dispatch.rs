//! What the kernel does after a user task traps: the verdict on the task,
//! and the value, if any, that goes back to it as the system call's result.
use vstd::prelude::*;

verus! {

/// Exit code of a task that made a system call the kernel does not support.
pub const EXIT_UNSUPPORTED_SYSCALL: isize = -2;

/// Exit code of a task that trapped for a reason the kernel does not handle.
pub const EXIT_UNSUPPORTED_TRAP: isize = -3;

/// The system calls whose number changes what happens to the caller.
#[derive(Clone, Copy, Debug, PartialEq, Eq, Structural)]
pub enum SyscallKind {
    /// `exit`.
    Exit,
    /// `sched_yield`.
    SchedYield,
    /// `semaphore_down`, `mutex_lock` or `condvar_wait`: may have to wait.
    BlockingSync,
    /// Any other call.
    Other,
}

/// What the system call handler reported.
#[derive(Clone, Copy, Debug, PartialEq, Eq, Structural)]
pub enum SyscallOutcome {
    /// Handled, with this return value.
    Done(isize),
    /// No handler for this call.
    Unsupported,
}

/// Why a task came back to the kernel.
#[derive(Clone, Copy, Debug, PartialEq, Eq, Structural)]
pub enum Trap {
    /// A system call of this kind, handled with this outcome.
    SysCall(SyscallKind, SyscallOutcome),
    /// The time slice ended.
    Timer,
    /// Anything else.
    Other,
}

/// Result of a system call made by an application of the single-task batch
/// loader.
#[derive(Clone, Copy, Debug, PartialEq, Eq, Structural)]
pub enum BatchSyscall {
    /// Handled; the application goes on.
    Done,
    /// The application exits with this code.
    Exit(usize),
    /// The call with this number is not supported.
    Error(usize),
}

/// Outcome of a system call for the multiprogrammed batch loop.
#[derive(Clone, Copy, Debug, PartialEq, Eq, Structural)]
pub enum SchedulingEvent {
    /// Handled; the application goes on at once.
    Resume,
    /// The application gave up the processor.
    Yield,
    /// The application exits with this code.
    Exit(usize),
    /// The call with this number is not supported.
    UnsupportedSyscall(usize),
}

/// What happens to the process at the head of the ready queue.
#[derive(Clone, Copy, Debug, PartialEq, Eq, Structural)]
pub enum QueueAction {
    /// It leaves the queue.
    Remove,
    /// It moves to the back of the queue.
    Rotate,
    /// It stays at the head.
    Stay,
}

/// What happens to the current task of a process manager.
#[derive(Clone, Copy, Debug, PartialEq, Eq, Structural)]
pub enum TaskAction {
    /// It exits with this code.
    Exit(isize),
    /// It goes back to the ready queue.
    Suspend,
    /// It waits until woken up.
    Block,
}

/// A verdict with the value, if any, to hand back to the task as the result
/// of its system call, in its return register.
#[derive(Debug, PartialEq, Eq, Structural)]
pub struct Decision<A> {
    pub action: A,
    pub reply: Option<isize>,
}

/// Result of a system call under the single-task batch loader.
pub open spec fn spec_batch_syscall(kind: SyscallKind, outcome: SyscallOutcome, id: usize, arg0: usize) -> BatchSyscall {
    match outcome {
        SyscallOutcome::Done(_) => if kind == SyscallKind::Exit {
            BatchSyscall::Exit(arg0)
        } else {
            BatchSyscall::Done
        },
        SyscallOutcome::Unsupported => BatchSyscall::Error(id),
    }
}

/// Classifies a system call (number `id`, first argument `arg0`) for the
/// single-task batch loader: a handled `exit` ends the application with
/// `arg0`, any other handled call goes on, and an unsupported one is an error.
pub fn batch_syscall(kind: SyscallKind, outcome: SyscallOutcome, id: usize, arg0: usize) -> (r: BatchSyscall)
    ensures
        r == spec_batch_syscall(kind, outcome, id, arg0),
{
    match outcome {
        SyscallOutcome::Done(_) => if kind == SyscallKind::Exit {
            BatchSyscall::Exit(arg0)
        } else {
            BatchSyscall::Done
        },
        SyscallOutcome::Unsupported => BatchSyscall::Error(id),
    }
}

/// Scheduling event of a system call in the multiprogrammed batch loop.
pub open spec fn spec_task_syscall_event(kind: SyscallKind, outcome: SyscallOutcome, id: usize, arg0: usize) -> Decision<SchedulingEvent> {
    match outcome {
        SyscallOutcome::Done(ret) => match kind {
            SyscallKind::Exit => Decision { action: SchedulingEvent::Exit(arg0), reply: None },
            SyscallKind::SchedYield => Decision { action: SchedulingEvent::Yield, reply: Some(ret) },
            _ => Decision { action: SchedulingEvent::Resume, reply: Some(ret) },
        },
        SyscallOutcome::Unsupported => Decision { action: SchedulingEvent::UnsupportedSyscall(id), reply: None },
    }
}

/// The event of a system call (number `id`, first argument `arg0`) in the
/// multiprogrammed batch loop: a handled `exit` exits with `arg0` and gets
/// no reply; a handled `sched_yield` yields and any other handled call goes
/// on, both with the handler's value as reply; an unsupported call gets no
/// reply.
pub fn task_syscall_event(kind: SyscallKind, outcome: SyscallOutcome, id: usize, arg0: usize) -> (d: Decision<SchedulingEvent>)
    ensures
        d == spec_task_syscall_event(kind, outcome, id, arg0),
{
    match outcome {
        SyscallOutcome::Done(ret) => match kind {
            SyscallKind::Exit => Decision { action: SchedulingEvent::Exit(arg0), reply: None },
            SyscallKind::SchedYield => Decision { action: SchedulingEvent::Yield, reply: Some(ret) },
            _ => Decision { action: SchedulingEvent::Resume, reply: Some(ret) },
        },
        SyscallOutcome::Unsupported => Decision { action: SchedulingEvent::UnsupportedSyscall(id), reply: None },
    }
}

/// Fate of the head of the ready queue after it trapped.
pub open spec fn spec_queue_action(trap: Trap) -> Decision<QueueAction> {
    match trap {
        Trap::SysCall(kind, SyscallOutcome::Done(ret)) => match kind {
            SyscallKind::Exit => Decision { action: QueueAction::Remove, reply: None },
            SyscallKind::SchedYield => Decision { action: QueueAction::Rotate, reply: Some(ret) },
            _ => Decision { action: QueueAction::Stay, reply: Some(ret) },
        },
        Trap::SysCall(_, SyscallOutcome::Unsupported) => Decision { action: QueueAction::Remove, reply: None },
        Trap::Timer => Decision { action: QueueAction::Rotate, reply: None },
        Trap::Other => Decision { action: QueueAction::Remove, reply: None },
    }
}

/// Decides the fate of the process at the head of the ready queue: `exit`,
/// an unsupported call or an unhandled trap removes it; `sched_yield` and a
/// time-out send it to the back; any other handled call keeps it at the
/// head. Handled calls other than `exit` get the handler's value as reply.
pub fn queue_action(trap: Trap) -> (d: Decision<QueueAction>)
    ensures
        d == spec_queue_action(trap),
{
    match trap {
        Trap::SysCall(kind, SyscallOutcome::Done(ret)) => match kind {
            SyscallKind::Exit => Decision { action: QueueAction::Remove, reply: None },
            SyscallKind::SchedYield => Decision { action: QueueAction::Rotate, reply: Some(ret) },
            _ => Decision { action: QueueAction::Stay, reply: Some(ret) },
        },
        Trap::SysCall(_, SyscallOutcome::Unsupported) => Decision { action: QueueAction::Remove, reply: None },
        Trap::Timer => Decision { action: QueueAction::Rotate, reply: None },
        Trap::Other => Decision { action: QueueAction::Remove, reply: None },
    }
}

/// Fate of the current process under a process manager.
pub open spec fn spec_process_action(trap: Trap) -> Decision<TaskAction> {
    match trap {
        Trap::SysCall(kind, SyscallOutcome::Done(ret)) => if kind == SyscallKind::Exit {
            Decision { action: TaskAction::Exit(ret), reply: None }
        } else {
            Decision { action: TaskAction::Suspend, reply: Some(ret) }
        },
        Trap::SysCall(_, SyscallOutcome::Unsupported) => Decision { action: TaskAction::Exit(EXIT_UNSUPPORTED_SYSCALL), reply: None },
        Trap::Timer => Decision { action: TaskAction::Suspend, reply: None },
        Trap::Other => Decision { action: TaskAction::Exit(EXIT_UNSUPPORTED_TRAP), reply: None },
    }
}

/// Decides the fate of the current process: `exit` ends it with the
/// handler's value; any other handled call suspends it with that value as
/// reply; an unsupported call ends it with `-2`; a time-out suspends it; any
/// other trap ends it with `-3`.
pub fn process_action(trap: Trap) -> (d: Decision<TaskAction>)
    ensures
        d == spec_process_action(trap),
{
    match trap {
        Trap::SysCall(kind, SyscallOutcome::Done(ret)) => if kind == SyscallKind::Exit {
            Decision { action: TaskAction::Exit(ret), reply: None }
        } else {
            Decision { action: TaskAction::Suspend, reply: Some(ret) }
        },
        Trap::SysCall(_, SyscallOutcome::Unsupported) => Decision { action: TaskAction::Exit(EXIT_UNSUPPORTED_SYSCALL), reply: None },
        Trap::Timer => Decision { action: TaskAction::Suspend, reply: None },
        Trap::Other => Decision { action: TaskAction::Exit(EXIT_UNSUPPORTED_TRAP), reply: None },
    }
}

/// Fate of the current thread, where `killed` is the exit code when the
/// signals handled after a system call killed the process.
pub open spec fn spec_thread_action(trap: Trap, killed: Option<isize>) -> Decision<TaskAction> {
    match trap {
        Trap::SysCall(kind, outcome) => match killed {
            Some(code) => Decision { action: TaskAction::Exit(code), reply: None },
            None => match outcome {
                SyscallOutcome::Done(ret) => match kind {
                    SyscallKind::Exit => Decision { action: TaskAction::Exit(ret), reply: None },
                    SyscallKind::BlockingSync => if ret == -1 {
                        Decision { action: TaskAction::Block, reply: None }
                    } else {
                        Decision { action: TaskAction::Suspend, reply: None }
                    },
                    _ => Decision { action: TaskAction::Suspend, reply: Some(ret) },
                },
                SyscallOutcome::Unsupported => Decision { action: TaskAction::Exit(EXIT_UNSUPPORTED_SYSCALL), reply: None },
            },
        },
        Trap::Timer => Decision { action: TaskAction::Suspend, reply: None },
        Trap::Other => Decision { action: TaskAction::Exit(EXIT_UNSUPPORTED_TRAP), reply: None },
    }
}

/// Decides the fate of the current thread: after a system call, a signal
/// that killed the process ends it with the signal's code; otherwise `exit`
/// ends it with the handler's value, a blocking synchronisation call that
/// returned `-1` blocks it and one that did not suspends it (no reply),
/// any other handled call suspends it with the handler's value as reply, and
/// an unsupported call ends it with `-2`. A time-out suspends it; any other
/// trap ends it with `-3`.
pub fn thread_action(trap: Trap, killed: Option<isize>) -> (d: Decision<TaskAction>)
    ensures
        d == spec_thread_action(trap, killed),
{
    match trap {
        Trap::SysCall(kind, outcome) => match killed {
            Some(code) => Decision { action: TaskAction::Exit(code), reply: None },
            None => match outcome {
                SyscallOutcome::Done(ret) => match kind {
                    SyscallKind::Exit => Decision { action: TaskAction::Exit(ret), reply: None },
                    SyscallKind::BlockingSync => if ret == -1 {
                        Decision { action: TaskAction::Block, reply: None }
                    } else {
                        Decision { action: TaskAction::Suspend, reply: None }
                    },
                    _ => Decision { action: TaskAction::Suspend, reply: Some(ret) },
                },
                SyscallOutcome::Unsupported => Decision { action: TaskAction::Exit(EXIT_UNSUPPORTED_SYSCALL), reply: None },
            },
        },
        Trap::Timer => Decision { action: TaskAction::Suspend, reply: None },
        Trap::Other => Decision { action: TaskAction::Exit(EXIT_UNSUPPORTED_TRAP), reply: None },
    }
}

/// A batch application that exits ends with the code it passed in its first
/// argument, whatever the call returned; an unsupported call is reported
/// with its number; every other handled call goes on, whatever it returned.
pub proof fn lemma_batch_syscall_meaning(kind: SyscallKind, ret: isize, id: usize, arg0: usize)
    ensures
        spec_batch_syscall(SyscallKind::Exit, SyscallOutcome::Done(ret), id, arg0)
            == BatchSyscall::Exit(arg0),
        kind != SyscallKind::Exit ==> spec_batch_syscall(kind, SyscallOutcome::Done(ret), id, arg0)
            == BatchSyscall::Done,
        spec_batch_syscall(kind, SyscallOutcome::Unsupported, id, arg0) == BatchSyscall::Error(id),
{
}

/// Under the multiprogrammed batch loop, every handled call other than
/// `exit` hands its return value back unchanged, negative values included;
/// `exit` ends the application with its first argument and gets no reply;
/// the application yields exactly on a handled `sched_yield`, and goes on at
/// once exactly on any other handled call that is not `exit`.
pub proof fn lemma_task_syscall_meaning(kind: SyscallKind, outcome: SyscallOutcome, ret: isize, id: usize, arg0: usize)
    ensures
        kind != SyscallKind::Exit ==> spec_task_syscall_event(kind, SyscallOutcome::Done(ret), id, arg0).reply
            == Some(ret),
        spec_task_syscall_event(SyscallKind::Exit, SyscallOutcome::Done(ret), id, arg0)
            == (Decision { action: SchedulingEvent::Exit(arg0), reply: None::<isize> }),
        spec_task_syscall_event(kind, SyscallOutcome::Unsupported, id, arg0)
            == (Decision { action: SchedulingEvent::UnsupportedSyscall(id), reply: None::<isize> }),
        (spec_task_syscall_event(kind, outcome, id, arg0).action == SchedulingEvent::Yield) <==> (
        kind == SyscallKind::SchedYield && outcome is Done),
        (spec_task_syscall_event(kind, outcome, id, arg0).action == SchedulingEvent::Resume) <==> (
        kind != SyscallKind::SchedYield && kind != SyscallKind::Exit && outcome is Done),
        spec_task_syscall_event(kind, outcome, id, arg0).reply matches Some(r) ==> outcome
            == SyscallOutcome::Done(r),
{
}

/// In the ready queue, the head leaves exactly when it exited, made an
/// unsupported call or trapped for a reason the kernel does not handle; it
/// goes to the back exactly on `sched_yield` or a time-out; and any other
/// handled call, whatever it returned (negative values included), keeps it
/// at the head with that value as reply. A reply is always the handler's
/// own return value.
pub proof fn lemma_queue_action_meaning(trap: Trap, kind: SyscallKind, ret: isize)
    ensures
        kind != SyscallKind::Exit && kind != SyscallKind::SchedYield ==> spec_queue_action(
            Trap::SysCall(kind, SyscallOutcome::Done(ret)),
        ) == (Decision { action: QueueAction::Stay, reply: Some(ret) }),
        (spec_queue_action(trap).action == QueueAction::Remove) <==> (trap == Trap::Other
            || trap matches Trap::SysCall(SyscallKind::Exit, SyscallOutcome::Done(_))
            || trap matches Trap::SysCall(_, SyscallOutcome::Unsupported)),
        (spec_queue_action(trap).action == QueueAction::Rotate) <==> (trap == Trap::Timer
            || trap matches Trap::SysCall(SyscallKind::SchedYield, SyscallOutcome::Done(_))),
        spec_queue_action(trap).reply matches Some(r) ==> trap matches Trap::SysCall(
            _,
            SyscallOutcome::Done(r2),
        ) && r == r2,
{
}

/// Under the process manager a process ends only by `exit` (with the call's
/// value), an unsupported call (`-2`) or an unhandled trap (`-3`); any other
/// handled call, whatever it returned (negative values included), suspends
/// it with that value as reply; a time-out suspends it without one.
pub proof fn lemma_process_action_meaning(trap: Trap, kind: SyscallKind, ret: isize)
    ensures
        kind != SyscallKind::Exit ==> spec_process_action(
            Trap::SysCall(kind, SyscallOutcome::Done(ret)),
        ) == (Decision { action: TaskAction::Suspend, reply: Some(ret) }),
        spec_process_action(Trap::SysCall(SyscallKind::Exit, SyscallOutcome::Done(ret)))
            == (Decision { action: TaskAction::Exit(ret), reply: None::<isize> }),
        spec_process_action(trap).action is Exit <==> (trap == Trap::Other
            || trap matches Trap::SysCall(SyscallKind::Exit, SyscallOutcome::Done(_))
            || trap matches Trap::SysCall(_, SyscallOutcome::Unsupported)),
        spec_process_action(trap).action != TaskAction::Block,
        spec_process_action(trap).reply matches Some(r) ==> trap matches Trap::SysCall(
            _,
            SyscallOutcome::Done(r2),
        ) && r == r2,
{
}

/// Under the thread manager, after a system call a signal that killed the
/// process ends the thread with the signal's code, whatever the call was.
/// Without one: `exit` ends it with the call's value; a blocking
/// synchronisation call blocks it exactly when it returned `-1` and gets no
/// reply; any other handled call, whatever it returned (negative values
/// included), suspends it with that value as reply. A time-out suspends it,
/// signal or not.
pub proof fn lemma_thread_action_meaning(trap: Trap, kind: SyscallKind, outcome: SyscallOutcome, ret: isize, code: isize)
    ensures
        spec_thread_action(Trap::SysCall(kind, outcome), Some(code)) == (Decision {
            action: TaskAction::Exit(code),
            reply: None::<isize>,
        }),
        kind != SyscallKind::Exit && kind != SyscallKind::BlockingSync ==> spec_thread_action(
            Trap::SysCall(kind, SyscallOutcome::Done(ret)),
            None,
        ) == (Decision { action: TaskAction::Suspend, reply: Some(ret) }),
        spec_thread_action(Trap::SysCall(SyscallKind::Exit, SyscallOutcome::Done(ret)), None)
            == (Decision { action: TaskAction::Exit(ret), reply: None::<isize> }),
        spec_thread_action(Trap::SysCall(SyscallKind::BlockingSync, SyscallOutcome::Done(ret)), None).reply
            is None,
        (spec_thread_action(Trap::SysCall(SyscallKind::BlockingSync, SyscallOutcome::Done(ret)), None).action
            == TaskAction::Block) <==> ret == -1,
        spec_thread_action(Trap::Timer, Some(code)) == (Decision {
            action: TaskAction::Suspend,
            reply: None::<isize>,
        }),
        spec_thread_action(trap, None).action == TaskAction::Block ==> trap matches Trap::SysCall(
            SyscallKind::BlockingSync,
            SyscallOutcome::Done(-1),
        ),
{
}

/// A task only gets a reply when it goes on running or waiting to run:
/// no decision both ends or removes a task and hands it a value.
pub proof fn lemma_reply_only_to_survivors(trap: Trap, killed: Option<isize>)
    ensures
        spec_queue_action(trap).reply is Some ==> spec_queue_action(trap).action != QueueAction::Remove,
        spec_process_action(trap).reply is Some ==> spec_process_action(trap).action == TaskAction::Suspend,
        spec_thread_action(trap, killed).reply is Some ==> spec_thread_action(trap, killed).action == TaskAction::Suspend,
{
}

/// Without a signal that kills the process, the thread manager treats every
/// trap as the process manager does, except blocking synchronisation calls,
/// which get no reply and block when they return `-1`.
pub proof fn lemma_thread_refines_process(trap: Trap)
    requires
        !(trap matches Trap::SysCall(SyscallKind::BlockingSync, SyscallOutcome::Done(_))),
    ensures
        spec_thread_action(trap, None) == spec_process_action(trap),
{
}

/// Kind of trap seen by the interrupt handler of the single-task loader.
#[derive(Clone, Copy, Debug, PartialEq, Eq, Structural)]
pub enum TrapKind {
    /// Timer interrupt.
    Timer,
    /// System call.
    SysCall,
    /// Load, store or instruction page fault at this address.
    PageFault(usize),
    /// Illegal instruction.
    IllegalInstruction,
    /// Anything else: the kernel stops.
    Other,
}

/// Whether a trap makes the single-task loader end the running application:
/// page faults and illegal instructions do, timer interrupts and system calls
/// do not. Any other trap stops the kernel, so it is not an input here.
pub fn interrupt_ends_app(kind: TrapKind) -> (end: bool)
    requires
        kind != TrapKind::Other,
    ensures
        end <==> (kind is PageFault || kind == TrapKind::IllegalInstruction),
{
    match kind {
        TrapKind::Timer | TrapKind::SysCall => false,
        TrapKind::PageFault(_) | TrapKind::IllegalInstruction => true,
        TrapKind::Other => false,
    }
}

} // verus!
