use rcore_kernel::batch::{
    app_image_page, user_stack_page, user_stack_top, verdict, BatchScheduler, Escape, Verdict,
    APP_CAPACITY, USER_STACK_BASE,
};
use rcore_kernel::dispatch::{
    batch_syscall, interrupt_ends_app, process_action, queue_action, task_syscall_event,
    thread_action, BatchSyscall, Decision, QueueAction, SchedulingEvent, SyscallKind,
    SyscallOutcome, TaskAction, Trap, TrapKind,
};
use rcore_kernel::ready_queue::ProcessQueue;

#[test]
fn user_stack_layout() {
    assert_eq!(user_stack_page(0, 0), 0x1_8000_0000);
    assert_eq!(user_stack_page(2, 3), 0x1_8000_0000 + 2 * 0x5000 + 3 * 0x1000);
    assert_eq!(user_stack_top(0), 0x1_8000_5000);
    assert_eq!(user_stack_top(1), 0x1_8000_a000);
    assert_eq!(USER_STACK_BASE, 0x1_8000_0000);
    assert_eq!(APP_CAPACITY, 32);
    assert_eq!(app_image_page(0x8040_0000, 0x1f), 0x8040_0000 + 0x1f * 0x1000);
}

#[test]
fn stack_slots_do_not_overlap() {
    // The last page of app 0 ends where the first page of app 1 begins.
    assert_eq!(user_stack_page(0, 4) + 0x1000, user_stack_page(1, 0));
    assert_eq!(user_stack_top(0), user_stack_page(1, 0));
    for a in 0..APP_CAPACITY as u64 {
        for p in 0..5 {
            let addr = user_stack_page(a, p);
            assert!(addr + 0x1000 <= user_stack_top(a));
            assert!(addr >= user_stack_top(a) - 0x5000);
        }
    }
}

#[test]
fn verdicts() {
    assert_eq!(verdict(Escape::Timer), Verdict::Continue);
    assert_eq!(verdict(Escape::NoReason), Verdict::Continue);
    assert_eq!(verdict(Escape::Exception), Verdict::Finish);
    assert_eq!(verdict(Escape::Interrupt), Verdict::Finish);
    assert_eq!(verdict(Escape::SysCall(SchedulingEvent::Resume)), Verdict::Rerun);
    assert_eq!(verdict(Escape::SysCall(SchedulingEvent::Yield)), Verdict::Continue);
    assert_eq!(verdict(Escape::SysCall(SchedulingEvent::Exit(3))), Verdict::Finish);
    assert_eq!(
        verdict(Escape::SysCall(SchedulingEvent::UnsupportedSyscall(999))),
        Verdict::Finish
    );
}

#[test]
fn batch_round_robin_runs_until_all_finish() {
    let mut s = BatchScheduler::new(3);
    assert_eq!(s.remain(), 3);
    assert_eq!(s.next_task(), Some(0));
    s.report(Verdict::Continue);
    assert_eq!(s.next_task(), Some(1));
    s.report(Verdict::Finish);
    assert_eq!(s.remain(), 2);
    assert_eq!(s.next_task(), Some(2));
    s.report(Verdict::Rerun);
    assert_eq!(s.next_task(), Some(2));
    s.report(Verdict::Continue);
    // Wraps round to task 0; task 1 is finished and skipped afterwards.
    assert_eq!(s.next_task(), Some(0));
    s.report(Verdict::Finish);
    assert_eq!(s.next_task(), Some(2));
    s.report(Verdict::Finish);
    assert_eq!(s.remain(), 0);
    assert_eq!(s.next_task(), None);
}

#[test]
fn batch_with_no_application() {
    let mut s = BatchScheduler::new(0);
    assert_eq!(s.remain(), 0);
    assert_eq!(s.next_task(), None);
}

#[test]
fn batch_syscall_classification() {
    assert_eq!(
        batch_syscall(SyscallKind::Exit, SyscallOutcome::Done(0), 93, 7),
        BatchSyscall::Exit(7)
    );
    assert_eq!(
        batch_syscall(SyscallKind::Other, SyscallOutcome::Done(5), 64, 1),
        BatchSyscall::Done
    );
    assert_eq!(
        batch_syscall(SyscallKind::Other, SyscallOutcome::Unsupported, 400, 1),
        BatchSyscall::Error(400)
    );
}

#[test]
fn task_syscall_events() {
    assert_eq!(
        task_syscall_event(SyscallKind::Exit, SyscallOutcome::Done(0), 93, 42),
        Decision { action: SchedulingEvent::Exit(42), reply: None }
    );
    assert_eq!(
        task_syscall_event(SyscallKind::SchedYield, SyscallOutcome::Done(0), 124, 0),
        Decision { action: SchedulingEvent::Yield, reply: Some(0) }
    );
    assert_eq!(
        task_syscall_event(SyscallKind::Other, SyscallOutcome::Done(12), 64, 1),
        Decision { action: SchedulingEvent::Resume, reply: Some(12) }
    );
    assert_eq!(
        task_syscall_event(SyscallKind::Other, SyscallOutcome::Unsupported, 77, 1),
        Decision { action: SchedulingEvent::UnsupportedSyscall(77), reply: None }
    );
}

#[test]
fn queue_actions() {
    assert_eq!(
        queue_action(Trap::SysCall(SyscallKind::Exit, SyscallOutcome::Done(0))),
        Decision { action: QueueAction::Remove, reply: None }
    );
    assert_eq!(
        queue_action(Trap::SysCall(SyscallKind::SchedYield, SyscallOutcome::Done(0))),
        Decision { action: QueueAction::Rotate, reply: Some(0) }
    );
    assert_eq!(
        queue_action(Trap::SysCall(SyscallKind::Other, SyscallOutcome::Done(9))),
        Decision { action: QueueAction::Stay, reply: Some(9) }
    );
    assert_eq!(
        queue_action(Trap::SysCall(SyscallKind::Other, SyscallOutcome::Unsupported)),
        Decision { action: QueueAction::Remove, reply: None }
    );
    assert_eq!(queue_action(Trap::Timer), Decision { action: QueueAction::Rotate, reply: None });
    assert_eq!(queue_action(Trap::Other), Decision { action: QueueAction::Remove, reply: None });
}

#[test]
fn ready_queue_round_robin() {
    let mut q: ProcessQueue<u32> = ProcessQueue::new();
    assert!(q.is_empty());
    q.push(10);
    q.push(20);
    q.push(30);
    assert_eq!(q.len(), 3);
    assert_eq!(*q.head(), 10);
    assert_eq!(q.apply(QueueAction::Stay), None);
    assert_eq!(*q.head(), 10);
    assert_eq!(q.apply(QueueAction::Rotate), None);
    assert_eq!(*q.head(), 20);
    assert_eq!(q.apply(QueueAction::Rotate), None);
    assert_eq!(*q.head(), 30);
    assert_eq!(q.apply(QueueAction::Rotate), None);
    // Three rotations bring the queue back.
    assert_eq!(*q.head(), 10);
    assert_eq!(q.apply(QueueAction::Remove), Some(10));
    assert_eq!(q.len(), 2);
    assert_eq!(*q.head(), 20);
}

#[test]
fn process_actions() {
    assert_eq!(
        process_action(Trap::SysCall(SyscallKind::Exit, SyscallOutcome::Done(5))),
        Decision { action: TaskAction::Exit(5), reply: None }
    );
    assert_eq!(
        process_action(Trap::SysCall(SyscallKind::Other, SyscallOutcome::Done(8))),
        Decision { action: TaskAction::Suspend, reply: Some(8) }
    );
    assert_eq!(
        process_action(Trap::SysCall(SyscallKind::Other, SyscallOutcome::Unsupported)),
        Decision { action: TaskAction::Exit(-2), reply: None }
    );
    assert_eq!(process_action(Trap::Timer), Decision { action: TaskAction::Suspend, reply: None });
    assert_eq!(process_action(Trap::Other), Decision { action: TaskAction::Exit(-3), reply: None });
}

#[test]
fn thread_actions() {
    let killed = thread_action(Trap::SysCall(SyscallKind::Other, SyscallOutcome::Done(1)), Some(9));
    assert_eq!(killed, Decision { action: TaskAction::Exit(9), reply: None });
    assert_eq!(
        thread_action(Trap::SysCall(SyscallKind::BlockingSync, SyscallOutcome::Done(-1)), None),
        Decision { action: TaskAction::Block, reply: None }
    );
    assert_eq!(
        thread_action(Trap::SysCall(SyscallKind::BlockingSync, SyscallOutcome::Done(0)), None),
        Decision { action: TaskAction::Suspend, reply: None }
    );
    assert_eq!(
        thread_action(Trap::SysCall(SyscallKind::Exit, SyscallOutcome::Done(4)), None),
        Decision { action: TaskAction::Exit(4), reply: None }
    );
    assert_eq!(
        thread_action(Trap::SysCall(SyscallKind::Other, SyscallOutcome::Done(6)), None),
        Decision { action: TaskAction::Suspend, reply: Some(6) }
    );
    assert_eq!(
        thread_action(Trap::SysCall(SyscallKind::Other, SyscallOutcome::Unsupported), None),
        Decision { action: TaskAction::Exit(-2), reply: None }
    );
    // A signal only matters after a system call.
    assert_eq!(thread_action(Trap::Timer, Some(9)), Decision { action: TaskAction::Suspend, reply: None });
    assert_eq!(thread_action(Trap::Other, None), Decision { action: TaskAction::Exit(-3), reply: None });
}

#[test]
fn interrupt_handling() {
    assert!(!interrupt_ends_app(TrapKind::Timer));
    assert!(!interrupt_ends_app(TrapKind::SysCall));
    assert!(interrupt_ends_app(TrapKind::PageFault(0x1000)));
    assert!(interrupt_ends_app(TrapKind::IllegalInstruction));
}

#[test]
fn batch_loop_runs_exactly_the_owed_turns() {
    // Application j finishes on its turns[j]-th turn.
    let turns = [3usize, 1, 2, 4];
    let mut left = turns;
    let mut s = BatchScheduler::new(turns.len());
    let mut rounds = 0;
    let mut finished_order = Vec::new();
    while let Some(i) = s.next_task() {
        rounds += 1;
        left[i] -= 1;
        if left[i] == 0 {
            finished_order.push(i);
            s.report(Verdict::Finish);
        } else {
            s.report(Verdict::Continue);
        }
    }
    assert_eq!(rounds, turns.iter().sum::<usize>());
    assert_eq!(s.remain(), 0);
    assert_eq!(finished_order, vec![1, 2, 0, 3]);
}
