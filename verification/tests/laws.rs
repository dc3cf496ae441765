use rcore_kernel::dispatch::{
    process_action, queue_action, thread_action, QueueAction, SyscallKind, SyscallOutcome,
    TaskAction, Trap,
};
use rcore_kernel::ramdisk::{RamDiskBlock, BLOCK_SIZE};
use rcore_kernel::signal::{
    sigaction_after_copy, sigaction_after_install, sigaction_begin, SigactionStep, SignalParse,
};
use rcore_kernel::clock::timespec_from_usec;

fn all_traps() -> Vec<Trap> {
    let kinds = [
        SyscallKind::Exit,
        SyscallKind::SchedYield,
        SyscallKind::BlockingSync,
        SyscallKind::Other,
    ];
    let outcomes = [
        SyscallOutcome::Done(-1),
        SyscallOutcome::Done(0),
        SyscallOutcome::Done(17),
        SyscallOutcome::Unsupported,
    ];
    let mut traps = vec![Trap::Timer, Trap::Other];
    for k in kinds {
        for o in outcomes {
            traps.push(Trap::SysCall(k, o));
        }
    }
    traps
}

#[test]
fn replies_go_only_to_surviving_tasks() {
    for t in all_traps() {
        let q = queue_action(t);
        if q.reply.is_some() {
            assert_ne!(q.action, QueueAction::Remove);
        }
        let p = process_action(t);
        if p.reply.is_some() {
            assert_eq!(p.action, TaskAction::Suspend);
        }
        for killed in [None, Some(5)] {
            let d = thread_action(t, killed);
            if d.reply.is_some() {
                assert_eq!(d.action, TaskAction::Suspend);
            }
        }
    }
}

#[test]
fn thread_manager_agrees_with_process_manager() {
    for t in all_traps() {
        if let Trap::SysCall(SyscallKind::BlockingSync, SyscallOutcome::Done(_)) = t {
            continue;
        }
        assert_eq!(thread_action(t, None), process_action(t));
    }
}

fn run_sigaction(
    signum: u8,
    parsed: SignalParse,
    old_action: usize,
    action: usize,
    found: bool,
    installed: bool,
) -> (isize, bool) {
    let mut step = sigaction_begin(signum, 31, parsed, old_action, action);
    let mut did_install = false;
    loop {
        match step {
            SigactionStep::Reply(r) => return (r, did_install),
            SigactionStep::CopyOld => step = sigaction_after_copy(found, action),
            SigactionStep::Install => {
                did_install = true;
                step = sigaction_after_install(installed);
            }
        }
    }
}

#[test]
fn sigaction_succeeds_exactly_when_every_step_does() {
    for signum in [0u8, 9, 31, 32, 64] {
        for parsed in [SignalParse::Invalid, SignalParse::ErrorSignal, SignalParse::Valid] {
            for old_action in [0usize, 0x1000] {
                for action in [0usize, 0x2000] {
                    for found in [false, true] {
                        for installed in [false, true] {
                            let (r, did_install) =
                                run_sigaction(signum, parsed, old_action, action, found, installed);
                            let ok = signum <= 31
                                && parsed == SignalParse::Valid
                                && (old_action == 0 || found)
                                && (action == 0 || installed);
                            assert_eq!(r, if ok { 0 } else { -1 });
                            if old_action != 0 && !found {
                                assert!(!did_install);
                            }
                        }
                    }
                }
            }
        }
    }
}

#[test]
fn ramdisk_blocks_never_overlap() {
    let d = RamDiskBlock::new(0x1000, 0x1000 + 8 * BLOCK_SIZE);
    let mut prev_end = 0;
    for b in 0..7 {
        let a = d.block_address(b, BLOCK_SIZE).unwrap();
        assert!(a >= prev_end);
        prev_end = a + BLOCK_SIZE;
    }
    assert!(prev_end <= 0x1000 + 8 * BLOCK_SIZE);
}

#[test]
fn clock_values_are_monotonic() {
    let mut prev = timespec_from_usec(0);
    for usec in [1usize, 999_999, 1_000_000, 1_000_001, 59_999_999, 60_000_000] {
        let t = timespec_from_usec(usec);
        assert!(t.tv_sec > prev.tv_sec || (t.tv_sec == prev.tv_sec && t.tv_nsec >= prev.tv_nsec));
        assert_eq!(t.tv_sec * 1_000_000 + t.tv_nsec, usec);
        prev = t;
    }
}
