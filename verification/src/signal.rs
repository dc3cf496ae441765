//! Decisions of the signal system calls: whether `kill` delivers, and the
//! steps of `sigaction`, which reads the old action and installs the new one.
use vstd::prelude::*;

verus! {

/// How a signal number converted to a signal.
#[derive(Clone, Copy, Debug, PartialEq, Eq, Structural)]
pub enum SignalParse {
    /// Not a signal number.
    Invalid,
    /// The number of the error signal, which cannot be sent or handled.
    ErrorSignal,
    /// A real signal.
    Valid,
}

/// Whether `kill` adds the signal to the target process: only when the
/// target exists and the number is a real signal. The call returns `0` when
/// it does and `-1` when it does not.
pub fn kill_delivers(target_found: bool, parsed: SignalParse) -> (deliver: bool)
    ensures
        deliver <==> target_found && parsed == SignalParse::Valid,
{
    target_found && parsed == SignalParse::Valid
}

/// Reply of `kill`: `0` when the signal was delivered, `-1` otherwise.
pub fn kill_reply(target_found: bool, parsed: SignalParse) -> (r: isize)
    ensures
        r == (if target_found && parsed == SignalParse::Valid {
            0isize
        } else {
            -1isize
        }),
{
    if kill_delivers(target_found, parsed) {
        0
    } else {
        -1
    }
}

/// Next step of `sigaction`.
#[derive(Clone, Copy, Debug, PartialEq, Eq, Structural)]
pub enum SigactionStep {
    /// Return this value to the caller.
    Reply(isize),
    /// Copy the current action of the signal to the caller's `old_action`.
    CopyOld,
    /// Install the caller's `action` for the signal.
    Install,
}

/// First step of `sigaction`.
pub open spec fn spec_sigaction_begin(signum: u8, max_sig: usize, parsed: SignalParse, old_action: usize, action: usize) -> SigactionStep {
    if signum > max_sig || parsed != SignalParse::Valid {
        SigactionStep::Reply(-1isize)
    } else if old_action != 0 {
        SigactionStep::CopyOld
    } else if action != 0 {
        SigactionStep::Install
    } else {
        SigactionStep::Reply(0isize)
    }
}

/// Step after copying the old action (`found` is false when the signal has
/// no action to read).
pub open spec fn spec_sigaction_after_copy(found: bool, action: usize) -> SigactionStep {
    if !found {
        SigactionStep::Reply(-1isize)
    } else if action != 0 {
        SigactionStep::Install
    } else {
        SigactionStep::Reply(0isize)
    }
}

/// Step after installing the new action.
pub open spec fn spec_sigaction_after_install(installed: bool) -> SigactionStep {
    if installed {
        SigactionStep::Reply(0isize)
    } else {
        SigactionStep::Reply(-1isize)
    }
}

/// First step of `sigaction(signum, action, old_action)`: a number above
/// `max_sig`, or one that is no real signal, fails; otherwise the old action
/// is copied out first when `old_action` is given, then the new one
/// installed when `action` is given.
pub fn sigaction_begin(signum: u8, max_sig: usize, parsed: SignalParse, old_action: usize, action: usize) -> (s: SigactionStep)
    ensures
        s == spec_sigaction_begin(signum, max_sig, parsed, old_action, action),
{
    if signum as usize > max_sig || parsed != SignalParse::Valid {
        SigactionStep::Reply(-1isize)
    } else if old_action != 0 {
        SigactionStep::CopyOld
    } else if action != 0 {
        SigactionStep::Install
    } else {
        SigactionStep::Reply(0isize)
    }
}

/// Step of `sigaction` after the old action was asked for.
pub fn sigaction_after_copy(found: bool, action: usize) -> (s: SigactionStep)
    ensures
        s == spec_sigaction_after_copy(found, action),
{
    if !found {
        SigactionStep::Reply(-1isize)
    } else if action != 0 {
        SigactionStep::Install
    } else {
        SigactionStep::Reply(0isize)
    }
}

/// Step of `sigaction` after the new action was installed or refused.
pub fn sigaction_after_install(installed: bool) -> (s: SigactionStep)
    ensures
        s == spec_sigaction_after_install(installed),
{
    if installed {
        SigactionStep::Reply(0isize)
    } else {
        SigactionStep::Reply(-1isize)
    }
}

/// The reply of a whole run of `sigaction`, following the steps with the
/// outcomes `found` of reading the old action and `installed` of installing
/// the new one.
pub open spec fn sigaction_reply(signum: u8, max_sig: usize, parsed: SignalParse, old_action: usize, action: usize, found: bool, installed: bool) -> isize {
    let step = |s: SigactionStep|
        match s {
            SigactionStep::Reply(r) => r,
            SigactionStep::CopyOld => 0isize,
            SigactionStep::Install => 0isize,
        };
    match spec_sigaction_begin(signum, max_sig, parsed, old_action, action) {
        SigactionStep::Reply(r) => r,
        SigactionStep::CopyOld => match spec_sigaction_after_copy(found, action) {
            SigactionStep::Reply(r) => r,
            SigactionStep::Install => step(spec_sigaction_after_install(installed)),
            SigactionStep::CopyOld => 0isize,
        },
        SigactionStep::Install => step(spec_sigaction_after_install(installed)),
    }
}

/// Every run of `sigaction` ends with `0` or `-1`, and with `0` exactly when
/// the number is a real signal within range, the old action could be read
/// if it was asked for, and the new action was installed if one was given.
/// A new action is never installed after a failed read of the old one.
pub proof fn lemma_sigaction_outcome(signum: u8, max_sig: usize, parsed: SignalParse, old_action: usize, action: usize, found: bool, installed: bool)
    ensures
        sigaction_reply(signum, max_sig, parsed, old_action, action, found, installed) == 0
            || sigaction_reply(signum, max_sig, parsed, old_action, action, found, installed) == -1,
        sigaction_reply(signum, max_sig, parsed, old_action, action, found, installed) == 0 <==> {
            &&& signum <= max_sig
            &&& parsed == SignalParse::Valid
            &&& (old_action != 0 ==> found)
            &&& (action != 0 ==> installed)
        },
        spec_sigaction_after_copy(false, action) == SigactionStep::Reply(-1isize),
{
}

} // verus!
