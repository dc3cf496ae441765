//! Values returned by the clock system call.
use vstd::prelude::*;

verus! {

/// Microseconds in a second.
pub const USEC_PER_SEC: usize = 1_000_000;

/// A time value as the clock system call writes it: whole seconds, and the
/// rest of the time in the second field (which holds microseconds, as the
/// kernel fills it).
#[derive(Clone, Copy, Debug, PartialEq, Eq, Structural)]
pub struct TimeSpec {
    pub tv_sec: usize,
    pub tv_nsec: usize,
}

/// Clocks a program can ask for.
#[derive(Clone, Copy, Debug, PartialEq, Eq, Structural)]
pub enum ClockKind {
    /// The monotonic clock, the only one the kernel serves.
    Monotonic,
    /// Any other clock.
    Other,
}

/// Splits a time in microseconds into whole seconds and the microseconds
/// left over.
pub fn timespec_from_usec(usec: usize) -> (t: TimeSpec)
    ensures
        t.tv_sec == usec / USEC_PER_SEC,
        t.tv_nsec == usec % USEC_PER_SEC,
        t.tv_nsec < USEC_PER_SEC,
        t.tv_sec * USEC_PER_SEC + t.tv_nsec == usec,
{
    let t = TimeSpec { tv_sec: usec / USEC_PER_SEC, tv_nsec: usec % USEC_PER_SEC };
    assert(t.tv_sec * USEC_PER_SEC + t.tv_nsec == usec) by (nonlinear_arith)
        requires
            t.tv_sec == usec / USEC_PER_SEC,
            t.tv_nsec == usec % USEC_PER_SEC,
    ;
    t
}

/// The time value for `clock` when the monotonic clock reads `now_usec`
/// microseconds; `None` (the call fails with `-1`) for any other clock.
pub fn clock_gettime(clock: ClockKind, now_usec: usize) -> (t: Option<TimeSpec>)
    ensures
        t.is_some() <==> clock == ClockKind::Monotonic,
        t matches Some(ts) ==> ts.tv_sec == now_usec / USEC_PER_SEC && ts.tv_nsec == now_usec
            % USEC_PER_SEC,
{
    match clock {
        ClockKind::Monotonic => Some(timespec_from_usec(now_usec)),
        ClockKind::Other => None,
    }
}

/// A later reading of the clock never gives an earlier time value: seconds
/// never go down, and within the same second the remainder does not either.
pub proof fn lemma_timespec_monotonic(a: usize, b: usize)
    requires
        a <= b,
    ensures
        a / USEC_PER_SEC <= b / USEC_PER_SEC,
        a / USEC_PER_SEC == b / USEC_PER_SEC ==> a % USEC_PER_SEC <= b % USEC_PER_SEC,
{
    vstd::arithmetic::div_mod::lemma_div_is_ordered(a as int, b as int, USEC_PER_SEC as int);
    vstd::arithmetic::div_mod::lemma_fundamental_div_mod(a as int, USEC_PER_SEC as int);
    vstd::arithmetic::div_mod::lemma_fundamental_div_mod(b as int, USEC_PER_SEC as int);
}

} // verus!
