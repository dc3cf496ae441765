//! Multiprogrammed batch execution: every loaded application gets a fixed
//! user-stack slot, and a round-robin loop runs the applications that have
//! not finished until none is left.
use vstd::prelude::*;

verus! {

/// Most applications the batch loader takes.
pub const APP_CAPACITY: usize = 32;

/// Size of a page.
pub const PAGE_SIZE: u64 = 0x1000;

/// Pages in each application's user stack.
pub const USER_STACK_PAGES: usize = 5;

/// Bytes in each application's user stack.
pub const USER_STACK_SIZE: u64 = 0x5000;

/// Virtual address where the user stack of application 0 starts.
pub const USER_STACK_BASE: u64 = 0x1_8000_0000;

/// Pages of an application image mapped one to one at its entry.
pub const APP_IMAGE_PAGES: u64 = 0x20;

/// Virtual address of page `page` of the user stack of application `app`.
pub open spec fn stack_page_addr(app: int, page: int) -> int {
    USER_STACK_BASE + app * USER_STACK_SIZE + page * PAGE_SIZE
}

/// Initial stack pointer of application `app`: the top of its stack slot.
pub open spec fn stack_top_addr(app: int) -> int {
    USER_STACK_BASE + (app + 1) * USER_STACK_SIZE
}

/// The address of page `page` of the user stack of application `app`.
pub fn user_stack_page(app: u64, page: u64) -> (addr: u64)
    requires
        app < APP_CAPACITY,
        page < USER_STACK_PAGES,
    ensures
        addr == stack_page_addr(app as int, page as int),
{
    USER_STACK_BASE + app * USER_STACK_SIZE + page * PAGE_SIZE
}

/// The initial stack pointer of application `app`.
pub fn user_stack_top(app: u64) -> (sp: u64)
    requires
        app < APP_CAPACITY,
    ensures
        sp == stack_top_addr(app as int),
{
    USER_STACK_BASE + (app + 1) * USER_STACK_SIZE
}

/// The address of page `page` of the image of an application entered at
/// `entry`; the image is mapped at its own address.
pub fn app_image_page(entry: u64, page: u64) -> (addr: u64)
    requires
        page < APP_IMAGE_PAGES,
        entry + APP_IMAGE_PAGES * PAGE_SIZE <= u64::MAX,
    ensures
        addr == entry + page * PAGE_SIZE,
{
    entry + page * PAGE_SIZE
}

/// Every page of an application's stack lies below its initial stack
/// pointer and at or above the start of its slot, and the slots of two
/// different applications share no page.
pub proof fn lemma_stack_slots_disjoint(a: int, b: int, p: int, q: int)
    requires
        0 <= a < APP_CAPACITY,
        0 <= b < APP_CAPACITY,
        0 <= p < USER_STACK_PAGES,
        0 <= q < USER_STACK_PAGES,
    ensures
        stack_top_addr(a) - USER_STACK_SIZE <= stack_page_addr(a, p),
        stack_page_addr(a, p) + PAGE_SIZE <= stack_top_addr(a),
        a != b ==> stack_page_addr(a, p) != stack_page_addr(b, q),
{
    if a < b {
        assert(a * USER_STACK_SIZE + USER_STACK_SIZE <= b * USER_STACK_SIZE) by (nonlinear_arith)
            requires
                a < b,
        ;
    } else if b < a {
        assert(b * USER_STACK_SIZE + USER_STACK_SIZE <= a * USER_STACK_SIZE) by (nonlinear_arith)
            requires
                b < a,
        ;
    }
    assert((a + 1) * USER_STACK_SIZE == a * USER_STACK_SIZE + USER_STACK_SIZE) by (nonlinear_arith);
}

/// What the loop does with the application that has just run.
#[derive(Clone, Copy, Debug, PartialEq, Eq, Structural)]
pub enum Verdict {
    /// Run the same application again at once.
    Rerun,
    /// Leave it unfinished and go on to the next one.
    Continue,
    /// Mark it finished and go on to the next one.
    Finish,
}

/// Why a user application gave control back to the kernel.
#[derive(Clone, Copy, Debug, PartialEq, Eq, Structural)]
pub enum Escape {
    /// The time slice ended.
    Timer,
    /// A system call, with the event its handling produced.
    SysCall(crate::dispatch::SchedulingEvent),
    /// An exception in the application.
    Exception,
    /// A return with no reason given.
    NoReason,
    /// Any other interrupt.
    Interrupt,
}

/// The verdict of the batch loop on an application that escaped with `escape`.
pub open spec fn spec_verdict(escape: Escape) -> Verdict {
    match escape {
        Escape::Timer => Verdict::Continue,
        Escape::SysCall(event) => match event {
            crate::dispatch::SchedulingEvent::Resume => Verdict::Rerun,
            crate::dispatch::SchedulingEvent::Yield => Verdict::Continue,
            crate::dispatch::SchedulingEvent::Exit(_) => Verdict::Finish,
            crate::dispatch::SchedulingEvent::UnsupportedSyscall(_) => Verdict::Finish,
        },
        Escape::Exception => Verdict::Finish,
        Escape::NoReason => Verdict::Continue,
        Escape::Interrupt => Verdict::Finish,
    }
}

/// Decides what happens to an application after it escaped with `escape`:
/// a plain system call runs it again, a time-out, a yield or an escape with
/// no reason moves on, and an exit, an unsupported system call, an exception
/// or an unexpected interrupt finishes it.
pub fn verdict(escape: Escape) -> (v: Verdict)
    ensures
        v == spec_verdict(escape),
{
    match escape {
        Escape::Timer => Verdict::Continue,
        Escape::SysCall(event) => match event {
            crate::dispatch::SchedulingEvent::Resume => Verdict::Rerun,
            crate::dispatch::SchedulingEvent::Yield => Verdict::Continue,
            crate::dispatch::SchedulingEvent::Exit(_) => Verdict::Finish,
            crate::dispatch::SchedulingEvent::UnsupportedSyscall(_) => Verdict::Finish,
        },
        Escape::Exception => Verdict::Finish,
        Escape::NoReason => Verdict::Continue,
        Escape::Interrupt => Verdict::Finish,
    }
}

/// An application that exits, whatever its exit code, or makes an
/// unsupported call, or is stopped by an exception or an unexpected
/// interrupt, is finished and never runs again; exactly a plain handled call
/// runs it again at once; a time-out, a yield or an escape without reason
/// moves on and leaves it unfinished.
pub proof fn lemma_verdict_meaning(escape: Escape, code: usize, id: usize)
    ensures
        spec_verdict(Escape::SysCall(crate::dispatch::SchedulingEvent::Exit(code))) == Verdict::Finish,
        spec_verdict(Escape::SysCall(crate::dispatch::SchedulingEvent::UnsupportedSyscall(id)))
            == Verdict::Finish,
        (spec_verdict(escape) == Verdict::Finish) <==> (escape == Escape::Exception || escape
            == Escape::Interrupt || escape matches Escape::SysCall(
            crate::dispatch::SchedulingEvent::Exit(_),
        ) || escape matches Escape::SysCall(crate::dispatch::SchedulingEvent::UnsupportedSyscall(_))),
        (spec_verdict(escape) == Verdict::Rerun) <==> escape == Escape::SysCall(
            crate::dispatch::SchedulingEvent::Resume,
        ),
        (spec_verdict(escape) == Verdict::Continue) <==> (escape == Escape::Timer || escape
            == Escape::NoReason || escape == Escape::SysCall(crate::dispatch::SchedulingEvent::Yield)),
{
}

/// Number of `false` entries in `flags`.
pub open spec fn count_unfinished(flags: Seq<bool>) -> nat
    decreases flags.len(),
{
    if flags.len() == 0 {
        0
    } else {
        count_unfinished(flags.drop_last()) + if flags.last() {
            0nat
        } else {
            1nat
        }
    }
}

/// Index reached from `from` after `steps` steps round a ring of `n`.
pub open spec fn ring_step(from: int, steps: int, n: int) -> int {
    (from + steps) % n
}

/// Number of steps from `from` to `to` round a ring of `n`.
pub open spec fn ring_distance(from: int, to: int, n: int) -> int {
    (to - from) % n
}

/// The loop ends exactly when every application has finished, and a
/// `Finish` verdict finishes one application that had not finished, counting
/// the remaining ones down by one; nothing else changes the count. So with
/// `n` applications the loop hands out applications until it has received
/// exactly `n` `Finish` verdicts, one for each application, and ends after the
/// last (see `BatchScheduler::next_task` and `BatchScheduler::report`).
pub proof fn lemma_batch_ends_when_all_finish(flags: Seq<bool>, i: int)
    requires
        0 <= i < flags.len(),
        !flags[i],
    ensures
        count_unfinished(flags.update(i, true)) + 1 == count_unfinished(flags),
        count_unfinished(flags) <= flags.len(),
        count_unfinished(flags.update(i, true)) == 0 <==> forall|j: int|
            0 <= j < flags.len() ==> #[trigger] flags.update(i, true)[j],
        count_unfinished(Seq::new(flags.len(), |k: int| false)) == flags.len(),
{
    lemma_count_unfinished_update(flags, i);
    lemma_count_unfinished_bound(flags);
    lemma_count_unfinished_bound(flags.update(i, true));
    lemma_all_false_count(flags.len());
}

/// Turns still owed to the unfinished applications, when application `j`
/// finishes on its `turns[j]`-th turn from now (one entry per application).
pub open spec fn turns_owed(flags: Seq<bool>, turns: Seq<nat>) -> nat
    decreases flags.len(),
{
    if flags.len() == 0 {
        0
    } else {
        turns_owed(flags.drop_last(), turns.drop_last()) + if flags.last() {
            0nat
        } else {
            turns[flags.len() - 1]
        }
    }
}

proof fn lemma_turns_owed_finish(flags: Seq<bool>, turns: Seq<nat>, i: int)
    requires
        flags.len() == turns.len(),
        0 <= i < flags.len(),
        !flags[i],
    ensures
        turns_owed(flags.update(i, true), turns) + turns[i] == turns_owed(flags, turns),
    decreases flags.len(),
{
    let u = flags.update(i, true);
    if i == flags.len() - 1 {
        assert(u.drop_last() =~= flags.drop_last());
    } else {
        assert(u.drop_last() =~= flags.drop_last().update(i, true));
        assert(turns.drop_last()[i] == turns[i]);
        lemma_turns_owed_finish(flags.drop_last(), turns.drop_last(), i);
    }
}

proof fn lemma_turns_owed_spend(flags: Seq<bool>, turns: Seq<nat>, i: int, t: nat)
    requires
        flags.len() == turns.len(),
        0 <= i < flags.len(),
        !flags[i],
    ensures
        turns_owed(flags, turns.update(i, t)) + turns[i] == turns_owed(flags, turns) + t,
    decreases flags.len(),
{
    let u = turns.update(i, t);
    if i == flags.len() - 1 {
        assert(u.drop_last() =~= turns.drop_last());
    } else {
        assert(u.drop_last() =~= turns.drop_last().update(i, t));
        assert(turns.drop_last()[i] == turns[i]);
        lemma_turns_owed_spend(flags.drop_last(), turns.drop_last(), i, t);
    }
}

proof fn lemma_turns_owed_zero(flags: Seq<bool>, turns: Seq<nat>)
    requires
        flags.len() == turns.len(),
        forall|j: int| 0 <= j < flags.len() && !flags[j] ==> #[trigger] turns[j] >= 1,
    ensures
        turns_owed(flags, turns) == 0 <==> forall|j: int| 0 <= j < flags.len() ==> #[trigger] flags[j],
    decreases flags.len(),
{
    if flags.len() > 0 {
        let n = flags.len() - 1;
        assert forall|j: int| 0 <= j < flags.drop_last().len() && !flags.drop_last()[j] implies #[trigger] turns.drop_last()[j] >= 1 by {
            assert(flags.drop_last()[j] == flags[j]);
            assert(turns.drop_last()[j] == turns[j]);
        }
        lemma_turns_owed_zero(flags.drop_last(), turns.drop_last());
        if forall|j: int| 0 <= j < flags.len() ==> #[trigger] flags[j] {
            assert forall|j: int| 0 <= j < flags.drop_last().len() implies #[trigger] flags.drop_last()[j] by {
                assert(flags[j]);
            }
            assert(flags[n]);
        }
        if turns_owed(flags, turns) == 0 {
            if !flags[n] {
                assert(turns[n] >= 1);
            }
            assert forall|j: int| 0 <= j < flags.len() implies #[trigger] flags[j] by {
                if j < n {
                    assert(flags.drop_last()[j] == flags[j]);
                }
            }
        }
    }
}

/// The batch loop ends, once, after every application finished. Say
/// application `j` finishes on its `turns[j]`-th turn from now (it is
/// handed `Continue` before, or reruns within a turn, and `Finish` on that
/// turn). A turn given to the unfinished application `i` lowers the turns
/// owed to all applications by exactly one, whether it ends with `Continue`
/// or with `Finish`; and the loop ends (`next_task` gives
/// `None`) exactly when nothing is owed, that is when every application has
/// finished. So the loop runs exactly `turns_owed` turns and then ends.
pub proof fn lemma_batch_loop_ends(flags: Seq<bool>, turns: Seq<nat>, i: int)
    requires
        flags.len() == turns.len(),
        forall|j: int| 0 <= j < flags.len() && !flags[j] ==> #[trigger] turns[j] >= 1,
        0 <= i < flags.len(),
        !flags[i],
    ensures
        turns_owed(flags, turns) == 0 <==> count_unfinished(flags) == 0,
        turns_owed(flags, turns) >= 1,
        turns[i] == 1 ==> turns_owed(flags.update(i, true), turns) + 1 == turns_owed(flags, turns),
        turns[i] > 1 ==> turns_owed(flags, turns.update(i, (turns[i] - 1) as nat)) + 1
            == turns_owed(flags, turns),
{
    lemma_turns_owed_zero(flags, turns);
    lemma_count_unfinished_bound(flags);
    lemma_turns_owed_finish(flags, turns, i);
    lemma_turns_owed_spend(flags, turns, i, (turns[i] - 1) as nat);
    assert(turns[i] >= 1);
}

proof fn lemma_count_unfinished_update(flags: Seq<bool>, i: int)
    requires
        0 <= i < flags.len(),
        !flags[i],
    ensures
        count_unfinished(flags.update(i, true)) + 1 == count_unfinished(flags),
    decreases flags.len(),
{
    let u = flags.update(i, true);
    if i == flags.len() - 1 {
        assert(u.drop_last() =~= flags.drop_last());
    } else {
        assert(u.drop_last() =~= flags.drop_last().update(i, true));
        lemma_count_unfinished_update(flags.drop_last(), i);
    }
}

proof fn lemma_count_unfinished_bound(flags: Seq<bool>)
    ensures
        count_unfinished(flags) <= flags.len(),
        count_unfinished(flags) == 0 <==> forall|j: int| 0 <= j < flags.len() ==> #[trigger] flags[j],
    decreases flags.len(),
{
    if flags.len() > 0 {
        lemma_count_unfinished_bound(flags.drop_last());
        if count_unfinished(flags) == 0 {
            assert forall|j: int| 0 <= j < flags.len() implies #[trigger] flags[j] by {
                if j < flags.len() - 1 {
                    assert(flags.drop_last()[j] == flags[j]);
                }
            }
        }
        if forall|j: int| 0 <= j < flags.len() ==> #[trigger] flags[j] {
            assert forall|j: int| 0 <= j < flags.drop_last().len() implies #[trigger] flags.drop_last()[j] by {
                assert(flags[j]);
            }
            assert(flags[flags.len() - 1]);
        }
    }
}

proof fn lemma_all_false_count(n: nat)
    ensures
        count_unfinished(Seq::new(n, |i: int| false)) == n,
    decreases n,
{
    if n > 0 {
        assert(Seq::new(n, |i: int| false).drop_last() =~= Seq::new((n - 1) as nat, |i: int| false));
        lemma_all_false_count((n - 1) as nat);
    }
}

/// Round-robin state of the batch loop: which applications have finished,
/// how many have not, and which one is looked at next.
pub struct BatchScheduler {
    finished: Vec<bool>,
    remain: usize,
    current: usize,
}

impl BatchScheduler {
    /// Finished flags, one per application.
    pub closed spec fn flags(&self) -> Seq<bool> {
        self.finished@
    }

    /// Number of applications not finished yet.
    pub closed spec fn remaining(&self) -> nat {
        self.remain as nat
    }

    /// The application looked at next.
    pub closed spec fn cursor(&self) -> nat {
        self.current as nat
    }

    /// The counter of remaining applications equals the number of
    /// unfinished ones, and the cursor stays on the ring.
    pub open spec fn wf(&self) -> bool {
        &&& self.remaining() == count_unfinished(self.flags())
        &&& (self.flags().len() == 0 ==> self.cursor() == 0)
        &&& (self.flags().len() > 0 ==> self.cursor() < self.flags().len())
    }

    /// The application under the cursor has been handed out and not finished.
    pub open spec fn running(&self) -> bool {
        &&& self.cursor() < self.flags().len()
        &&& !self.flags()[self.cursor() as int]
    }

    /// A loop over `n` applications, none of them finished, starting at the first.
    pub fn new(n: usize) -> (s: Self)
        ensures
            s.wf(),
            s.flags() == Seq::new(n as nat, |i: int| false),
            s.remaining() == n,
            s.cursor() == 0,
    {
        let mut finished: Vec<bool> = Vec::new();
        let mut i: usize = 0;
        while i < n
            invariant
                i <= n,
                finished@ == Seq::new(i as nat, |j: int| false),
            decreases n - i,
        {
            finished.push(false);
            i = i + 1;
            assert(finished@ =~= Seq::new(i as nat, |j: int| false));
        }
        proof {
            lemma_all_false_count(n as nat);
        }
        BatchScheduler { finished, remain: n, current: 0 }
    }

    /// Number of applications not finished yet.
    pub fn remain(&self) -> (r: usize)
        ensures
            r == self.remaining(),
    {
        self.remain
    }

    /// Moves the cursor to the first unfinished application at or after it,
    /// round the ring, and returns it; `None` once every application has
    /// finished. The flags do not change.
    pub fn next_task(&mut self) -> (next: Option<usize>)
        requires
            old(self).wf(),
        ensures
            final(self).wf(),
            final(self).flags() == old(self).flags(),
            final(self).remaining() == old(self).remaining(),
            next.is_none() <==> old(self).remaining() == 0,
            next.is_none() ==> forall|j: int|
                0 <= j < old(self).flags().len() ==> #[trigger] old(self).flags()[j],
            next.is_none() ==> final(self).cursor() == old(self).cursor(),
            next matches Some(i) ==> {
                &&& i == final(self).cursor()
                &&& final(self).running()
                &&& forall|d: int|
                    0 <= d < ring_distance(old(self).cursor() as int, i as int, old(self).flags().len() as int)
                        ==> #[trigger] old(self).flags()[ring_step(
                        old(self).cursor() as int,
                        d,
                        old(self).flags().len() as int,
                    )]
            },
    {
        proof {
            lemma_count_unfinished_bound(self.finished@);
        }
        if self.remain == 0 {
            return None;
        }
        let n = self.finished.len();
        let ghost start = self.current as int;
        let ghost target: int = choose|j: int| 0 <= j < n && !self.finished@[j];
        let ghost flags = self.finished@;
        proof {
            lemma_ring_distance_value(start, start, n as int);
            vstd::arithmetic::div_mod::lemma_small_mod(start as nat, n as nat);
        }
        while self.finished[self.current]
            invariant
                n == self.finished@.len(),
                n > 0,
                flags == self.finished@,
                0 <= start < n,
                self.current < n,
                0 <= target < n,
                !flags[target],
                self.wf(),
                self.remain == old(self).remain,
                self.current == ring_step(start, ring_distance(start, self.current as int, n as int), n as int),
                ring_distance(start, self.current as int, n as int) <= ring_distance(start, target, n as int),
                forall|d: int|
                    0 <= d < ring_distance(start, self.current as int, n as int) ==> #[trigger] flags[ring_step(start, d, n as int)],
            decreases ring_distance(self.current as int, target, n as int),
        {
            let ghost before = self.current as int;
            proof {
                assert(before != target);
                lemma_ring_advance(start, before, target, n as int);
            }
            self.current = (self.current + 1) % n;
            proof {
                assert forall|d: int|
                    0 <= d < ring_distance(start, self.current as int, n as int) implies #[trigger] flags[ring_step(start, d, n as int)] by {
                    if d == ring_distance(start, before, n as int) {
                    }
                }
            }
        }
        Some(self.current)
    }

    /// Records the verdict on the application under the cursor: `Rerun`
    /// keeps everything, `Continue` moves the cursor one step round the
    /// ring, `Finish` marks the application finished, counts it off and moves
    /// the cursor one step.
    pub fn report(&mut self, v: Verdict)
        requires
            old(self).wf(),
            old(self).running(),
        ensures
            final(self).wf(),
            v == Verdict::Rerun ==> *final(self) == *old(self),
            v == Verdict::Continue ==> final(self).flags() == old(self).flags() && final(self).remaining() == old(self).remaining()
                && final(self).cursor() == ring_step(old(self).cursor() as int, 1, old(self).flags().len() as int),
            v == Verdict::Finish ==> final(self).flags() == old(self).flags().update(old(self).cursor() as int, true)
                && final(self).remaining() + 1 == old(self).remaining()
                && final(self).cursor() == ring_step(old(self).cursor() as int, 1, old(self).flags().len() as int),
    {
        let n = self.finished.len();
        match v {
            Verdict::Rerun => {},
            Verdict::Continue => {
                self.current = (self.current + 1) % n;
            },
            Verdict::Finish => {
                proof {
                    lemma_count_unfinished_update(self.finished@, self.current as int);
                }
                let i = self.current;
                self.finished.set(i, true);
                self.remain = self.remain - 1;
                self.current = (self.current + 1) % n;
            },
        }
    }
}

proof fn lemma_ring_advance(start: int, cur: int, target: int, n: int)
    requires
        0 <= start < n,
        0 <= cur < n,
        0 <= target < n,
        cur != target,
        cur == ring_step(start, ring_distance(start, cur, n), n),
        ring_distance(start, cur, n) <= ring_distance(start, target, n),
    ensures
        ({
            let next = (cur + 1) % n;
            &&& ring_distance(start, next, n) == ring_distance(start, cur, n) + 1
            &&& next == ring_step(start, ring_distance(start, next, n), n)
            &&& ring_distance(start, next, n) <= ring_distance(start, target, n)
            &&& ring_distance(next, target, n) < ring_distance(cur, target, n)
        }),
{
    let next = (cur + 1) % n;
    lemma_ring_distance_value(start, cur, n);
    lemma_ring_distance_value(start, target, n);
    lemma_ring_distance_value(cur, target, n);
    if cur + 1 < n {
        vstd::arithmetic::div_mod::lemma_small_mod((cur + 1) as nat, n as nat);
    } else {
        vstd::arithmetic::div_mod::lemma_mod_self_0(n);
    }
    lemma_ring_distance_value(start, next, n);
    lemma_ring_distance_value(next, target, n);
    let dn = ring_distance(start, next, n);
    if start + dn < n {
        assert((start + dn) % n == start + dn);
    } else {
        assert((start + dn) % n == start + dn - n) by {
            vstd::arithmetic::div_mod::lemma_mod_sub_multiples_vanish(start + dn, n);
        }
    }
}

proof fn lemma_ring_distance_value(from: int, to: int, n: int)
    requires
        0 <= from < n,
        0 <= to < n,
    ensures
        to >= from ==> ring_distance(from, to, n) == to - from,
        to < from ==> ring_distance(from, to, n) == to - from + n,
{
    if to >= from {
        vstd::arithmetic::div_mod::lemma_small_mod((to - from) as nat, n as nat);
    } else {
        vstd::arithmetic::div_mod::lemma_mod_add_multiples_vanish(to - from, n);
        vstd::arithmetic::div_mod::lemma_small_mod((to - from + n) as nat, n as nat);
    }
}

} // verus!
