//! The ready queue of a round-robin kernel: the process at the head runs,
//! and after it traps it stays, goes to the back or leaves.
use vstd::prelude::*;
use crate::dispatch::QueueAction;

verus! {

/// `s` with its first element moved to the back.
pub open spec fn rotate_once<T>(s: Seq<T>) -> Seq<T> {
    if s.len() == 0 {
        s
    } else {
        s.subrange(1, s.len() as int).push(s[0])
    }
}

/// `s` after `k` moves of the head to the back.
pub open spec fn rotate_times<T>(s: Seq<T>, k: nat) -> Seq<T>
    decreases k,
{
    if k == 0 {
        s
    } else {
        rotate_once(rotate_times(s, (k - 1) as nat))
    }
}

/// Processes waiting to run, the head first.
pub struct ProcessQueue<T> {
    items: Vec<T>,
}

impl<T> ProcessQueue<T> {
    /// The processes, the head first.
    pub closed spec fn view(&self) -> Seq<T> {
        self.items@
    }

    /// An empty queue.
    pub fn new() -> (q: Self)
        ensures
            q@ == Seq::<T>::empty(),
    {
        ProcessQueue { items: Vec::new() }
    }

    /// Adds a process at the back.
    pub fn push(&mut self, p: T)
        ensures
            final(self)@ == old(self)@.push(p),
    {
        self.items.push(p);
    }

    /// Whether no process is waiting.
    pub fn is_empty(&self) -> (b: bool)
        ensures
            b <==> self@.len() == 0,
    {
        self.items.len() == 0
    }

    /// Number of processes waiting.
    pub fn len(&self) -> (n: usize)
        ensures
            n == self@.len(),
    {
        self.items.len()
    }

    /// The process at the head, which runs next.
    pub fn head(&self) -> (p: &T)
        requires
            self@.len() > 0,
        ensures
            *p == self@[0],
    {
        &self.items[0]
    }

    /// Carries out `action` on the head: `Remove` takes it out and returns
    /// it, `Rotate` moves it to the back, `Stay` leaves the queue as it is.
    pub fn apply(&mut self, action: QueueAction) -> (removed: Option<T>)
        requires
            old(self)@.len() > 0,
        ensures
            action == QueueAction::Remove ==> final(self)@ == old(self)@.subrange(1, old(self)@.len() as int)
                && removed == Some(old(self)@[0]),
            action == QueueAction::Rotate ==> final(self)@ == rotate_once(old(self)@) && removed.is_none(),
            action == QueueAction::Stay ==> final(self)@ == old(self)@ && removed.is_none(),
    {
        match action {
            QueueAction::Remove => {
                let p = self.items.remove(0);
                assert(self.items@ =~= old(self)@.subrange(1, old(self)@.len() as int));
                Some(p)
            },
            QueueAction::Rotate => {
                let p = self.items.remove(0);
                self.items.push(p);
                assert(self.items@ =~= rotate_once(old(self)@));
                None
            },
            QueueAction::Stay => None,
        }
    }
}

/// Moving the head to the back keeps every process in the queue, each as
/// often as before.
pub proof fn lemma_rotate_keeps_processes<T>(s: Seq<T>)
    ensures
        rotate_once(s).to_multiset() == s.to_multiset(),
        rotate_once(s).len() == s.len(),
{
    if s.len() > 0 {
        let rest = s.subrange(1, s.len() as int);
        let head = seq![s[0]];
        assert(s =~= head + rest);
        assert(rest.push(s[0]) =~= rest + head);
        vstd::seq_lib::lemma_seq_union_to_multiset_commutative(head, rest);
    }
}

/// After `k` rotations, for `k` up to the queue's length, the queue is its
/// tail from `k` followed by its first `k` processes; so the process that
/// was at position `k` runs next, and `len` rotations give the queue back.
pub proof fn lemma_round_robin_turns<T>(s: Seq<T>, k: nat)
    requires
        k <= s.len(),
    ensures
        rotate_times(s, k) == s.subrange(k as int, s.len() as int) + s.subrange(0, k as int),
        k < s.len() ==> rotate_times(s, k)[0] == s[k as int],
        k == s.len() ==> rotate_times(s, k) == s,
    decreases k,
{
    if k == 0 {
        assert(s.subrange(0, s.len() as int) + s.subrange(0, 0) =~= s);
    } else {
        lemma_round_robin_turns(s, (k - 1) as nat);
        let prev = rotate_times(s, (k - 1) as nat);
        assert(prev =~= s.subrange(k - 1, s.len() as int) + s.subrange(0, k - 1));
        assert(prev[0] == s[k - 1]);
        assert(rotate_once(prev) =~= s.subrange(k as int, s.len() as int) + s.subrange(0, k as int));
    }
    if k == s.len() {
        assert(s.subrange(k as int, s.len() as int) + s.subrange(0, k as int) =~= s);
    }
}

} // verus!
