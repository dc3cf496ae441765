//! Per-process tables: the file descriptor table, the slot lists of
//! semaphores, mutexes and condition variables, and where a read or a write
//! on a descriptor goes.
use vstd::prelude::*;

verus! {

/// Descriptor of standard input.
pub const STDIN: usize = 0;

/// Descriptor of standard output.
pub const STDOUT: usize = 1;

/// Descriptor of the debug output.
pub const STDDEBUG: usize = 2;

/// Where a read or a write on a descriptor goes.
#[derive(Clone, Copy, Debug, PartialEq, Eq, Structural)]
pub enum IoTarget {
    /// The console.
    Console,
    /// The open file at that descriptor.
    File,
    /// Nowhere: the call fails with `-1`.
    Unsupported,
}

/// Target of a write by a kernel that only writes to the console.
pub fn console_write_target(fd: usize) -> (t: IoTarget)
    ensures
        t == (if fd == STDOUT || fd == STDDEBUG {
            IoTarget::Console
        } else {
            IoTarget::Unsupported
        }),
{
    if fd == STDOUT || fd == STDDEBUG {
        IoTarget::Console
    } else {
        IoTarget::Unsupported
    }
}

/// Target of a read by a kernel that only reads from the console.
pub fn console_read_target(fd: usize) -> (t: IoTarget)
    ensures
        t == (if fd == STDIN {
            IoTarget::Console
        } else {
            IoTarget::Unsupported
        }),
{
    if fd == STDIN {
        IoTarget::Console
    } else {
        IoTarget::Unsupported
    }
}

/// Reply of a read or a write on an open file: the number of bytes the file
/// transferred when it allows the access, `-1` when it does not.
pub fn file_io_reply(permitted: bool, transferred: usize) -> (r: isize)
    ensures
        r == (if permitted {
            transferred as isize
        } else {
            -1isize
        }),
{
    if permitted {
        transferred as isize
    } else {
        -1
    }
}

/// Whether `i` is the first free slot of `s`: every slot before it is in
/// use, and it is either free or one past the end.
pub open spec fn is_first_free<T>(s: Seq<Option<T>>, i: int) -> bool {
    &&& 0 <= i <= s.len()
    &&& forall|j: int| 0 <= j < i ==> (#[trigger] s[j]) is Some
    &&& i < s.len() ==> s[i] is None
}

/// The slots after `item` has gone into slot `i`: over the slot when it
/// exists, appended when `i` is one past the end.
pub open spec fn placed<T>(s: Seq<Option<T>>, i: int, item: Option<T>) -> Seq<Option<T>> {
    if i < s.len() {
        s.update(i, item)
    } else {
        s.push(item)
    }
}

/// Puts `item` into the first free slot of `list`, reusing a freed slot
/// before growing the list, and returns the slot's index.
pub fn alloc_slot<T>(list: &mut Vec<Option<T>>, item: Option<T>) -> (id: usize)
    ensures
        is_first_free(old(list)@, id as int),
        final(list)@ == placed(old(list)@, id as int, item),
{
    let mut i: usize = 0;
    while i < list.len()
        invariant
            i <= list@.len(),
            list@ == old(list)@,
            forall|j: int| 0 <= j < i ==> (#[trigger] list@[j]) is Some,
        decreases list.len() - i,
    {
        if list[i].is_none() {
            list.set(i, item);
            return i;
        }
        i = i + 1;
    }
    list.push(item);
    i
}

/// The first free slot exists and is unique; filling it changes no other
/// slot, and the filled slot holds the new item.
pub proof fn lemma_alloc_slot_placement<T>(s: Seq<Option<T>>, i: int, k: int, item: Option<T>)
    requires
        is_first_free(s, i),
    ensures
        forall|j: int| #[trigger] is_first_free(s, j) ==> j == i,
        placed(s, i, item)[i] == item,
        placed(s, i, item).len() == if i < s.len() { s.len() } else { s.len() + 1 },
        0 <= k < s.len() && k != i ==> placed(s, i, item)[k] == s[k],
{
    assert forall|j: int| #[trigger] is_first_free(s, j) implies j == i by {
        if j < i {
            assert(s[j] is Some);
        } else if i < j {
            assert(s[i] is Some);
        }
    }
}

/// Descriptor table after closing `fd`, with the call's result: `-1` and no
/// change when `fd` is not open, `0` and the slot emptied otherwise.
pub open spec fn spec_close<T>(s: Seq<Option<T>>, fd: int) -> (Seq<Option<T>>, isize) {
    if 0 <= fd < s.len() && s[fd] is Some {
        (s.update(fd, None), 0isize)
    } else {
        (s, -1isize)
    }
}

/// Open files of a process, indexed by descriptor; a closed descriptor
/// keeps its slot, empty.
pub struct FdTable<T> {
    entries: Vec<Option<T>>,
}

impl<T> FdTable<T> {
    /// The slots, indexed by descriptor.
    pub closed spec fn view(&self) -> Seq<Option<T>> {
        self.entries@
    }

    /// A table with the given slots.
    pub fn from_entries(entries: Vec<Option<T>>) -> (t: Self)
        ensures
            t@ == entries@,
    {
        FdTable { entries }
    }

    /// Number of slots.
    pub fn len(&self) -> (n: usize)
        ensures
            n == self@.len(),
    {
        self.entries.len()
    }

    /// Opens `file` at a new descriptor, one past the last slot, and returns it.
    pub fn open(&mut self, file: T) -> (fd: usize)
        ensures
            fd == old(self)@.len(),
            final(self)@ == old(self)@.push(Some(file)),
    {
        let fd = self.entries.len();
        self.entries.push(Some(file));
        fd
    }

    /// `open`'s reply once the file system answered: the new descriptor (one
    /// past the last slot, which the file now fills) when it opened `file`,
    /// `-1` and no change when it found nothing. Closed slots are not reused.
    pub fn open_reply(&mut self, file: Option<T>) -> (r: isize)
        ensures
            file is None ==> r == -1 && final(self)@ == old(self)@,
            file matches Some(f) ==> r == old(self)@.len() as isize && final(self)@ == old(
                self,
            )@.push(Some(f)),
    {
        match file {
            Some(f) => {
                let fd = self.open(f);
                fd as isize
            },
            None => -1,
        }
    }

    /// Closes `fd`: `-1` when it is past the end or already closed, else
    /// `0` with its slot emptied.
    pub fn close(&mut self, fd: usize) -> (r: isize)
        ensures
            (final(self)@, r) == spec_close(old(self)@, fd as int),
    {
        if fd >= self.entries.len() {
            return -1;
        }
        if self.entries[fd].is_none() {
            return -1;
        }
        self.entries.set(fd, None);
        0
    }

    /// The file open at `fd`, if any.
    pub fn get(&self, fd: usize) -> (f: Option<&T>)
        requires
            fd < self@.len(),
        ensures
            f.is_none() <==> self@[fd as int].is_none(),
            f matches Some(x) ==> self@[fd as int] == Some(*x),
    {
        self.entries[fd].as_ref()
    }

    /// Where a write on `fd` goes: standard output to the console, an open
    /// descriptor to its file, a closed one nowhere. Any other descriptor
    /// must lie within the table.
    pub fn write_target(&self, fd: usize) -> (t: IoTarget)
        requires
            fd == STDOUT || fd < self@.len(),
        ensures
            t == (if fd == STDOUT {
                IoTarget::Console
            } else if self@[fd as int] is Some {
                IoTarget::File
            } else {
                IoTarget::Unsupported
            }),
    {
        if fd == STDOUT {
            IoTarget::Console
        } else if self.entries[fd].is_some() {
            IoTarget::File
        } else {
            IoTarget::Unsupported
        }
    }

    /// Where a read on `fd` goes: standard input to the console, an open
    /// descriptor to its file, a closed one nowhere. Any other descriptor
    /// must lie within the table.
    pub fn read_target(&self, fd: usize) -> (t: IoTarget)
        requires
            fd == STDIN || fd < self@.len(),
        ensures
            t == (if fd == STDIN {
                IoTarget::Console
            } else if self@[fd as int] is Some {
                IoTarget::File
            } else {
                IoTarget::Unsupported
            }),
    {
        if fd == STDIN {
            IoTarget::Console
        } else if self.entries[fd].is_some() {
            IoTarget::File
        } else {
            IoTarget::Unsupported
        }
    }
}

/// A descriptor just opened can be closed once, with `0`; closing it again
/// fails with `-1`; and neither call touches any other descriptor.
pub proof fn lemma_open_then_close<T>(s: Seq<Option<T>>, file: T, other: int)
    ensures
        ({
            let opened = s.push(Some(file));
            let fd = s.len() as int;
            let (once, r1) = spec_close(opened, fd);
            let (twice, r2) = spec_close(once, fd);
            &&& r1 == 0
            &&& r2 == -1
            &&& once == s.push(None)
            &&& twice == once
            &&& (0 <= other < s.len() ==> once[other] == s[other])
        }),
{
}

/// Closing an open descriptor succeeds with `0` and empties exactly its slot;
/// closing one past the end or already closed fails with `-1` and changes
/// nothing.
pub proof fn lemma_close_meaning<T>(s: Seq<Option<T>>, fd: int)
    ensures
        0 <= fd < s.len() && s[fd] is Some ==> spec_close(s, fd).1 == 0 && spec_close(s, fd).0.len()
            == s.len() && spec_close(s, fd).0[fd] is None && forall|j: int|
            0 <= j < s.len() && j != fd ==> #[trigger] spec_close(s, fd).0[j] == s[j],
        !(0 <= fd < s.len() && s[fd] is Some) ==> spec_close(s, fd).1 == -1 && spec_close(s, fd).0
            == s,
{
}

/// Closing one descriptor leaves every other descriptor as it was.
pub proof fn lemma_close_keeps_others<T>(s: Seq<Option<T>>, fd: int, other: int)
    requires
        0 <= other < s.len(),
        other != fd,
    ensures
        spec_close(s, fd).0.len() == s.len(),
        spec_close(s, fd).0[other] == s[other],
{
}

} // verus!
