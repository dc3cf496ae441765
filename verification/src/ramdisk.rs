//! A block device kept in a memory range: where each block lies.
use vstd::prelude::*;

verus! {

/// Size in bytes of a disk block.
pub const BLOCK_SIZE: usize = 0x200;

/// A ramdisk occupying `size` bytes of memory from address `start`.
pub struct RamDiskBlock {
    start: usize,
    size: usize,
}

impl RamDiskBlock {
    /// First address of the disk.
    pub closed spec fn start_addr(&self) -> nat {
        self.start as nat
    }

    /// Size of the disk in bytes.
    pub closed spec fn byte_size(&self) -> nat {
        self.size as nat
    }

    /// The disk is not empty and ends within the address space.
    pub closed spec fn wf(&self) -> bool {
        &&& self.size > 0
        &&& self.start + self.size <= usize::MAX
    }

    /// The disk between the linker symbols `start` (inclusive) and `end`
    /// (exclusive); an empty range is refused.
    pub fn new(start: usize, end: usize) -> (d: Self)
        requires
            start < end,
        ensures
            d.wf(),
            d.start_addr() == start,
            d.byte_size() == end - start,
    {
        RamDiskBlock { start, size: end - start }
    }

    /// Size of the disk in bytes.
    pub fn size(&self) -> (n: usize)
        ensures
            n == self.byte_size(),
    {
        self.size
    }

    /// Address of the first of `len` bytes transferred at block
    /// `sector_offset`, or `None` when the transfer would reach the end of
    /// the disk (the last byte of the disk is never used).
    pub fn block_address(&self, sector_offset: usize, len: usize) -> (addr: Option<usize>)
        requires
            self.wf(),
        ensures
            addr.is_some() <==> sector_offset * BLOCK_SIZE + len < self.byte_size(),
            addr matches Some(a) ==> a == self.start_addr() + sector_offset * BLOCK_SIZE,
    {
        if sector_offset >= self.size / BLOCK_SIZE + 1 {
            assert(sector_offset * BLOCK_SIZE >= self.size) by (nonlinear_arith)
                requires
                    sector_offset >= self.size / BLOCK_SIZE + 1,
            ;
            return None;
        }
        assert(sector_offset * BLOCK_SIZE <= self.size) by (nonlinear_arith)
            requires
                sector_offset <= self.size / BLOCK_SIZE,
        ;
        let offset = sector_offset * BLOCK_SIZE;
        if len >= self.size - offset {
            None
        } else {
            Some(self.start + offset)
        }
    }
}

/// Distinct blocks of a full block's length never overlap on the disk.
pub proof fn lemma_blocks_disjoint(d: RamDiskBlock, a: usize, b: usize)
    requires
        d.wf(),
        a < b,
        a * BLOCK_SIZE + BLOCK_SIZE < d.byte_size(),
        b * BLOCK_SIZE + BLOCK_SIZE < d.byte_size(),
    ensures
        d.start_addr() + a * BLOCK_SIZE + BLOCK_SIZE <= d.start_addr() + b * BLOCK_SIZE,
{
    assert(a * BLOCK_SIZE + BLOCK_SIZE <= b * BLOCK_SIZE) by (nonlinear_arith)
        requires
            a < b,
    ;
}

} // verus!
