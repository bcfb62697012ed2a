//! An allocator for the heap that hands out memory in rising order and takes
//! none back.

use vstd::prelude::*;

verus! {

/// Whether `align` is a power of two.
pub open spec fn is_power_of_two(align: u64) -> bool {
    align > 0 && align & ((align - 1) as u64) == 0
}

/// The smallest multiple of `align` that is not below `addr`.
pub open spec fn aligned_up(addr: int, align: int) -> int {
    if addr % align == 0 {
        addr
    } else {
        addr - addr % align + align
    }
}

/// The address behind `size` bytes that start at the first multiple of
/// `align` from `next` on, or the largest 64-bit number where that address
/// is larger.
pub open spec fn alloc_end(next: usize, size: usize, align: usize) -> int {
    let end = aligned_up(next as int, align as int) + size;
    if end > u64::MAX {
        u64::MAX as int
    } else {
        end
    }
}

/// `x86_64::align_up`: the smallest address with alignment `align` that is
/// not below `addr`. It panics where `align` is not a power of two, and
/// where that address does not fit into 64 bits.
#[verifier::external_body]
fn align_up(addr: u64, align: u64) -> (aligned: u64)
    requires
        is_power_of_two(align),
        aligned_up(addr as int, align as int) <= u64::MAX,
    ensures
        aligned == aligned_up(addr as int, align as int),
{
    x86_64::align_up(addr, align)
}

/// A simple allocator that allocates memory linearly and ignores freed
/// memory.
#[derive(Debug)]
pub struct BumpAllocator {
    heap_start: usize,
    heap_end: usize,
    next: usize,
}

impl BumpAllocator {
    /// The address at which the heap starts.
    pub closed spec fn spec_heap_start(&self) -> usize {
        self.heap_start
    }

    /// The address at which the heap ends.
    pub closed spec fn spec_heap_end(&self) -> usize {
        self.heap_end
    }

    /// The address from which on the heap is free.
    pub closed spec fn spec_next(&self) -> usize {
        self.next
    }

    /// An allocator for the memory from `heap_start` up to and without
    /// `heap_end`, all of which is free.
    pub fn new(heap_start: usize, heap_end: usize) -> (allocator: Self)
        ensures
            allocator.spec_heap_start() == heap_start,
            allocator.spec_heap_end() == heap_end,
            allocator.spec_next() == heap_start,
    {
        Self { heap_start, heap_end, next: heap_start }
    }

    /// Hands out `size` bytes at an address that is a multiple of `align`,
    /// and returns that address: the first such address from which on the
    /// heap is free. Where the bytes from there on do not fit into the heap,
    /// nothing is handed out.
    pub fn allocate(&mut self, size: usize, align: usize) -> (address: Option<usize>)
        requires
            is_power_of_two(align as u64),
            aligned_up(old(self).spec_next() as int, align as int) <= usize::MAX,
        ensures
            final(self).spec_heap_start() == old(self).spec_heap_start(),
            final(self).spec_heap_end() == old(self).spec_heap_end(),
            address is Some <==> alloc_end(old(self).spec_next(), size, align) <= old(self).spec_heap_end(),
            address matches Some(start) ==> start == aligned_up(old(self).spec_next() as int, align as int)
                && final(self).spec_next() == alloc_end(old(self).spec_next(), size, align),
            address is None ==> final(self).spec_next() == old(self).spec_next(),
    {
        let alloc_start = align_up(self.next as u64, align as u64);
        let alloc_end = alloc_start.saturating_add(size as u64);
        if alloc_end <= self.heap_end as u64 {
            self.next = alloc_end as usize;
            Some(alloc_start as usize)
        } else {
            None
        }
    }

    /// Takes back memory: the memory is not handed out again.
    pub fn deallocate(&mut self, address: usize, size: usize)
        ensures
            *final(self) == *old(self),
    {
    }
}

} // verus!
