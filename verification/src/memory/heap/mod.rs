//! The heap of the kernel: where it lies and how it is mapped.

use super::page::{canonical, pages_between, PageRange, GLOBAL, NO_EXECUTE, PRESENT, WRITABLE};
use super::plan::{PageWork, TablePlan};
use vstd::prelude::*;

pub mod bump_allocator;

verus! {

/// Whether `size` bytes from the address `offset` on can be the heap: there
/// is at least one byte, and first and last address are addresses of the
/// machine on the same side of the gap in the middle of the address space.
pub open spec fn heap_ok(offset: usize, size: usize) -> bool {
    &&& size > 0
    &&& offset + size - 1 <= usize::MAX
    &&& canonical(offset as u64)
    &&& canonical((offset + size - 1) as u64)
    &&& (offset < 0x8000_0000_0000 <==> offset + size - 1 < 0x8000_0000_0000)
}

/// The flags with which the heap is mapped: present, the same in all address
/// spaces, writable, and not to be run.
pub const HEAP_FLAGS: u64 = 0x8000_0000_0000_0103;

/// The plan that maps the `size` bytes of the heap from the address `offset`
/// on: every page from the one of the first byte to the one of the last.
fn map_heap(offset: usize, size: usize) -> (plan: TablePlan)
    requires
        heap_ok(offset, size),
    ensures
        plan.work == PageWork::MapAll,
        plan.pages@ == pages_between(offset as int, offset + size - 1),
        plan.flags == HEAP_FLAGS,
        !plan.release,
        plan.clear is None,
{
    let flags = PRESENT | GLOBAL | WRITABLE | NO_EXECUTE;
    assert(0x1u64 | 0x100u64 | 0x2u64 | 0x8000_0000_0000_0000u64 == 0x8000_0000_0000_0103u64) by (bit_vector);
    TablePlan {
        work: PageWork::MapAll,
        pages: PageRange::between(offset as u64, (offset + (size - 1)) as u64),
        flags,
        release: false,
        clear: None,
    }
}

/// Sets up the heap of `size` bytes at the address `offset`: returns the plan
/// that maps its pages, and the start and the size of the memory that the
/// caller hands to the allocator of the heap once the plan is carried out.
pub fn init(offset: usize, size: usize) -> (heap: (TablePlan, usize, usize))
    requires
        heap_ok(offset, size),
    ensures
        heap.0.work == PageWork::MapAll,
        heap.0.pages@ == pages_between(offset as int, offset + size - 1),
        heap.0.flags == HEAP_FLAGS,
        !heap.0.release,
        heap.0.clear is None,
        heap.1 == offset,
        heap.2 == size,
{
    // Map heap pages
    let plan = map_heap(offset, size);
    // Initialize global heap
    (plan, offset, size)
}

} // verus!
