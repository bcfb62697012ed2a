//! The page table that the processor works with, and page tables that are
//! built or changed on the side.

use super::frame::{valid_phys_addr, Frame};
use super::mapper::MapperFlush;
use super::page::{canonical, EntryFlags, Page};
use super::{allocate_frames, FrameAllocator, KernelAllocator, MemoryState};
use vstd::prelude::*;

verus! {

/// A mapping that the caller has to enter into a page table: `page` is
/// mapped to `frame` with `flags`.
#[derive(Clone, Copy, Debug)]
pub struct MapTo {
    /// The page that is mapped.
    pub page: Page,
    /// The frame that the page is mapped to.
    pub frame: Frame,
    /// The flags of the mapping.
    pub flags: EntryFlags,
}

impl MapTo {
    /// The page table after the mapping is entered into a table that maps
    /// pages to frames as `before` says.
    pub open spec fn entered(self, before: Map<int, int>) -> Map<int, int> {
        before.insert(self.page@, self.frame@)
    }
}

/// The frame that a table which maps pages to frames as `table` says
/// translates `page` to, if it maps the page.
pub open spec fn translated(table: Map<int, int>, page: int) -> Option<int> {
    if table.contains_key(page) {
        Some(table[page])
    } else {
        None
    }
}

/// The page table after `page` is unmapped in a table that maps pages to
/// frames as `table` says.
pub open spec fn unmapped(table: Map<int, int>, page: int) -> Map<int, int> {
    table.remove(page)
}

/// Mapping round trip: a page that is mapped translates to the frame that it
/// was mapped to, and no longer translates once it is unmapped. Other pages
/// translate as before.
pub proof fn lemma_mapping_round_trip(before: Map<int, int>, mapping: MapTo, other: int)
    requires
        other != mapping.page@,
    ensures
        translated(mapping.entered(before), mapping.page@) == Some(mapping.frame@),
        translated(unmapped(mapping.entered(before), mapping.page@), mapping.page@) is None,
        translated(mapping.entered(before), other) == translated(before, other),
        translated(unmapped(mapping.entered(before), mapping.page@), other) == translated(before, other),
{
}

/// The page table that is loaded into the processor.
///
/// There is one such table at a time. Whoever makes a second value of this
/// type speaks of the same table.
pub struct ActivePageTable {
    p4_frame: Frame,
}

/// A page table that is not loaded, known by the frame of its level 4 table.
pub struct InactivePageTable {
    p4_frame: Frame,
}

impl View for ActivePageTable {
    type V = int;

    /// The number of the frame that holds the level 4 table.
    closed spec fn view(&self) -> int {
        self.p4_frame@
    }
}

impl View for InactivePageTable {
    type V = int;

    /// The number of the frame that holds the level 4 table.
    closed spec fn view(&self) -> int {
        self.p4_frame@
    }
}

impl ActivePageTable {
    /// The active table, whose level 4 table the root register of the
    /// processor names as `p4_frame`.
    pub fn new(p4_frame: Frame) -> (table: ActivePageTable)
        ensures
            table@ == p4_frame@,
    {
        ActivePageTable { p4_frame }
    }

    /// Makes `new_table` the active table, and returns the table that was
    /// active before. The caller loads [`Self::address`] into the root
    /// register of the processor.
    pub fn switch(&mut self, new_table: InactivePageTable) -> (old_table: InactivePageTable)
        ensures
            old_table@ == old(self)@,
            final(self)@ == new_table@,
    {
        let old_table = InactivePageTable { p4_frame: self.p4_frame };
        self.p4_frame = new_table.p4_frame;
        old_table
    }

    /// The physical address of the level 4 table.
    pub fn address(&self) -> (address: u64)
        ensures
            address == self@ * 4096,
            valid_phys_addr(address),
    {
        self.p4_frame.start_address()
    }

    /// Takes a frame from the frame allocator of the kernel for `page`, and
    /// returns the mapping of the page to that frame with `flags`, which the
    /// caller enters into the table, and the promise to flush the page. Where
    /// no frame is to be had, nothing is mapped. The memory has to be set up.
    pub fn map(&mut self, page: Page, flags: EntryFlags, state: &mut MemoryState) -> (mapping: Option<
        (MapTo, MapperFlush),
    >)
        requires
            old(state).wf(),
            old(state).initialized(),
        ensures
            final(self)@ == old(self)@,
            final(state).wf(),
            final(state).initialized(),
            final(state).spec_offset() == old(state).spec_offset(),
            final(state).allocator() == KernelAllocator::after_allocation(old(state).allocator(), 1),
            match mapping {
                Some((map_to, flush)) => {
                    &&& KernelAllocator::allocation(old(state).allocator(), 1) == Some(map_to.frame@)
                    &&& map_to.page == page
                    &&& map_to.flags == flags
                    &&& flush@ == page@
                },
                None => KernelAllocator::allocation(old(state).allocator(), 1) is None,
            },
    {
        match allocate_frames(state, 1) {
            Some(frame) => Some((MapTo { page, frame, flags }, MapperFlush::new(page))),
            None => None,
        }
    }
}

/// The index of the entry of a level 4 table through which the addresses
/// from `physical_memory_offset` on are mapped.
pub open spec fn shared_index(physical_memory_offset: u64) -> int {
    (physical_memory_offset as int / 0x80_0000_0000) % 512
}

/// The entries of the level 4 table of a new page table, made beside a table
/// whose level 4 table holds `active`: the entry at `index` is taken over,
/// every other entry is zero.
pub open spec fn first_entries(active: Seq<u64>, index: int) -> Seq<u64> {
    Seq::new(
        512,
        |k: int|
            if k == index {
                active[k]
            } else {
                0u64
            },
    )
}

impl InactivePageTable {
    /// A new page table in `frame`, and the 512 entries of its level 4 table,
    /// which the caller writes into the frame.
    ///
    /// `active` holds the entries of the level 4 table of the active table.
    /// The new table takes over the one entry through which all physical
    /// memory is mapped from the address `physical_memory_offset` on, so that
    /// the memory of the machine is reached in the new table as it is in the
    /// active one. Every other entry is zero, which is an unused entry: the
    /// frame is cleared of what it held before.
    pub fn new(frame: Frame, physical_memory_offset: u64, active: &Vec<u64>) -> (made: (
        InactivePageTable,
        Vec<u64>,
    ))
        requires
            canonical(physical_memory_offset),
            active@.len() == 512,
        ensures
            made.0@ == frame@,
            made.1@ == first_entries(active@, shared_index(physical_memory_offset)),
    {
        let index = Page::containing_address(physical_memory_offset).p4_index();
        assert((physical_memory_offset / 4096) / 0x800_0000 == physical_memory_offset / 0x80_0000_0000);
        let mut entries: Vec<u64> = Vec::new();
        let mut i: usize = 0;
        while i < 512
            invariant
                i <= 512,
                active@.len() == 512,
                index == shared_index(physical_memory_offset),
                entries@.len() == i,
                forall|k: int|
                    0 <= k < i ==> #[trigger] entries@[k] == first_entries(active@, index as int)[k],
            decreases 512 - i,
        {
            if i == index as usize {
                entries.push(active[i]);
            } else {
                entries.push(0);
            }
            i = i + 1;
        }
        assert(entries@ =~= first_entries(active@, index as int));
        (InactivePageTable { p4_frame: frame }, entries)
    }

    /// The page table whose level 4 table lies at the physical address
    /// `cr3`.
    pub fn from_address(cr3: u64) -> (table: InactivePageTable)
        requires
            valid_phys_addr(cr3),
        ensures
            table@ == cr3 / 4096,
    {
        InactivePageTable { p4_frame: Frame::containing_address(cr3) }
    }

    /// The physical address of the level 4 table.
    pub fn address(&self) -> (address: u64)
        ensures
            address == self@ * 4096,
            valid_phys_addr(address),
    {
        self.p4_frame.start_address()
    }
}

} // verus!
