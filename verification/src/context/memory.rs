//! Regions of virtual memory that a context owns.
//!
//! A region knows where it lies and how it is mapped. What it asks of the
//! page table it says in a plan, which the caller carries out on the active
//! table.

use crate::memory::page::{canonical, contains, numbers, region_pages, EntryFlags, Page, PageRange, WRITABLE};
use crate::memory::plan::{work_done, PageWork, TablePlan};
use vstd::prelude::*;

verus! {

/// Where each page of a region goes when the region moves to another place.
#[derive(Clone, Copy, Debug)]
pub struct MovePlan {
    pages: PageRange,
    from: u64,
    to: u64,
    size: usize,
    flags: EntryFlags,
}

impl MovePlan {
    #[verifier::type_invariant]
    pub closed spec fn inv(self) -> bool {
        &&& self.from % 4096 == 0
        &&& region_ok(self.from, self.size)
        &&& region_ok(self.to, self.size)
        &&& self.pages@ == region_pages(self.from as int, self.size as int)
    }

    /// The numbers of the pages that move, in rising order.
    pub closed spec fn spec_pages(&self) -> Seq<int> {
        self.pages@
    }

    /// The address at which the region started.
    pub closed spec fn spec_from(&self) -> u64 {
        self.from
    }

    /// The address at which the region starts afterwards.
    pub closed spec fn spec_to(&self) -> u64 {
        self.to
    }

    /// The flags with which the pages are mapped at the new place.
    pub closed spec fn spec_flags(&self) -> EntryFlags {
        self.flags
    }

    /// The pages that move: each is unmapped from the active table, and the
    /// frame that it was mapped to is mapped at [`Self::target`] in the other
    /// table.
    pub fn pages(&self) -> (pages: PageRange)
        ensures
            pages@ == self.spec_pages(),
    {
        self.pages
    }

    /// The flags with which the pages are mapped at the new place.
    pub fn flags(&self) -> (flags: EntryFlags)
        ensures
            flags == self.spec_flags(),
    {
        self.flags
    }

    /// The page at which the frame of `page` is mapped in the other table:
    /// the page that lies as far behind the new start as `page` lies behind
    /// the old.
    pub fn target(&self, page: Page) -> (target: Page)
        requires
            self.spec_pages().contains(page@),
        ensures
            target@ == (page@ * 4096 - self.spec_from() + self.spec_to()) / 4096,
    {
        proof {
            use_type_invariant(self);
        }
        let offset = page.start_address() - self.from;
        Page::containing_address(self.to + offset)
    }
}

/// Whether `size` bytes from the address `start` on can be a region: first
/// and last address are addresses of the machine on the same side of the gap
/// in the middle of the address space. A region without bytes only has to
/// start at an address of the machine.
pub open spec fn region_ok(start: u64, size: usize) -> bool {
    &&& canonical(start)
    &&& size > 0 ==> {
        &&& start + size - 1 <= u64::MAX
        &&& canonical((start + size - 1) as u64)
        &&& (start < 0x8000_0000_0000 <==> start + size - 1 < 0x8000_0000_0000)
    }
}

/// A region of virtual memory: `size` bytes from the address `start` on,
/// mapped with `flags`.
#[derive(Debug)]
pub struct Memory {
    start: u64,
    size: usize,
    flags: EntryFlags,
}

impl Memory {
    #[verifier::type_invariant]
    pub closed spec fn inv(self) -> bool {
        region_ok(self.start, self.size)
    }

    /// The address at which the region starts.
    pub closed spec fn spec_start(&self) -> u64 {
        self.start
    }

    /// The number of bytes of the region.
    pub closed spec fn spec_size(&self) -> usize {
        self.size
    }

    /// The flags with which the region is mapped.
    pub closed spec fn spec_flags(&self) -> EntryFlags {
        self.flags
    }

    /// The numbers of the pages of the region, in rising order.
    pub open spec fn spec_pages(&self) -> Seq<int> {
        region_pages(self.spec_start() as int, self.spec_size() as int)
    }

    /// The address of the last byte of `size` bytes from `start` on.
    fn last_address(start: u64, size: usize) -> (last: u64)
        requires
            size > 0,
            start + size - 1 <= u64::MAX,
        ensures
            last == start + size - 1,
    {
        start + (size as u64 - 1)
    }

    /// The pages of `size` bytes from `start` on.
    fn pages_of(start: u64, size: usize) -> (pages: PageRange)
        requires
            region_ok(start, size),
        ensures
            pages@ == region_pages(start as int, size as int),
    {
        if size == 0 {
            PageRange::empty()
        } else {
            PageRange::between(start, Self::last_address(start, size))
        }
    }

    /// The pages that `larger` bytes from `start` on lie in and `size` bytes
    /// from `start` on do not.
    fn pages_behind(start: u64, size: usize, larger: usize) -> (pages: PageRange)
        requires
            size < larger,
            region_ok(start, size),
            region_ok(start, larger),
        ensures
            pages@ == grown_pages(start, size, larger),
    {
        let first = if size == 0 {
            Page::containing_address(start).number()
        } else {
            Page::containing_address(Self::last_address(start, size)).number() + 1
        };
        let last = Page::containing_address(Self::last_address(start, larger)).number();
        PageRange::from_numbers(first, last)
    }

    /// A region of `size` bytes from `start` on, and the plan that maps its
    /// pages with `flags` and, where `clear` is set, fills it with zeros. A
    /// region that is cleared has to be writable.
    pub fn new(start: u64, size: usize, flags: EntryFlags, clear: bool) -> (made: (Memory, TablePlan))
        requires
            region_ok(start, size),
            clear ==> contains(flags, WRITABLE),
        ensures
            made.0.spec_start() == start,
            made.0.spec_size() == size,
            made.0.spec_flags() == flags,
            made.1.work == PageWork::MapAll,
            made.1.pages@ == made.0.spec_pages(),
            made.1.flags == flags,
            !made.1.release,
            made.1.clear == (if clear {
                Some((start, size))
            } else {
                None
            }),
    {
        let memory = Memory { start, size, flags };
        let plan = memory.map(clear);
        (memory, plan)
    }

    /// The address at which the region starts.
    #[verifier::when_used_as_spec(spec_start)]
    pub fn start_address(&self) -> (start: u64)
        ensures
            start == self.spec_start(),
    {
        self.start
    }

    /// The number of bytes of the region.
    #[verifier::when_used_as_spec(spec_size)]
    pub fn size(&self) -> (size: usize)
        ensures
            size == self.spec_size(),
    {
        self.size
    }

    /// The flags with which the region is mapped.
    #[verifier::when_used_as_spec(spec_flags)]
    pub fn flags(&self) -> (flags: EntryFlags)
        ensures
            flags == self.spec_flags(),
    {
        self.flags
    }

    /// The pages of the region: from the page that holds the first byte to
    /// the page that holds the last.
    pub fn pages(&self) -> (pages: PageRange)
        ensures
            pages@ == self.spec_pages(),
    {
        proof {
            use_type_invariant(self);
        }
        Self::pages_of(self.start, self.size)
    }

    /// The plan that maps every page of the region and, where `clear` is set,
    /// fills the region with zeros.
    pub fn map(&self, clear: bool) -> (plan: TablePlan)
        requires
            clear ==> contains(self.spec_flags(), WRITABLE),
        ensures
            plan.work == PageWork::MapAll,
            plan.pages@ == self.spec_pages(),
            plan.flags == self.spec_flags(),
            !plan.release,
            plan.clear == (if clear {
                Some((self.spec_start(), self.spec_size()))
            } else {
                None
            }),
    {
        TablePlan {
            work: PageWork::MapAll,
            pages: self.pages(),
            flags: self.flags,
            release: false,
            clear: if clear {
                Some((self.start, self.size))
            } else {
                None
            },
        }
    }

    /// The plan that removes the mapping of every page of the region and
    /// gives the frames back to the frame allocator. It is carried out when
    /// the region is given up.
    pub fn unmap(&self) -> (plan: TablePlan)
        ensures
            plan.work == PageWork::UnmapAll,
            plan.pages@ == self.spec_pages(),
            plan.release,
            plan.clear is None,
    {
        TablePlan {
            work: PageWork::UnmapAll,
            pages: self.pages(),
            flags: self.flags,
            release: true,
            clear: None,
        }
    }

    /// Moves the region to the address `new_start` in another page table, and
    /// returns the plan of the move. The frames stay the same, nothing is
    /// copied. The region has to start at the start of a page.
    pub fn move_to(&mut self, new_start: u64) -> (plan: MovePlan)
        requires
            old(self).spec_start() % 4096 == 0,
            region_ok(new_start, old(self).spec_size()),
        ensures
            final(self).spec_start() == new_start,
            final(self).spec_size() == old(self).spec_size(),
            final(self).spec_flags() == old(self).spec_flags(),
            plan.spec_pages() == old(self).spec_pages(),
            plan.spec_from() == old(self).spec_start(),
            plan.spec_to() == new_start,
            plan.spec_flags() == old(self).spec_flags(),
    {
        proof {
            use_type_invariant(&*self);
        }
        let plan = MovePlan {
            pages: self.pages(),
            from: self.start,
            to: new_start,
            size: self.size,
            flags: self.flags,
        };
        self.start = new_start;
        plan
    }

    /// Gives the region the flags `new_flags`, and returns the plan that
    /// changes the mapping of each of its pages.
    pub fn remap(&mut self, new_flags: EntryFlags) -> (plan: TablePlan)
        ensures
            final(self).spec_start() == old(self).spec_start(),
            final(self).spec_size() == old(self).spec_size(),
            final(self).spec_flags() == new_flags,
            plan.work == PageWork::UpdateFlags,
            plan.pages@ == old(self).spec_pages(),
            plan.flags == new_flags,
            !plan.release,
            plan.clear is None,
    {
        proof {
            use_type_invariant(&*self);
        }
        let plan = TablePlan {
            work: PageWork::UpdateFlags,
            pages: self.pages(),
            flags: new_flags,
            release: false,
            clear: None,
        };
        self.flags = new_flags;
        plan
    }

    /// Gives the region the size `new_size`, and returns the plan for the
    /// pages that come or go. Pages that stay are not touched.
    ///
    /// Where the region grows, the pages behind the page of its last byte up
    /// to the page of its new last byte are mapped unless they are mapped
    /// already, and the new bytes are set to zero where `clear` is set. Where
    /// it shrinks, the pages behind the page of its new last byte up to the
    /// page of its last byte are unmapped unless they are not mapped. Where
    /// the size stays, there is nothing to do.
    pub fn resize(&mut self, new_size: usize, clear: bool) -> (plan: Option<TablePlan>)
        requires
            region_ok(old(self).spec_start(), new_size),
        ensures
            final(self).spec_start() == old(self).spec_start(),
            final(self).spec_size() == new_size,
            final(self).spec_flags() == old(self).spec_flags(),
            plan is Some <==> new_size != old(self).spec_size(),
            new_size > old(self).spec_size() ==> {
                &&& plan->0.work == PageWork::MapMissing
                &&& plan->0.pages@ == grown_pages(old(self).spec_start(), old(self).spec_size(), new_size)
                &&& plan->0.flags == old(self).spec_flags()
                &&& !plan->0.release
                &&& plan->0.clear == (if clear {
                    Some(
                        (
                            (old(self).spec_start() + old(self).spec_size()) as u64,
                            (new_size - old(self).spec_size()) as usize,
                        ),
                    )
                } else {
                    None
                })
            },
            new_size < old(self).spec_size() ==> {
                &&& plan->0.work == PageWork::UnmapPresent
                &&& plan->0.pages@ == grown_pages(old(self).spec_start(), new_size, old(self).spec_size())
                &&& plan->0.release
                &&& plan->0.clear is None
            },
    {
        proof {
            use_type_invariant(&*self);
        }
        let plan = if new_size > self.size {
            Some(
                TablePlan {
                    work: PageWork::MapMissing,
                    pages: Self::pages_behind(self.start, self.size, new_size),
                    flags: self.flags,
                    release: false,
                    clear: if clear {
                        Some((self.start + self.size as u64, new_size - self.size))
                    } else {
                        None
                    },
                },
            )
        } else if new_size < self.size {
            Some(
                TablePlan {
                    work: PageWork::UnmapPresent,
                    pages: Self::pages_behind(self.start, new_size, self.size),
                    flags: self.flags,
                    release: true,
                    clear: None,
                },
            )
        } else {
            None
        };
        self.size = new_size;
        plan
    }
}

/// The numbers of the pages that a region at `start` gains when it grows from
/// `size` to `larger` bytes, and loses when it shrinks from `larger` to
/// `size` bytes: the pages behind the page of the last byte of the smaller
/// region, up to the page of the last byte of the larger.
pub open spec fn grown_pages(start: u64, size: usize, larger: usize) -> Seq<int> {
    if size == 0 {
        region_pages(start as int, larger as int)
    } else {
        numbers((start + size - 1) / 4096 + 1, (start + larger - 1) / 4096)
    }
}

/// The pages of the larger region are those of the smaller, followed by the
/// pages that it gains: none of the gained pages holds a byte of the smaller
/// region.
pub proof fn lemma_grown_pages(start: u64, size: usize, larger: usize)
    requires
        size < larger,
    ensures
        region_pages(start as int, larger as int) == region_pages(start as int, size as int) + grown_pages(
            start,
            size,
            larger,
        ),
        forall|page: int| #[trigger]
            grown_pages(start, size, larger).contains(page) ==> !region_pages(
                start as int,
                size as int,
            ).contains(page),
{
    let owned = region_pages(start as int, size as int);
    let gained = grown_pages(start, size, larger);
    assert(region_pages(start as int, larger as int) =~= owned + gained);
    assert forall|page: int| #[trigger] gained.contains(page) implies !owned.contains(page) by {
        let i = choose|i: int| 0 <= i < gained.len() && gained[i] == page;
        if owned.contains(page) {
            let j = choose|j: int| 0 <= j < owned.len() && owned[j] == page;
        }
    }
}

/// Growing a region and shrinking it back to its size, whatever the two sizes
/// are, leaves every page of the region mapped to its frame and none of the
/// gained pages mapped: the page table is as before without the gained
/// pages. Where none of them was mapped before, the table is as it was.
pub proof fn lemma_resize_round_trip(
    start: u64,
    size: usize,
    larger: usize,
    before: Map<int, int>,
    grown: Map<int, int>,
    after: Map<int, int>,
)
    requires
        size < larger,
        work_done(PageWork::MapMissing, grown_pages(start, size, larger), before, grown),
        work_done(PageWork::UnmapPresent, grown_pages(start, size, larger), grown, after),
    ensures
        after == before.remove_keys(grown_pages(start, size, larger).to_set()),
        forall|page: int| #[trigger]
            region_pages(start as int, size as int).contains(page) ==> (after.contains_key(page)
                <==> before.contains_key(page)) && (before.contains_key(page) ==> after[page]
                == before[page]),
        forall|page: int| #[trigger]
            grown_pages(start, size, larger).contains(page) ==> !after.contains_key(page),
        (forall|page: int| #[trigger]
            grown_pages(start, size, larger).contains(page) ==> !before.contains_key(page)) ==> after
            == before,
{
    let pages = grown_pages(start, size, larger);
    lemma_grown_pages(start, size, larger);
    assert(after =~= before.remove_keys(pages.to_set()));
    if forall|page: int| #[trigger] pages.contains(page) ==> !before.contains_key(page) {
        assert(after =~= before);
    }
}

/// Thread local storage of a context: the master copy and the region that
/// holds the copy of the thread.
#[derive(Debug)]
pub struct Tls {
    /// The address of the master copy.
    pub master: u64,
    /// The number of bytes of the master copy.
    pub file_size: usize,
    /// The region that holds the copy of the thread.
    pub mem: Memory,
    /// Where the copy starts within the region.
    pub offset: usize,
}

impl Tls {
    /// The copy that loads the storage from the master: the address to copy
    /// from, the address to copy to, and the number of bytes.
    pub fn load(&self) -> (copy: (u64, u64, usize))
        requires
            self.mem.spec_start() + self.offset <= u64::MAX,
        ensures
            copy.0 == self.master,
            copy.1 == self.mem.spec_start() + self.offset,
            copy.2 == self.file_size,
    {
        (self.master, self.mem.start_address() + self.offset as u64, self.file_size)
    }
}

} // verus!
