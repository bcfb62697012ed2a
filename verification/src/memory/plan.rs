//! Work on the active page table, said in plain values for the caller to
//! carry out.

use super::page::{EntryFlags, PageRange};
use vstd::prelude::*;

verus! {

/// What is done to each page of a plan.
#[derive(Clone, Copy, Debug, PartialEq, Eq, Structural)]
pub enum PageWork {
    /// Map the page to a frame that the frame allocator hands out.
    MapAll,
    /// Map the page as `MapAll` does, unless it is mapped already.
    MapMissing,
    /// Remove the mapping of the page.
    UnmapAll,
    /// Remove the mapping of the page, unless it is not mapped.
    UnmapPresent,
    /// Give the mapping of the page the flags of the plan.
    UpdateFlags,
}

impl PageWork {
    /// Whether the work touches a page that is mapped, or not mapped, as
    /// `mapped` says.
    ///
    /// Work that comes with a condition passes over the pages that do not
    /// meet it. Work without a condition touches every page: it takes for
    /// granted that a page to be mapped is not mapped and that any other
    /// page is.
    pub open spec fn spec_touches(self, mapped: bool) -> bool {
        match self {
            PageWork::MapMissing => !mapped,
            PageWork::UnmapPresent => mapped,
            _ => true,
        }
    }

    /// Whether the work touches a page that is mapped, or not mapped, as
    /// `mapped` says.
    #[verifier::when_used_as_spec(spec_touches)]
    pub fn touches(self, mapped: bool) -> (touched: bool)
        ensures
            touched == self.spec_touches(mapped),
    {
        match self {
            PageWork::MapMissing => !mapped,
            PageWork::UnmapPresent => mapped,
            _ => true,
        }
    }

    /// Whether the work maps pages, and so needs a frame for each page that
    /// it touches.
    pub fn maps(self) -> (mapping: bool)
        ensures
            mapping == (self == PageWork::MapAll || self == PageWork::MapMissing),
    {
        match self {
            PageWork::MapAll | PageWork::MapMissing => true,
            _ => false,
        }
    }

    /// Whether the work unmaps pages.
    pub fn unmaps(self) -> (unmapping: bool)
        ensures
            unmapping == (self == PageWork::UnmapAll || self == PageWork::UnmapPresent),
    {
        match self {
            PageWork::UnmapAll | PageWork::UnmapPresent => true,
            _ => false,
        }
    }
}

/// Work on the active page table that a region asks for: `work` is done to
/// every page of `pages` in rising order, with `flags` where the work takes
/// flags. Where `release` is set, the frame of each page that is unmapped
/// goes back to the frame allocator. Then the translation caches are
/// flushed, if any mapping changed. At the end the `clear.1` bytes from
/// address `clear.0` on are set to zero, where `clear` is given.
#[derive(Clone, Copy, Debug)]
pub struct TablePlan {
    /// What is done to each page.
    pub work: PageWork,
    /// The pages that the work is done to.
    pub pages: PageRange,
    /// The flags of the mappings that are made or changed.
    pub flags: EntryFlags,
    /// Whether the frames of the pages that are unmapped are given back to
    /// the frame allocator.
    pub release: bool,
    /// The bytes that are set to zero at the end: first address and length.
    pub clear: Option<(u64, usize)>,
}

/// Whether a page table that maps pages to frames as `before` says maps them
/// as `after` says once `work` is done to `pages`.
///
/// Mapping adds the pages that are not mapped and changes no other mapping;
/// unmapping takes the pages away; a change of flags leaves every page with
/// its frame.
pub open spec fn work_done(work: PageWork, pages: Seq<int>, before: Map<int, int>, after: Map<int, int>) -> bool {
    match work {
        PageWork::MapAll | PageWork::MapMissing => {
            &&& after.dom() == before.dom().union(pages.to_set())
            &&& forall|page: int| #[trigger] before.dom().contains(page) ==> after[page] == before[page]
        },
        PageWork::UnmapAll | PageWork::UnmapPresent => after == before.remove_keys(pages.to_set()),
        PageWork::UpdateFlags => after == before,
    }
}

impl TablePlan {
    /// Whether a page table that maps pages to frames as `before` says maps
    /// them as `after` says once the plan is carried out.
    pub open spec fn carried_out(self, before: Map<int, int>, after: Map<int, int>) -> bool {
        work_done(self.work, self.pages@, before, after)
    }
}

} // verus!
