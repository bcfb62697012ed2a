//! The allocator that hands out the frames of the usable areas one after
//! another and never takes one back.

use super::area::{MemoryArea, MemoryAreaIter};
use super::bump_model::{
    area_frames, first_frame, frames_upto, is_stale, last_frame, lemma_area_counts, lemma_counts_upto,
    lemma_frames_upto_grows, lemma_moved_on, lemma_next_area_upto, lemma_range_len, lemma_search, max_of,
    next_area, next_area_upto, range_len, search, searchable, BumpModel,
};
use super::frame::{frame_run, valid_phys_addr, Frame, FRAME_LIMIT};
use super::FrameAllocator;
use vstd::prelude::*;
use vstd::set_lib::*;

verus! {

/// The allocator that walks through the usable areas of the memory map and
/// hands out their frames in rising order. It takes no frame back.
pub struct BumpAllocator<'a> {
    next_free_frame: Frame,
    current_area: Option<MemoryArea>,
    areas: MemoryAreaIter<'a>,
    kernel_start: Frame,
    kernel_end: Frame,
    allocated: Ghost<Set<int>>,
}

/// The number of frames from `lo` up to and without `end`.
fn range_count(lo: u64, end: u64) -> (count: u64)
    ensures
        count == range_len(lo as int, end - 1),
{
    if end > lo {
        end - lo
    } else {
        0
    }
}

impl<'a> View for BumpAllocator<'a> {
    type V = BumpModel;

    /// What the allocator knows.
    closed spec fn view(&self) -> BumpModel {
        BumpModel {
            areas: self.areas@,
            cursor: self.next_free_frame@,
            current: self.current_area,
            kernel_start: self.kernel_start@,
            kernel_end: self.kernel_end@,
            allocated: self.allocated@,
        }
    }
}

impl<'a> BumpAllocator<'a> {
    /// The number of frames of `area` that can still be handed out.
    fn free_in_area(&self, area: MemoryArea) -> (count: u64)
        requires
            self@.inv(),
            last_frame(area) < FRAME_LIMIT - 1,
        ensures
            count == self@.free_in(area).len(),
            count <= area_frames(area).len(),
    {
        proof {
            lemma_area_counts(self@, area);
        }
        let cursor = self.next_free_frame.number();
        let kernel_start = self.kernel_start.number();
        let kernel_end = self.kernel_end.number();
        let lo = if area.start_frame_number >= cursor {
            area.start_frame_number
        } else {
            cursor
        };
        let end = area.end_frame_number;
        let kernel_lo = if lo >= kernel_start {
            lo
        } else {
            kernel_start
        };
        let kernel_end = if end <= kernel_end + 1 {
            end
        } else {
            kernel_end + 1
        };
        range_count(lo, end) - range_count(kernel_lo, kernel_end)
    }

    /// Takes the area from which frames are handed out next: of the areas
    /// that do not end before the cursor the one that starts lowest. The
    /// cursor moves up to the start of that area.
    fn choose_next_area(&mut self)
        requires
            searchable(old(self)@),
        ensures
            final(self)@ == (BumpModel {
                current: next_area(old(self)@.areas, old(self)@.cursor),
                cursor: match next_area(old(self)@.areas, old(self)@.cursor) {
                    Some(area) => max_of(old(self)@.cursor, first_frame(area)),
                    None => old(self)@.cursor,
                },
                ..old(self)@
            }),
    {
        let cursor = self.next_free_frame.number();
        let mut rest = self.areas;
        let mut best: Option<MemoryArea> = None;
        let ghost all = self.areas@;
        let ghost mut seen: nat = 0;
        loop
            invariant
                all == self.areas@,
                seen <= all.len(),
                rest@ == all.subrange(seen as int, all.len() as int),
                best == match next_area_upto(all, cursor as int, seen) {
                    Some(k) => Some(all[k]),
                    None => None,
                },
                next_area_upto(all, cursor as int, seen) matches Some(k) ==> 0 <= k < seen,
            ensures
                seen == all.len(),
            decreases all.len() - seen,
        {
            let ghost before = rest@;
            match rest.next() {
                None => {
                    assert(before.len() == all.len() - seen);
                    break ;
                },
                Some(area) => {
                    proof {
                        assert(before.len() == all.len() - seen);
                        assert(area == all[seen as int]);
                        assert(rest@ == all.subrange(seen as int + 1, all.len() as int));
                        seen = seen + 1;
                    }
                    if area.end_frame_number > cursor {
                        let better = match best {
                            Some(found) => area.start_frame_number < found.start_frame_number,
                            None => true,
                        };
                        if better {
                            best = Some(area);
                        }
                    }
                },
            }
        }
        self.current_area = best;
        if let Some(area) = best {
            if cursor < area.start_frame_number {
                self.next_free_frame = Frame::from_number(area.start_frame_number);
            }
        }
    }
}

/// Whether the areas that `areas` has yet to hand out leave room for a cursor
/// behind every frame number and hold no more frames than the machine can
/// count.
fn areas_fit(areas: MemoryAreaIter) -> (fit: bool)
    ensures
        fit == ((forall|k: int|
            0 <= k < areas@.len() ==> first_frame(#[trigger] areas@[k]) < FRAME_LIMIT - 1 && last_frame(
                areas@[k],
            ) < FRAME_LIMIT - 1) && frames_upto(areas@, areas@.len()) <= usize::MAX),
{
    let ghost all = areas@;
    let ghost mut seen: nat = 0;
    let mut rest = areas;
    let mut total: usize = 0;
    loop
        invariant
            all == areas@,
            seen <= all.len(),
            rest@ == all.subrange(seen as int, all.len() as int),
            total == frames_upto(all, seen),
            forall|k: int|
                0 <= k < seen ==> first_frame(#[trigger] all[k]) < FRAME_LIMIT - 1 && last_frame(all[k])
                    < FRAME_LIMIT - 1,
        ensures
            seen == all.len(),
            total == frames_upto(all, seen),
            forall|k: int|
                0 <= k < seen ==> first_frame(#[trigger] all[k]) < FRAME_LIMIT - 1 && last_frame(all[k])
                    < FRAME_LIMIT - 1,
        decreases all.len() - seen,
    {
        let ghost before = rest@;
        match rest.next() {
            None => {
                assert(before.len() == all.len() - seen);
                break ;
            },
            Some(area) => {
                proof {
                    assert(before.len() == all.len() - seen);
                    assert(area == all[seen as int]);
                    assert(rest@ == all.subrange(seen as int + 1, all.len() as int));
                    lemma_range_len(first_frame(area), last_frame(area));
                }
                if area.start_frame_number >= FRAME_LIMIT - 1 || area.end_frame_number >= FRAME_LIMIT {
                    assert(!(first_frame(all[seen as int]) < FRAME_LIMIT - 1 && last_frame(
                        all[seen as int],
                    ) < FRAME_LIMIT - 1));
                    return false;
                }
                let count = range_count(area.start_frame_number, area.end_frame_number);
                if count > (usize::MAX - total) as u64 {
                    proof {
                        lemma_frames_upto_grows(all, seen + 1, all.len());
                        assert(frames_upto(all, seen + 1) == total + count);
                    }
                    return false;
                }
                total = total + count as usize;
                proof {
                    seen = seen + 1;
                }
            },
        }
    }
    true
}

impl<'a> BumpAllocator<'a> {
    /// An allocator for the areas that `memory_areas` has yet to hand out,
    /// which spares the frames from the one that holds the address
    /// `kernel_start` to the one that holds `kernel_end`.
    ///
    /// The two addresses have to be physical addresses, and areas and kernel
    /// have to fit the machine, as [`BumpModel::fits`] says. [`Self::try_new`]
    /// tests this.
    pub fn new(kernel_start: usize, kernel_end: usize, memory_areas: MemoryAreaIter<'a>) -> (allocator:
        Self)
        requires
            valid_phys_addr(kernel_start as u64),
            valid_phys_addr(kernel_end as u64),
            BumpModel::fits(memory_areas@, kernel_start as int / 4096, kernel_end as int / 4096),
        ensures
            allocator@ == BumpModel::initial(
                memory_areas@,
                kernel_start as int / 4096,
                kernel_end as int / 4096,
            ),
            allocator@.inv(),
    {
        let mut allocator = BumpAllocator {
            next_free_frame: Frame::containing_address(0),
            current_area: None,
            areas: memory_areas,
            kernel_start: Frame::containing_address(kernel_start as u64),
            kernel_end: Frame::containing_address(kernel_end as u64),
            allocated: Ghost(Set::empty()),
        };
        allocator.choose_next_area();
        proof {
            BumpModel::lemma_initial(memory_areas@, kernel_start as int / 4096, kernel_end as int / 4096);
        }
        allocator
    }

    /// An allocator as [`Self::new`] makes it, where addresses, areas and
    /// kernel fit the machine, and `None` where they do not.
    pub fn try_new(kernel_start: usize, kernel_end: usize, memory_areas: MemoryAreaIter<'a>) -> (allocator:
        Option<Self>)
        ensures
            allocator is Some <==> valid_phys_addr(kernel_start as u64) && valid_phys_addr(
                kernel_end as u64,
            ) && BumpModel::fits(memory_areas@, kernel_start as int / 4096, kernel_end as int / 4096),
            allocator matches Some(a) ==> a@ == BumpModel::initial(
                memory_areas@,
                kernel_start as int / 4096,
                kernel_end as int / 4096,
            ) && a@.inv(),
    {
        let limit: u64 = (FRAME_LIMIT - 1) * 4096;
        if kernel_start as u64 >= limit || kernel_end as u64 >= limit {
            return None;
        }
        if !areas_fit(memory_areas) {
            return None;
        }
        Some(Self::new(kernel_start, kernel_end, memory_areas))
    }
}

impl<'a> BumpAllocator<'a> {
    /// Searches a run of `count` frames from the cursor on, and hands it out.
    fn take_run(&mut self, count: usize) -> (frame: Option<Frame>)
        requires
            old(self)@.inv(),
        ensures
            final(self)@ == search(old(self)@, count as nat).1,
            frame matches Some(first) ==> search(old(self)@, count as nat).0 == Some(first@),
            frame is None ==> search(old(self)@, count as nat).0 is None,
    {
        if count == 0 {
            return None;
        }
        loop
            invariant
                count > 0,
                self@.inv(),
                search(self@, count as nat) == search(old(self)@, count as nat),
            decreases FRAME_LIMIT - self@.cursor, (if is_stale(self@) { 1int } else { 0int }),
        {
            let ghost before = self@;
            proof {
                lemma_search(before, count as nat);
            }
            let area = match self.current_area {
                None => {
                    return None;
                },
                Some(area) => area,
            };
            let cursor = self.next_free_frame.number();
            let kernel_start = self.kernel_start.number();
            let kernel_end = self.kernel_end.number();
            if area.end_frame_number < cursor || count as u64 > area.end_frame_number - cursor {
                // The run does not fit into the current area: leave the area.
                if cursor < area.end_frame_number {
                    self.next_free_frame = Frame::from_number(area.end_frame_number);
                }
                proof {
                    lemma_next_area_upto(before.areas, self@.cursor, before.areas.len());
                    lemma_moved_on(before, self@, before.areas.len());
                }
                self.choose_next_area();
                proof {
                    lemma_moved_on(before, self@, before.areas.len());
                }
                if self.current_area.is_none() {
                    return None;
                }
            } else if cursor <= kernel_end && cursor + (count as u64 - 1) >= kernel_start {
                // The run meets the kernel: go on behind the kernel.
                self.next_free_frame = Frame::from_number(kernel_end + 1);
                proof {
                    lemma_moved_on(before, self@, before.areas.len());
                }
            } else {
                // The run is free: move the cursor behind it, and hand it out.
                let first = self.next_free_frame;
                self.next_free_frame = Frame::from_number(cursor + count as u64);
                self.allocated = Ghost(before.allocated.union(frame_run(cursor as int, count as int)));
                return Some(first);
            }
        }
    }

    /// Hands out one frame.
    pub fn allocate_frame(&mut self) -> (frame: Option<Frame>)
        requires
            old(self)@.inv(),
        ensures
            final(self)@ == search(old(self)@, 1).1,
            frame matches Some(first) ==> search(old(self)@, 1).0 == Some(first@),
            frame is None ==> search(old(self)@, 1).0 is None,
    {
        self.take_run(1)
    }

    /// Takes back one frame: nothing changes, the frame is not handed out
    /// again.
    pub fn deallocate_frame(&mut self, frame: Frame)
        ensures
            final(self)@ == old(self)@,
    {
    }
}

impl<'a> FrameAllocator for BumpAllocator<'a> {
    type Model = BumpModel;

    open spec fn model(&self) -> BumpModel {
        self@
    }

    open spec fn inv(m: BumpModel) -> bool {
        m.inv()
    }

    open spec fn allocated(m: BumpModel) -> Set<int> {
        m.allocated
    }

    /// The frames of all usable areas.
    open spec fn total_frames(m: BumpModel) -> nat {
        m.total_upto(m.areas.len())
    }

    /// The frames of the usable areas that the cursor has not passed and that
    /// do not belong to the kernel.
    open spec fn free_count(m: BumpModel) -> nat {
        m.free_upto(m.areas.len())
    }

    /// The frames of the usable areas that the cursor has passed or that
    /// belong to the kernel.
    open spec fn used_count(m: BumpModel) -> nat {
        m.used_upto(m.areas.len())
    }

    open spec fn allocation(m: BumpModel, count: nat) -> Option<int> {
        search(m, count).0
    }

    open spec fn after_allocation(m: BumpModel, count: nat) -> BumpModel {
        search(m, count).1
    }

    /// Any frames may be given back.
    open spec fn admits_release(m: BumpModel, first: int, count: nat) -> bool {
        true
    }

    /// Nothing changes: the allocator takes no frame back, and a frame that
    /// was handed out once is never handed out again.
    open spec fn after_release(m: BumpModel, first: int, count: nat) -> BumpModel {
        m
    }

    /// The mode means nothing to this allocator.
    open spec fn after_set_noncore(m: BumpModel, noncore: bool) -> BumpModel {
        m
    }

    proof fn lemma_accounting(m: BumpModel) {
        lemma_counts_upto(m, m.areas.len());
    }

    proof fn lemma_allocation(m: BumpModel, count: nat) {
        lemma_search(m, count);
    }

    proof fn lemma_release(m: BumpModel, first: int, count: nat) {
    }

    proof fn lemma_set_noncore(m: BumpModel, noncore: bool) {
    }

    fn set_noncore(&mut self, noncore: bool) {
    }


    fn free_frames(&self) -> (count: usize) {
        let ghost all = self.areas@;
        let ghost mut seen: nat = 0;
        let mut rest = self.areas;
        let mut count: usize = 0;
        loop
            invariant
                self@.inv(),
                all == self@.areas,
                seen <= all.len(),
                rest@ == all.subrange(seen as int, all.len() as int),
                count == self@.free_upto(seen),
            ensures
                seen == all.len(),
                count == self@.free_upto(seen),
            decreases all.len() - seen,
        {
            let ghost before = rest@;
            match rest.next() {
                None => {
                    assert(before.len() == all.len() - seen);
                    break ;
                },
                Some(area) => {
                    proof {
                        assert(before.len() == all.len() - seen);
                        assert(area == all[seen as int]);
                        assert(rest@ == all.subrange(seen as int + 1, all.len() as int));
                        lemma_counts_upto(self@, seen + 1);
                        lemma_frames_upto_grows(all, seen + 1, all.len());
                    }
                    let free = self.free_in_area(area);
                    count = count + free as usize;
                    proof {
                        seen = seen + 1;
                    }
                },
            }
        }
        count
    }

    fn used_frames(&self) -> (count: usize) {
        let ghost all = self.areas@;
        let ghost mut seen: nat = 0;
        let mut rest = self.areas;
        let mut count: usize = 0;
        loop
            invariant
                self@.inv(),
                all == self@.areas,
                seen <= all.len(),
                rest@ == all.subrange(seen as int, all.len() as int),
                count == self@.used_upto(seen),
            ensures
                seen == all.len(),
                count == self@.used_upto(seen),
            decreases all.len() - seen,
        {
            let ghost before = rest@;
            match rest.next() {
                None => {
                    assert(before.len() == all.len() - seen);
                    break ;
                },
                Some(area) => {
                    proof {
                        assert(before.len() == all.len() - seen);
                        assert(area == all[seen as int]);
                        assert(rest@ == all.subrange(seen as int + 1, all.len() as int));
                        lemma_counts_upto(self@, seen + 1);
                        lemma_frames_upto_grows(all, seen + 1, all.len());
                        lemma_area_counts(self@, area);
                    }
                    let free = self.free_in_area(area);
                    let frames = range_count(area.start_frame_number, area.end_frame_number);
                    count = count + (frames - free) as usize;
                    proof {
                        seen = seen + 1;
                    }
                },
            }
        }
        count
    }

    fn allocate_frames(&mut self, count: usize) -> (frame: Option<Frame>) {
        proof {
            Self::lemma_allocation(self@, count as nat);
        }
        self.take_run(count)
    }

    fn deallocate_frames(&mut self, frame: Frame, count: usize) {
    }
}

} // verus!
