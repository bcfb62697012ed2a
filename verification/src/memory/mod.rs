//! Physical frames, the allocators that hand them out, and the description
//! of what has to be done to the page tables.

use self::area::{areas_from, memory_map_regions};
use self::bump_model::BumpModel;
use self::frame::valid_phys_addr;
use self::frame_allocator::BumpAllocator;
use self::mapper::MapperFlush;
use self::page::{canonical, PRESENT, WRITABLE};
use self::recycle::{RecycleAllocator, RecycleModel};
use self::table::MapTo;
use bootloader::bootinfo::MemoryMap;
use vstd::prelude::*;

pub mod area;
pub mod bump_model;
pub mod frame;
pub mod frame_allocator;
pub mod free_list;
pub mod heap;
pub mod laws;
pub mod mapper;
pub mod page;
pub mod plan;
pub mod recycle;
pub mod table;
pub mod temporary_page;

pub use self::area::{MemoryArea, MemoryAreaIter, MemoryAreaType};
pub use self::frame::{frame_run, lemma_frame_run, Frame, FRAME_LIMIT};
pub use self::page::{EntryFlags, Page, PageRange};
pub use self::table::{ActivePageTable, InactivePageTable};

verus! {

/// Number of entries per page table.
pub const ENTRY_COUNT: usize = 512;

/// Size of a page and of a frame, in bytes.
pub const PAGE_SIZE: usize = 4096;

/// An allocator of physical frames.
///
/// What an allocator knows is stated over its model, a mathematical value
/// that each allocator chooses for itself. The model says which frames are
/// handed out at the moment, which run a request would be answered with, and
/// what the allocator knows after each operation.
pub trait FrameAllocator: Sized {
    /// The mathematical value that stands for an allocator of this type.
    type Model;

    /// The model of this allocator.
    spec fn model(&self) -> Self::Model;

    /// Whether `m` is a state that an allocator of this type can be in.
    spec fn inv(m: Self::Model) -> bool;

    /// The frames, by number, that were handed out and not given back.
    spec fn allocated(m: Self::Model) -> Set<int>;

    /// The number of frames that the allocator accounts for.
    spec fn total_frames(m: Self::Model) -> nat;

    /// The number of frames that can still be handed out.
    spec fn free_count(m: Self::Model) -> nat;

    /// The number of frames that cannot be handed out at the moment.
    spec fn used_count(m: Self::Model) -> nat;

    /// The first frame of the run that a request for `count` frames is
    /// answered with in state `m`, or `None` where the request fails.
    spec fn allocation(m: Self::Model, count: nat) -> Option<int>;

    /// The state after a request for `count` frames in state `m`.
    spec fn after_allocation(m: Self::Model, count: nat) -> Self::Model;

    /// Whether the `count` frames from `first` on may be given back in state
    /// `m`.
    spec fn admits_release(m: Self::Model, first: int, count: nat) -> bool;

    /// The state after the `count` frames from `first` on were given back in
    /// state `m`.
    spec fn after_release(m: Self::Model, first: int, count: nat) -> Self::Model;

    /// The state after the mode was set to `noncore` in state `m`.
    spec fn after_set_noncore(m: Self::Model, noncore: bool) -> Self::Model;

    /// In every state the free and the used frames add up to all frames, the
    /// counts fit the machine, and what is handed out is counted as used.
    proof fn lemma_accounting(m: Self::Model)
        requires
            Self::inv(m),
        ensures
            Self::free_count(m) + Self::used_count(m) == Self::total_frames(m),
            Self::total_frames(m) <= usize::MAX,
            Self::allocated(m).finite(),
            Self::allocated(m).len() <= Self::used_count(m),
            forall|f: int| #[trigger] Self::allocated(m).contains(f) ==> 0 <= f < FRAME_LIMIT - 1,
    ;

    /// A request leaves a valid state with the same frames in all. Where it
    /// succeeds, the run lies within the frames of the machine, none of its
    /// frames was handed out before, and all of them are afterwards.
    proof fn lemma_allocation(m: Self::Model, count: nat)
        requires
            Self::inv(m),
        ensures
            Self::inv(Self::after_allocation(m, count)),
            Self::total_frames(Self::after_allocation(m, count)) == Self::total_frames(m),
            Self::allocation(m, count) matches Some(first) ==> {
                &&& 0 <= first
                &&& first + count <= FRAME_LIMIT - 1
                &&& frame_run(first, count as int).disjoint(Self::allocated(m))
                &&& Self::allocated(Self::after_allocation(m, count)) == Self::allocated(m).union(
                    frame_run(first, count as int),
                )
            },
            Self::allocation(m, count) is None ==> Self::allocated(Self::after_allocation(m, count))
                == Self::allocated(m),
    ;

    /// Giving back frames leaves a valid state with the same frames in all.
    /// No frame counts as handed out afterwards that did not before, and
    /// every frame that did and was not given back still does.
    proof fn lemma_release(m: Self::Model, first: int, count: nat)
        requires
            Self::inv(m),
            Self::admits_release(m, first, count),
        ensures
            Self::inv(Self::after_release(m, first, count)),
            Self::total_frames(Self::after_release(m, first, count)) == Self::total_frames(m),
            Self::allocated(Self::after_release(m, first, count)).subset_of(Self::allocated(m)),
            Self::allocated(m).difference(frame_run(first, count as int)).subset_of(
                Self::allocated(Self::after_release(m, first, count)),
            ),
    ;

    /// Setting the mode leaves a valid state and changes neither the frames
    /// in all nor those handed out.
    proof fn lemma_set_noncore(m: Self::Model, noncore: bool)
        requires
            Self::inv(m),
        ensures
            Self::inv(Self::after_set_noncore(m, noncore)),
            Self::total_frames(Self::after_set_noncore(m, noncore)) == Self::total_frames(m),
            Self::allocated(Self::after_set_noncore(m, noncore)) == Self::allocated(m),
    ;

    /// Tells the allocator whether the early phase of the boot is over.
    fn set_noncore(&mut self, noncore: bool)
        requires
            Self::inv(old(self).model()),
        ensures
            final(self).model() == Self::after_set_noncore(old(self).model(), noncore),
            Self::inv(final(self).model()),
    ;

    /// The number of frames that can still be handed out.
    fn free_frames(&self) -> (count: usize)
        requires
            Self::inv(self.model()),
        ensures
            count == Self::free_count(self.model()),
    ;

    /// The number of frames that cannot be handed out at the moment.
    fn used_frames(&self) -> (count: usize)
        requires
            Self::inv(self.model()),
        ensures
            count == Self::used_count(self.model()),
    ;

    /// Hands out a run of `count` frames that follow one another, and returns
    /// the first of them, or returns `None` where no such run can be had.
    fn allocate_frames(&mut self, count: usize) -> (frame: Option<Frame>)
        requires
            Self::inv(old(self).model()),
        ensures
            final(self).model() == Self::after_allocation(old(self).model(), count as nat),
            frame matches Some(first) ==> Self::allocation(old(self).model(), count as nat) == Some(
                first@,
            ),
            frame is None ==> Self::allocation(old(self).model(), count as nat) is None,
            Self::inv(final(self).model()),
            frame matches Some(first) ==> frame_run(first@, count as int).subset_of(
                Self::allocated(final(self).model()),
            ),
    ;

    /// Takes back the `count` frames from `frame` on, where the allocator
    /// admits that.
    fn deallocate_frames(&mut self, frame: Frame, count: usize)
        requires
            Self::inv(old(self).model()),
            Self::admits_release(old(self).model(), frame@, count as nat),
        ensures
            final(self).model() == Self::after_release(old(self).model(), frame@, count as nat),
            Self::inv(final(self).model()),
    ;
}

/// The frame allocator of the kernel: frames are taken from the usable areas
/// of the memory map, and frames that are given back are handed out again.
pub type KernelAllocator<'a> = RecycleAllocator<BumpAllocator<'a>>;

/// What the kernel knows of physical memory: where it is mapped, and which of
/// its frames are free. Both are set once, before anything else is done.
pub struct MemoryState<'a> {
    physical_memory_offset: Option<u64>,
    frame_allocator: Option<KernelAllocator<'a>>,
}

impl<'a> MemoryState<'a> {
    /// The virtual address from which on all physical memory is mapped, once
    /// it is set.
    pub closed spec fn spec_offset(&self) -> Option<u64> {
        self.physical_memory_offset
    }

    /// Whether the frame allocator is set up.
    pub closed spec fn initialized(&self) -> bool {
        self.frame_allocator is Some
    }

    /// What the frame allocator knows, once it is set up.
    pub closed spec fn allocator(&self) -> RecycleModel<BumpModel> {
        self.frame_allocator->0@
    }

    /// Whether the state is in order: the allocator, where there is one, is
    /// in a valid state.
    pub closed spec fn wf(&self) -> bool {
        self.frame_allocator matches Some(allocator) ==> KernelAllocator::inv(allocator@)
    }

    /// The virtual address from which on all physical memory is mapped, once
    /// it is set.
    pub fn physical_memory_offset(&self) -> (offset: Option<u64>)
        ensures
            offset == self.spec_offset(),
    {
        self.physical_memory_offset
    }

    /// Whether the frame allocator is set up.
    pub fn is_initialized(&self) -> (initialized: bool)
        ensures
            initialized == self.initialized(),
    {
        self.frame_allocator.is_some()
    }

    /// Whether the early phase of the boot is over. The memory has to be set
    /// up.
    pub fn is_noncore(&self) -> (noncore: bool)
        requires
            self.initialized(),
        ensures
            noncore == self.allocator().noncore,
    {
        match &self.frame_allocator {
            Some(allocator) => allocator.is_noncore(),
            None => false,
        }
    }

    /// The state before the memory is set up.
    pub fn new() -> (state: Self)
        ensures
            state.wf(),
            !state.initialized(),
            state.spec_offset() is None,
    {
        MemoryState { physical_memory_offset: None, frame_allocator: None }
    }
}

/// The usable areas of a memory map, in the order of the map.
pub open spec fn usable_areas(memory_map: MemoryMap) -> Seq<MemoryArea> {
    areas_from(memory_map_regions(memory_map), MemoryAreaType::Usable, 0)
}

/// What the frame allocator knows when it is set up for the usable areas of
/// `memory_map` and a kernel from the address `kernel_start` to the address
/// `kernel_end`: nothing is handed out, nothing is kept, and the early phase
/// of the boot is not over.
pub open spec fn first_allocator(memory_map: MemoryMap, kernel_start: usize, kernel_end: usize) -> RecycleModel<
    BumpModel,
> {
    RecycleModel {
        inner: BumpModel::initial(usable_areas(memory_map), kernel_start as int / 4096, kernel_end as int / 4096),
        noncore: false,
        free: Seq::empty(),
    }
}

/// Whether the memory can be set up for these arguments: the two addresses
/// are physical addresses, and the usable areas and the kernel fit the
/// machine.
pub open spec fn can_init(memory_map: MemoryMap, kernel_start: usize, kernel_end: usize) -> bool {
    &&& valid_phys_addr(kernel_start as u64)
    &&& valid_phys_addr(kernel_end as u64)
    &&& BumpModel::fits(usable_areas(memory_map), kernel_start as int / 4096, kernel_end as int / 4096)
}

/// Sets up the memory: all physical memory is mapped from the virtual address
/// `physical_memory_offset` on, and the frames of the usable areas of
/// `memory_map` are free, but for those of the kernel from the address
/// `kernel_start` to the address `kernel_end`.
///
/// This is done once, before any other memory operation.
pub fn init<'a>(
    state: &mut MemoryState<'a>,
    physical_memory_offset: u64,
    memory_map: &'a MemoryMap,
    kernel_start: usize,
    kernel_end: usize,
)
    requires
        !old(state).initialized(),
        old(state).spec_offset() is None,
        can_init(*memory_map, kernel_start, kernel_end),
    ensures
        final(state).wf(),
        final(state).initialized(),
        final(state).spec_offset() == Some(physical_memory_offset),
        final(state).allocator() == first_allocator(*memory_map, kernel_start, kernel_end),
{
    state.physical_memory_offset = Some(physical_memory_offset);
    let bump = BumpAllocator::new(kernel_start, kernel_end, MemoryAreaIter::new(memory_map, MemoryAreaType::Usable));
    state.frame_allocator = Some(RecycleAllocator::new(bump));
}

/// Sets up the memory as [`init`] does, where that can be done, and says
/// whether it was done. Else the state stays as it is.
pub fn try_init<'a>(
    state: &mut MemoryState<'a>,
    physical_memory_offset: u64,
    memory_map: &'a MemoryMap,
    kernel_start: usize,
    kernel_end: usize,
) -> (done: bool)
    requires
        old(state).wf(),
    ensures
        final(state).wf(),
        done == (!old(state).initialized() && old(state).spec_offset() is None && can_init(
            *memory_map,
            kernel_start,
            kernel_end,
        )),
        done ==> final(state).initialized() && final(state).spec_offset() == Some(physical_memory_offset)
            && final(state).allocator() == first_allocator(*memory_map, kernel_start, kernel_end),
        !done ==> *final(state) == *old(state),
{
    if state.frame_allocator.is_some() || state.physical_memory_offset.is_some() {
        return false;
    }
    match BumpAllocator::try_new(kernel_start, kernel_end, MemoryAreaIter::new(memory_map, MemoryAreaType::Usable)) {
        Some(bump) => {
            state.physical_memory_offset = Some(physical_memory_offset);
            state.frame_allocator = Some(RecycleAllocator::new(bump));
            true
        },
        None => false,
    }
}

/// Tells the memory that the early phase of the boot is over: from now on
/// the frames that are given back are kept and handed out again.
///
/// This is done once, after the memory is set up.
pub fn init_noncore(state: &mut MemoryState)
    requires
        old(state).wf(),
        old(state).initialized(),
        !old(state).allocator().noncore,
    ensures
        final(state).wf(),
        final(state).initialized(),
        final(state).spec_offset() == old(state).spec_offset(),
        final(state).allocator() == (RecycleModel { noncore: true, ..old(state).allocator() }),
{
    match &mut state.frame_allocator {
        Some(allocator) => {
            allocator.set_noncore(true);
        },
        None => {},
    }
}

/// Gives the `count` frames from `frame` on back to the frame allocator of
/// the kernel, which has to be set up and has to admit them: after the early
/// phase of the boot the frames have to be handed out at the moment.
pub fn deallocate_frames(state: &mut MemoryState, frame: Frame, count: usize)
    requires
        old(state).wf(),
        old(state).initialized(),
        KernelAllocator::admits_release(old(state).allocator(), frame@, count as nat),
    ensures
        final(state).wf(),
        final(state).initialized(),
        final(state).spec_offset() == old(state).spec_offset(),
        final(state).allocator() == KernelAllocator::after_release(old(state).allocator(), frame@, count as nat),
{
    match &mut state.frame_allocator {
        Some(allocator) => allocator.deallocate_frames(frame, count),
        None => {},
    }
}

/// Hands out a run of `count` frames from the frame allocator of the kernel,
/// which has to be set up.
pub fn allocate_frames(state: &mut MemoryState, count: usize) -> (frame: Option<Frame>)
    requires
        old(state).wf(),
        old(state).initialized(),
    ensures
        final(state).wf(),
        final(state).initialized(),
        final(state).spec_offset() == old(state).spec_offset(),
        final(state).allocator() == KernelAllocator::after_allocation(old(state).allocator(), count as nat),
        frame matches Some(first) ==> KernelAllocator::allocation(old(state).allocator(), count as nat)
            == Some(first@),
        frame is None ==> KernelAllocator::allocation(old(state).allocator(), count as nat) is None,
{
    proof {
        KernelAllocator::lemma_allocation(old(state).allocator(), count as nat);
    }
    match &mut state.frame_allocator {
        Some(allocator) => allocator.allocate_frames(count),
        None => None,
    }
}

/// The virtual address at which the frame `frame` is reached: its physical
/// address, moved by the offset from which on all physical memory is mapped.
/// The offset has to be set, and the address has to be an address of the
/// machine.
pub fn phys_to_virt(state: &MemoryState, frame: Frame) -> (address: u64)
    requires
        state.spec_offset() is Some,
        frame@ * 4096 + state.spec_offset()->0 <= u64::MAX,
        canonical((frame@ * 4096 + state.spec_offset()->0) as u64),
    ensures
        address == frame@ * 4096 + state.spec_offset()->0,
{
    let physical_memory_offset = match state.physical_memory_offset {
        Some(offset) => offset,
        None => unreached(),
    };
    frame.start_address() + physical_memory_offset
}

/// The address of the page of the example mapping.
pub const EXAMPLE_PAGE_ADDRESS: u64 = 0xdead_beaf_000;

/// The address of the frame of the example mapping: the text buffer of the
/// screen.
pub const EXAMPLE_FRAME_ADDRESS: u64 = 0xb8000;

/// The mapping of the example page to the text buffer of the screen, present
/// and writable, which the caller enters into the active table, and the
/// promise to flush the page.
pub fn create_example_mapping() -> (mapping: (MapTo, MapperFlush))
    ensures
        mapping.0.page@ == EXAMPLE_PAGE_ADDRESS / 4096,
        mapping.0.frame@ == EXAMPLE_FRAME_ADDRESS / 4096,
        mapping.0.flags == PRESENT | WRITABLE,
        mapping.1@ == mapping.0.page@,
{
    let page = Page::containing_address(EXAMPLE_PAGE_ADDRESS);
    let frame = Frame::containing_address(EXAMPLE_FRAME_ADDRESS);
    let flags = PRESENT | WRITABLE;
    (MapTo { page, frame, flags }, MapperFlush::new(page))
}

} // verus!
