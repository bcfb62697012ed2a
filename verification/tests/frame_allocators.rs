use bootloader::bootinfo::{FrameRange, MemoryMap, MemoryRegion, MemoryRegionType};
use dongos::memory::frame_allocator::BumpAllocator;
use dongos::memory::recycle::RecycleAllocator;
use dongos::memory::{Frame, FrameAllocator, MemoryArea, MemoryAreaIter, MemoryAreaType};

fn region(start: u64, end: u64, region_type: MemoryRegionType) -> MemoryRegion {
    MemoryRegion {
        range: FrameRange {
            start_frame_number: start,
            end_frame_number: end,
        },
        region_type,
    }
}

fn map_of(regions: &[MemoryRegion]) -> MemoryMap {
    let mut map = MemoryMap::new();
    for r in regions {
        map.add_region(*r);
    }
    map
}

/// One usable area of one MiB that starts at one MiB: frames 256 to 511.
fn one_mib_map() -> MemoryMap {
    let mut map = MemoryMap::new();
    map.add_region(MemoryRegion {
        range: FrameRange::new(0x10_0000, 0x20_0000),
        region_type: MemoryRegionType::Usable,
    });
    map
}

#[test]
fn frame_containing_address_rounds_down() {
    let frame = Frame::containing_address(0x1234);
    assert_eq!(frame.number(), 1);
    assert_eq!(frame.start_address(), 0x1000);
    assert_eq!(Frame::containing_address(0xfff).number(), 0);
    assert_eq!(Frame::containing_address(0x2000).start_address(), 0x2000);
    assert_eq!(Frame::from_number(7), Frame::containing_address(0x7abc));
}

#[test]
fn frames_are_ordered_by_number() {
    assert!(Frame::from_number(3) < Frame::from_number(4));
    assert!(Frame::from_number(4) >= Frame::from_number(4));
}

#[test]
fn area_walk_hands_out_areas_of_one_kind() {
    let map = map_of(&[
        region(0, 1, MemoryRegionType::FrameZero),
        region(16, 32, MemoryRegionType::Usable),
        region(32, 64, MemoryRegionType::Kernel),
        region(64, 128, MemoryRegionType::Usable),
    ]);
    let mut areas = MemoryAreaIter::new(&map, MemoryAreaType::Usable);
    assert_eq!(areas.area_type(), MemoryAreaType::Usable);
    assert_eq!(
        areas.next(),
        Some(MemoryArea {
            start_frame_number: 16,
            end_frame_number: 32,
            area_type: MemoryAreaType::Usable,
        })
    );
    let second = areas;
    assert_eq!(
        areas.next(),
        Some(MemoryArea {
            start_frame_number: 64,
            end_frame_number: 128,
            area_type: MemoryAreaType::Usable,
        })
    );
    assert_eq!(areas.next(), None);
    assert_eq!(areas.next(), None);
    // A copy of the walk goes on from where the copy was made.
    let mut second = second;
    assert_eq!(second.next().map(|a| a.start_frame_number), Some(64));

    let mut kernel = MemoryAreaIter::new(&map, MemoryAreaType::Kernel);
    assert_eq!(kernel.next().map(|a| (a.start_frame_number, a.end_frame_number)), Some((32, 64)));
    assert_eq!(kernel.next(), None);
    let mut none = MemoryAreaIter::new(&map, MemoryAreaType::Reserved);
    assert_eq!(none.next(), None);
}

#[test]
fn area_type_codes_follow_the_memory_map() {
    assert_eq!(MemoryAreaType::Usable.code(), MemoryRegionType::Usable as u32);
    assert_eq!(MemoryAreaType::InUse.code(), MemoryRegionType::InUse as u32);
    assert_eq!(MemoryAreaType::Reserved.code(), MemoryRegionType::Reserved as u32);
    assert_eq!(MemoryAreaType::AcpiReclaimable.code(), MemoryRegionType::AcpiReclaimable as u32);
    assert_eq!(MemoryAreaType::AcpiNvs.code(), MemoryRegionType::AcpiNvs as u32);
    assert_eq!(MemoryAreaType::BadMemory.code(), MemoryRegionType::BadMemory as u32);
    assert_eq!(MemoryAreaType::Kernel.code(), MemoryRegionType::Kernel as u32);
    assert_eq!(MemoryAreaType::KernelStack.code(), MemoryRegionType::KernelStack as u32);
    assert_eq!(MemoryAreaType::PageTable.code(), MemoryRegionType::PageTable as u32);
    assert_eq!(MemoryAreaType::Bootloader.code(), MemoryRegionType::Bootloader as u32);
    assert_eq!(MemoryAreaType::FrameZero.code(), MemoryRegionType::FrameZero as u32);
    assert_eq!(MemoryAreaType::Empty.code(), MemoryRegionType::Empty as u32);
    assert_eq!(MemoryAreaType::BootInfo.code(), MemoryRegionType::BootInfo as u32);
    assert_eq!(MemoryAreaType::Package.code(), MemoryRegionType::Package as u32);
}

#[test]
fn bump_allocator_hands_out_rising_frames() {
    let map = one_mib_map();
    let mut bump = BumpAllocator::new(0, 0x8000, MemoryAreaIter::new(&map, MemoryAreaType::Usable));
    assert_eq!(bump.allocate_frames(3), Some(Frame::from_number(256)));
    assert_eq!(bump.allocate_frames(1), Some(Frame::from_number(259)));
    assert_eq!(bump.allocate_frame(), Some(Frame::from_number(260)));
    assert_eq!(bump.allocate_frames(10), Some(Frame::from_number(261)));
}

#[test]
fn bump_allocator_refuses_a_request_for_no_frames() {
    let map = one_mib_map();
    let mut bump = BumpAllocator::new(0, 0x8000, MemoryAreaIter::new(&map, MemoryAreaType::Usable));
    assert_eq!(bump.allocate_frames(0), None);
    assert_eq!(bump.free_frames(), 256);
    assert_eq!(bump.allocate_frames(1), Some(Frame::from_number(256)));
}

#[test]
fn bump_allocator_accounts_for_every_frame() {
    let map = one_mib_map();
    let mut bump = BumpAllocator::new(0, 0x8000, MemoryAreaIter::new(&map, MemoryAreaType::Usable));
    assert_eq!(bump.free_frames(), 256);
    assert_eq!(bump.used_frames(), 0);
    bump.allocate_frames(3);
    assert_eq!(bump.free_frames(), 253);
    assert_eq!(bump.used_frames(), 3);
    bump.deallocate_frames(Frame::from_number(256), 3);
    assert_eq!(bump.free_frames(), 253);
    assert_eq!(bump.used_frames(), 3);
    // Frames that were never handed out may be given back as well: nothing
    // changes.
    bump.deallocate_frames(Frame::from_number(7), 1000);
    bump.deallocate_frame(Frame::from_number(300));
    assert_eq!(bump.free_frames(), 253);
    assert_eq!(bump.used_frames(), 3);
    assert_eq!(bump.allocate_frames(253), Some(Frame::from_number(259)));
    assert_eq!(bump.free_frames(), 0);
    assert_eq!(bump.used_frames(), 256);
    assert_eq!(bump.allocate_frames(1), None);
    assert_eq!(bump.free_frames() + bump.used_frames(), 256);
}

#[test]
fn bump_allocator_skips_the_kernel() {
    let map = map_of(&[region(0, 100, MemoryRegionType::Usable)]);
    let mut bump = BumpAllocator::new(0, 0x5000, MemoryAreaIter::new(&map, MemoryAreaType::Usable));
    // Frames 0 to 5 belong to the kernel, frames 0 to 99 to the area.
    assert_eq!(bump.free_frames(), 94);
    assert_eq!(bump.used_frames(), 6);
    assert_eq!(bump.allocate_frames(1), Some(Frame::from_number(6)));
    assert_eq!(bump.free_frames(), 93);
    assert_eq!(bump.used_frames(), 7);
}

#[test]
fn bump_allocator_skips_a_run_that_meets_the_kernel() {
    let map = map_of(&[region(0, 100, MemoryRegionType::Usable)]);
    // The kernel lies in frames 10 to 12.
    let mut bump = BumpAllocator::new(0xa000, 0xcfff, MemoryAreaIter::new(&map, MemoryAreaType::Usable));
    assert_eq!(bump.allocate_frames(8), Some(Frame::from_number(0)));
    // Frames 8 and 9 are free, but a run of four from 8 on meets the kernel.
    assert_eq!(bump.allocate_frames(4), Some(Frame::from_number(13)));
    // A run that would hold the kernel in its middle is not handed out.
    let mut around = BumpAllocator::new(0xa000, 0xcfff, MemoryAreaIter::new(&map, MemoryAreaType::Usable));
    assert_eq!(around.allocate_frames(20), Some(Frame::from_number(13)));
}

#[test]
fn bump_allocator_goes_on_in_the_next_area() {
    let map = map_of(&[
        region(100, 110, MemoryRegionType::Usable),
        region(10, 12, MemoryRegionType::Usable),
        region(20, 40, MemoryRegionType::Reserved),
    ]);
    let mut bump = BumpAllocator::new(0, 0, MemoryAreaIter::new(&map, MemoryAreaType::Usable));
    // The area that starts lowest is taken first. It holds frames 10 and 11.
    assert_eq!(bump.free_frames(), 12);
    assert_eq!(bump.allocate_frames(1), Some(Frame::from_number(10)));
    // One frame is left in it, which is too little for two.
    assert_eq!(bump.allocate_frames(2), Some(Frame::from_number(100)));
    assert_eq!(bump.used_frames(), 4);
    assert_eq!(bump.free_frames(), 8);
    // Nothing holds twenty frames.
    assert_eq!(bump.allocate_frames(20), None);
    assert_eq!(bump.free_frames(), 0);
    assert_eq!(bump.used_frames(), 12);
    assert_eq!(bump.allocate_frames(1), None);
}

#[test]
fn bump_allocator_without_usable_memory_has_nothing() {
    let map = map_of(&[region(0, 100, MemoryRegionType::Reserved)]);
    let mut bump = BumpAllocator::new(0, 0, MemoryAreaIter::new(&map, MemoryAreaType::Usable));
    assert_eq!(bump.free_frames(), 0);
    assert_eq!(bump.used_frames(), 0);
    assert_eq!(bump.allocate_frames(1), None);
}

#[test]
fn bump_allocator_try_new_tests_its_arguments() {
    let map = one_mib_map();
    let areas = MemoryAreaIter::new(&map, MemoryAreaType::Usable);
    assert!(BumpAllocator::try_new(0, 0x8000, areas).is_some());
    // An address with a bit from 52 up is no physical address.
    assert!(BumpAllocator::try_new(0, 1 << 52, areas).is_none());
    assert!(BumpAllocator::try_new(1 << 60, 0x8000, areas).is_none());
    // The last frame of the machine leaves no room for a cursor behind it.
    let far = map_of(&[region(10, 1 << 40, MemoryRegionType::Usable)]);
    assert!(BumpAllocator::try_new(0, 0, MemoryAreaIter::new(&far, MemoryAreaType::Usable)).is_none());
    let near = map_of(&[region(10, (1 << 40) - 1, MemoryRegionType::Usable)]);
    let made = BumpAllocator::try_new(0, 0, MemoryAreaIter::new(&near, MemoryAreaType::Usable));
    assert_eq!(made.map(|a| a.free_frames()), Some((1usize << 40) - 11));
}

#[test]
fn recycler_hands_out_again_what_was_given_back() {
    let map = one_mib_map();
    let bump = BumpAllocator::new(0, 0x8000, MemoryAreaIter::new(&map, MemoryAreaType::Usable));
    let mut allocator = RecycleAllocator::new(bump);
    allocator.set_noncore(true);
    let first = allocator.allocate_frames(3);
    assert_eq!(first, Some(Frame::from_number(256)));
    allocator.deallocate_frames(first.unwrap(), 3);
    let second = allocator.allocate_frames(3);
    assert_eq!(second, first);
    // Only then the allocator behind is asked again.
    assert_eq!(allocator.allocate_frames(3), Some(Frame::from_number(259)));
}

#[test]
fn recycler_leaks_in_the_early_phase() {
    let map = one_mib_map();
    let bump = BumpAllocator::new(0, 0x8000, MemoryAreaIter::new(&map, MemoryAreaType::Usable));
    let mut allocator = RecycleAllocator::new(bump);
    assert!(!allocator.is_noncore());
    let first = allocator.allocate_frames(3).unwrap();
    allocator.deallocate_frames(first, 3);
    assert!(allocator.free_ranges().is_empty());
    assert_eq!(allocator.free_frames(), 253);
    assert_eq!(allocator.used_frames(), 3);
    assert_eq!(allocator.allocate_frames(3), Some(Frame::from_number(259)));
}

#[test]
fn recycler_accounts_for_every_frame() {
    let map = one_mib_map();
    let bump = BumpAllocator::new(0, 0x8000, MemoryAreaIter::new(&map, MemoryAreaType::Usable));
    let mut allocator = RecycleAllocator::new(bump);
    allocator.set_noncore(true);
    assert!(allocator.is_noncore());
    assert_eq!((allocator.free_frames(), allocator.used_frames()), (256, 0));
    let a = allocator.allocate_frames(5).unwrap();
    assert_eq!((allocator.free_frames(), allocator.used_frames()), (251, 5));
    let b = allocator.allocate_frames(7).unwrap();
    assert_eq!((allocator.free_frames(), allocator.used_frames()), (244, 12));
    allocator.deallocate_frames(a, 5);
    assert_eq!((allocator.free_frames(), allocator.used_frames()), (249, 7));
    allocator.deallocate_frame(b);
    assert_eq!((allocator.free_frames(), allocator.used_frames()), (250, 6));
    // The frame that was given back touched the run that was kept.
    assert_eq!(allocator.free_ranges(), vec![(256, 6)]);
    assert_eq!(allocator.allocate_frame(), Some(Frame::from_number(261)));
    assert_eq!((allocator.free_frames(), allocator.used_frames()), (249, 7));
    assert_eq!(allocator.free_frames() + allocator.used_frames(), 256);
}

#[test]
fn recycler_joins_runs_that_touch() {
    let map = one_mib_map();
    // The lower run first.
    let bump = BumpAllocator::new(0, 0x8000, MemoryAreaIter::new(&map, MemoryAreaType::Usable));
    let mut allocator = RecycleAllocator::new(bump);
    allocator.set_noncore(true);
    let a = allocator.allocate_frames(2).unwrap();
    let b = allocator.allocate_frames(3).unwrap();
    allocator.deallocate_frames(a, 2);
    assert_eq!(allocator.free_ranges(), vec![(256, 2)]);
    allocator.deallocate_frames(b, 3);
    assert_eq!(allocator.free_ranges(), vec![(256, 5)]);

    // The upper run first.
    let bump = BumpAllocator::new(0, 0x8000, MemoryAreaIter::new(&map, MemoryAreaType::Usable));
    let mut allocator = RecycleAllocator::new(bump);
    allocator.set_noncore(true);
    let a = allocator.allocate_frames(2).unwrap();
    let b = allocator.allocate_frames(3).unwrap();
    allocator.deallocate_frames(b, 3);
    assert_eq!(allocator.free_ranges(), vec![(258, 3)]);
    allocator.deallocate_frames(a, 2);
    assert_eq!(allocator.free_ranges(), vec![(256, 5)]);

    // Both as one run.
    let bump = BumpAllocator::new(0, 0x8000, MemoryAreaIter::new(&map, MemoryAreaType::Usable));
    let mut allocator = RecycleAllocator::new(bump);
    allocator.set_noncore(true);
    let whole = allocator.allocate_frames(5).unwrap();
    allocator.deallocate_frames(whole, 5);
    assert_eq!(allocator.free_ranges(), vec![(256, 5)]);
}

#[test]
fn recycler_joins_a_run_to_both_neighbours() {
    let map = one_mib_map();
    let bump = BumpAllocator::new(0, 0x8000, MemoryAreaIter::new(&map, MemoryAreaType::Usable));
    let mut allocator = RecycleAllocator::new(bump);
    allocator.set_noncore(true);
    let a = allocator.allocate_frames(2).unwrap();
    let b = allocator.allocate_frames(2).unwrap();
    let c = allocator.allocate_frames(2).unwrap();
    let d = allocator.allocate_frames(2).unwrap();
    let _e = allocator.allocate_frames(2).unwrap();
    allocator.deallocate_frames(d, 2);
    allocator.deallocate_frames(a, 2);
    allocator.deallocate_frames(c, 2);
    // The list is kept in the order of the addresses.
    assert_eq!(allocator.free_ranges(), vec![(256, 2), (260, 4)]);
    // The run between two kept runs joins both, and the three are one run.
    allocator.deallocate_frames(b, 2);
    assert_eq!(allocator.free_ranges(), vec![(256, 8)]);
    assert_eq!(allocator.free_frames(), 246 + 8);
}

#[test]
fn recycler_takes_the_best_fit_from_its_end() {
    let map = one_mib_map();
    let bump = BumpAllocator::new(0, 0x8000, MemoryAreaIter::new(&map, MemoryAreaType::Usable));
    let mut allocator = RecycleAllocator::new(bump);
    allocator.set_noncore(true);
    let a = allocator.allocate_frames(4).unwrap(); // 256..260
    let _b = allocator.allocate_frames(1).unwrap(); // 260
    let c = allocator.allocate_frames(2).unwrap(); // 261..263
    let _d = allocator.allocate_frames(1).unwrap(); // 263
    let e = allocator.allocate_frames(2).unwrap(); // 264..266
    let _f = allocator.allocate_frames(1).unwrap(); // 266
    allocator.deallocate_frames(a, 4);
    allocator.deallocate_frames(c, 2);
    allocator.deallocate_frames(e, 2);
    assert_eq!(allocator.free_ranges(), vec![(256, 4), (261, 2), (264, 2)]);
    // Of the smallest runs that are large enough the last is taken.
    assert_eq!(allocator.allocate_frames(2), Some(Frame::from_number(264)));
    assert_eq!(allocator.free_ranges(), vec![(256, 4), (261, 2)]);
    // One frame is taken from the end of the smallest run.
    assert_eq!(allocator.allocate_frames(1), Some(Frame::from_number(262)));
    assert_eq!(allocator.free_ranges(), vec![(256, 4), (261, 1)]);
    // Three frames fit into the large run only, and are taken from its end.
    assert_eq!(allocator.allocate_frames(3), Some(Frame::from_number(257)));
    assert_eq!(allocator.free_ranges(), vec![(256, 1), (261, 1)]);
    // Nothing that is kept holds two frames: the allocator behind is asked.
    assert_eq!(allocator.allocate_frames(2), Some(Frame::from_number(267)));
}

#[test]
fn recycler_never_hands_out_a_frame_twice() {
    let map = one_mib_map();
    let bump = BumpAllocator::new(0, 0x8000, MemoryAreaIter::new(&map, MemoryAreaType::Usable));
    let mut allocator = RecycleAllocator::new(bump);
    allocator.set_noncore(true);
    let mut held: Vec<(u64, u64)> = Vec::new();
    let a = allocator.allocate_frames(4).unwrap();
    let b = allocator.allocate_frames(4).unwrap();
    allocator.deallocate_frames(a, 4);
    held.push((b.number(), 4));
    for count in [1u64, 2, 3, 1, 5, 2] {
        let frame = allocator.allocate_frames(count as usize).unwrap();
        for (first, len) in &held {
            assert!(frame.number() + count <= *first || first + len <= frame.number());
        }
        held.push((frame.number(), count));
    }
}

#[test]
fn recycler_gives_back_nothing_for_no_frames() {
    let map = one_mib_map();
    let bump = BumpAllocator::new(0, 0x8000, MemoryAreaIter::new(&map, MemoryAreaType::Usable));
    let mut allocator = RecycleAllocator::new(bump);
    allocator.set_noncore(true);
    let a = allocator.allocate_frames(2).unwrap();
    allocator.deallocate_frames(a, 0);
    assert!(allocator.free_ranges().is_empty());
    assert_eq!(allocator.allocate_frames(0), None);
}

#[test]
fn bump_allocator_hands_out_an_area_to_its_last_frame_and_no_further() {
    let map = map_of(&[region(16, 32, MemoryRegionType::Usable)]);
    let mut bump = BumpAllocator::new(0, 0, MemoryAreaIter::new(&map, MemoryAreaType::Usable));
    assert_eq!(bump.free_frames(), 16);
    // Seventeen frames would end with the frame behind the area.
    let mut wide = BumpAllocator::new(0, 0, MemoryAreaIter::new(&map, MemoryAreaType::Usable));
    assert_eq!(wide.allocate_frames(17), None);
    assert_eq!(bump.allocate_frames(16), Some(Frame::from_number(16)));
    assert_eq!(bump.allocate_frames(1), None);
    assert_eq!((bump.free_frames(), bump.used_frames()), (0, 16));
}

#[test]
fn bump_allocator_counts_the_kernel_inside_an_area_as_used() {
    let map = one_mib_map();
    // The kernel lies in frames 300 to 309.
    let mut bump = BumpAllocator::new(300 * 4096, 309 * 4096 + 4095, MemoryAreaIter::new(&map, MemoryAreaType::Usable));
    assert_eq!((bump.free_frames(), bump.used_frames()), (246, 10));
    assert_eq!(bump.allocate_frames(44), Some(Frame::from_number(256)));
    assert_eq!((bump.free_frames(), bump.used_frames()), (202, 54));
    assert_eq!(bump.allocate_frames(1), Some(Frame::from_number(310)));
    assert_eq!(bump.free_frames() + bump.used_frames(), 256);
}

#[test]
fn recycler_release_in_parts_cannot_be_told_from_one_release() {
    // Runs (10, 2) and (100, 5) are kept; frames 12 to 14 are given back in
    // two parts or at once. The next request for five frames is answered
    // alike.
    let map = map_of(&[region(10, 200, MemoryRegionType::Usable)]);
    let mut results = Vec::new();
    for parts in [vec![(13u64, 2usize), (12, 1)], vec![(12, 1), (13, 2)], vec![(12, 3)]] {
        let bump = BumpAllocator::new(0, 0, MemoryAreaIter::new(&map, MemoryAreaType::Usable));
        let mut allocator = RecycleAllocator::new(bump);
        allocator.set_noncore(true);
        assert_eq!(allocator.allocate_frames(100), Some(Frame::from_number(10)));
        allocator.deallocate_frames(Frame::from_number(10), 2);
        allocator.deallocate_frames(Frame::from_number(100), 5);
        for (first, count) in parts {
            allocator.deallocate_frames(Frame::from_number(first), count);
        }
        assert_eq!(allocator.free_ranges(), vec![(10, 5), (100, 5)]);
        results.push((allocator.allocate_frames(5), allocator.free_ranges(), allocator.free_frames()));
    }
    assert_eq!(results[0], results[1]);
    assert_eq!(results[0], results[2]);
    assert_eq!(results[0].0, Some(Frame::from_number(100)));
}
