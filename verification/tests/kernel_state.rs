use bootloader::bootinfo::{FrameRange, MemoryMap, MemoryRegion, MemoryRegionType};
use dongos::interrupt::irq::{timer_interrupt_handler, PIT_RATE, SWITCH_TICKS};
use dongos::memory::page::{PRESENT, WRITABLE};
use dongos::memory::temporary_page::TemporaryPage;
use dongos::memory::{
    allocate_frames, create_example_mapping, deallocate_frames, init, init_noncore, phys_to_virt, try_init,
    ActivePageTable, Frame, InactivePageTable, MemoryState, Page, ENTRY_COUNT, PAGE_SIZE,
};
use dongos::syscall::time::clock_gettime;
use dongos::syscall::{Error, TimeSpec, CLOCK_MONOTONIC, CLOCK_REALTIME, EAGAIN, EINVAL};
use dongos::{cpu_count, cpu_id, QemuExitCode};

fn one_mib_map() -> MemoryMap {
    let mut map = MemoryMap::new();
    map.add_region(MemoryRegion {
        range: FrameRange::new(0x10_0000, 0x20_0000),
        region_type: MemoryRegionType::Usable,
    });
    map.add_region(MemoryRegion {
        range: FrameRange::new(0x20_0000, 0x40_0000),
        region_type: MemoryRegionType::Kernel,
    });
    map
}

#[test]
fn one_processor_with_identifier_zero() {
    assert_eq!(cpu_id(), 0);
    assert_eq!(cpu_count(), 1);
    assert!(cpu_id() < cpu_count());
}

#[test]
fn exit_codes_of_the_emulator() {
    assert_eq!(QemuExitCode::Success.code(), 0x10);
    assert_eq!(QemuExitCode::Failed.code(), 0x11);
    assert_ne!(QemuExitCode::Success, QemuExitCode::Failed);
}

#[test]
fn sizes_of_the_machine() {
    assert_eq!(PAGE_SIZE, 4096);
    assert_eq!(ENTRY_COUNT, 512);
}

#[test]
fn error_numbers() {
    assert_eq!(Error::new(EAGAIN).errno, 11);
    assert_eq!(Error::new(EINVAL), Error { errno: 22 });
}

#[test]
fn clock_gettime_reads_the_named_clock() {
    let mut time = TimeSpec { tv_sec: -1, tv_nsec: -1 };
    assert_eq!(clock_gettime(CLOCK_REALTIME, (1_600_000_000, 123), (55, 999_999_999), &mut time), Ok(0));
    assert_eq!(time, TimeSpec { tv_sec: 1_600_000_000, tv_nsec: 123 });
    assert_eq!(clock_gettime(CLOCK_MONOTONIC, (1_600_000_000, 123), (55, 999_999_999), &mut time), Ok(0));
    assert_eq!(time, TimeSpec { tv_sec: 55, tv_nsec: 999_999_999 });
}

#[test]
fn clock_gettime_refuses_other_clocks() {
    let mut time = TimeSpec { tv_sec: 7, tv_nsec: 8 };
    for clock in [0usize, 2, 3, 5, usize::MAX] {
        assert_eq!(clock_gettime(clock, (1, 2), (3, 4), &mut time), Err(Error::new(EINVAL)));
        assert_eq!(time, TimeSpec { tv_sec: 7, tv_nsec: 8 });
    }
}

#[test]
fn clock_gettime_keeps_the_bits_of_large_readings() {
    let mut time = TimeSpec { tv_sec: 0, tv_nsec: 0 };
    assert_eq!(clock_gettime(CLOCK_REALTIME, (u64::MAX, u64::MAX), (0, 0), &mut time), Ok(0));
    assert_eq!(time, TimeSpec { tv_sec: -1, tv_nsec: -1 });
    assert_eq!(clock_gettime(CLOCK_REALTIME, (1 << 63, 1 << 31), (0, 0), &mut time), Ok(0));
    assert_eq!(time, TimeSpec { tv_sec: i64::MIN, tv_nsec: i32::MIN });
    assert_eq!(clock_gettime(CLOCK_REALTIME, ((1 << 63) - 1, (1 << 32) + 5), (0, 0), &mut time), Ok(0));
    assert_eq!(time, TimeSpec { tv_sec: i64::MAX, tv_nsec: 5 });
}

#[test]
fn timer_tick_moves_the_time_on() {
    let mut offset = (0u64, 0u64);
    let mut ticks = 0usize;
    assert!(!timer_interrupt_handler(&mut offset, &mut ticks));
    assert_eq!(offset, (0, 2_250_286));
    assert_eq!(ticks, 1);
    let mut offset = (41u64, 999_000_000u64);
    assert!(!timer_interrupt_handler(&mut offset, &mut ticks));
    assert_eq!(offset, (42, 1_250_286));
    assert_eq!(PIT_RATE, 2_250_286);
    let mut offset = (1u64, 3_000_000_000u64);
    timer_interrupt_handler(&mut offset, &mut ticks);
    assert_eq!(offset, (4, 2_250_286));
}

#[test]
fn timer_tick_asks_for_a_switch_after_ten_ticks() {
    let mut offset = (0u64, 0u64);
    let mut ticks = 0usize;
    for _ in 0..SWITCH_TICKS {
        assert!(!timer_interrupt_handler(&mut offset, &mut ticks));
    }
    assert_eq!(ticks, 10);
    assert!(timer_interrupt_handler(&mut offset, &mut ticks));
    assert_eq!(ticks, 11);
    assert!(timer_interrupt_handler(&mut offset, &mut ticks));
    // The switch sets the count back to zero.
    ticks = 0;
    assert!(!timer_interrupt_handler(&mut offset, &mut ticks));
    let mut ticks = usize::MAX;
    assert!(timer_interrupt_handler(&mut offset, &mut ticks));
    assert_eq!(ticks, 0);
}

#[test]
fn memory_is_set_up_once() {
    let map = one_mib_map();
    let mut state = MemoryState::new();
    assert!(!state.is_initialized());
    assert_eq!(state.physical_memory_offset(), None);
    init(&mut state, 0xffff_8000_0000_0000, &map, 0, 0x8000);
    assert!(state.is_initialized());
    assert!(!state.is_noncore());
    assert_eq!(state.physical_memory_offset(), Some(0xffff_8000_0000_0000));
    assert_eq!(allocate_frames(&mut state, 3), Some(Frame::from_number(256)));
    assert_eq!(phys_to_virt(&state, Frame::from_number(256)), 0xffff_8000_0010_0000);
    assert_eq!(phys_to_virt(&state, Frame::from_number(0)), 0xffff_8000_0000_0000);
    // A second set up is refused.
    assert!(!try_init(&mut state, 0, &map, 0, 0x8000));
    assert_eq!(phys_to_virt(&state, Frame::from_number(1)), 0xffff_8000_0000_1000);
    assert_eq!(allocate_frames(&mut state, 1), Some(Frame::from_number(259)));
}

#[test]
fn memory_set_up_tests_its_arguments() {
    let map = one_mib_map();
    let mut state = MemoryState::new();
    assert!(!try_init(&mut state, 0x1000, &map, 0, 1 << 52));
    assert!(try_init(&mut state, 0x1000, &map, 0, 0x8000));
    assert_eq!(phys_to_virt(&state, Frame::from_number(2)), 0x3000);
    assert_eq!(allocate_frames(&mut state, 0), None);
    assert_eq!(allocate_frames(&mut state, 1), Some(Frame::from_number(256)));
}

#[test]
fn memory_keeps_frames_after_the_early_phase() {
    let map = one_mib_map();
    let mut state = MemoryState::new();
    init(&mut state, 0, &map, 0x20_0000, 0x3f_ffff);
    init_noncore(&mut state);
    assert!(state.is_noncore());
    let kept = allocate_frames(&mut state, 2).unwrap();
    deallocate_frames(&mut state, kept, 2);
    assert_eq!(allocate_frames(&mut state, 2), Some(kept));
    // The kernel lies behind the usable area: frame 512 is its first.
    assert_eq!(allocate_frames(&mut state, 254), Some(Frame::from_number(258)));
    assert_eq!(allocate_frames(&mut state, 1), None);
    deallocate_frames(&mut state, Frame::from_number(300), 1);
    assert_eq!(allocate_frames(&mut state, 1), Some(Frame::from_number(300)));
}

#[test]
fn example_mapping_shows_the_screen() {
    let (mapping, flush) = create_example_mapping();
    assert_eq!(mapping.page, Page::containing_address(0xdead_beaf_000));
    assert_eq!(mapping.page.number(), 0xdead_beaf);
    assert_eq!(mapping.frame, Frame::containing_address(0xb8000));
    assert_eq!(mapping.frame.number(), 0xb8);
    assert_eq!(mapping.flags, PRESENT | WRITABLE);
    assert_eq!(flush.flush(), mapping.page);
}

#[test]
fn active_table_switches_to_another_table() {
    let mut active = ActivePageTable::new(Frame::from_number(1));
    assert_eq!(active.address(), 0x1000);
    let other = InactivePageTable::from_address(0x5abc);
    assert_eq!(other.address(), 0x5000);
    let old = active.switch(other);
    assert_eq!(old.address(), 0x1000);
    assert_eq!(active.address(), 0x5000);
    let back = active.switch(old);
    assert_eq!(back.address(), 0x5000);
    assert_eq!(active.address(), 0x1000);
}

#[test]
fn active_table_maps_a_page_to_a_fresh_frame() {
    let map = one_mib_map();
    let mut state = MemoryState::new();
    init(&mut state, 0, &map, 0, 0x8000);
    let mut active = ActivePageTable::new(Frame::from_number(1));
    let page = Page::containing_address(0xdead_beaf_000);
    let (mapping, flush) = active.map(page, PRESENT | WRITABLE, &mut state).unwrap();
    assert_eq!(mapping.page, page);
    assert_eq!(mapping.frame, Frame::from_number(256));
    assert_eq!(mapping.flags, PRESENT | WRITABLE);
    assert_eq!(flush.flush(), page);
    let (mapping, flush) = active.map(Page::from_number(2), PRESENT, &mut state).unwrap();
    assert_eq!(mapping.frame, Frame::from_number(257));
    flush.ignore();
    assert_eq!(active.address(), 0x1000);
}

#[test]
fn active_table_maps_nothing_without_a_frame() {
    let mut map = MemoryMap::new();
    map.add_region(MemoryRegion {
        range: FrameRange { start_frame_number: 5, end_frame_number: 5 + 2 },
        region_type: MemoryRegionType::Usable,
    });
    let mut state = MemoryState::new();
    init(&mut state, 0, &map, 0, 0);
    let mut active = ActivePageTable::new(Frame::from_number(1));
    assert!(active.map(Page::from_number(1), PRESENT, &mut state).is_some());
    assert!(active.map(Page::from_number(2), PRESENT, &mut state).is_some());
    assert!(active.map(Page::from_number(3), PRESENT, &mut state).is_none());
}

#[test]
fn inactive_table_takes_over_the_entry_of_physical_memory() {
    let active: Vec<u64> = (0..512u64).map(|i| 0x1000 * (i + 1) | 3).collect();
    let (table, entries) = InactivePageTable::new(Frame::from_number(9), 0xffff_8000_0000_0000, &active);
    assert_eq!(table.address(), 0x9000);
    assert_eq!(entries.len(), 512);
    for (index, entry) in entries.iter().enumerate() {
        if index == 256 {
            assert_eq!(*entry, 0x1000 * 257 | 3);
        } else {
            assert_eq!(*entry, 0);
        }
    }
    for (offset, index) in [(0x4444_4444_0000u64, 136usize), (0, 0), (0xffff_ff80_0000_0000, 511)] {
        let (_, entries) = InactivePageTable::new(Frame::from_number(9), offset, &active);
        assert_eq!(entries[index], active[index]);
        assert_eq!(entries.iter().filter(|entry| **entry != 0).count(), 1);
    }
}

#[test]
fn temporary_page_maps_and_unmaps_its_page() {
    let mut temporary = TemporaryPage::new(Page::from_number(0xcafe));
    assert_eq!(temporary.start_address(), 0xcafe_000);
    let (mapping, flush, address) = temporary.map(Frame::from_number(7), PRESENT | WRITABLE, false);
    assert_eq!(mapping.page, Page::from_number(0xcafe));
    assert_eq!(mapping.frame, Frame::from_number(7));
    assert_eq!(mapping.flags, PRESENT | WRITABLE);
    assert_eq!(flush.flush(), Page::from_number(0xcafe));
    assert_eq!(address, 0xcafe_000);
    let (page, flush) = temporary.unmap();
    assert_eq!(page, Page::from_number(0xcafe));
    assert_eq!(flush.flush(), page);
    let (mapping, flush, address) = temporary.map_table_frame(Frame::from_number(8), PRESENT, false);
    assert_eq!(mapping.frame, Frame::from_number(8));
    assert_eq!(address, 0xcafe_000);
    flush.ignore();
}
