use dongos::context::memory::{Memory, Tls};
use dongos::memory::heap;
use dongos::memory::heap::bump_allocator::BumpAllocator as HeapAllocator;
use dongos::memory::mapper::{MapperFlush, MapperFlushAll};
use dongos::memory::page::{contains, GLOBAL, NO_EXECUTE, PRESENT, USER_ACCESSIBLE, WRITABLE};
use dongos::memory::plan::PageWork;
use dongos::memory::{Page, PageRange};

fn numbers_of(mut pages: PageRange) -> Vec<u64> {
    let mut numbers = Vec::new();
    while let Some(page) = pages.next() {
        numbers.push(page.number());
    }
    numbers
}

#[test]
fn page_containing_address_rounds_down() {
    let page = Page::containing_address(0x1234);
    assert_eq!(page.number(), 1);
    assert_eq!(page.start_address(), 0x1000);
    assert_eq!(Page::containing_address(0xdead_beaf_900).start_address(), 0xdead_beaf_000);
    assert_eq!(Page::containing_address(0xffff_8000_0000_0fff).start_address(), 0xffff_8000_0000_0000);
    assert_eq!(Page::from_number(5), Page::containing_address(0x5fff));
}

#[test]
fn page_try_containing_address_wants_a_canonical_address() {
    assert_eq!(Page::try_containing_address(0x1234).map(|p| p.number()), Some(1));
    assert_eq!(
        Page::try_containing_address(0x7fff_ffff_ffff).map(|p| p.number()),
        Some(0x7_ffff_ffff)
    );
    assert_eq!(Page::try_containing_address(0x8000_0000_0000), None);
    assert_eq!(Page::try_containing_address(0xffff_7fff_ffff_ffff), None);
    assert_eq!(Page::try_containing_address(0x0001_0000_0000_0000), None);
    assert_eq!(
        Page::try_containing_address(0xffff_8000_0000_0000).map(|p| p.start_address()),
        Some(0xffff_8000_0000_0000)
    );
    assert_eq!(
        Page::try_containing_address(u64::MAX).map(|p| p.start_address()),
        Some(0xffff_ffff_ffff_f000)
    );
}

#[test]
fn page_level_4_index() {
    assert_eq!(Page::containing_address(0).p4_index(), 0);
    assert_eq!(Page::containing_address(0xdead_beaf_000).p4_index(), 27);
    assert_eq!(Page::containing_address(0x80_0000_0000).p4_index(), 1);
    assert_eq!(Page::containing_address(0x7f_ffff_ffff).p4_index(), 0);
    assert_eq!(Page::containing_address(0xffff_8000_0000_0000).p4_index(), 256);
    assert_eq!(Page::containing_address(u64::MAX).p4_index(), 511);
}

#[test]
fn page_range_walks_in_rising_order() {
    let range = PageRange::new(Page::from_number(3), Page::from_number(6));
    assert!(!range.is_empty());
    assert_eq!(range.len(), 4);
    assert_eq!(numbers_of(range), vec![3, 4, 5, 6]);
    let one = PageRange::new(Page::from_number(3), Page::from_number(3));
    assert_eq!(numbers_of(one), vec![3]);
    let none = PageRange::new(Page::from_number(4), Page::from_number(3));
    assert!(none.is_empty());
    assert_eq!(none.len(), 0);
    assert_eq!(numbers_of(none), Vec::<u64>::new());
    let last = PageRange::between(0xffff_ffff_ffff_e000, u64::MAX);
    assert_eq!(numbers_of(last), vec![0xf_ffff_ffff_fffe, 0xf_ffff_ffff_ffff]);
    let low_end = PageRange::between(0x7fff_ffff_e000, 0x7fff_ffff_ffff);
    assert_eq!(numbers_of(low_end), vec![0x7_ffff_fffe, 0x7_ffff_ffff]);
}

#[test]
fn flags_contain_their_bits() {
    let flags = PRESENT | WRITABLE;
    assert!(contains(flags, PRESENT));
    assert!(contains(flags, WRITABLE));
    assert!(contains(flags, PRESENT | WRITABLE));
    assert!(!contains(flags, USER_ACCESSIBLE));
    assert!(!contains(flags, WRITABLE | USER_ACCESSIBLE));
    assert!(contains(flags, 0));
    assert_eq!(NO_EXECUTE, 1 << 63);
    assert_eq!(GLOBAL, 1 << 8);
}

#[test]
fn memory_new_plans_to_map_every_page() {
    let (memory, plan) = Memory::new(0x1000, 0x2000, PRESENT | WRITABLE, true);
    assert_eq!(memory.start_address(), 0x1000);
    assert_eq!(memory.size(), 0x2000);
    assert_eq!(memory.flags(), PRESENT | WRITABLE);
    assert_eq!(numbers_of(memory.pages()), vec![1, 2]);
    assert_eq!(plan.work, PageWork::MapAll);
    assert_eq!(numbers_of(plan.pages), vec![1, 2]);
    assert_eq!(plan.flags, PRESENT | WRITABLE);
    assert!(!plan.release);
    assert_eq!(plan.clear, Some((0x1000, 0x2000)));

    let (_, plan) = Memory::new(0x1000, 0x2000, PRESENT, false);
    assert_eq!(plan.clear, None);
}

#[test]
fn memory_pages_hold_the_first_and_the_last_byte() {
    let (memory, _) = Memory::new(0x1800, 0x1000, PRESENT, false);
    assert_eq!(numbers_of(memory.pages()), vec![1, 2]);
    let (memory, _) = Memory::new(0x1800, 0x800, PRESENT, false);
    assert_eq!(numbers_of(memory.pages()), vec![1]);
    let (memory, _) = Memory::new(0x1000, 1, PRESENT, false);
    assert_eq!(numbers_of(memory.pages()), vec![1]);
    // A region without bytes has no page, wherever it starts.
    let (memory, plan) = Memory::new(0x1000, 0, PRESENT, false);
    assert_eq!(numbers_of(memory.pages()), Vec::<u64>::new());
    assert!(plan.pages.is_empty());
    let (memory, _) = Memory::new(0x1800, 0, PRESENT, false);
    assert_eq!(numbers_of(memory.pages()), Vec::<u64>::new());
    let (memory, _) = Memory::new(0, 0, PRESENT, false);
    assert!(memory.pages().is_empty());
    let (memory, _) = Memory::new(0xffff_8000_0000_0000, 0x3000, PRESENT, false);
    assert_eq!(numbers_of(memory.pages()).len(), 3);
}

#[test]
fn memory_unmap_plans_to_unmap_every_page() {
    let (memory, _) = Memory::new(0x4000, 0x3000, PRESENT, false);
    let plan = memory.unmap();
    assert_eq!(plan.work, PageWork::UnmapAll);
    assert_eq!(numbers_of(plan.pages), vec![4, 5, 6]);
    assert!(plan.release);
    assert_eq!(plan.clear, None);
}

#[test]
fn memory_resize_touches_only_the_pages_that_come_or_go() {
    let (mut memory, _) = Memory::new(0x1000, 0x2000, PRESENT | WRITABLE, false);
    let grow = memory.resize(0x4000, true).unwrap();
    assert_eq!(memory.size(), 0x4000);
    assert_eq!(grow.work, PageWork::MapMissing);
    assert_eq!(numbers_of(grow.pages), vec![3, 4]);
    assert_eq!(grow.flags, PRESENT | WRITABLE);
    assert_eq!(grow.clear, Some((0x3000, 0x2000)));
    assert_eq!(numbers_of(memory.pages()), vec![1, 2, 3, 4]);

    let shrink = memory.resize(0x2000, true).unwrap();
    assert_eq!(memory.size(), 0x2000);
    assert_eq!(shrink.work, PageWork::UnmapPresent);
    assert_eq!(numbers_of(shrink.pages), vec![3, 4]);
    assert!(shrink.release && !grow.release);
    assert_eq!(shrink.clear, None);
    assert_eq!(numbers_of(memory.pages()), vec![1, 2]);

    assert!(memory.resize(0x2000, true).is_none());
    assert_eq!(memory.size(), 0x2000);

    let grow = memory.resize(0x2001, false).unwrap();
    assert_eq!(numbers_of(grow.pages), vec![3]);
    assert_eq!(grow.clear, None);
}

#[test]
fn memory_resize_within_a_page() {
    let (mut memory, _) = Memory::new(0x1000, 0x800, PRESENT | WRITABLE, false);
    // The region ends within page 1, which stays as it is.
    let grow = memory.resize(0x1800, true).unwrap();
    assert_eq!(numbers_of(grow.pages), vec![2]);
    assert_eq!(grow.clear, Some((0x1800, 0x1000)));
    let shrink = memory.resize(0x800, false).unwrap();
    assert_eq!(numbers_of(shrink.pages), vec![2]);
    assert_eq!(numbers_of(memory.pages()), vec![1]);
    // No page comes or goes while the last byte stays in its page.
    let grow = memory.resize(0x900, true).unwrap();
    assert!(grow.pages.is_empty());
    assert_eq!(grow.clear, Some((0x1800, 0x100)));
    let shrink = memory.resize(1, false).unwrap();
    assert!(shrink.pages.is_empty());
    let shrink = memory.resize(0, false).unwrap();
    assert_eq!(numbers_of(shrink.pages), vec![1]);
    assert_eq!(memory.size(), 0);
    let grow = memory.resize(0x1001, false).unwrap();
    assert_eq!(numbers_of(grow.pages), vec![1, 2]);
}

#[test]
fn memory_shrinks_and_keeps_the_pages_of_its_bytes() {
    let (mut memory, _) = Memory::new(0x1000, 8192, PRESENT | WRITABLE, false);
    let shrink = memory.resize(100, false).unwrap();
    // The hundred bytes that stay lie in page 1.
    assert_eq!(numbers_of(shrink.pages), vec![2]);
    assert_eq!(numbers_of(memory.pages()), vec![1]);
    let grow = memory.resize(8192, false).unwrap();
    assert_eq!(numbers_of(grow.pages), vec![2]);
    let (mut memory, _) = Memory::new(0x1800, 100, PRESENT | WRITABLE, false);
    let grow = memory.resize(0x2000, false).unwrap();
    assert_eq!(numbers_of(grow.pages), vec![2, 3]);
    let shrink = memory.resize(100, false).unwrap();
    assert_eq!(numbers_of(shrink.pages), vec![2, 3]);
}

#[test]
fn memory_remap_changes_the_flags() {
    let (mut memory, _) = Memory::new(0x1000, 0x2000, PRESENT | WRITABLE, false);
    let plan = memory.remap(PRESENT | NO_EXECUTE);
    assert_eq!(memory.flags(), PRESENT | NO_EXECUTE);
    assert_eq!(plan.work, PageWork::UpdateFlags);
    assert_eq!(numbers_of(plan.pages), vec![1, 2]);
    assert_eq!(plan.flags, PRESENT | NO_EXECUTE);
    assert_eq!(plan.clear, None);
    assert_eq!(memory.start_address(), 0x1000);
    assert_eq!(memory.size(), 0x2000);
}

#[test]
fn memory_move_to_keeps_the_distance_of_each_page() {
    let (mut memory, _) = Memory::new(0x1000, 0x3000, PRESENT | WRITABLE, false);
    let plan = memory.move_to(0x8000_0800);
    assert_eq!(memory.start_address(), 0x8000_0800);
    assert_eq!(memory.size(), 0x3000);
    assert_eq!(memory.flags(), PRESENT | WRITABLE);
    assert_eq!(plan.flags(), PRESENT | WRITABLE);
    assert_eq!(numbers_of(plan.pages()), vec![1, 2, 3]);
    assert_eq!(plan.target(Page::from_number(1)).number(), 0x80000);
    assert_eq!(plan.target(Page::from_number(2)).number(), 0x80001);
    assert_eq!(plan.target(Page::from_number(3)).number(), 0x80002);

    let (mut memory, _) = Memory::new(0x5000, 0x1000, PRESENT, false);
    let plan = memory.move_to(0x2000);
    assert_eq!(plan.target(Page::from_number(5)).number(), 2);
}

#[test]
fn tls_load_copies_the_master() {
    let (mem, _) = Memory::new(0x7000, 0x1000, PRESENT | WRITABLE, false);
    let tls = Tls {
        master: 0x40_0000,
        file_size: 0x120,
        mem,
        offset: 0x10,
    };
    assert_eq!(tls.load(), (0x40_0000, 0x7010, 0x120));
}

#[test]
fn flush_all_flushes_only_what_was_consumed() {
    let promise = MapperFlushAll::new();
    assert!(!promise.flush());
    let mut promise = MapperFlushAll::new();
    promise.consume(MapperFlush::new(Page::from_number(1)));
    promise.consume(MapperFlush::new(Page::from_number(2)));
    assert!(promise.flush());
    let mut promise = MapperFlushAll::new();
    promise.consume(MapperFlush::new(Page::from_number(1)));
    promise.ignore();
}

#[test]
fn flush_names_its_page() {
    assert_eq!(MapperFlush::new(Page::from_number(9)).flush(), Page::from_number(9));
    MapperFlush::new(Page::from_number(9)).ignore();
}

#[test]
fn heap_init_plans_the_pages_of_the_heap() {
    let (plan, start, size) = heap::init(0x4444_4444_0000, 100 * 1024);
    assert_eq!(start, 0x4444_4444_0000);
    assert_eq!(size, 100 * 1024);
    assert_eq!(plan.work, PageWork::MapAll);
    assert_eq!(plan.flags, PRESENT | GLOBAL | WRITABLE | NO_EXECUTE);
    assert_eq!(plan.flags, heap::HEAP_FLAGS);
    assert_eq!(plan.clear, None);
    let pages = numbers_of(plan.pages);
    assert_eq!(pages.len(), 25);
    assert_eq!(pages[0], 0x4_4444_4440);
    assert_eq!(pages[24], 0x4_4444_4440 + 24);
    let (plan, _, _) = heap::init(0x1800, 0x1000);
    assert_eq!(numbers_of(plan.pages), vec![1, 2]);
}

#[test]
fn heap_allocator_hands_out_aligned_memory() {
    let mut heap = HeapAllocator::new(0x1000, 0x2000);
    assert_eq!(heap.allocate(16, 8), Some(0x1000));
    assert_eq!(heap.allocate(1, 1), Some(0x1010));
    assert_eq!(heap.allocate(8, 16), Some(0x1020));
    assert_eq!(heap.allocate(3, 4096), None);
    assert_eq!(heap.allocate(0x1000, 1), None);
    heap.deallocate(0x1000, 16);
    assert_eq!(heap.allocate(0xfd8, 1), Some(0x1028));
    assert_eq!(heap.allocate(1, 1), None);
    assert_eq!(heap.allocate(0, 1), Some(0x2000));
}

#[test]
fn heap_allocator_aligns_upwards() {
    let mut heap = HeapAllocator::new(0x1001, 0x10000);
    assert_eq!(heap.allocate(1, 0x1000), Some(0x2000));
    assert_eq!(heap.allocate(1, 2), Some(0x2002));
    assert_eq!(heap.allocate(1, 1), Some(0x2003));
    assert_eq!(heap.allocate(1, 8), Some(0x2008));
    let mut full = HeapAllocator::new(usize::MAX - 15, usize::MAX);
    assert_eq!(full.allocate(usize::MAX, 1), Some(usize::MAX - 15));
}

#[test]
fn page_work_passes_over_pages_that_do_not_meet_its_condition() {
    assert!(PageWork::MapMissing.touches(false));
    assert!(!PageWork::MapMissing.touches(true));
    assert!(PageWork::UnmapPresent.touches(true));
    assert!(!PageWork::UnmapPresent.touches(false));
    for work in [PageWork::MapAll, PageWork::UnmapAll, PageWork::UpdateFlags] {
        assert!(work.touches(true));
        assert!(work.touches(false));
    }
    assert!(PageWork::MapAll.maps() && PageWork::MapMissing.maps());
    assert!(!PageWork::UnmapAll.maps() && !PageWork::UnmapPresent.maps() && !PageWork::UpdateFlags.maps());
    assert!(PageWork::UnmapAll.unmaps() && PageWork::UnmapPresent.unmaps());
    assert!(!PageWork::MapAll.unmaps() && !PageWork::MapMissing.unmaps() && !PageWork::UpdateFlags.unmaps());
}
