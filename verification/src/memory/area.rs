//! The memory map that the boot loader hands over, and the areas in it.

use bootloader::bootinfo::{MemoryMap, MemoryRegion};
use vstd::prelude::*;

verus! {

/// `bootloader::bootinfo::MemoryMap`, the list of memory regions that the
/// boot loader hands to the kernel. Nothing is known of what is inside it but
/// through [`memory_map_regions`].
#[verifier::external_type_specification]
#[verifier::external_body]
pub struct ExMemoryMap(MemoryMap);

/// `bootloader::bootinfo::MemoryRegion`, one entry of a memory map. The map
/// dereferences to a slice of these; nothing here holds one.
#[verifier::external_type_specification]
#[verifier::external_body]
pub struct ExMemoryRegion(MemoryRegion);

/// What a memory map of the boot loader holds: its regions in the order of
/// the map, each as the number of its first frame, the number of the first
/// frame behind it, and the number of its region type in the order in which
/// `MemoryRegionType` declares its variants (`Usable` is 0).
pub uninterp spec fn memory_map_regions(map: MemoryMap) -> Seq<(u64, u64, u32)>;

/// `len` of the slice of regions that a `MemoryMap` dereferences to: the
/// number of regions in the map.
#[verifier::external_body]
fn memory_map_len(map: &MemoryMap) -> (len: usize)
    ensures
        len == memory_map_regions(*map).len(),
{
    map.len()
}

/// Indexing of the slice of regions that a `MemoryMap` dereferences to: the
/// region at `index`, handed out by its two frame numbers and the number of
/// its type. The slice panics on an index that is not below its length.
#[verifier::external_body]
fn memory_map_region(map: &MemoryMap, index: usize) -> (region: (u64, u64, u32))
    requires
        index < memory_map_regions(*map).len(),
    ensures
        region == memory_map_regions(*map)[index as int],
{
    let region = &map[index];
    (region.range.start_frame_number, region.range.end_frame_number, region.region_type as u32)
}

/// The kinds of memory that a memory map tells apart.
#[derive(Clone, Copy, Debug, PartialEq, Eq, Structural)]
pub enum MemoryAreaType {
    /// Unused memory, free for the kernel to hand out.
    Usable,
    /// Memory that is already in use.
    InUse,
    /// Memory reserved by the hardware.
    Reserved,
    /// ACPI tables that may be reclaimed.
    AcpiReclaimable,
    /// ACPI non-volatile storage.
    AcpiNvs,
    /// Memory that is known to be defective.
    BadMemory,
    /// The image of the kernel.
    Kernel,
    /// The stack of the kernel.
    KernelStack,
    /// Page tables.
    PageTable,
    /// The boot loader itself.
    Bootloader,
    /// The frame at address zero.
    FrameZero,
    /// An empty region.
    Empty,
    /// The information that the boot loader passes to the kernel.
    BootInfo,
    /// Additional packages.
    Package,
}

impl MemoryAreaType {
    /// The number under which a memory map holds this kind.
    pub open spec fn spec_code(self) -> u32 {
        match self {
            MemoryAreaType::Usable => 0,
            MemoryAreaType::InUse => 1,
            MemoryAreaType::Reserved => 2,
            MemoryAreaType::AcpiReclaimable => 3,
            MemoryAreaType::AcpiNvs => 4,
            MemoryAreaType::BadMemory => 5,
            MemoryAreaType::Kernel => 6,
            MemoryAreaType::KernelStack => 7,
            MemoryAreaType::PageTable => 8,
            MemoryAreaType::Bootloader => 9,
            MemoryAreaType::FrameZero => 10,
            MemoryAreaType::Empty => 11,
            MemoryAreaType::BootInfo => 12,
            MemoryAreaType::Package => 13,
        }
    }

    /// The number under which a memory map holds this kind.
    #[verifier::when_used_as_spec(spec_code)]
    pub fn code(self) -> (code: u32)
        ensures
            code == self.spec_code(),
    {
        match self {
            MemoryAreaType::Usable => 0,
            MemoryAreaType::InUse => 1,
            MemoryAreaType::Reserved => 2,
            MemoryAreaType::AcpiReclaimable => 3,
            MemoryAreaType::AcpiNvs => 4,
            MemoryAreaType::BadMemory => 5,
            MemoryAreaType::Kernel => 6,
            MemoryAreaType::KernelStack => 7,
            MemoryAreaType::PageTable => 8,
            MemoryAreaType::Bootloader => 9,
            MemoryAreaType::FrameZero => 10,
            MemoryAreaType::Empty => 11,
            MemoryAreaType::BootInfo => 12,
            MemoryAreaType::Package => 13,
        }
    }
}

/// One area of physical memory, as a memory map describes it.
#[derive(Clone, Copy, Debug, PartialEq, Eq, Structural)]
pub struct MemoryArea {
    /// Number of the first frame of the area.
    pub start_frame_number: u64,
    /// Number of the first frame behind the area.
    pub end_frame_number: u64,
    /// What the memory of the area is used for.
    pub area_type: MemoryAreaType,
}

/// The areas of kind `area_type` among `regions`, from position `from` on, in
/// the order of `regions`.
pub open spec fn areas_from(regions: Seq<(u64, u64, u32)>, area_type: MemoryAreaType, from: int) -> Seq<
    MemoryArea,
>
    decreases regions.len() - from,
{
    if from < 0 || from >= regions.len() {
        Seq::empty()
    } else if regions[from].2 == area_type.spec_code() {
        seq![
            MemoryArea {
                start_frame_number: regions[from].0,
                end_frame_number: regions[from].1,
                area_type,
            },
        ] + areas_from(regions, area_type, from + 1)
    } else {
        areas_from(regions, area_type, from + 1)
    }
}

/// A walk over the areas of one kind in a memory map.
///
/// The walk borrows the map, so that a copy of it is a second walk from the
/// same position.
#[derive(Clone, Copy)]
pub struct MemoryAreaIter<'a> {
    map: &'a MemoryMap,
    area_type: MemoryAreaType,
    i: usize,
}

impl<'a> View for MemoryAreaIter<'a> {
    type V = Seq<MemoryArea>;

    /// The areas that the walk has yet to hand out, in order.
    closed spec fn view(&self) -> Seq<MemoryArea> {
        areas_from(memory_map_regions(*self.map), self.area_type, self.i as int)
    }
}

impl<'a> MemoryAreaIter<'a> {
    /// The kind of area that the walk hands out.
    pub closed spec fn spec_area_type(&self) -> MemoryAreaType {
        self.area_type
    }

    /// A walk over all areas of kind `area_type` in `map`.
    pub fn new(map: &'a MemoryMap, area_type: MemoryAreaType) -> (areas: Self)
        ensures
            areas@ == areas_from(memory_map_regions(*map), area_type, 0),
            areas.spec_area_type() == area_type,
    {
        MemoryAreaIter { map, area_type, i: 0 }
    }

    /// The kind of area that the walk hands out.
    pub fn area_type(&self) -> (area_type: MemoryAreaType)
        ensures
            area_type == self.spec_area_type(),
    {
        self.area_type
    }

    /// Hands out the next area of the wanted kind, if one is left.
    pub fn next(&mut self) -> (area: Option<MemoryArea>)
        ensures
            final(self).spec_area_type() == old(self).spec_area_type(),
            old(self)@.len() == 0 ==> area.is_none() && final(self)@.len() == 0,
            old(self)@.len() > 0 ==> area == Some(old(self)@[0]) && final(self)@ == old(self)@.drop_first(),
    {
        let len = memory_map_len(self.map);
        let code = self.area_type.code();
        while self.i < len
            invariant
                len == memory_map_regions(*self.map).len(),
                code == self.area_type.spec_code(),
                self.map == old(self).map,
                self.area_type == old(self).area_type,
                self@ == old(self)@,
            decreases len - self.i,
        {
            let entry = memory_map_region(self.map, self.i);
            self.i += 1;
            if entry.2 == code {
                let area = MemoryArea {
                    start_frame_number: entry.0,
                    end_frame_number: entry.1,
                    area_type: self.area_type,
                };
                assert(old(self)@ == seq![area] + self@);
                assert(old(self)@.drop_first() == self@);
                return Some(area);
            }
        }
        None
    }
}

} // verus!
