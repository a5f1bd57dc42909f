//! Physical frame allocation from the boot loader's memory map.
//!
//! The map lists regions of physical memory by frame number. The allocator
//! hands out the frames of the usable regions, in the order of the map, each
//! frame once.

use crate::gdt::{canonical, virt_addr_add};
use bootloader::bootinfo::{MemoryMap, MemoryRegion, MemoryRegionType};
use vstd::prelude::*;

verus! {

/// The size of a frame in bytes.
pub const FRAME_SIZE: u64 = 4096;

/// The largest frame number whose address is a `u64`.
pub const MAX_FRAME_NUMBER: u64 = 0xf_ffff_ffff_ffff;

/// The first frame number whose address is not a physical address: physical
/// addresses have 52 bits.
pub const FRAME_NUMBER_LIMIT: u64 = 0x100_0000_0000;

/// The boot loader's map of physical memory.
#[verifier::external_type_specification]
#[verifier::external_body]
pub struct ExMemoryMap(MemoryMap);

/// One region of the boot loader's memory map: what a `MemoryMap`
/// dereferences to a slice of.
#[verifier::external_type_specification]
#[verifier::external_body]
pub struct ExMemoryRegion(MemoryRegion);

/// The regions that a memory map lists, in its order: of each region the
/// number of its first frame, the number of the first frame after it, and
/// whether it is usable memory.
pub uninterp spec fn memory_regions(map: MemoryMap) -> Seq<(u64, u64, bool)>;

/// The length of the slice of regions that a `MemoryMap` dereferences to.
#[verifier::external_body]
fn region_count(map: &MemoryMap) -> (count: usize)
    ensures
        count == memory_regions(*map).len(),
{
    map.len()
}

/// The region at `index` of the slice that a `MemoryMap` dereferences to:
/// the two frame numbers of its `range`, and whether its `region_type` is
/// `Usable`. Indexing panics past the end of the slice.
#[verifier::external_body]
fn region_at(map: &MemoryMap, index: usize) -> (region: (u64, u64, bool))
    requires
        index < memory_regions(*map).len(),
    ensures
        region == memory_regions(*map)[index as int],
{
    let region = &map[index];
    (
        region.range.start_frame_number,
        region.range.end_frame_number,
        matches!(region.region_type, MemoryRegionType::Usable),
    )
}

/// `x86_64::PhysAddr::new`, `PhysFrame::<Size4KiB>::containing_address`,
/// `start_address` and `as_u64`: the start of the 4 KiB frame that contains
/// the physical address `addr`, which is `addr` aligned down to 4096.
/// `PhysAddr::new` panics on a number with a bit from 52 up set.
#[verifier::external_body]
fn frame_containing(addr: u64) -> (start: u64)
    requires
        addr < 0x10_0000_0000_0000,
    ensures
        start == addr - addr % 4096,
{
    let frame: x86_64::structures::paging::PhysFrame<x86_64::structures::paging::Size4KiB> =
        x86_64::structures::paging::PhysFrame::containing_address(x86_64::PhysAddr::new(addr));
    frame.start_address().as_u64()
}

/// The first number that is not a physical address.
pub const PHYSICAL_ADDRESS_LIMIT: u64 = 0x10_0000_0000_0000;

/// The start address of the frame that contains the physical address
/// `addr`, or `None` where `addr` is not a physical address.
pub fn frame_containing_address(addr: u64) -> (start: Option<u64>)
    ensures
        start == if addr < PHYSICAL_ADDRESS_LIMIT {
            Some((addr - addr % 4096) as u64)
        } else {
            None
        },
{
    if addr < PHYSICAL_ADDRESS_LIMIT {
        Some(frame_containing(addr))
    } else {
        None
    }
}

/// Whether the page table that starts at the physical address `table_start`
/// can be reached where all physical memory is mapped from the virtual
/// address `physical_memory_offset` on: both the offset and the table's
/// virtual address are canonical.
pub open spec fn table_reachable(physical_memory_offset: u64, table_start: u64) -> bool {
    canonical(physical_memory_offset as int) && canonical(physical_memory_offset + table_start)
}

/// The virtual address of the page table that starts at the physical
/// address `table_start`, where all physical memory is mapped from the
/// virtual address `physical_memory_offset` on.
pub fn page_table_address(physical_memory_offset: u64, table_start: u64) -> (addr: u64)
    requires
        table_reachable(physical_memory_offset, table_start),
    ensures
        addr == physical_memory_offset + table_start,
{
    virt_addr_add(physical_memory_offset, table_start)
}

/// Whether the frames of `region` can be handed out: a usable region has
/// frame numbers whose addresses are `u64`s, and its frames, if it has any,
/// lie at physical addresses.
pub open spec fn region_addressable(region: (u64, u64, bool)) -> bool {
    region.2 ==> {
        &&& region.0 <= MAX_FRAME_NUMBER
        &&& region.1 <= MAX_FRAME_NUMBER
        &&& region.0 < region.1 ==> region.1 <= FRAME_NUMBER_LIMIT
    }
}

/// Whether the frames of every region can be handed out.
pub open spec fn addressable(regions: Seq<(u64, u64, bool)>) -> bool {
    forall|i: int| 0 <= i < regions.len() ==> region_addressable(#[trigger] regions[i])
}

/// The start addresses of the frames of one region, ascending; none where
/// the region is not usable.
pub open spec fn region_frames(region: (u64, u64, bool)) -> Seq<u64> {
    if region.2 && region.0 < region.1 {
        Seq::new((region.1 - region.0) as nat, |k: int| ((region.0 + k) * 4096) as u64)
    } else {
        Seq::empty()
    }
}

/// The start addresses of the usable frames, region by region in the order
/// of the map.
pub open spec fn usable_frames(regions: Seq<(u64, u64, bool)>) -> Seq<u64>
    decreases regions.len(),
{
    if regions.len() == 0 {
        Seq::empty()
    } else {
        usable_frames(regions.drop_last()) + region_frames(regions.last())
    }
}

/// The `n`th usable frame, counted from zero, if there are that many.
pub open spec fn nth_usable_frame(regions: Seq<(u64, u64, bool)>, n: nat) -> Option<u64> {
    if n < usable_frames(regions).len() {
        Some(usable_frames(regions)[n as int])
    } else {
        None
    }
}

/// The usable frames of the first regions are the first usable frames.
pub proof fn lemma_usable_frames_prefix(regions: Seq<(u64, u64, bool)>, i: int)
    requires
        0 <= i <= regions.len(),
    ensures
        usable_frames(regions.take(i)).len() <= usable_frames(regions).len(),
        usable_frames(regions.take(i)) == usable_frames(regions).take(
            usable_frames(regions.take(i)).len() as int,
        ),
        i < regions.len() ==> usable_frames(regions.take(i + 1)) == usable_frames(regions.take(i))
            + region_frames(regions[i]),
    decreases regions.len() - i,
{
    if i < regions.len() {
        assert(regions.take(i + 1).drop_last() =~= regions.take(i));
        assert(regions.take(i + 1).last() == regions[i]);
        lemma_usable_frames_prefix(regions, i + 1);
        let shorter = usable_frames(regions.take(i));
        let longer = usable_frames(regions.take(i + 1));
        assert(longer.take(shorter.len() as int) =~= shorter);
        assert(usable_frames(regions).take(longer.len() as int).take(shorter.len() as int)
            =~= usable_frames(regions).take(shorter.len() as int));
    } else {
        assert(regions.take(i) =~= regions);
        assert(usable_frames(regions).take(usable_frames(regions).len() as int) =~= usable_frames(
            regions,
        ));
    }
}

/// A frame allocator that has no frames.
pub struct EmptyFrameAllocator;

impl EmptyFrameAllocator {
    /// Never hands out a frame.
    pub fn allocate_frame(&mut self) -> (frame: Option<u64>)
        ensures
            frame is None,
    {
        None
    }
}

/// What a frame allocator holds: the regions of its memory map and the
/// number of frames that it has handed out.
pub struct AllocatorState {
    pub regions: Seq<(u64, u64, bool)>,
    pub next: nat,
}

/// A frame allocator that hands out the usable frames of the boot loader's
/// memory map.
pub struct BootInfoFrameAllocator<'a> {
    memory_map: &'a MemoryMap,
    next: usize,
}

impl<'a> View for BootInfoFrameAllocator<'a> {
    type V = AllocatorState;

    closed spec fn view(&self) -> AllocatorState {
        AllocatorState { regions: memory_regions(*self.memory_map), next: self.next as nat }
    }
}

impl<'a> BootInfoFrameAllocator<'a> {
    /// The frames of the map can be handed out.
    pub open spec fn wf(&self) -> bool {
        addressable(self@.regions)
    }

    /// Whether an allocator can be made for `memory_map`: whether the frames
    /// of its usable regions can be handed out.
    pub fn accepts(memory_map: &MemoryMap) -> (yes: bool)
        ensures
            yes == addressable(memory_regions(*memory_map)),
    {
        let count: usize = region_count(memory_map);
        let mut i: usize = 0;
        while i < count
            invariant
                i <= count,
                count == memory_regions(*memory_map).len(),
                forall|j: int| 0 <= j < i ==> region_addressable(#[trigger] memory_regions(*memory_map)[j]),
            decreases count - i,
        {
            let region: (u64, u64, bool) = region_at(memory_map, i);
            if region.2 {
                if region.0 > MAX_FRAME_NUMBER || region.1 > MAX_FRAME_NUMBER {
                    return false;
                }
                if region.0 < region.1 && region.1 > FRAME_NUMBER_LIMIT {
                    return false;
                }
            }
            i += 1;
        }
        true
    }

    /// An allocator for `memory_map` that has handed out nothing yet. The
    /// caller sees to it that the frames of the usable regions are unused.
    pub fn new(memory_map: &'a MemoryMap) -> (allocator: Self)
        requires
            addressable(memory_regions(*memory_map)),
        ensures
            allocator.wf(),
            allocator@.regions == memory_regions(*memory_map),
            allocator@.next == 0,
    {
        BootInfoFrameAllocator { memory_map, next: 0 }
    }

    /// The number of frames that were asked for so far.
    pub fn allocated(&self) -> (next: usize)
        ensures
            next == self@.next,
    {
        self.next
    }

    /// The start address of the `n`th usable frame of the map, counted from
    /// zero, or `None` where the map has no more than `n` usable frames.
    pub fn useable_frame(&self, n: usize) -> (frame: Option<u64>)
        requires
            self.wf(),
        ensures
            frame == nth_usable_frame(self@.regions, n as nat),
    {
        let ghost regions = memory_regions(*self.memory_map);
        let count: usize = region_count(self.memory_map);
        let mut remaining: usize = n;
        let mut i: usize = 0;
        while i < count
            invariant
                i <= count,
                count == regions.len(),
                regions == memory_regions(*self.memory_map),
                addressable(regions),
                usable_frames(regions.take(i as int)).len() + remaining == n,
            decreases count - i,
        {
            let region: (u64, u64, bool) = region_at(self.memory_map, i);
            proof {
                lemma_usable_frames_prefix(regions, i as int);
                lemma_usable_frames_prefix(regions, i + 1);
                assert(region_addressable(regions[i as int]));
            }
            if region.2 && region.0 < region.1 {
                let frames: u64 = region.1 - region.0;
                if (remaining as u64) < frames {
                    let number: u64 = region.0 + remaining as u64;
                    let addr: u64 = number * FRAME_SIZE;
                    assert(addr % 4096 == 0) by (nonlinear_arith)
                        requires
                            addr == number * 4096,
                    ;
                    proof {
                        let before = usable_frames(regions.take(i as int));
                        let through = usable_frames(regions.take(i + 1));
                        assert(through[n as int] == region_frames(regions[i as int])[remaining as int]);
                        assert(usable_frames(regions)[n as int] == usable_frames(regions).take(
                            through.len() as int,
                        )[n as int]);
                    }
                    return Some(frame_containing(addr));
                }
                remaining = remaining - frames as usize;
            }
            i += 1;
        }
        proof {
            assert(regions.take(count as int) =~= regions);
        }
        None
    }

    /// Hands out the next usable frame, by its start address, or `None`
    /// where all of them were handed out. Each call counts, also one that
    /// finds no frame.
    pub fn allocate_frame(&mut self) -> (frame: Option<u64>)
        requires
            old(self).wf(),
            old(self)@.next < usize::MAX,
        ensures
            final(self).wf(),
            frame == nth_usable_frame(old(self)@.regions, old(self)@.next),
            final(self)@.regions == old(self)@.regions,
            final(self)@.next == old(self)@.next + 1,
    {
        let frame: Option<u64> = self.useable_frame(self.next);
        self.next += 1;
        frame
    }
}

} // verus!
