use bootloader::bootinfo::{FrameRange, MemoryMap, MemoryRegion, MemoryRegionType};
use toyos::mem::{
    frame_containing_address, page_table_address, BootInfoFrameAllocator, EmptyFrameAllocator,
};

fn region(start_frame: u64, end_frame: u64, region_type: MemoryRegionType) -> MemoryRegion {
    MemoryRegion {
        range: FrameRange { start_frame_number: start_frame, end_frame_number: end_frame },
        region_type,
    }
}

fn sample_map() -> MemoryMap {
    let mut map = MemoryMap::new();
    map.add_region(region(0, 1, MemoryRegionType::FrameZero));
    map.add_region(region(1, 3, MemoryRegionType::Usable));
    map.add_region(region(3, 16, MemoryRegionType::Kernel));
    map.add_region(region(16, 19, MemoryRegionType::Usable));
    map.add_region(region(19, 32, MemoryRegionType::Reserved));
    map
}

#[test]
fn the_empty_allocator_has_no_frame() {
    let mut allocator = EmptyFrameAllocator;
    assert_eq!(allocator.allocate_frame(), None);
    assert_eq!(allocator.allocate_frame(), None);
}

#[test]
fn usable_frames_are_handed_out_in_the_order_of_the_map() {
    let map = sample_map();
    assert!(BootInfoFrameAllocator::accepts(&map));
    let mut allocator = BootInfoFrameAllocator::new(&map);
    assert_eq!(allocator.allocated(), 0);
    let mut frames = Vec::new();
    while let Some(frame) = allocator.allocate_frame() {
        frames.push(frame);
    }
    assert_eq!(frames, vec![0x1000, 0x2000, 0x10000, 0x11000, 0x12000]);
    assert_eq!(allocator.allocated(), 6);
    assert_eq!(allocator.allocate_frame(), None);
    assert_eq!(allocator.allocated(), 7);
}

#[test]
fn the_nth_usable_frame_by_index() {
    let map = sample_map();
    let allocator = BootInfoFrameAllocator::new(&map);
    assert_eq!(allocator.useable_frame(0), Some(0x1000));
    assert_eq!(allocator.useable_frame(2), Some(0x10000));
    assert_eq!(allocator.useable_frame(4), Some(0x12000));
    assert_eq!(allocator.useable_frame(5), None);
    assert_eq!(allocator.useable_frame(usize::MAX), None);
}

#[test]
fn a_map_without_usable_memory_has_no_frame() {
    let mut map = MemoryMap::new();
    map.add_region(region(0, 100, MemoryRegionType::Reserved));
    map.add_region(region(100, 200, MemoryRegionType::InUse));
    let mut allocator = BootInfoFrameAllocator::new(&map);
    assert_eq!(allocator.allocate_frame(), None);
    let empty = MemoryMap::new();
    assert!(BootInfoFrameAllocator::accepts(&empty));
    assert_eq!(BootInfoFrameAllocator::new(&empty).allocate_frame(), None);
}

#[test]
fn frames_up_to_the_end_of_physical_memory_are_handed_out() {
    let mut map = MemoryMap::new();
    map.add_region(region(0xff_ffff_fffe, 0x100_0000_0000, MemoryRegionType::Usable));
    assert!(BootInfoFrameAllocator::accepts(&map));
    let mut allocator = BootInfoFrameAllocator::new(&map);
    assert_eq!(allocator.allocate_frame(), Some(0xf_ffff_ffff_e000));
    assert_eq!(allocator.allocate_frame(), Some(0xf_ffff_ffff_f000));
    assert_eq!(allocator.allocate_frame(), None);
}

#[test]
fn a_usable_region_past_physical_memory_is_not_accepted() {
    let mut map = MemoryMap::new();
    map.add_region(region(1, 3, MemoryRegionType::Usable));
    map.add_region(region(0xff_ffff_ffff, 0x100_0000_0001, MemoryRegionType::Usable));
    assert!(!BootInfoFrameAllocator::accepts(&map));
    let mut reserved = MemoryMap::new();
    reserved.add_region(region(0xff_ffff_ffff, 0x100_0000_0001, MemoryRegionType::Reserved));
    assert!(BootInfoFrameAllocator::accepts(&reserved));
    let mut overflowing = MemoryMap::new();
    overflowing.add_region(region(0x10_0000_0000_0000, 0x10_0000_0000_0000 - 1, MemoryRegionType::Usable));
    assert!(!BootInfoFrameAllocator::accepts(&overflowing));
}

#[test]
fn an_address_lies_in_the_frame_that_starts_at_or_below_it() {
    assert_eq!(frame_containing_address(0xb8000), Some(0xb8000));
    assert_eq!(frame_containing_address(0xb8123), Some(0xb8000));
    assert_eq!(frame_containing_address(0xfff), Some(0));
    assert_eq!(frame_containing_address(0x1000), Some(0x1000));
    assert_eq!(frame_containing_address(0xf_ffff_ffff_ffff), Some(0xf_ffff_ffff_f000));
    assert_eq!(frame_containing_address(0x10_0000_0000_0000), None);
    assert_eq!(frame_containing_address(u64::MAX), None);
}

#[test]
fn a_page_table_is_found_at_the_offset_plus_its_physical_address() {
    assert_eq!(page_table_address(0xffff_8000_0000_0000, 0x1000), 0xffff_8000_0000_1000);
    assert_eq!(page_table_address(0, 0x2000), 0x2000);
    assert_eq!(page_table_address(0x1000_0000, 0x3_4000), 0x1003_4000);
}
