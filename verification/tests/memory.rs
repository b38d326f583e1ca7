use frame_allocator::memory::area_frame_allocator::memory_map_is_well_formed;
use frame_allocator::memory::{Frame, MemoryArea, MAX_FRAME_NUMBER};
use frame_allocator::paging::{PhysicalAddress, PAGE_SIZE};

#[test]
fn page_size_is_4096() {
    assert_eq!(PAGE_SIZE, 0x1000);
}

#[test]
fn max_frame_number_is_the_frame_of_the_highest_address() {
    assert_eq!(MAX_FRAME_NUMBER, usize::MAX / 4096);
    assert_eq!(
        Frame::containing_address(PhysicalAddress::new(usize::MAX)).number,
        MAX_FRAME_NUMBER
    );
}

#[test]
fn physical_address_keeps_its_value() {
    assert_eq!(PhysicalAddress::new(0).get(), 0);
    assert_eq!(PhysicalAddress::new(0x1234).get(), 0x1234);
    assert_eq!(PhysicalAddress::new(usize::MAX).get(), usize::MAX);
}

#[test]
fn containing_address_rounds_down_to_the_frame() {
    assert_eq!(Frame::containing_address(PhysicalAddress::new(0)), Frame { number: 0 });
    assert_eq!(Frame::containing_address(PhysicalAddress::new(0xfff)), Frame { number: 0 });
    assert_eq!(Frame::containing_address(PhysicalAddress::new(0x1000)), Frame { number: 1 });
    assert_eq!(Frame::containing_address(PhysicalAddress::new(0x1fff)), Frame { number: 1 });
    assert_eq!(Frame::containing_address(PhysicalAddress::new(0x2000)), Frame { number: 2 });
    assert_eq!(Frame::containing_address(PhysicalAddress::new(0x12345678)), Frame { number: 0x12345 });
}

#[test]
fn frames_are_ordered_by_number() {
    assert!(Frame { number: 1 } < Frame { number: 2 });
    assert!(Frame { number: 7 } >= Frame { number: 7 });
    assert!(Frame { number: 7 } == Frame { number: 7 });
    assert!(Frame { number: 7 } != Frame { number: 8 });
}

#[test]
fn area_frames_of_an_aligned_area() {
    let area = MemoryArea { base_addr: 0x3000, length: 0x2000 };
    assert!(area.is_well_formed());
    assert_eq!(area.start_frame(), Frame { number: 3 });
    assert_eq!(area.end_frame(), Frame { number: 4 });
}

#[test]
fn area_frames_of_an_unaligned_area() {
    let area = MemoryArea { base_addr: 0x1800, length: 0x1000 };
    assert!(area.is_well_formed());
    assert_eq!(area.start_frame(), Frame { number: 1 });
    assert_eq!(area.end_frame(), Frame { number: 2 });
}

#[test]
fn area_of_one_byte_has_one_frame() {
    let area = MemoryArea { base_addr: 0x5000, length: 1 };
    assert_eq!(area.start_frame(), Frame { number: 5 });
    assert_eq!(area.end_frame(), Frame { number: 5 });
}

#[test]
fn empty_area_at_a_frame_boundary_ends_before_it_starts() {
    let area = MemoryArea { base_addr: 0x2000, length: 0 };
    assert!(area.is_well_formed());
    assert_eq!(area.start_frame(), Frame { number: 2 });
    assert_eq!(area.end_frame(), Frame { number: 1 });
}

#[test]
fn empty_area_at_address_zero_is_not_well_formed() {
    assert!(!MemoryArea { base_addr: 0, length: 0 }.is_well_formed());
    assert!(MemoryArea { base_addr: 1, length: 0 }.is_well_formed());
    assert!(MemoryArea { base_addr: 0, length: 1 }.is_well_formed());
}

#[test]
fn area_must_end_within_the_address_space() {
    let top = usize::MAX as u64;
    assert!(MemoryArea { base_addr: top, length: 1 }.is_well_formed());
    assert!(MemoryArea { base_addr: top, length: 0 }.is_well_formed());
    assert!(!MemoryArea { base_addr: top, length: 2 }.is_well_formed());
    assert!(MemoryArea { base_addr: 0, length: top }.is_well_formed());
    assert!(MemoryArea { base_addr: 1, length: top }.is_well_formed());
    assert!(!MemoryArea { base_addr: 2, length: top }.is_well_formed());
    assert!(!MemoryArea { base_addr: top - 0xfff, length: 0x1001 }.is_well_formed());
}

#[test]
fn area_that_ends_at_the_top_of_the_address_space() {
    let top = usize::MAX as u64;
    let area = MemoryArea { base_addr: top - 0x1fff, length: 0x2000 };
    assert!(area.is_well_formed());
    assert_eq!(area.start_frame(), Frame { number: MAX_FRAME_NUMBER - 1 });
    assert_eq!(area.end_frame(), Frame { number: MAX_FRAME_NUMBER });
}

#[test]
fn memory_map_check_looks_at_every_area() {
    let good = MemoryArea { base_addr: 0x1000, length: 0x1000 };
    let bad = MemoryArea { base_addr: 0, length: 0 };
    assert!(memory_map_is_well_formed(&[]));
    assert!(memory_map_is_well_formed(&[good]));
    assert!(memory_map_is_well_formed(&[good, good]));
    assert!(!memory_map_is_well_formed(&[bad]));
    assert!(!memory_map_is_well_formed(&[good, bad]));
    assert!(!memory_map_is_well_formed(&[bad, good]));
    assert!(!memory_map_is_well_formed(&[good, good, bad]));
}
