use bootloader::boot::copy_kernel;
use bootloader::layout::{
    align_down, align_up, phys_to_virt, virt_to_phys, BootError, BootInfo, PHYSICAL_MEMORY_OFFSET,
};
use bootloader::probe::{memory_below_io, probe_memory, BootTag};
use bootloader::relocate::{relocate_segments, segments_valid, Segment, SegmentKind};
use fixedvec::FixedVec;

const OFF: u64 = PHYSICAL_MEMORY_OFFSET;

fn load(virtual_addr: u64, offset: u64, file_size: u64, mem_size: u64) -> Segment {
    Segment { kind: SegmentKind::Load, virtual_addr, offset, file_size, mem_size }
}

fn image_memory(len: usize) -> Vec<u8> {
    (0..len).map(|i| (i % 251) as u8 + 1).collect()
}

#[test]
fn probe_returns_first_memory_record() {
    let tags = vec![
        BootTag::Other,
        BootTag::Mem { start: 0x1000, size: 0x3B40_0000 },
        BootTag::Mem { start: 0x9000, size: 0x10 },
    ];
    assert_eq!(probe_memory(&tags), Ok((0x1000, 0x3B40_1000)));
}

#[test]
fn probe_without_memory_record_is_unavailable() {
    let tags = vec![BootTag::Other, BootTag::Other];
    assert_eq!(probe_memory(&tags), Err(BootError::MemoryMapUnavailable));
    assert_eq!(probe_memory(&Vec::new()), Err(BootError::MemoryMapUnavailable));
}

#[test]
fn probe_end_does_not_wrap_in_32_bits() {
    let tags = vec![BootTag::Mem { start: 0xFFFF_0000, size: 0x2_0000 }];
    assert_eq!(probe_memory(&tags), Ok((0xFFFF_0000, 0x1_0001_0000)));
}

#[test]
fn address_helpers() {
    assert_eq!(virt_to_phys(OFF + 0x8_0000), 0x8_0000);
    assert_eq!(phys_to_virt(0x8_0000), OFF + 0x8_0000);
    assert_eq!(align_down(0x20_0001), 0x20_0000);
    assert_eq!(align_down(0x40_0000), 0x40_0000);
    assert_eq!(align_up(0x20_0001), 0x40_0000);
    assert_eq!(align_up(0x40_0000), 0x40_0000);
    assert_eq!(align_up(0), 0);
}

#[test]
fn relocation_copies_and_zero_fills() {
    let mut mem = image_memory(0x400);
    let before = mem.clone();
    let mut space = [load(0, 0, 0, 0); 8];
    let mut segs = FixedVec::new(&mut space);
    // file bytes at image offset 0x10, destination 0x200, 0x20 bytes of tail
    segs.push(load(OFF + 0x200, 0x10, 0x40, 0x60)).unwrap();
    let span = relocate_segments(&mut mem, 0x100, 0, &segs);
    for i in 0..0x40 {
        assert_eq!(mem[0x200 + i], before[0x110 + i]);
    }
    for i in 0x240..0x260 {
        assert_eq!(mem[i], 0);
    }
    assert_eq!(mem[0x260], before[0x260]);
    assert_eq!(mem[0x1FF], before[0x1FF]);
    assert_eq!(span, (OFF, OFF + 0x20_0000));
}

#[test]
fn relocation_skips_other_segments() {
    let mut mem = image_memory(0x100);
    let before = mem.clone();
    let mut space = [load(0, 0, 0, 0); 4];
    let mut segs = FixedVec::new(&mut space);
    segs.push(Segment {
        kind: SegmentKind::Other,
        virtual_addr: OFF,
        offset: 0,
        file_size: 0x10,
        mem_size: 0x80,
    })
    .unwrap();
    let span = relocate_segments(&mut mem, 0, 0, &segs);
    assert_eq!(mem, before);
    assert_eq!(span, (u64::MAX, 0));
}

#[test]
fn relocation_with_overlapping_source_and_destination() {
    // the destination starts 8 bytes above the source and overlaps it
    let mut mem = image_memory(0x100);
    let before = mem.clone();
    let mut space = [load(0, 0, 0, 0); 4];
    let mut segs = FixedVec::new(&mut space);
    segs.push(load(OFF + 0x18, 0x10, 0x20, 0x20)).unwrap();
    relocate_segments(&mut mem, 0, 0, &segs);
    for i in 0..0x20 {
        assert_eq!(mem[0x18 + i], before[0x10 + i]);
    }
    // and one that moves down over its own source
    let mut mem2 = image_memory(0x100);
    let mut space2 = [load(0, 0, 0, 0); 4];
    let mut segs2 = FixedVec::new(&mut space2);
    segs2.push(load(OFF + 0x08, 0x10, 0x20, 0x20)).unwrap();
    relocate_segments(&mut mem2, 0, 0, &segs2);
    for i in 0..0x20 {
        assert_eq!(mem2[0x08 + i], before[0x10 + i]);
    }
}

#[test]
fn relocation_runs_last_header_first() {
    // the second header's destination is the first header's source: loading
    // the last header first reads the first header's bytes before they move
    let mut mem = image_memory(0x200);
    let before = mem.clone();
    let mut space = [load(0, 0, 0, 0); 4];
    let mut segs = FixedVec::new(&mut space);
    segs.push(load(OFF + 0x100, 0x40, 0x20, 0x20)).unwrap();
    segs.push(load(OFF + 0x140, 0x80, 0x20, 0x20)).unwrap();
    relocate_segments(&mut mem, 0, 0, &segs);
    for i in 0..0x20 {
        assert_eq!(mem[0x100 + i], before[0x40 + i]);
        assert_eq!(mem[0x140 + i], before[0x80 + i]);
    }
}

#[test]
fn span_covers_all_load_segments_at_2mib() {
    let mut mem = image_memory(0x60_0000);
    let mut space = [load(0, 0, 0, 0); 4];
    let mut segs = FixedVec::new(&mut space);
    segs.push(load(OFF + 0x28_0000, 0, 0x10, 0x1000)).unwrap();
    segs.push(load(OFF + 0x30_0000, 0x10, 0x10, 0x20_0000)).unwrap();
    let span = relocate_segments(&mut mem, 0, 0, &segs);
    assert_eq!(span, (OFF + 0x20_0000, OFF + 0x60_0000));
    assert!(span.0 <= OFF + 0x28_0000);
    assert!(span.1 >= OFF + 0x50_0000);
    assert_eq!(span.0 % 0x20_0000, 0);
    assert_eq!(span.1 % 0x20_0000, 0);
}

#[test]
fn tails_stay_zero_with_disjoint_destinations() {
    let mut mem = image_memory(0x400);
    let mut space = [load(0, 0, 0, 0); 4];
    let mut segs = FixedVec::new(&mut space);
    segs.push(load(OFF + 0x100, 0x00, 0x10, 0x80)).unwrap();
    segs.push(load(OFF + 0x180, 0x20, 0x30, 0x90)).unwrap();
    relocate_segments(&mut mem, 0x300, 0, &segs);
    for i in 0x110..0x180 {
        assert_eq!(mem[i], 0);
    }
    for i in 0x1B0..0x210 {
        assert_eq!(mem[i], 0);
    }
}

#[test]
fn copy_kernel_hands_off_memory_bounds() {
    let mut mem = image_memory(0x400);
    let mut space = [load(0, 0, 0, 0); 4];
    let mut segs = FixedVec::new(&mut space);
    segs.push(load(OFF + 0x200, 0x0, 0x10, 0x20)).unwrap();
    let tags = vec![BootTag::Other, BootTag::Mem { start: 0, size: 0x2000_0000 }];
    let h = copy_kernel(&mut mem, 0x100, 0, &segs, &tags).unwrap();
    assert_eq!(
        h.boot_info,
        BootInfo {
            physical_memory_start: 0,
            physical_memory_end: 0x2000_0000,
            physical_memory_offset: PHYSICAL_MEMORY_OFFSET,
        }
    );
    assert_eq!(h.kernel_end, OFF + 0x20_0000);
    assert_eq!(h.tables.leaf.len(), 512);
}

#[test]
fn copy_kernel_without_memory_record_fails_after_loading() {
    let mut mem = image_memory(0x400);
    let before = mem.clone();
    let mut space = [load(0, 0, 0, 0); 4];
    let mut segs = FixedVec::new(&mut space);
    segs.push(load(OFF + 0x200, 0x0, 0x10, 0x20)).unwrap();
    let r = copy_kernel(&mut mem, 0x100, 0, &segs, &vec![BootTag::Other]);
    assert_eq!(r.err(), Some(BootError::MemoryMapUnavailable));
    assert_eq!(mem[0x200], before[0x100]);
    assert_eq!(mem[0x21F], 0);
}

#[test]
fn memory_bound_against_io_space() {
    assert!(memory_below_io(&vec![BootTag::Mem { start: 0, size: 0x3F00_0000 }]));
    assert!(!memory_below_io(&vec![BootTag::Mem { start: 0, size: 0x3F00_0001 }]));
    assert!(memory_below_io(&vec![BootTag::Other]));
}

#[test]
fn segment_validation() {
    let mut space = [load(0, 0, 0, 0); 4];
    let mut segs = FixedVec::new(&mut space);
    segs.push(load(OFF + 0x200, 0x0, 0x10, 0x20)).unwrap();
    assert!(segments_valid(0x100, 0, &segs, 0x400));
    // destination runs past the end of memory
    assert!(!segments_valid(0x100, 0, &segs, 0x210));
    let mut space2 = [load(0, 0, 0, 0); 4];
    let mut bad = FixedVec::new(&mut space2);
    // file part larger than memory part
    bad.push(load(OFF + 0x200, 0x0, 0x30, 0x20)).unwrap();
    assert!(!segments_valid(0x100, 0, &bad, 0x400));
    let mut space3 = [load(0, 0, 0, 0); 4];
    let mut low = FixedVec::new(&mut space3);
    // a virtual address below the kernel offset
    low.push(load(0x200, 0x0, 0x10, 0x20)).unwrap();
    assert!(!segments_valid(0x100, 0, &low, 0x400));
}

#[test]
fn relocation_in_a_window_above_zero() {
    // memory holds physical addresses 0x1000..0x1400
    let mut mem = image_memory(0x400);
    let before = mem.clone();
    let mut space = [load(0, 0, 0, 0); 4];
    let mut segs = FixedVec::new(&mut space);
    segs.push(load(OFF + 0x1200, 0x10, 0x20, 0x40)).unwrap();
    assert!(segments_valid(0x1100, 0x1000, &segs, 0x400));
    assert!(!segments_valid(0x1100, 0x1100 + 1, &segs, 0x400));
    let span = relocate_segments(&mut mem, 0x1100, 0x1000, &segs);
    for i in 0..0x20 {
        assert_eq!(mem[0x200 + i], before[0x110 + i]);
    }
    for i in 0x220..0x240 {
        assert_eq!(mem[i], 0);
    }
    assert_eq!(span, (OFF, OFF + 0x20_0000));
}
