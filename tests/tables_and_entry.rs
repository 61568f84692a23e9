use bootloader::entry::{check_boot_info, next_step, EntryStep};
use bootloader::layout::{BootError, BootInfo, PHYSICAL_MEMORY_OFFSET};
use bootloader::mmu::{
    install_tables, mair_value, mmu_step, sctlr_enable, tcr_value, MmuAction, MmuState,
};
use bootloader::paging::{
    attr_index, build_leaf_table, create_page_table, descriptor, empty_table, map_2mib, Block, Entry, MemClass,
};

fn blk(paddr: u64, attr_index: u8, pxn: bool) -> Entry {
    Entry::Block(Block { paddr, attr_index, pxn, uxn: true })
}

#[test]
fn table_for_board_layout() {
    let t = create_page_table(0x0, 0x2000_0000);
    for f in 0..256u64 {
        assert_eq!(t.leaf[f as usize], blk(f * 0x20_0000, 0, false));
    }
    for f in 256..504u64 {
        assert_eq!(t.leaf[f as usize], blk(f * 0x20_0000, 2, true));
    }
    for f in 504..512u64 {
        assert_eq!(t.leaf[f as usize], blk(f * 0x20_0000, 1, true));
    }
    assert_eq!(t.leaf[0x3F00_0000 / 0x20_0000], blk(0x3F00_0000, 1, true));
    assert_eq!(t.middle[0], Entry::Table);
    assert_eq!(t.middle[1], blk(0x4000_0000, 1, true));
    assert!(t.middle[2..].iter().all(|e| *e == Entry::Invalid));
    assert_eq!(t.top[0], Entry::Table);
    assert!(t.top[1..].iter().all(|e| *e == Entry::Invalid));
}

#[test]
fn table_leaves_frames_below_ram_unmapped() {
    let t = create_page_table(0x40_0000, 0x1000_0000);
    assert_eq!(t.leaf[0], Entry::Invalid);
    assert_eq!(t.leaf[1], Entry::Invalid);
    assert_eq!(t.leaf[2], blk(0x40_0000, 0, false));
    assert_eq!(t.leaf[127], blk(127 * 0x20_0000, 0, false));
    assert_eq!(t.leaf[128], blk(0x1000_0000, 2, true));
}

#[test]
fn leaf_layout_partitions_generic_bounds() {
    let leaf = build_leaf_table(0x20_0000, 0x60_0000, 0x60_0000, 0xA0_0000);
    assert_eq!(leaf[0], Entry::Invalid);
    assert_eq!(leaf[1], blk(0x20_0000, 0, false));
    assert_eq!(leaf[2], blk(0x40_0000, 0, false));
    assert_eq!(leaf[3], blk(0x60_0000, 1, true));
    assert_eq!(leaf[4], blk(0x80_0000, 1, true));
    assert_eq!(leaf[5], Entry::Invalid);
}

#[test]
fn map_2mib_covers_partial_frames() {
    let mut leaf = empty_table();
    map_2mib(&mut leaf, 0x30_0000, 0x40_0001, MemClass::Device);
    assert_eq!(leaf[0], Entry::Invalid);
    assert_eq!(leaf[1], blk(0x20_0000, 1, true));
    assert_eq!(leaf[2], blk(0x40_0000, 1, true));
    assert_eq!(leaf[3], Entry::Invalid);
    let mut empty = empty_table();
    map_2mib(&mut empty, 0x40_0000, 0x40_0000, MemClass::Normal);
    assert!(empty.iter().all(|e| *e == Entry::Invalid));
}

#[test]
fn attribute_indices() {
    assert_eq!(attr_index(MemClass::Normal), 0);
    assert_eq!(attr_index(MemClass::Device), 1);
    assert_eq!(attr_index(MemClass::NonCacheable), 2);
}

#[test]
fn register_values() {
    assert_eq!(mair_value(), 0x44_04FF);
    assert_eq!(tcr_value(0), 0x70_B510_3510);
    assert_eq!(tcr_value(5), 0x75_B510_3510);
    assert_eq!(tcr_value(0xF), 0x77_B510_3510);
    assert_eq!(sctlr_enable(0x30D0_0800), 0x30D0_1805);
}

#[test]
fn mmu_sequence_runs_once() {
    assert_eq!(
        install_tables(),
        vec![
            MmuAction::WriteTableBase { slot: 0 },
            MmuAction::WriteTableBase { slot: 1 },
            MmuAction::InvalidateTlbAll
        ]
    );
    let (s1, a1) = mmu_step(MmuState::Off, 2, 0).unwrap();
    assert_eq!(s1, MmuState::AttributesProgrammed);
    assert_eq!(a1, vec![MmuAction::WriteMair(0x44_04FF)]);
    let (s2, a2) = mmu_step(s1, 2, 0).unwrap();
    assert_eq!(s2, MmuState::ControlProgrammed);
    assert_eq!(a2, vec![MmuAction::WriteTcr(0x72_B510_3510)]);
    let (s3, a3) = mmu_step(s2, 2, 0x30D0_0800).unwrap();
    assert_eq!(s3, MmuState::On);
    assert_eq!(
        a3,
        vec![
            MmuAction::InstructionBarrier,
            MmuAction::WriteSctlr(0x30D0_1805),
            MmuAction::InstructionBarrier
        ]
    );
    assert!(mmu_step(s3, 2, 0).is_none());
}

fn info(offset: u64) -> BootInfo {
    BootInfo {
        physical_memory_start: 0,
        physical_memory_end: 0x3B40_0000,
        physical_memory_offset: offset,
    }
}

fn run(info: &BootInfo, n: usize) -> Vec<EntryStep> {
    let mut steps = vec![EntryStep::InitSerial];
    for _ in 0..n {
        let last = *steps.last().unwrap();
        steps.push(next_step(last, info));
    }
    steps
}

#[test]
fn entry_runs_steps_in_order() {
    let i = info(PHYSICAL_MEMORY_OFFSET);
    assert_eq!(check_boot_info(&i), Ok(()));
    assert_eq!(
        run(&i, 10),
        vec![
            EntryStep::InitSerial,
            EntryStep::InitLogging,
            EntryStep::CheckBootInfo,
            EntryStep::InitInterrupts,
            EntryStep::InitMemory,
            EntryStep::InitModules,
            EntryStep::InitDrivers,
            EntryStep::PrintBanner,
            EntryStep::InitProcesses,
            EntryStep::RunMain,
            EntryStep::RunMain,
        ]
    );
}

#[test]
fn entry_halts_on_offset_mismatch() {
    let i = info(0xFFFF_8000_0000_0000);
    assert_eq!(check_boot_info(&i), Err(BootError::BootInfoMismatch));
    let steps = run(&i, 12);
    assert_eq!(steps[2], EntryStep::CheckBootInfo);
    assert_eq!(steps[3], EntryStep::Halt);
    assert!(!steps.contains(&EntryStep::InitMemory));
    assert!(!steps.contains(&EntryStep::InitInterrupts));
}

#[test]
fn descriptors() {
    assert_eq!(descriptor(Entry::Invalid, 0x8_1000), 0);
    assert_eq!(descriptor(Entry::Table, 0x8_1000), 0x8_1003);
    assert_eq!(descriptor(blk(0x20_0000, 0, false), 0), 0x0040_0000_0020_0701);
    assert_eq!(descriptor(blk(0x3F00_0000, 1, true), 0), 0x0060_0000_3F00_0605);
    assert_eq!(descriptor(blk(0x4000_0000, 2, true), 0), 0x0060_0000_4000_0609);
}
