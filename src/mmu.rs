use vstd::prelude::*;
use crate::paging::{attr_index, attr_index_spec, MemClass};

verus! {

/// Memory-attribute encoding of cacheable normal memory: write-back,
/// read- and write-allocate, inner and outer.
pub const MAIR_NORMAL: u64 = 0xFF;

/// Memory-attribute encoding of device memory: nGnRE.
pub const MAIR_DEVICE: u64 = 0x04;

/// Memory-attribute encoding of normal memory without caching.
pub const MAIR_NON_CACHEABLE: u64 = 0x44;

/// The encoding that the memory-attribute register holds for a class.
pub open spec fn mair_encoding(c: MemClass) -> u64 {
    match c {
        MemClass::Normal => MAIR_NORMAL,
        MemClass::Device => MAIR_DEVICE,
        MemClass::NonCacheable => MAIR_NON_CACHEABLE,
    }
}

/// The byte of the memory-attribute register at attribute index `i`.
pub open spec fn mair_byte(mair: u64, i: u8) -> u64 {
    (mair >> (8 * i) as u64) & 0xFF
}

/// The memory-attribute register value: each class's encoding at the
/// attribute index that the page-table entries of that class carry.
pub fn mair_value() -> (r: u64)
    ensures
        mair_byte(r, attr_index_spec(MemClass::Normal)) == mair_encoding(MemClass::Normal),
        mair_byte(r, attr_index_spec(MemClass::Device)) == mair_encoding(MemClass::Device),
        mair_byte(r, attr_index_spec(MemClass::NonCacheable)) == mair_encoding(
            MemClass::NonCacheable,
        ),
        r >> 24u64 == 0,
{
    let n = attr_index(MemClass::Normal) as u64;
    let d = attr_index(MemClass::Device) as u64;
    let c = attr_index(MemClass::NonCacheable) as u64;
    let r = (MAIR_NORMAL << (8 * n)) | (MAIR_DEVICE << (8 * d)) | (MAIR_NON_CACHEABLE << (8 * c));
    assert(((r >> 0u64) & 0xFF) == 0xFF && ((r >> 8u64) & 0xFF) == 0x04 && ((r >> 16u64) & 0xFF)
        == 0x44 && r >> 24u64 == 0) by (bit_vector)
        requires
            n == 0,
            d == 1,
            c == 2,
            r == (0xFFu64 << (8 * n)) | (0x04u64 << (8 * d)) | (0x44u64 << (8 * c)),
    ;
    r
}

/// The field of `width` bits at `shift` in a register value.
pub open spec fn reg_field(v: u64, shift: u64, width: u64) -> u64 {
    (v >> shift) & (((1u64 << width) - 1) as u64)
}

/// Size field of the low half's address space: 64 - 16 = 48-bit addresses.
pub const TCR_T0SZ_SHIFT: u64 = 0;
/// Walks through the low table base enabled when clear.
pub const TCR_EPD0_SHIFT: u64 = 7;
/// Inner cacheability of low-half table walks.
pub const TCR_IRGN0_SHIFT: u64 = 8;
/// Outer cacheability of low-half table walks.
pub const TCR_ORGN0_SHIFT: u64 = 10;
/// Shareability of low-half table walks.
pub const TCR_SH0_SHIFT: u64 = 12;
/// Granule of the low half.
pub const TCR_TG0_SHIFT: u64 = 14;
/// Size field of the high half's address space.
pub const TCR_T1SZ_SHIFT: u64 = 16;
/// Which table base gives the address-space identifier.
pub const TCR_A1_SHIFT: u64 = 22;
/// Walks through the high table base enabled when clear.
pub const TCR_EPD1_SHIFT: u64 = 23;
/// Inner cacheability of high-half table walks.
pub const TCR_IRGN1_SHIFT: u64 = 24;
/// Outer cacheability of high-half table walks.
pub const TCR_ORGN1_SHIFT: u64 = 26;
/// Shareability of high-half table walks.
pub const TCR_SH1_SHIFT: u64 = 28;
/// Granule of the high half.
pub const TCR_TG1_SHIFT: u64 = 30;
/// Intermediate physical address size.
pub const TCR_IPS_SHIFT: u64 = 32;
/// Address-space identifier size.
pub const TCR_AS_SHIFT: u64 = 36;
/// Top byte ignored, low half.
pub const TCR_TBI0_SHIFT: u64 = 37;
/// Top byte ignored, high half.
pub const TCR_TBI1_SHIFT: u64 = 38;

/// The fields of the translation-control value for a physical-address-range
/// field `pa_range` read from the feature-identification register.
pub open spec fn tcr_fields(v: u64, pa_range: u64) -> bool {
    &&& reg_field(v, TCR_T0SZ_SHIFT, 6) == 16
    &&& reg_field(v, TCR_EPD0_SHIFT, 1) == 0
    &&& reg_field(v, TCR_IRGN0_SHIFT, 2) == 1
    &&& reg_field(v, TCR_ORGN0_SHIFT, 2) == 1
    &&& reg_field(v, TCR_SH0_SHIFT, 2) == 3
    &&& reg_field(v, TCR_TG0_SHIFT, 2) == 0
    &&& reg_field(v, TCR_T1SZ_SHIFT, 6) == 16
    &&& reg_field(v, TCR_A1_SHIFT, 1) == 0
    &&& reg_field(v, TCR_EPD1_SHIFT, 1) == 0
    &&& reg_field(v, TCR_IRGN1_SHIFT, 2) == 1
    &&& reg_field(v, TCR_ORGN1_SHIFT, 2) == 1
    &&& reg_field(v, TCR_SH1_SHIFT, 2) == 3
    &&& reg_field(v, TCR_TG1_SHIFT, 2) == 2
    &&& reg_field(v, TCR_IPS_SHIFT, 3) == pa_range & 7
    &&& reg_field(v, TCR_AS_SHIFT, 1) == 1
    &&& reg_field(v, TCR_TBI0_SHIFT, 1) == 1
    &&& reg_field(v, TCR_TBI1_SHIFT, 1) == 1
    &&& v & 0xFFFF_FF88_0000_0040 == 0
}

/// The translation-control value: 48-bit address spaces and 4 KiB granules
/// for both halves, write-back inner-shareable table walks, 16-bit
/// address-space identifiers, top byte ignored, and the physical address size
/// taken from the low three bits of `pa_range`.
pub fn tcr_value(pa_range: u64) -> (r: u64)
    ensures
        tcr_fields(r, pa_range),
{
    let fixed: u64 = 0x70_B510_3510;
    let r = fixed | ((pa_range & 7) << TCR_IPS_SHIFT);
    assert(tcr_fields(r, pa_range)) by (bit_vector)
        requires
            r == 0x70_B510_3510u64 | ((pa_range & 7) << 32u64),
    ;
    r
}

/// System-control bits that switch on translation (bit 0), data caching
/// (bit 2) and instruction caching (bit 12).
pub const SCTLR_ENABLE_BITS: u64 = 0x1005;

/// The system-control value with translation and both caches switched on and
/// every other bit of `old_value` kept.
pub fn sctlr_enable(old_value: u64) -> (r: u64)
    ensures
        r == old_value | SCTLR_ENABLE_BITS,
        r & 1 == 1,
        (r >> 2u64) & 1 == 1,
        (r >> 12u64) & 1 == 1,
        r & !SCTLR_ENABLE_BITS == old_value & !SCTLR_ENABLE_BITS,
{
    let r = old_value | SCTLR_ENABLE_BITS;
    assert(r & 1 == 1 && (r >> 2u64) & 1 == 1 && (r >> 12u64) & 1 == 1 && r & !0x1005u64
        == old_value & !0x1005u64) by (bit_vector)
        requires
            r == old_value | 0x1005u64,
    ;
    r
}

/// The states of switching the translation unit on; they only move forward.
#[derive(Clone, Copy, Debug, PartialEq, Eq, Structural)]
pub enum MmuState {
    Off,
    AttributesProgrammed,
    ControlProgrammed,
    On,
}

pub open spec fn mmu_rank(s: MmuState) -> int {
    match s {
        MmuState::Off => 0,
        MmuState::AttributesProgrammed => 1,
        MmuState::ControlProgrammed => 2,
        MmuState::On => 3,
    }
}

/// One hardware operation of the bootstrap.
#[derive(Clone, Copy, Debug, PartialEq, Eq, Structural)]
pub enum MmuAction {
    /// Write the physical address of the top table into table base `slot`.
    WriteTableBase { slot: u8 },
    /// Invalidate every cached translation.
    InvalidateTlbAll,
    WriteMair(u64),
    WriteTcr(u64),
    /// Instruction-synchronization barrier.
    InstructionBarrier,
    WriteSctlr(u64),
}

/// Installs the top table into both table bases (the code doing the switch
/// still runs from low addresses) and then drops all cached translations.
pub fn install_tables() -> (r: Vec<MmuAction>)
    ensures
        r@ == seq![
            MmuAction::WriteTableBase { slot: 0 },
            MmuAction::WriteTableBase { slot: 1 },
            MmuAction::InvalidateTlbAll,
        ],
{
    let r = vec![
        MmuAction::WriteTableBase { slot: 0 },
        MmuAction::WriteTableBase { slot: 1 },
        MmuAction::InvalidateTlbAll,
    ];
    assert(r@ =~= seq![
        MmuAction::WriteTableBase { slot: 0 },
        MmuAction::WriteTableBase { slot: 1 },
        MmuAction::InvalidateTlbAll,
    ]);
    r
}

/// The operations of the next step of switching on translation, and the
/// state they lead to. `pa_range` is the feature-identification register's
/// physical-address-range field and `sctlr` the current system-control value;
/// each is used only by the step that needs it. The sequence is one-shot:
/// once `On`, there is no further step.
pub fn mmu_step(state: MmuState, pa_range: u64, sctlr: u64) -> (r: Option<
    (MmuState, Vec<MmuAction>),
>)
    ensures
        (r is None) == (state == MmuState::On),
        r matches Some((next, acts)) ==> {
            &&& mmu_rank(next) == mmu_rank(state) + 1
            &&& state == MmuState::Off ==> acts@ == seq![MmuAction::WriteMair(0x44_04FF)]
            &&& state == MmuState::AttributesProgrammed ==> acts@.len() == 1 && (acts@[0] matches MmuAction::WriteTcr(v) && tcr_fields(v, pa_range))
            &&& state == MmuState::ControlProgrammed ==> acts@ == seq![
                MmuAction::InstructionBarrier,
                MmuAction::WriteSctlr(sctlr | SCTLR_ENABLE_BITS),
                MmuAction::InstructionBarrier,
            ]
        },
{
    match state {
        MmuState::Off => {
            let v = mair_value();
            assert(v == 0x44_04FF) by (bit_vector)
                requires
                    ((v >> 0u64) & 0xFF) == 0xFF,
                    ((v >> 8u64) & 0xFF) == 0x04,
                    ((v >> 16u64) & 0xFF) == 0x44,
                    v >> 24u64 == 0,
            ;
            let acts = vec![MmuAction::WriteMair(v)];
            assert(acts@ =~= seq![MmuAction::WriteMair(0x44_04FF)]);
            Some((MmuState::AttributesProgrammed, acts))
        },
        MmuState::AttributesProgrammed => {
            let acts = vec![MmuAction::WriteTcr(tcr_value(pa_range))];
            Some((MmuState::ControlProgrammed, acts))
        },
        MmuState::ControlProgrammed => {
            let acts = vec![
                MmuAction::InstructionBarrier,
                MmuAction::WriteSctlr(sctlr_enable(sctlr)),
                MmuAction::InstructionBarrier,
            ];
            assert(acts@ =~= seq![
                MmuAction::InstructionBarrier,
                MmuAction::WriteSctlr(sctlr | SCTLR_ENABLE_BITS),
                MmuAction::InstructionBarrier,
            ]);
            Some((MmuState::On, acts))
        },
        MmuState::On => None,
    }
}

} // verus!
