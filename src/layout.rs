use vstd::prelude::*;

verus! {

/// Fixed offset between a kernel virtual address and its physical address.
pub const PHYSICAL_MEMORY_OFFSET: u64 = 0xFFFF_0000_0000_0000;

/// First physical address of the memory-mapped I/O space.
pub const PHYSICAL_IO_START: u64 = 0x3F00_0000;

/// End (exclusive) of the memory-mapped I/O space.
pub const PHYSICAL_IO_END: u64 = 0x4000_0000;

/// Granularity of the small block mappings and of the kernel span: 2 MiB.
pub const ALIGN_2MB: u64 = 0x20_0000;

/// Size of a large block mapping: 1 GiB.
pub const ALIGN_1GB: u64 = 0x4000_0000;

/// The record handed from the bootloader to the kernel.
#[derive(Clone, Copy, Debug, PartialEq, Eq, Structural)]
pub struct BootInfo {
    pub physical_memory_start: u64,
    pub physical_memory_end: u64,
    pub physical_memory_offset: u64,
}

/// The failures that the boot path can report as values.
#[derive(Clone, Copy, Debug, PartialEq, Eq, Structural)]
pub enum BootError {
    /// The firmware gave no description of physical memory.
    MemoryMapUnavailable,
    /// The boot record's offset differs from the kernel's own.
    BootInfoMismatch,
}

/// Physical address of a kernel virtual address.
pub open spec fn virt_to_phys_spec(vaddr: u64) -> int {
    vaddr - PHYSICAL_MEMORY_OFFSET
}

/// Kernel virtual address of a physical address.
pub open spec fn phys_to_virt_spec(paddr: u64) -> int {
    paddr + PHYSICAL_MEMORY_OFFSET
}

pub fn virt_to_phys(vaddr: u64) -> (r: u64)
    requires
        vaddr >= PHYSICAL_MEMORY_OFFSET,
    ensures
        r == virt_to_phys_spec(vaddr),
{
    vaddr - PHYSICAL_MEMORY_OFFSET
}

pub fn phys_to_virt(paddr: u64) -> (r: u64)
    requires
        paddr <= u64::MAX - PHYSICAL_MEMORY_OFFSET,
    ensures
        r == phys_to_virt_spec(paddr),
{
    paddr + PHYSICAL_MEMORY_OFFSET
}

/// `x` rounded down to a multiple of `ALIGN_2MB`.
pub open spec fn align_down_spec(x: int) -> int {
    x - x % (ALIGN_2MB as int)
}

/// `x` rounded up to a multiple of `ALIGN_2MB`.
pub open spec fn align_up_spec(x: int) -> int {
    if x % (ALIGN_2MB as int) == 0 {
        x
    } else {
        x - x % (ALIGN_2MB as int) + ALIGN_2MB
    }
}

pub fn align_down(x: u64) -> (r: u64)
    ensures
        r == align_down_spec(x as int),
        r <= x,
        r % ALIGN_2MB == 0,
{
    x - x % ALIGN_2MB
}

pub fn align_up(x: u64) -> (r: u64)
    requires
        x <= u64::MAX - ALIGN_2MB,
    ensures
        r == align_up_spec(x as int),
        r >= x,
        r % ALIGN_2MB == 0,
{
    if x % ALIGN_2MB == 0 {
        x
    } else {
        x - x % ALIGN_2MB + ALIGN_2MB
    }
}

} // verus!
