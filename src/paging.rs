use vstd::prelude::*;
use crate::layout::{
    phys_to_virt, ALIGN_1GB, ALIGN_2MB, PHYSICAL_IO_END, PHYSICAL_IO_START,
    PHYSICAL_MEMORY_OFFSET,
};

verus! {

/// Number of entries in one translation table.
pub const ENTRY_COUNT: usize = 512;

/// The three classes of mapped memory.
#[derive(Clone, Copy, Debug, PartialEq, Eq, Structural)]
pub enum MemClass {
    /// Cacheable normal memory (the RAM that holds the kernel).
    Normal,
    /// Normal memory without caching (RAM between the kernel's RAM and I/O).
    NonCacheable,
    /// Memory-mapped device registers.
    Device,
}

/// The attribute index that selects a class in the memory-attribute register.
pub open spec fn attr_index_spec(c: MemClass) -> u8 {
    match c {
        MemClass::Normal => 0,
        MemClass::Device => 1,
        MemClass::NonCacheable => 2,
    }
}

pub fn attr_index(c: MemClass) -> (r: u8)
    ensures
        r == attr_index_spec(c),
{
    match c {
        MemClass::Normal => 0,
        MemClass::Device => 1,
        MemClass::NonCacheable => 2,
    }
}

/// A block mapping: a physical frame with its attributes.
#[derive(Clone, Copy, Debug, PartialEq, Eq, Structural)]
pub struct Block {
    pub paddr: u64,
    pub attr_index: u8,
    /// Privileged execute-never.
    pub pxn: bool,
    /// Unprivileged execute-never.
    pub uxn: bool,
}

/// One translation-table entry.
#[derive(Clone, Copy, Debug, PartialEq, Eq, Structural)]
pub enum Entry {
    Invalid,
    /// Points to the table of the next level.
    Table,
    Block(Block),
}

/// The three bootstrap tables: `top` points to `middle`, whose first entry
/// points to `leaf` (2 MiB blocks) and whose second entry is a 1 GiB block.
#[derive(Clone, Debug)]
pub struct BootPageTables {
    pub top: Vec<Entry>,
    pub middle: Vec<Entry>,
    pub leaf: Vec<Entry>,
}

/// The block entry that maps `paddr` as memory of class `c`: code may run
/// only from cacheable normal memory, and never unprivileged.
pub open spec fn block_spec(paddr: u64, c: MemClass) -> Entry {
    Entry::Block(
        Block { paddr, attr_index: attr_index_spec(c), pxn: !(c is Normal), uxn: true },
    )
}

fn block(paddr: u64, c: MemClass) -> (r: Entry)
    ensures
        r == block_spec(paddr, c),
{
    Entry::Block(
        Block {
            paddr,
            attr_index: attr_index(c),
            pxn: match c {
                MemClass::Normal => false,
                _ => true,
            },
            uxn: true,
        },
    )
}

/// The 2 MiB frame `f` is one of the frames that cover `[start, end)`: from the
/// frame holding `start` to the frame holding `end - 1`.
pub open spec fn frame_in_range(f: int, start: u64, end: u64) -> bool {
    end > 0 && start / ALIGN_2MB <= f <= (end - 1) / (ALIGN_2MB as int)
}

/// The leaf entry at index `f` once RAM, the memory between RAM and I/O, and
/// I/O have been mapped in that order, a later mapping replacing an earlier.
pub open spec fn leaf_entry_spec(
    ram_start: u64,
    ram_end: u64,
    io_start: u64,
    io_end: u64,
    f: int,
) -> Entry {
    if frame_in_range(f, io_start, io_end) {
        block_spec((f * ALIGN_2MB) as u64, MemClass::Device)
    } else if frame_in_range(f, ram_end, io_start) {
        block_spec((f * ALIGN_2MB) as u64, MemClass::NonCacheable)
    } else if frame_in_range(f, ram_start, ram_end) {
        block_spec((f * ALIGN_2MB) as u64, MemClass::Normal)
    } else {
        Entry::Invalid
    }
}

/// Index into a leaf table of a kernel virtual address.
pub open spec fn leaf_index_spec(vaddr: u64) -> u64 {
    (vaddr >> 21u64) & 511u64
}

fn leaf_index(vaddr: u64) -> (r: usize)
    ensures
        r == leaf_index_spec(vaddr),
        r < ENTRY_COUNT,
{
    let r = (vaddr >> 21u64) & 511u64;
    assert(r < 512) by (bit_vector)
        requires
            r == (vaddr >> 21u64) & 511u64,
    ;
    r as usize
}

proof fn lemma_leaf_index_of_frame(f: u64)
    requires
        f < 512,
    ensures
        leaf_index_spec((f * ALIGN_2MB + PHYSICAL_MEMORY_OFFSET) as u64) == f,
{
    let p: u64 = (f * ALIGN_2MB) as u64;
    assert(p == f << 21u64 && p < 0x4000_0000) by (bit_vector)
        requires
            f < 512,
            p == f * 0x20_0000,
    ;
    let v: u64 = (p + PHYSICAL_MEMORY_OFFSET) as u64;
    assert((v >> 21u64) & 511u64 == f) by (bit_vector)
        requires
            f < 512,
            p == f << 21u64,
            v == (p + 0xFFFF_0000_0000_0000u64) as u64,
    ;
}

/// A table of `ENTRY_COUNT` invalid entries.
pub fn empty_table() -> (r: Vec<Entry>)
    ensures
        r@.len() == ENTRY_COUNT,
        forall|i: int| 0 <= i < ENTRY_COUNT ==> r@[i] == Entry::Invalid,
{
    let mut r: Vec<Entry> = Vec::new();
    while r.len() < ENTRY_COUNT
        invariant
            r@.len() <= ENTRY_COUNT,
            forall|i: int| 0 <= i < r@.len() ==> r@[i] == Entry::Invalid,
        decreases ENTRY_COUNT - r@.len(),
    {
        r.push(Entry::Invalid);
    }
    r
}

/// Maps the 2 MiB frames that cover `[start, end)` in the leaf table as
/// blocks of class `c`, each at the index of its kernel virtual address.
pub fn map_2mib(leaf: &mut Vec<Entry>, start: u64, end: u64, c: MemClass)
    requires
        old(leaf)@.len() == ENTRY_COUNT,
        end <= ALIGN_1GB,
    ensures
        final(leaf)@.len() == ENTRY_COUNT,
        forall|f: int|
            0 <= f < ENTRY_COUNT ==> final(leaf)@[f] == (if frame_in_range(f, start, end) {
                block_spec((f * ALIGN_2MB) as u64, c)
            } else {
                old(leaf)@[f]
            }),
{
    if end == 0 {
        return;
    }
    let ghost l0 = leaf@;
    let mut f: u64 = start / ALIGN_2MB;
    let last: u64 = (end - 1) / ALIGN_2MB;
    while f <= last
        invariant
            0 < end <= ALIGN_1GB,
            last == (end - 1) / (ALIGN_2MB as int),
            last < 512,
            leaf@.len() == ENTRY_COUNT,
            start / ALIGN_2MB <= f,
            forall|g: int|
                0 <= g < ENTRY_COUNT ==> leaf@[g] == (if start / ALIGN_2MB <= g < f && g <= last {
                    block_spec((g * ALIGN_2MB) as u64, c)
                } else {
                    l0[g]
                }),
        decreases last + 1 - f,
    {
        let paddr = f * ALIGN_2MB;
        let vaddr = phys_to_virt(paddr);
        proof {
            lemma_leaf_index_of_frame(f);
        }
        let idx = leaf_index(vaddr);
        leaf[idx] = block(paddr, c);
        f = f + 1;
    }
}

/// The leaf table for RAM `[ram_start, ram_end)` and I/O `[io_start, io_end)`:
/// RAM as cacheable normal memory, `[ram_end, io_start)` as non-cacheable
/// normal memory and the I/O range as device memory.
pub fn build_leaf_table(ram_start: u64, ram_end: u64, io_start: u64, io_end: u64) -> (r: Vec<
    Entry,
>)
    requires
        ram_end <= io_start <= io_end <= ALIGN_1GB,
    ensures
        r@.len() == ENTRY_COUNT,
        forall|f: int|
            0 <= f < ENTRY_COUNT ==> r@[f] == leaf_entry_spec(
                ram_start,
                ram_end,
                io_start,
                io_end,
                f,
            ),
{
    let mut leaf = empty_table();
    map_2mib(&mut leaf, ram_start, ram_end, MemClass::Normal);
    map_2mib(&mut leaf, ram_end, io_start, MemClass::NonCacheable);
    map_2mib(&mut leaf, io_start, io_end, MemClass::Device);
    leaf
}

/// `t` is the bootstrap table set for RAM `[ram_start, ram_end)` and the
/// board's I/O range: one top entry to the middle table, one middle entry to
/// the leaf table, one middle entry mapping the gigabyte above I/O as device
/// memory, and the leaf layout of `leaf_entry_spec`.
pub open spec fn tables_spec(t: BootPageTables, ram_start: u64, ram_end: u64) -> bool {
    &&& t.top@.len() == ENTRY_COUNT
    &&& t.middle@.len() == ENTRY_COUNT
    &&& t.leaf@.len() == ENTRY_COUNT
    &&& t.top@[0] == Entry::Table
    &&& forall|i: int| 1 <= i < ENTRY_COUNT ==> t.top@[i] == Entry::Invalid
    &&& t.middle@[0] == Entry::Table
    &&& t.middle@[1] == block_spec(PHYSICAL_IO_END, MemClass::Device)
    &&& forall|i: int| 2 <= i < ENTRY_COUNT ==> t.middle@[i] == Entry::Invalid
    &&& forall|f: int|
        0 <= f < ENTRY_COUNT ==> t.leaf@[f] == leaf_entry_spec(
            ram_start,
            ram_end,
            PHYSICAL_IO_START,
            PHYSICAL_IO_END,
            f,
        )
}

/// Builds the bootstrap tables for RAM `[ram_start, ram_end)`.
pub fn create_page_table(ram_start: u64, ram_end: u64) -> (r: BootPageTables)
    requires
        ram_end <= PHYSICAL_IO_START,
    ensures
        tables_spec(r, ram_start, ram_end),
{
    let leaf = build_leaf_table(ram_start, ram_end, PHYSICAL_IO_START, PHYSICAL_IO_END);
    let mut middle = empty_table();
    middle[0] = Entry::Table;
    middle[1] = block(PHYSICAL_IO_END, MemClass::Device);
    let mut top = empty_table();
    top[0] = Entry::Table;
    BootPageTables { top, middle, leaf }
}

proof fn lemma_frame_in_aligned_range(f: int, a: u64, b: u64)
    requires
        0 <= f,
        a <= b,
        a % ALIGN_2MB == 0,
        b % ALIGN_2MB == 0,
    ensures
        frame_in_range(f, a, b) == (a <= f * ALIGN_2MB < b),
{
    let q = a / ALIGN_2MB;
    let r = b / ALIGN_2MB;
    assert(a == q * ALIGN_2MB);
    assert(b == r * ALIGN_2MB);
    assert((q <= f) == (q * ALIGN_2MB <= f * ALIGN_2MB)) by (nonlinear_arith);
    assert((f < r) == (f * ALIGN_2MB < r * ALIGN_2MB)) by (nonlinear_arith);
    if b > 0 {
        assert((b - 1) / (ALIGN_2MB as int) == r - 1);
    }
}

/// For 2 MiB-aligned bounds with `ram_start < ram_end <= io_start < io_end`
/// inside the first gigabyte, the leaf table maps every frame of
/// `[ram_start, io_end)` and nothing else, each entry maps its own frame (so no
/// two entries overlap), and each entry's attribute index and execute-never
/// flags are those of the class of the range that holds its frame.
pub proof fn lemma_layout_partition(ram_start: u64, ram_end: u64, io_start: u64, io_end: u64)
    requires
        ram_start < ram_end <= io_start < io_end <= ALIGN_1GB,
        ram_start % ALIGN_2MB == 0,
        ram_end % ALIGN_2MB == 0,
        io_start % ALIGN_2MB == 0,
        io_end % ALIGN_2MB == 0,
    ensures
        forall|f: int|
            #![trigger leaf_entry_spec(ram_start, ram_end, io_start, io_end, f)]
            0 <= f < ENTRY_COUNT ==> {
                let e = leaf_entry_spec(ram_start, ram_end, io_start, io_end, f);
                let a = f * ALIGN_2MB;
                &&& (e is Block) == (ram_start <= a < io_end)
                &&& e is Block ==> e->Block_0.paddr == a
                &&& ram_start <= a < ram_end ==> e == block_spec(a as u64, MemClass::Normal)
                &&& ram_end <= a < io_start ==> e == block_spec(
                    a as u64,
                    MemClass::NonCacheable,
                )
                &&& io_start <= a < io_end ==> e == block_spec(a as u64, MemClass::Device)
            },
{
    assert forall|f: int|
        #![trigger leaf_entry_spec(ram_start, ram_end, io_start, io_end, f)]
        0 <= f < ENTRY_COUNT implies {
            let e = leaf_entry_spec(ram_start, ram_end, io_start, io_end, f);
            let a = f * ALIGN_2MB;
            &&& (e is Block) == (ram_start <= a < io_end)
            &&& e is Block ==> e->Block_0.paddr == a
            &&& ram_start <= a < ram_end ==> e == block_spec(a as u64, MemClass::Normal)
            &&& ram_end <= a < io_start ==> e == block_spec(a as u64, MemClass::NonCacheable)
            &&& io_start <= a < io_end ==> e == block_spec(a as u64, MemClass::Device)
        } by {
        lemma_frame_in_aligned_range(f, ram_start, ram_end);
        lemma_frame_in_aligned_range(f, ram_end, io_start);
        lemma_frame_in_aligned_range(f, io_start, io_end);
        assert(f * ALIGN_2MB < 0x4000_0000) by (nonlinear_arith)
            requires
                0 <= f < 512,
        ;
    }
}

/// Descriptor bit: the entry is valid.
pub const DESC_VALID: u64 = 1;
/// Descriptor bit: a table (set) rather than a block (clear), above the last level.
pub const DESC_TABLE: u64 = 0x2;
/// Descriptor bit: access flag, set so that the first access does not fault.
pub const DESC_AF: u64 = 0x400;
/// Descriptor bit: privileged execute-never.
pub const DESC_PXN: u64 = 0x20_0000_0000_0000;
/// Descriptor bit: unprivileged execute-never.
pub const DESC_UXN: u64 = 0x40_0000_0000_0000;
/// Output-address bits of a descriptor (bits 12 to 47).
pub const DESC_ADDR_MASK: u64 = 0x0000_FFFF_FFFF_F000;
/// Shareability field of a block: inner shareable for cacheable memory;
/// outer shareable, which the hardware applies anyway, for the others.
pub open spec fn shareability_spec(attr_index: u8) -> u64 {
    if attr_index == 0 {
        3
    } else {
        2
    }
}

/// The hardware descriptor of an entry; a table entry points to the table at
/// physical address `next_table`.
pub open spec fn descriptor_spec(e: Entry, next_table: u64) -> u64 {
    match e {
        Entry::Invalid => 0,
        Entry::Table => (next_table & DESC_ADDR_MASK) | DESC_TABLE | DESC_VALID,
        Entry::Block(b) => (b.paddr & DESC_ADDR_MASK) | ((b.attr_index as u64 & 7) << 2u64) | (
        shareability_spec(b.attr_index) << 8u64) | DESC_AF | (if b.pxn {
            DESC_PXN
        } else {
            0
        }) | (if b.uxn {
            DESC_UXN
        } else {
            0
        }) | DESC_VALID,
    }
}

/// Encodes an entry as the 64-bit descriptor that the translation unit reads.
pub fn descriptor(e: Entry, next_table: u64) -> (r: u64)
    ensures
        r == descriptor_spec(e, next_table),
        e is Invalid ==> r & 1 == 0,
        !(e is Invalid) ==> r & 1 == 1,
        e is Block ==> (r >> 1u64) & 1 == 0 && (r >> 2u64) & 7 == (e->Block_0.attr_index as u64) & 7
            && (r >> 53u64) & 1 == (if e->Block_0.pxn {
            1u64
        } else {
            0u64
        }) && (r >> 54u64) & 1 == (if e->Block_0.uxn {
            1u64
        } else {
            0u64
        }),
{
    match e {
        Entry::Invalid => {
            assert(0u64 & 1 == 0) by (bit_vector);
            0
        },
        Entry::Table => {
            let r = (next_table & DESC_ADDR_MASK) | DESC_TABLE | DESC_VALID;
            assert(r & 1 == 1) by (bit_vector)
                requires
                    r == (next_table & 0x0000_FFFF_FFFF_F000u64) | 2u64 | 1u64,
            ;
            r
        },
        Entry::Block(b) => {
            let sh: u64 = if b.attr_index == 0 {
                3
            } else {
                2
            };
            let pxn: u64 = if b.pxn {
                DESC_PXN
            } else {
                0
            };
            let uxn: u64 = if b.uxn {
                DESC_UXN
            } else {
                0
            };
            let a = b.attr_index as u64;
            let r = (b.paddr & DESC_ADDR_MASK) | ((a & 7) << 2u64) | (sh << 8u64) | DESC_AF | pxn
                | uxn | DESC_VALID;
            let p = b.paddr;
            assert(r & 1 == 1 && (r >> 1u64) & 1 == 0 && (r >> 2u64) & 7 == a & 7 && (r >> 53u64)
                & 1 == (if pxn == 0 {
                0u64
            } else {
                1u64
            }) && (r >> 54u64) & 1 == (if uxn == 0 {
                0u64
            } else {
                1u64
            })) by (bit_vector)
                requires
                    r == (p & 0x0000_FFFF_FFFF_F000u64) | ((a & 7) << 2u64) | (sh << 8u64) | 0x400u64 | pxn | uxn | 1u64,
                    sh == 2 || sh == 3,
                    pxn == 0 || pxn == 0x20_0000_0000_0000u64,
                    uxn == 0 || uxn == 0x40_0000_0000_0000u64,
            ;
            r
        },
    }
}

} // verus!
