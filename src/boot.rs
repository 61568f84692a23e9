use vstd::prelude::*;
use fixedvec::FixedVec;
use crate::layout::{BootError, BootInfo, PHYSICAL_IO_START, PHYSICAL_MEMORY_OFFSET};
use crate::paging::{create_page_table, tables_spec, BootPageTables};
use crate::probe::{first_mem, probe_memory, BootTag};
use crate::relocate::{relocate_all, relocate_segments, segments_fit, span_of, fixedvec_items, Segment};

verus! {

/// What the bootloader hands on once the kernel is in place: the boot record,
/// the end of the kernel's virtual span, and the bootstrap tables to install.
#[derive(Clone, Debug)]
pub struct Handoff {
    pub boot_info: BootInfo,
    pub kernel_end: u64,
    pub tables: BootPageTables,
}

/// Loads the kernel image at physical address `kernel_start` into `mem`,
/// which holds physical memory from address `base` on (the last header
/// first), finds physical memory in `tags`, and builds the bootstrap tables
/// and the boot record for it. Without a memory record in `tags` the kernel is
/// still loaded and `MemoryMapUnavailable` is returned.
pub fn copy_kernel(
    mem: &mut Vec<u8>,
    kernel_start: u64,
    base: u64,
    segments: &FixedVec<Segment>,
    tags: &Vec<BootTag>,
) -> (r: Result<Handoff, BootError>)
    requires
        segments_fit(fixedvec_items(segments), kernel_start, base, old(mem)@.len() as int),
        first_mem(tags@) matches Some((_, end)) ==> end <= PHYSICAL_IO_START,
    ensures
        final(mem)@ == relocate_all(old(mem)@, kernel_start, base, fixedvec_items(segments)),
        first_mem(tags@) is None ==> r == Err::<Handoff, BootError>(
            BootError::MemoryMapUnavailable,
        ),
        first_mem(tags@) matches Some((start, end)) ==> r matches Ok(h) && {
            &&& h.boot_info == (BootInfo {
                physical_memory_start: start,
                physical_memory_end: end,
                physical_memory_offset: PHYSICAL_MEMORY_OFFSET,
            })
            &&& h.kernel_end == span_of(fixedvec_items(segments)).1
            &&& tables_spec(h.tables, start, end)
        },
{
    let span = relocate_segments(mem, kernel_start, base, segments);
    match probe_memory(tags) {
        Ok((start, end)) => {
            let tables = create_page_table(start, end);
            Ok(
                Handoff {
                    boot_info: BootInfo {
                        physical_memory_start: start,
                        physical_memory_end: end,
                        physical_memory_offset: PHYSICAL_MEMORY_OFFSET,
                    },
                    kernel_end: span.1,
                    tables,
                },
            )
        },
        Err(e) => Err(e),
    }
}

} // verus!
