//! Early boot memory bootstrap: memory discovery from boot tags, relocation of
//! a kernel image's loadable segments, the bootstrap page-table layout, the
//! MMU enabling sequence and the kernel entry sequencing.

pub mod layout;
pub mod probe;
pub mod relocate;
pub mod paging;
pub mod mmu;
pub mod entry;
pub mod boot;
