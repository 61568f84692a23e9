use vstd::prelude::*;
use crate::layout::{BootError, PHYSICAL_IO_START};

verus! {

/// One firmware boot tag, as far as memory discovery cares.
#[derive(Clone, Copy, Debug, PartialEq, Eq, Structural)]
pub enum BootTag {
    /// A description of a physical memory range.
    Mem { start: u32, size: u32 },
    /// Any other record.
    Other,
}

/// The memory range of the first memory record in `tags`, if there is one.
pub open spec fn first_mem(tags: Seq<BootTag>) -> Option<(u64, u64)>
    decreases tags.len(),
{
    if tags.len() == 0 {
        None
    } else {
        match tags[0] {
            BootTag::Mem { start, size } => Some((start as u64, (start + size) as u64)),
            BootTag::Other => first_mem(tags.drop_first()),
        }
    }
}

/// Returns `(start, end)` of the first memory record in `tags`, in order, or
/// `MemoryMapUnavailable` if there is none.
pub fn probe_memory(tags: &Vec<BootTag>) -> (r: Result<(u64, u64), BootError>)
    ensures
        first_mem(tags@) matches Some(range) ==> r == Ok::<(u64, u64), BootError>(range),
        first_mem(tags@) is None ==> r == Err::<(u64, u64), BootError>(BootError::MemoryMapUnavailable),
{
    let mut i: usize = 0;
    assert(tags@.subrange(0, tags@.len() as int) =~= tags@);
    while i < tags.len()
        invariant
            i <= tags@.len(),
            first_mem(tags@) == first_mem(tags@.subrange(i as int, tags@.len() as int)),
        decreases tags.len() - i,
    {
        assert(tags@.subrange(i as int + 1, tags@.len() as int)
            =~= tags@.subrange(i as int, tags@.len() as int).drop_first());
        match tags[i] {
            BootTag::Mem { start, size } => {
                return Ok((start as u64, start as u64 + size as u64));
            },
            BootTag::Other => {},
        }
        i = i + 1;
    }
    Err(BootError::MemoryMapUnavailable)
}

/// Whether the memory that `tags` describe, if any, ends at or below the
/// start of I/O space, as the bootstrap table layout requires.
pub fn memory_below_io(tags: &Vec<BootTag>) -> (r: bool)
    ensures
        r == (first_mem(tags@) matches Some((_, end)) ==> end <= PHYSICAL_IO_START),
{
    match probe_memory(tags) {
        Ok((_, end)) => end <= PHYSICAL_IO_START,
        Err(_) => true,
    }
}

/// A stream with a memory record at `k` and none before it gives exactly that
/// record's `(start, start + size)`; a stream with no memory record gives none.
pub proof fn lemma_probe_finds_first_record(tags: Seq<BootTag>, k: int)
    requires
        0 <= k < tags.len(),
        tags[k] is Mem,
        forall|j: int| 0 <= j < k ==> !(tags[j] is Mem),
    ensures
        first_mem(tags) == Some(
            (tags[k]->Mem_start as u64, (tags[k]->Mem_start + tags[k]->Mem_size) as u64),
        ),
    decreases k,
{
    if k > 0 {
        let rest = tags.drop_first();
        assert forall|j: int| 0 <= j < k - 1 implies !(rest[j] is Mem) by {
            assert(rest[j] == tags[j + 1]);
        }
        lemma_probe_finds_first_record(rest, k - 1);
    }
}

/// A stream without any memory record gives none.
pub proof fn lemma_probe_without_record(tags: Seq<BootTag>)
    requires
        forall|j: int| 0 <= j < tags.len() ==> !(tags[j] is Mem),
    ensures
        first_mem(tags) is None,
    decreases tags.len(),
{
    if tags.len() > 0 {
        let rest = tags.drop_first();
        assert forall|j: int| 0 <= j < rest.len() implies !(rest[j] is Mem) by {
            assert(rest[j] == tags[j + 1]);
        }
        lemma_probe_without_record(rest);
    }
}

} // verus!
