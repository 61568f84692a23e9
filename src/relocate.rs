use vstd::prelude::*;
use fixedvec::FixedVec;
use crate::layout::{
    align_down, align_down_spec, align_up, align_up_spec, virt_to_phys, virt_to_phys_spec,
    ALIGN_2MB, PHYSICAL_MEMORY_OFFSET,
};

verus! {

/// The type of a program segment, as far as relocation cares.
#[derive(Clone, Copy, Debug, PartialEq, Eq, Structural)]
pub enum SegmentKind {
    Load,
    Other,
}

/// One program header of the kernel image.
#[derive(Clone, Copy, Debug, PartialEq, Eq, Structural)]
pub struct Segment {
    pub kind: SegmentKind,
    pub virtual_addr: u64,
    pub offset: u64,
    pub file_size: u64,
    pub mem_size: u64,
}

#[verifier::external_type_specification]
#[verifier::external_body]
#[verifier::reject_recursive_types(T)]
pub struct ExFixedVec<'a, T: 'a + Copy>(FixedVec<'a, T>);

/// The segments held in a fixed-capacity vector, in push order.
pub uninterp spec fn fixedvec_items(v: &FixedVec<Segment>) -> Seq<Segment>;

/// Relies on fixedvec's `FixedVec::len`: the number of items pushed.
#[verifier::external_body]
fn header_count(v: &FixedVec<Segment>) -> (r: usize)
    ensures
        r == fixedvec_items(v).len(),
{
    v.len()
}

/// Relies on fixedvec's `Index` impl: below the length it reads the item
/// pushed at that position.
#[verifier::external_body]
fn header_at(v: &FixedVec<Segment>, i: usize) -> (r: Segment)
    requires
        i < fixedvec_items(v).len(),
    ensures
        r == fixedvec_items(v)[i as int],
{
    v[i]
}

pub open spec fn is_load(s: Segment) -> bool {
    s.kind is Load
}

/// Physical address where a segment's bytes go.
pub open spec fn dest_of(s: Segment) -> int {
    virt_to_phys_spec(s.virtual_addr)
}

/// A load segment's source and destination lie inside a memory of `len`
/// bytes that holds physical addresses from `base` on, its file part fits in its memory part, and its span can be rounded
/// up without overflow. Other segments are never read.
pub open spec fn segment_fits(s: Segment, kernel_start: u64, base: u64, len: int) -> bool {
    is_load(s) ==> {
        &&& s.file_size <= s.mem_size
        &&& base <= kernel_start
        &&& kernel_start + s.offset + s.file_size <= base + len
        &&& s.virtual_addr >= PHYSICAL_MEMORY_OFFSET
        &&& base <= dest_of(s)
        &&& dest_of(s) + s.mem_size <= base + len
        &&& s.virtual_addr + s.mem_size <= u64::MAX - ALIGN_2MB
    }
}

pub open spec fn segments_fit(segs: Seq<Segment>, kernel_start: u64, base: u64, len: int) -> bool {
    forall|j: int| 0 <= j < segs.len() ==> segment_fits(#[trigger] segs[j], kernel_start, base, len)
}

/// Memory `m`, which holds physical addresses from `base` on, after loading
/// one segment of the image at physical address `kernel_start`: its file bytes are copied (as by a move, so an overlap of
/// source and destination is read before it is written) and the rest of its
/// memory part is zeroed. Other segments leave memory as it is.
pub open spec fn load_one(m: Seq<u8>, kernel_start: u64, base: u64, s: Segment) -> Seq<u8> {
    if !is_load(s) {
        m
    } else {
        let src = kernel_start + s.offset - base;
        let dst = dest_of(s) - base;
        Seq::new(
            m.len(),
            |i: int|
                if dst <= i < dst + s.file_size {
                    m[src + (i - dst)]
                } else if dst + s.file_size <= i < dst + s.mem_size {
                    0u8
                } else {
                    m[i]
                },
        )
    }
}

/// Memory `m` after loading every segment of `segs`, the last header first.
pub open spec fn relocate_all(m: Seq<u8>, kernel_start: u64, base: u64, segs: Seq<Segment>) -> Seq<u8>
    decreases segs.len(),
{
    if segs.len() == 0 {
        m
    } else {
        load_one(relocate_all(m, kernel_start, base, segs.drop_first()), kernel_start, base, segs[0])
    }
}

pub open spec fn has_load(segs: Seq<Segment>) -> bool {
    exists|j: int| 0 <= j < segs.len() && is_load(#[trigger] segs[j])
}

/// The lowest virtual address of a load segment (`u64::MAX` if there is none).
pub open spec fn min_virt(segs: Seq<Segment>) -> int
    decreases segs.len(),
{
    if segs.len() == 0 {
        u64::MAX as int
    } else if is_load(segs[0]) && segs[0].virtual_addr < min_virt(segs.drop_first()) {
        segs[0].virtual_addr as int
    } else {
        min_virt(segs.drop_first())
    }
}

/// The highest end (`virtual_addr + mem_size`) of a load segment (0 if none).
pub open spec fn max_end(segs: Seq<Segment>) -> int
    decreases segs.len(),
{
    if segs.len() == 0 {
        0
    } else if is_load(segs[0]) && segs[0].virtual_addr + segs[0].mem_size > max_end(
        segs.drop_first(),
    ) {
        segs[0].virtual_addr + segs[0].mem_size
    } else {
        max_end(segs.drop_first())
    }
}

/// The virtual span of the load segments, rounded outwards to 2 MiB; with no
/// load segment it is `(u64::MAX, 0)`.
pub open spec fn span_of(segs: Seq<Segment>) -> (u64, u64) {
    (
        if has_load(segs) {
            align_down_spec(min_virt(segs)) as u64
        } else {
            u64::MAX
        },
        align_up_spec(max_end(segs)) as u64,
    )
}

/// Moves `n` bytes from `src` to `dst` within `mem`; the ranges may overlap.
fn move_bytes(mem: &mut Vec<u8>, src: usize, dst: usize, n: usize)
    requires
        src + n <= old(mem)@.len(),
        dst + n <= old(mem)@.len(),
    ensures
        final(mem)@.len() == old(mem)@.len(),
        forall|i: int|
            0 <= i < old(mem)@.len() ==> final(mem)@[i] == (if dst <= i < dst + n {
                old(mem)@[src + (i - dst)]
            } else {
                old(mem)@[i]
            }),
{
    let ghost m0 = mem@;
    let len = mem.len();
    if dst <= src {
        let mut k: usize = 0;
        while k < n
            invariant
                k <= n,
                dst <= src,
                src + n <= m0.len(),
                dst + n <= m0.len(),
                m0.len() == len,
                mem@.len() == m0.len(),
                forall|i: int|
                    0 <= i < m0.len() ==> mem@[i] == (if dst <= i < dst + k {
                        m0[src + (i - dst)]
                    } else {
                        m0[i]
                    }),
            decreases n - k,
        {
            let b = mem[src + k];
            mem[dst + k] = b;
            k = k + 1;
        }
    } else {
        let mut k: usize = n;
        while k > 0
            invariant
                k <= n,
                src < dst,
                src + n <= m0.len(),
                dst + n <= m0.len(),
                m0.len() == len,
                mem@.len() == m0.len(),
                forall|i: int|
                    0 <= i < m0.len() ==> mem@[i] == (if dst + k <= i < dst + n {
                        m0[src + (i - dst)]
                    } else {
                        m0[i]
                    }),
            decreases k,
        {
            k = k - 1;
            let b = mem[src + k];
            mem[dst + k] = b;
        }
    }
}

/// Sets `n` bytes from `start` to zero.
fn zero_bytes(mem: &mut Vec<u8>, start: usize, n: usize)
    requires
        start + n <= old(mem)@.len(),
    ensures
        final(mem)@.len() == old(mem)@.len(),
        forall|i: int|
            0 <= i < old(mem)@.len() ==> final(mem)@[i] == (if start <= i < start + n {
                0u8
            } else {
                old(mem)@[i]
            }),
{
    let ghost m0 = mem@;
    let len = mem.len();
    let mut k: usize = 0;
    while k < n
        invariant
            k <= n,
            start + n <= m0.len(),
            m0.len() == len,
            mem@.len() == m0.len(),
            forall|i: int|
                0 <= i < m0.len() ==> mem@[i] == (if start <= i < start + k {
                    0u8
                } else {
                    m0[i]
                }),
        decreases n - k,
    {
        mem[start + k] = 0;
        k = k + 1;
    }
}

/// Loads one load segment of the image at `kernel_start` into `mem`, which
/// holds physical addresses from `base` on.
fn load_segment(mem: &mut Vec<u8>, kernel_start: u64, base: u64, s: Segment)
    requires
        is_load(s),
        segment_fits(s, kernel_start, base, old(mem)@.len() as int),
    ensures
        final(mem)@ == load_one(old(mem)@, kernel_start, base, s),
{
    let ghost m0 = mem@;
    let len = mem.len();
    let src = (kernel_start - base) as usize + s.offset as usize;
    let dst = (virt_to_phys(s.virtual_addr) - base) as usize;
    let file = s.file_size as usize;
    move_bytes(mem, src, dst, file);
    zero_bytes(mem, dst + file, (s.mem_size - s.file_size) as usize);
    assert(mem@ =~= load_one(m0, kernel_start, base, s));
}

proof fn lemma_align_down_same(a: int, b: int)
    requires
        0 <= align_down_spec(b) <= a <= b,
    ensures
        align_down_spec(a) == align_down_spec(b),
{
}

proof fn lemma_align_up_same(a: int, b: int)
    requires
        0 <= b < a <= align_up_spec(b),
    ensures
        align_up_spec(a) == align_up_spec(b),
{
}

proof fn lemma_align_bounds(x: int)
    requires
        0 <= x,
    ensures
        0 <= align_down_spec(x) <= x,
        align_down_spec(x) % (ALIGN_2MB as int) == 0,
        x <= align_up_spec(x) < x + ALIGN_2MB,
        align_up_spec(x) % (ALIGN_2MB as int) == 0,
{
}

proof fn lemma_fit_rest(segs: Seq<Segment>, kernel_start: u64, base: u64, len: int)
    requires
        segs.len() > 0,
        segments_fit(segs, kernel_start, base, len),
    ensures
        segments_fit(segs.drop_first(), kernel_start, base, len),
        segment_fits(segs[0], kernel_start, base, len),
{
    let rest = segs.drop_first();
    assert forall|j: int| 0 <= j < rest.len() implies segment_fits(
        #[trigger] rest[j],
        kernel_start,
        base,
        len,
    ) by {
        assert(rest[j] == segs[j + 1]);
    }
}

proof fn lemma_has_load_cons(segs: Seq<Segment>)
    requires
        segs.len() > 0,
    ensures
        has_load(segs) == (is_load(segs[0]) || has_load(segs.drop_first())),
{
    let rest = segs.drop_first();
    if has_load(rest) {
        let j = choose|j: int| 0 <= j < rest.len() && is_load(#[trigger] rest[j]);
        assert(segs[j + 1] == rest[j]);
    }
    if has_load(segs) && !is_load(segs[0]) {
        let j = choose|j: int| 0 <= j < segs.len() && is_load(#[trigger] segs[j]);
        assert(rest[j - 1] == segs[j]);
    }
}

/// Bounds on the span of fitting segments.
proof fn lemma_span_bounds(segs: Seq<Segment>, kernel_start: u64, base: u64, len: int)
    requires
        segments_fit(segs, kernel_start, base, len),
    ensures
        0 <= min_virt(segs) <= u64::MAX,
        0 <= max_end(segs) <= u64::MAX - ALIGN_2MB,
        !has_load(segs) ==> min_virt(segs) == u64::MAX && max_end(segs) == 0,
        has_load(segs) ==> min_virt(segs) < u64::MAX,
    decreases segs.len(),
{
    if segs.len() > 0 {
        lemma_fit_rest(segs, kernel_start, base, len);
        lemma_span_bounds(segs.drop_first(), kernel_start, base, len);
        lemma_has_load_cons(segs);
    }
}

/// How the span grows when one more segment is taken in front.
proof fn lemma_span_step(segs: Seq<Segment>, kernel_start: u64, base: u64, len: int)
    requires
        segs.len() > 0,
        segments_fit(segs, kernel_start, base, len),
    ensures
        ({
            let s = segs[0];
            let prev = span_of(segs.drop_first());
            &&& span_of(segs).0 == (if is_load(s) && s.virtual_addr < prev.0 {
                align_down_spec(s.virtual_addr as int) as u64
            } else {
                prev.0
            })
            &&& span_of(segs).1 == (if is_load(s) && s.virtual_addr + s.mem_size > prev.1 {
                align_up_spec(s.virtual_addr + s.mem_size) as u64
            } else {
                prev.1
            })
        }),
{
    let s = segs[0];
    let rest = segs.drop_first();
    lemma_fit_rest(segs, kernel_start, base, len);
    lemma_span_bounds(rest, kernel_start, base, len);
    lemma_has_load_cons(segs);
    let m = min_virt(rest);
    let e = max_end(rest);
    lemma_align_bounds(m);
    lemma_align_bounds(e);
    lemma_align_bounds(s.virtual_addr as int);
    lemma_align_bounds(s.virtual_addr + s.mem_size);
    if is_load(s) {
        if has_load(rest) && align_down_spec(m) <= s.virtual_addr < m {
            lemma_align_down_same(s.virtual_addr as int, m);
        }
        let se = s.virtual_addr + s.mem_size;
        if e < se <= align_up_spec(e) {
            lemma_align_up_same(se, e);
        }
    }
}

/// Whether every segment fits a memory of `len` bytes from physical address
/// `base` on, as loading requires.
pub fn segments_valid(kernel_start: u64, base: u64, segments: &FixedVec<Segment>, len: usize) -> (r: bool)
    ensures
        r == segments_fit(fixedvec_items(segments), kernel_start, base, len as int),
{
    let ghost segs = fixedvec_items(segments);
    let n = header_count(segments);
    let mut i: usize = 0;
    while i < n
        invariant
            i <= n,
            n == segs.len(),
            segs == fixedvec_items(segments),
            forall|j: int| 0 <= j < i ==> segment_fits(#[trigger] segs[j], kernel_start, base, len as int),
        decreases n - i,
    {
        let s = header_at(segments, i);
        if s.kind == SegmentKind::Load {
            let fits = s.file_size <= s.mem_size && base <= kernel_start && kernel_start as u128
                + s.offset as u128 + s.file_size as u128 <= base as u128 + len as u128
                && s.virtual_addr >= PHYSICAL_MEMORY_OFFSET && base <= s.virtual_addr
                - PHYSICAL_MEMORY_OFFSET && (s.virtual_addr - PHYSICAL_MEMORY_OFFSET) as u128
                + s.mem_size as u128 <= base as u128 + len as u128 && s.virtual_addr as u128 + s.mem_size as u128 <= (u64::MAX
                - ALIGN_2MB) as u128;
            if !fits {
                assert(!segment_fits(segs[i as int], kernel_start, base, len as int));
                return false;
            }
        }
        i = i + 1;
    }
    true
}

/// Loads every load segment of the image at physical address `kernel_start`
/// into `mem`, which holds physical addresses from `base` on, the last header
/// first, and returns the virtual span that the load segments
/// cover, rounded outwards to 2 MiB.
pub fn relocate_segments(mem: &mut Vec<u8>, kernel_start: u64, base: u64, segments: &FixedVec<Segment>) -> (span: (
    u64,
    u64,
))
    requires
        segments_fit(fixedvec_items(segments), kernel_start, base, old(mem)@.len() as int),
    ensures
        final(mem)@ == relocate_all(old(mem)@, kernel_start, base, fixedvec_items(segments)),
        span == span_of(fixedvec_items(segments)),
{
    let ghost m0 = mem@;
    let ghost segs = fixedvec_items(segments);
    let n = header_count(segments);
    let mut start: u64 = u64::MAX;
    let mut end: u64 = 0;
    let mut i: usize = n;
    proof {
        assert(segs.subrange(n as int, n as int) =~= Seq::<Segment>::empty());
        lemma_span_bounds(segs.subrange(n as int, n as int), kernel_start, base, m0.len() as int);
        lemma_align_bounds(0);
    }
    while i > 0
        invariant
            i <= n,
            n == segs.len(),
            segs == fixedvec_items(segments),
            mem@.len() == m0.len(),
            segments_fit(segs, kernel_start, base, m0.len() as int),
            mem@ == relocate_all(m0, kernel_start, base, segs.subrange(i as int, n as int)),
            (start, end) == span_of(segs.subrange(i as int, n as int)),
        decreases i,
    {
        i = i - 1;
        let s = header_at(segments, i);
        let ghost cur = segs.subrange(i as int, n as int);
        proof {
            assert(cur.drop_first() =~= segs.subrange(i + 1, n as int));
            assert(cur[0] == segs[i as int]);
            assert(segments_fit(cur, kernel_start, base, m0.len() as int)) by {
                assert forall|j: int| 0 <= j < cur.len() implies segment_fits(
                    #[trigger] cur[j],
                    kernel_start,
        base,
                    m0.len() as int,
                ) by {
                    assert(cur[j] == segs[i + j]);
                }
            }
            lemma_span_step(cur, kernel_start, base, m0.len() as int);
        }
        if s.kind == SegmentKind::Load {
            load_segment(mem, kernel_start, base, s);
            if s.virtual_addr < start {
                start = align_down(s.virtual_addr);
            }
            let seg_end = s.virtual_addr + s.mem_size;
            if seg_end > end {
                end = align_up(seg_end);
            }
        }
    }
    proof {
        assert(segs.subrange(0, n as int) =~= segs);
    }
    (start, end)
}

/// The destination ranges of any two distinct load segments do not overlap.
pub open spec fn dests_disjoint(segs: Seq<Segment>) -> bool {
    forall|a: int, b: int|
        0 <= a < segs.len() && 0 <= b < segs.len() && a != b && is_load(#[trigger] segs[a])
            && is_load(#[trigger] segs[b]) ==> dest_of(segs[a]) + segs[a].mem_size <= dest_of(
            segs[b],
        ) || dest_of(segs[b]) + segs[b].mem_size <= dest_of(segs[a])
}

proof fn lemma_extremes(segs: Seq<Segment>, j: int)
    requires
        0 <= j < segs.len(),
        is_load(segs[j]),
    ensures
        min_virt(segs) <= segs[j].virtual_addr,
        max_end(segs) >= segs[j].virtual_addr + segs[j].mem_size,
    decreases segs.len(),
{
    if j > 0 {
        lemma_extremes(segs.drop_first(), j - 1);
    }
}

/// For fitting segments with at least one load segment, the computed span
/// starts at or below every load segment's virtual address, ends at or above
/// every load segment's end, and both of its bounds are multiples of 2 MiB.
pub proof fn lemma_span_covers_segments(segs: Seq<Segment>, kernel_start: u64, base: u64, len: int)
    requires
        segments_fit(segs, kernel_start, base, len),
        has_load(segs),
    ensures
        span_of(segs).0 % ALIGN_2MB == 0,
        span_of(segs).1 % ALIGN_2MB == 0,
        forall|j: int|
            0 <= j < segs.len() && is_load(#[trigger] segs[j]) ==> span_of(segs).0
                <= segs[j].virtual_addr && segs[j].virtual_addr + segs[j].mem_size
                <= span_of(segs).1,
{
    lemma_span_bounds(segs, kernel_start, base, len);
    lemma_align_bounds(min_virt(segs));
    lemma_align_bounds(max_end(segs));
    assert forall|j: int| 0 <= j < segs.len() && is_load(#[trigger] segs[j]) implies span_of(
        segs,
    ).0 <= segs[j].virtual_addr && segs[j].virtual_addr + segs[j].mem_size <= span_of(segs).1 by {
        lemma_extremes(segs, j);
    }
}

proof fn lemma_relocate_len(m: Seq<u8>, kernel_start: u64, base: u64, segs: Seq<Segment>)
    ensures
        relocate_all(m, kernel_start, base, segs).len() == m.len(),
    decreases segs.len(),
{
    if segs.len() > 0 {
        lemma_relocate_len(m, kernel_start, base, segs.drop_first());
    }
}

/// When the load segments' destinations do not overlap, every byte of a load
/// segment between its file size and its memory size is zero once all
/// segments are loaded (index `i` of memory is physical address `base + i`).
pub proof fn lemma_tail_zeroed(m: Seq<u8>, kernel_start: u64, base: u64, segs: Seq<Segment>, k: int)
    requires
        segments_fit(segs, kernel_start, base, m.len() as int),
        dests_disjoint(segs),
        0 <= k < segs.len(),
        is_load(segs[k]),
    ensures
        forall|i: int|
            dest_of(segs[k]) + segs[k].file_size <= base + i < dest_of(segs[k]) + segs[k].mem_size
                ==> #[trigger] relocate_all(m, kernel_start, base, segs)[i] == 0u8,
    decreases segs.len(),
{
    let rest = segs.drop_first();
    lemma_fit_rest(segs, kernel_start, base, m.len() as int);
    lemma_relocate_len(m, kernel_start, base, rest);
    if k > 0 {
        assert(dests_disjoint(rest)) by {
            assert forall|a: int, b: int|
                0 <= a < rest.len() && 0 <= b < rest.len() && a != b && is_load(
                    #[trigger] rest[a],
                ) && is_load(#[trigger] rest[b]) implies dest_of(rest[a]) + rest[a].mem_size
                <= dest_of(rest[b]) || dest_of(rest[b]) + rest[b].mem_size <= dest_of(rest[a]) by {
                assert(rest[a] == segs[a + 1]);
                assert(rest[b] == segs[b + 1]);
            }
        }
        assert(rest[k - 1] == segs[k]);
        lemma_tail_zeroed(m, kernel_start, base, rest, k - 1);
        assert forall|i: int|
            dest_of(segs[k]) + segs[k].file_size <= base + i < dest_of(segs[k]) + segs[k].mem_size
                implies #[trigger] relocate_all(m, kernel_start, base, segs)[i] == 0u8 by {
            assert(relocate_all(m, kernel_start, base, rest)[i] == 0u8);
        }
    }
}

} // verus!
