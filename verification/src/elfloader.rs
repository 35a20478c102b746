use crate::mm::{
    copy_to_frame, first_space, has_space, map_user_region, new_mappings, padded_chunk, pages_for, region_fits, Mapping, Memory,
    MemoryView, SpaceView,
};
use vstd::prelude::*;
use vstd::slice::slice_subrange;

verus! {

/// Size of the file header, the least size of an executable.
pub const HEADER_SIZE: usize = 64;

/// Greatest number of segments an image keeps.
pub const MAX_SEGMENTS: usize = 16;

/// Type of a program header that describes a loadable segment.
pub const PT_LOAD: u32 = 1;

/// The segments that an image holds, first pushed first: the bytes of each in
/// the file, and the virtual address where they belong.
pub uninterp spec fn segment_list(v: heapless::Vec<(&[u8], u64), 16>) -> Seq<(Seq<u8>, u64)>;

/// `heapless::Vec::new`: a list that holds nothing.
#[verifier::external_body]
fn segments_new<'a>() -> (v: heapless::Vec<(&'a [u8], u64), 16>)
    ensures
        segment_list(v) == Seq::<(Seq<u8>, u64)>::empty(),
{
    heapless::Vec::new()
}

/// `heapless::Vec::push`: appends the segment while fewer than 16 are held,
/// and otherwise hands it back and leaves the list as it was.
#[verifier::external_body]
fn segments_push<'a>(v: &mut heapless::Vec<(&'a [u8], u64), 16>, bytes: &'a [u8], vaddr: u64) -> (stored: bool)
    ensures
        stored == (segment_list(*old(v)).len() < 16),
        stored ==> segment_list(*final(v)) == segment_list(*old(v)).push((bytes@, vaddr)),
        !stored ==> segment_list(*final(v)) == segment_list(*old(v)),
{
    v.push((bytes, vaddr)).is_ok()
}

/// `len` of the slice that `heapless::Vec` dereferences to: how many
/// segments are held, never more than 16.
#[verifier::external_body]
fn segments_len(v: &heapless::Vec<(&[u8], u64), 16>) -> (n: usize)
    ensures
        n == segment_list(*v).len(),
        n <= 16,
{
    v.len()
}

/// Indexing the slice that `heapless::Vec` dereferences to.
#[verifier::external_body]
fn segments_get<'a>(v: &heapless::Vec<(&'a [u8], u64), 16>, i: usize) -> (seg: (&'a [u8], u64))
    requires
        i < segment_list(*v).len(),
    ensures
        seg.0@ == segment_list(*v)[i as int].0,
        seg.1 == segment_list(*v)[i as int].1,
{
    v[i]
}

/// The parsed view of an executable: where it starts to run, and its
/// loadable segments in the order of the program headers.
pub struct ElfImage<'a> {
    pub entry: u64,
    pub segments: heapless::Vec<(&'a [u8], u64), 16>,
}

/// What an image holds, as plain values.
pub struct ImageView {
    pub entry: u64,
    pub segments: Seq<(Seq<u8>, u64)>,
}

impl<'a> View for ElfImage<'a> {
    type V = ImageView;

    open spec fn view(&self) -> ImageView {
        ImageView { entry: self.entry, segments: segment_list(self.segments) }
    }
}

/// The 16-bit little-endian number at `at`.
pub open spec fn le_u16(b: Seq<u8>, at: int) -> int {
    b[at] + 0x100 * b[at + 1]
}

/// The 32-bit little-endian number at `at`.
pub open spec fn le_u32(b: Seq<u8>, at: int) -> int {
    b[at] + 0x100 * b[at + 1] + 0x1_0000 * b[at + 2] + 0x100_0000 * b[at + 3]
}

/// The 64-bit little-endian number at `at`.
pub open spec fn le_u64(b: Seq<u8>, at: int) -> int {
    le_u32(b, at) + 0x1_0000_0000 * le_u32(b, at + 4)
}

/// True for a file header of full size with the magic signature and the
/// 64-bit class marker.
pub open spec fn header_ok(b: Seq<u8>) -> bool {
    &&& b.len() >= 64
    &&& b[0] == 0x7f
    &&& b[1] == 0x45
    &&& b[2] == 0x4c
    &&& b[3] == 0x46
    &&& b[4] == 2
}

/// Entry address that the header gives.
pub open spec fn entry_of(b: Seq<u8>) -> int {
    le_u64(b, 24)
}

/// Number of program headers that the header gives.
pub open spec fn ph_count(b: Seq<u8>) -> int {
    le_u16(b, 56)
}

/// File offset of program header `i`.
pub open spec fn ph_at(b: Seq<u8>, i: int) -> int {
    le_u64(b, 32) + i * le_u16(b, 54)
}

/// True when program header `i` describes a loadable segment.
pub open spec fn ph_is_load(b: Seq<u8>, i: int) -> bool {
    le_u32(b, ph_at(b, i)) == 1
}

/// File offset of the segment of program header `i`.
pub open spec fn seg_offset(b: Seq<u8>, i: int) -> int {
    le_u64(b, ph_at(b, i) + 8)
}

/// Virtual address of the segment of program header `i`.
pub open spec fn seg_vaddr(b: Seq<u8>, i: int) -> int {
    le_u64(b, ph_at(b, i) + 16)
}

/// Size in the file of the segment of program header `i`.
pub open spec fn seg_filesz(b: Seq<u8>, i: int) -> int {
    le_u64(b, ph_at(b, i) + 32)
}

/// True when program header `i` can be read: its type lies inside the file,
/// and for a loadable segment so do the rest of the header and the segment's bytes.
pub open spec fn ph_ok(b: Seq<u8>, i: int) -> bool {
    &&& ph_at(b, i) + 4 <= b.len()
    &&& ph_is_load(b, i) ==> ph_at(b, i) + 40 <= b.len() && seg_offset(b, i) + seg_filesz(b, i) <= b.len()
}

/// True when the file is an executable that can be parsed.
pub open spec fn image_ok(b: Seq<u8>) -> bool {
    &&& header_ok(b)
    &&& forall|i: int| 0 <= i < ph_count(b) ==> ph_ok(b, i)
}

/// The loadable segments among the first `n` program headers, in their order.
pub open spec fn load_segments(b: Seq<u8>, n: nat) -> Seq<(Seq<u8>, u64)>
    decreases n,
{
    if n == 0 {
        Seq::empty()
    } else {
        let before = load_segments(b, (n - 1) as nat);
        if ph_is_load(b, n - 1) {
            before.push(
                (
                    b.subrange(seg_offset(b, n - 1), seg_offset(b, n - 1) + seg_filesz(b, n - 1)),
                    seg_vaddr(b, n - 1) as u64,
                ),
            )
        } else {
            before
        }
    }
}

/// The first 16 items of `s`, or all of `s` where it holds fewer.
pub open spec fn first_segments(s: Seq<(Seq<u8>, u64)>) -> Seq<(Seq<u8>, u64)> {
    if s.len() <= 16 {
        s
    } else {
        s.take(16)
    }
}

/// Reads the 16-bit little-endian number at `at`.
pub fn read_u16(b: &[u8], at: usize) -> (v: u16)
    requires
        at + 2 <= b@.len(),
    ensures
        v == le_u16(b@, at as int),
{
    b[at] as u16 + 0x100 * (b[at + 1] as u16)
}

/// Reads the 32-bit little-endian number at `at`.
pub fn read_u32(b: &[u8], at: usize) -> (v: u32)
    requires
        at + 4 <= b@.len(),
    ensures
        v == le_u32(b@, at as int),
{
    b[at] as u32 + 0x100 * (b[at + 1] as u32) + 0x1_0000 * (b[at + 2] as u32) + 0x100_0000 * (b[at + 3] as u32)
}

/// Reads the 64-bit little-endian number at `at`.
pub fn read_u64(b: &[u8], at: usize) -> (v: u64)
    requires
        at + 8 <= b@.len(),
    ensures
        v == le_u64(b@, at as int),
{
    let _len = b.len();
    let lo = read_u32(b, at);
    let hi = read_u32(b, at + 4);
    lo as u64 + 0x1_0000_0000 * (hi as u64)
}

/// Parses an executable: checks the size, the magic signature and the 64-bit
/// class of the header, and collects the loadable segments in the order of
/// the program headers, at most 16 of them. Fails where the header is not
/// accepted, or a program header or the bytes of a loadable segment lie
/// outside the file.
pub fn parse_elf<'a>(bytes: &'a [u8]) -> (r: Option<ElfImage<'a>>)
    ensures
        r is Some <==> image_ok(bytes@),
        r is Some ==> r->0@ == (ImageView {
            entry: entry_of(bytes@) as u64,
            segments: first_segments(load_segments(bytes@, ph_count(bytes@) as nat)),
        }),
{
    let len = bytes.len();
    if len < 64 {
        return None;
    }
    if bytes[0] != 0x7f || bytes[1] != 0x45 || bytes[2] != 0x4c || bytes[3] != 0x46 || bytes[4] != 2 {
        return None;
    }
    let e_entry = read_u64(bytes, 24);
    let phoff = read_u64(bytes, 32);
    let phentsize = read_u16(bytes, 54);
    let phnum = read_u16(bytes, 56);
    let mut segs = segments_new();
    let mut i: u16 = 0;
    while i < phnum
        invariant
            len == bytes@.len(),
            header_ok(bytes@),
            phoff == le_u64(bytes@, 32),
            phentsize == le_u16(bytes@, 54),
            phnum == ph_count(bytes@),
            i <= phnum,
            forall|j: int| 0 <= j < i ==> ph_ok(bytes@, j),
            segment_list(segs) == first_segments(load_segments(bytes@, i as nat)),
        decreases phnum - i,
    {
        proof {
            assert(0 <= (i as int) * (phentsize as int) <= 65535 * 65535) by (nonlinear_arith)
                requires
                    0 <= i <= 65535,
                    0 <= phentsize <= 65535,
            ;
        }
        let off: u128 = phoff as u128 + (i as u128) * (phentsize as u128);
        if off + 4 > len as u128 {
            assert(!ph_ok(bytes@, i as int));
            return None;
        }
        let at: usize = off as usize;
        let p_type = read_u32(bytes, at);
        let ghost held = segment_list(segs);
        if p_type == PT_LOAD {
            if off + 40 > len as u128 {
                assert(!ph_ok(bytes@, i as int));
                return None;
            }
            let p_offset = read_u64(bytes, at + 8);
            let p_vaddr = read_u64(bytes, at + 16);
            let p_filesz = read_u64(bytes, at + 32);
            if p_offset as u128 + p_filesz as u128 > len as u128 {
                assert(!ph_ok(bytes@, i as int));
                return None;
            }
            let start: usize = p_offset as usize;
            let end: usize = start + p_filesz as usize;
            let _stored = segments_push(&mut segs, slice_subrange(bytes, start, end), p_vaddr);
        }
        proof {
            assert(ph_ok(bytes@, i as int));
            let before = load_segments(bytes@, i as nat);
            let after = load_segments(bytes@, (i + 1) as nat);
            assert((i + 1 - 1) as nat == i as nat);
            if p_type == PT_LOAD {
                let seg = (
                    bytes@.subrange(seg_offset(bytes@, i as int), seg_offset(bytes@, i as int) + seg_filesz(bytes@, i as int)),
                    seg_vaddr(bytes@, i as int) as u64,
                );
                assert(after == before.push(seg));
                if before.len() < 16 {
                    assert(first_segments(after) =~= held.push(seg));
                } else {
                    assert(first_segments(after) =~= held);
                }
            } else {
                assert(after == before);
            }
        }
        i += 1;
    }
    Some(ElfImage { entry: e_entry, segments: segs })
}

/// How many bytes of a segment of `len` bytes go to its page `k`.
pub open spec fn chunk_len(len: int, k: int) -> int {
    if len - 4096 * k >= 4096 {
        4096
    } else {
        len - 4096 * k
    }
}

/// The pages that hold a segment: its bytes, page after page, and zeros
/// after them up to the end of the last page.
pub open spec fn segment_chunks(bytes: Seq<u8>) -> Seq<Seq<u8>> {
    Seq::new(pages_for(bytes.len()), |k: int| padded_chunk(bytes, 4096 * k, chunk_len(bytes.len() as int, k)))
}

/// The memory after one segment was loaded into the space at index `s`: one
/// fresh frame for each page of the segment, mapped writable from the
/// segment's address on, and filled with the segment's pages.
pub open spec fn load_segment(m: MemoryView, s: int, seg: (Seq<u8>, u64)) -> MemoryView {
    let n = pages_for(seg.0.len());
    MemoryView {
        cursor: m.cursor + n,
        contents: m.contents + segment_chunks(seg.0),
        spaces: m.spaces.update(
            s,
            SpaceView {
                root: m.spaces[s].root,
                kernel: m.spaces[s].kernel,
                user: m.spaces[s].user + new_mappings(m.frames, m.cursor as int, seg.1, n, true),
            },
        ),
        ..m
    }
}

/// The memory after the segments were loaded into the space at index `s`, in their order.
pub open spec fn load_all(m: MemoryView, s: int, segs: Seq<(Seq<u8>, u64)>) -> MemoryView
    decreases segs.len(),
{
    if segs.len() == 0 {
        m
    } else {
        load_segment(load_all(m, s, segs.drop_last()), s, segs.last())
    }
}

/// True when every segment can be mapped, each in the memory that the
/// segments before it leave behind.
pub open spec fn segments_fit(m: MemoryView, s: int, segs: Seq<(Seq<u8>, u64)>) -> bool
    decreases segs.len(),
{
    segs.len() == 0 || (segments_fit(m, s, segs.drop_last()) && region_fits(
        load_all(m, s, segs.drop_last()),
        s,
        segs.last().1,
        segs.last().0.len(),
    ))
}

/// What a load that failed leaves behind: the frames handed out before and
/// their bytes are as they were, and so is every space but the one at index
/// `s`, which has its old pages and may have more.
pub open spec fn partly_loaded(before: MemoryView, after: MemoryView, s: int) -> bool {
    &&& after.frames == before.frames
    &&& after.active == before.active
    &&& after.cursor >= before.cursor
    &&& after.contents.len() >= before.contents.len()
    &&& after.contents.take(before.contents.len() as int) == before.contents
    &&& after.spaces.len() == before.spaces.len()
    &&& forall|i: int| 0 <= i < before.spaces.len() && i != s ==> #[trigger] after.spaces[i] == before.spaces[i]
    &&& after.spaces[s].root == before.spaces[s].root
    &&& after.spaces[s].kernel == before.spaces[s].kernel
    &&& after.spaces[s].user.len() >= before.spaces[s].user.len()
    &&& after.spaces[s].user.take(before.spaces[s].user.len() as int) == before.spaces[s].user
}

/// Loading keeps the memory's old part: what `partly_loaded` says holds of a whole load too.
proof fn lemma_load_segment_extends(m: MemoryView, s: int, seg: (Seq<u8>, u64))
    requires
        0 <= s < m.spaces.len(),
        m.contents.len() == m.cursor,
    ensures
        partly_loaded(m, load_segment(m, s, seg), s),
        load_segment(m, s, seg).contents.len() == load_segment(m, s, seg).cursor,
{
    let f = load_segment(m, s, seg);
    assert(f.contents.take(m.contents.len() as int) =~= m.contents);
    assert(f.spaces[s].user.take(m.spaces[s].user.len() as int) =~= m.spaces[s].user);
}

/// `partly_loaded` composes.
proof fn lemma_partly_loaded_trans(a: MemoryView, b: MemoryView, c: MemoryView, s: int)
    requires
        0 <= s < a.spaces.len(),
        partly_loaded(a, b, s),
        partly_loaded(b, c, s),
    ensures
        partly_loaded(a, c, s),
{
    assert(c.contents.take(a.contents.len() as int) =~= b.contents.take(a.contents.len() as int));
    assert(c.spaces[s].user.take(a.spaces[s].user.len() as int) =~= b.spaces[s].user.take(a.spaces[s].user.len() as int));
    assert forall|i: int| 0 <= i < a.spaces.len() && i != s implies #[trigger] c.spaces[i] == a.spaces[i] by {
        assert(b.spaces[i] == a.spaces[i]);
    }
}

/// Loads every segment of the image into the space whose root is `cr3`, in
/// order: maps the segment's pages writable at its address, copies its bytes
/// into the fresh frames page by page, and fills the rest of the last page
/// with zeros. Returns `false` at the first segment that cannot be mapped;
/// what was built until then stays.
pub fn map_into_cr3(mem: &mut Memory, cr3: u64, img: &ElfImage) -> (ok: bool)
    requires
        old(mem).wf(),
    ensures
        final(mem).wf(),
        old(mem)@.kernel_shared() ==> final(mem)@.kernel_shared(),
        !has_space(old(mem)@.spaces, cr3) ==> ok == (img@.segments.len() == 0) && final(mem)@ == old(mem)@,
        forall|s: int| first_space(old(mem)@.spaces, cr3, s) ==> {
            &&& ok == segments_fit(old(mem)@, s, img@.segments)
            &&& ok ==> final(mem)@ == load_all(old(mem)@, s, img@.segments)
            &&& partly_loaded(old(mem)@, final(mem)@, s)
        },
{
    let count = segments_len(&img.segments);
    let ghost segs = img@.segments;
    let ghost start = mem@;
    let s: usize = match crate::mm::with_mapper_for_cr3(mem, cr3) {
        Some(found) => found,
        None => {
            return count == 0;
        },
    };
    let mut i: usize = 0;
    proof {
        assert(segs.take(0) =~= Seq::<(Seq<u8>, u64)>::empty());
        assert(start.contents.take(start.contents.len() as int) =~= start.contents);
        assert(start.spaces[s as int].user.take(start.spaces[s as int].user.len() as int) =~= start.spaces[s as int].user);
        assert forall|t: int| first_space(start.spaces, cr3, t) implies t == s by {}
    }
    while i < count
        invariant
            mem.wf(),
            start == old(mem)@,
            start.wf(),
            segs == img@.segments,
            count == segs.len(),
            i <= count,
            first_space(start.spaces, cr3, s as int),
            start.kernel_shared() ==> mem@.kernel_shared(),
            segments_fit(start, s as int, segs.take(i as int)),
            mem@ == load_all(start, s as int, segs.take(i as int)),
            partly_loaded(start, mem@, s as int),
        decreases count - i,
    {
        let seg = segments_get(&img.segments, i);
        let bytes: &[u8] = seg.0;
        let vaddr: u64 = seg.1;
        let len = bytes.len();
        let base = mem.frames_used();
        let ghost pre = mem@;
        proof {
            assert(segs.take(i + 1).drop_last() =~= segs.take(i as int));
            assert(segs.take(i + 1).last() == segs[i as int]);
            assert(segs[i as int] == (bytes@, vaddr));
            assert(first_space(pre.spaces, cr3, s as int)) by {
                assert forall|j: int| 0 <= j < pre.spaces.len() && j != s implies (#[trigger] pre.spaces[j]).root == start.spaces[j].root by {}
            }
        }
        let frames = match map_user_region(mem, cr3, vaddr, len, true) {
            Some(f) => f,
            None => {
                proof {
                    assert(!region_fits(pre, s as int, vaddr, len as nat));
                    assert(!segments_fit(start, s as int, segs.take(i + 1)));
                    lemma_fit_prefix(start, s as int, segs, (i + 1) as int);
                    lemma_region_extends(pre, mem@, s as int, vaddr, len as nat);
                    lemma_partly_loaded_trans(start, pre, mem@, s as int);
                }
                return false;
            },
        };
        let ghost mid = mem@;
        let ghost n = pages_for(len as nat);
        let ghost chunks = segment_chunks(bytes@);
        proof {
            assert(region_fits(pre, s as int, vaddr, len as nat));
            assert(frames@.len() == n);
        }
        let mut k: usize = 0;
        let mut copied: usize = 0;
        while k < frames.len()
            invariant
                mem.wf(),
                mid.wf(),
                n == pages_for(len as nat),
                len == bytes@.len(),
                frames@.len() == n,
                chunks == segment_chunks(bytes@),
                k <= n,
                copied == if 4096 * k <= len { 4096 * k } else { len as int },
                base + n == mid.cursor,
                mid.contents.len() == mid.cursor,
                mem@ == (MemoryView { contents: mem@.contents, ..mid }),
                mem@.contents.len() == mid.contents.len(),
                forall|j: int| 0 <= j < base ==> #[trigger] mem@.contents[j] == mid.contents[j],
                forall|j: int| 0 <= j < k ==> #[trigger] mem@.contents[base + j] == chunks[j],
            decreases n - k,
        {
            let rest = len - copied;
            let to_copy: usize = if rest < 4096 { rest } else { 4096 };
            let ghost was = mem@;
            copy_to_frame(mem, base + k, bytes, copied, to_copy);
            proof {
                assert(to_copy == chunk_len(len as int, k as int));
                assert(chunks[k as int] == padded_chunk(bytes@, 4096 * k, chunk_len(len as int, k as int)));
                assert forall|j: int| 0 <= j < k + 1 implies #[trigger] mem@.contents[base + j] == chunks[j] by {
                    if j < k {
                        assert(mem@.contents[base + j] == was.contents[base + j]);
                    }
                }
                assert forall|j: int| 0 <= j < base implies #[trigger] mem@.contents[j] == mid.contents[j] by {
                    assert(mem@.contents[j] == was.contents[j]);
                }
            }
            copied = copied + to_copy;
            k += 1;
        }
        proof {
            let want = load_segment(pre, s as int, (bytes@, vaddr));
            assert(mid.contents == pre.contents + crate::mm::zero_pages(n));
            assert(mem@.contents =~= pre.contents + chunks) by {
                assert forall|j: int| 0 <= j < mem@.contents.len() implies mem@.contents[j] == (pre.contents + chunks)[j] by {
                    if j < base {
                        assert(mid.contents[j] == pre.contents[j]);
                    } else {
                        assert(mem@.contents[base + (j - base)] == chunks[j - base]);
                    }
                }
            }
            assert(mem@ == want);
            lemma_load_segment_extends(pre, s as int, (bytes@, vaddr));
            lemma_partly_loaded_trans(start, pre, mem@, s as int);
            if start.kernel_shared() {
                assert(mid.kernel_shared());
                assert(mem@.spaces == mid.spaces);
            }
        }
        i += 1;
    }
    proof {
        assert(segs.take(i as int) =~= segs);
    }
    true
}

/// Where the first `k` segments do not fit, the whole list does not.
proof fn lemma_fit_prefix(m: MemoryView, s: int, segs: Seq<(Seq<u8>, u64)>, k: int)
    requires
        0 <= k <= segs.len(),
        !segments_fit(m, s, segs.take(k)),
    ensures
        !segments_fit(m, s, segs),
    decreases segs.len() - k,
{
    if k < segs.len() {
        assert(segs.take(k + 1).drop_last() =~= segs.take(k));
        lemma_fit_prefix(m, s, segs, k + 1);
    } else {
        assert(segs.take(k) =~= segs);
    }
}

/// What `map_user_region` leaves behind keeps the memory's old part.
proof fn lemma_region_extends(before: MemoryView, after: MemoryView, s: int, vaddr: u64, len: nat)
    requires
        0 <= s < before.spaces.len(),
        before.wf(),
        after.wf(),
        crate::mm::region_mapped(before, after, s, vaddr, len, true),
    ensures
        partly_loaded(before, after, s),
{
    assert(after.spaces[s].user.take(before.spaces[s].user.len() as int) =~= before.spaces[s].user);
    assert(after.contents.take(before.contents.len() as int) =~= before.contents);
}

/// Loading one segment of `S` bytes at the address `V` maps exactly as many
/// pages as `S` bytes take, rounded up, page after page from the page of
/// `V`, each writable on a fresh frame; the frames hold the segment's bytes
/// in order, and zeros after them up to the end of the last page.
pub proof fn lemma_one_segment(m: MemoryView, s: int, bytes: Seq<u8>, vaddr: u64)
    requires
        m.wf(),
        0 <= s < m.spaces.len(),
        segments_fit(m, s, seq![(bytes, vaddr)]),
    ensures
        ({
            let f = load_all(m, s, seq![(bytes, vaddr)]);
            let n = pages_for(bytes.len());
            let had = m.spaces[s].user.len();
            &&& f.cursor == m.cursor + n
            &&& f.contents.len() == m.contents.len() + n
            &&& f.spaces[s].user.len() == had + n
            &&& f.spaces[s].user.take(had as int) == m.spaces[s].user
            &&& forall|k: int|
                0 <= k < n ==> #[trigger] f.spaces[s].user[had + k] == (Mapping {
                    page: crate::mm::page_start(vaddr + 4096 * k) as u64,
                    frame: m.frames[m.cursor + k],
                    flags: crate::mm::flags_for(true),
                })
            &&& forall|k: int, i: int|
                0 <= k < n && 0 <= i < 4096 ==> #[trigger] f.contents[m.cursor + k][i] == (if 4096 * k + i < bytes.len() {
                    bytes[4096 * k + i]
                } else {
                    0u8
                })
        }),
{
    let segs = seq![(bytes, vaddr)];
    assert(segs.drop_last() =~= Seq::<(Seq<u8>, u64)>::empty());
    assert(load_all(m, s, segs.drop_last()) == m);
    let f = load_segment(m, s, (bytes, vaddr));
    assert(load_all(m, s, segs) == f);
    let n = pages_for(bytes.len());
    let had = m.spaces[s].user.len();
    assert(f.spaces[s].user.take(had as int) =~= m.spaces[s].user);
    assert forall|k: int, i: int| 0 <= k < n && 0 <= i < 4096 implies #[trigger] f.contents[m.cursor + k][i] == (if 4096 * k + i
        < bytes.len() {
        bytes[4096 * k + i]
    } else {
        0u8
    }) by {
        assert(f.contents[m.cursor + k] == segment_chunks(bytes)[k]);
    }
}

} // verus!
