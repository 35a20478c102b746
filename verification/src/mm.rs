use vstd::prelude::*;

verus! {

/// Size of one page and of one physical frame, in bytes.
pub const PAGE_SIZE: u64 = 4096;

/// Greatest number of frames the allocator keeps.
pub const MAX_FRAMES: usize = 4096;

/// First address that is no physical address any more (bit 52).
pub const PHYS_LIMIT: u64 = 0x10_0000_0000_0000;

/// First address above the process-private lower half (bit 47).
pub const USER_LIMIT: u64 = 0x8000_0000_0000;

/// Number of kernel entries at the upper end of a root table.
pub const KERNEL_ENTRIES: usize = 256;

/// `heapless::Vec`, a vector of at most `N` items that lies in place. It is
/// carried through as it is; nothing is known of its inside.
#[verifier::external_type_specification]
#[verifier::external_body]
#[verifier::reject_recursive_types(T)]
pub struct ExHeaplessVec<T, const N: usize>(heapless::Vec<T, N>);

/// The start addresses that a frame list holds, first pushed first.
pub uninterp spec fn frame_list(v: heapless::Vec<u64, 4096>) -> Seq<u64>;

/// `heapless::Vec::new`: a list that holds nothing.
#[verifier::external_body]
fn frames_new() -> (v: heapless::Vec<u64, 4096>)
    ensures
        frame_list(v) == Seq::<u64>::empty(),
{
    heapless::Vec::new()
}

/// `heapless::Vec::push`: appends the address while fewer than 4096 are held,
/// and otherwise hands it back and leaves the list as it was.
#[verifier::external_body]
fn frames_push(v: &mut heapless::Vec<u64, 4096>, addr: u64) -> (stored: bool)
    ensures
        stored == (frame_list(*old(v)).len() < 4096),
        stored ==> frame_list(*final(v)) == frame_list(*old(v)).push(addr),
        !stored ==> frame_list(*final(v)) == frame_list(*old(v)),
{
    v.push(addr).is_ok()
}

/// `len` of the slice that `heapless::Vec` dereferences to: how many
/// addresses are held, never more than 4096.
#[verifier::external_body]
fn frames_len(v: &heapless::Vec<u64, 4096>) -> (n: usize)
    ensures
        n == frame_list(*v).len(),
        n <= 4096,
{
    v.len()
}

/// Indexing the slice that `heapless::Vec` dereferences to.
#[verifier::external_body]
fn frames_get(v: &heapless::Vec<u64, 4096>, i: usize) -> (addr: u64)
    requires
        i < frame_list(*v).len(),
    ensures
        addr == frame_list(*v)[i as int],
{
    v[i]
}

/// `x86_64::PhysAddr::new` followed by `PhysFrame::from_start_address`: a 4 KiB
/// frame starts at `addr` exactly when `addr` is a multiple of 4096. Addresses
/// with a bit from 52 upwards set are left out, `PhysAddr::new` panics on them.
#[verifier::external_body]
fn frame_at(addr: u64) -> (start: Option<u64>)
    requires
        addr < PHYS_LIMIT,
    ensures
        start == if addr % 4096 == 0 { Some(addr) } else { None },
{
    let pa = x86_64::PhysAddr::new(addr);
    match x86_64::structures::paging::PhysFrame::<x86_64::structures::paging::Size4KiB>::from_start_address(pa) {
        Ok(frame) => Some(frame.start_address().as_u64()),
        Err(_) => None,
    }
}

/// `x86_64::VirtAddr::new` followed by `Page::containing_address`: the start of
/// the 4 KiB page that holds `vaddr`. Only lower-half addresses are taken;
/// `VirtAddr::new` panics on addresses that are not sign extended.
#[verifier::external_body]
fn page_of(vaddr: u64) -> (start: u64)
    requires
        vaddr < USER_LIMIT,
    ensures
        start == vaddr - vaddr % 4096,
{
    let va = x86_64::VirtAddr::new(vaddr);
    let page = x86_64::structures::paging::Page::<x86_64::structures::paging::Size4KiB>::containing_address(va);
    page.start_address().as_u64()
}

/// One range of the platform memory map, `start` inclusive and `end` exclusive.
#[derive(Clone, Copy, Debug, PartialEq, Eq, Structural)]
pub struct MemoryRegion {
    pub start: u64,
    pub end: u64,
    pub usable: bool,
}

/// How many frames the region gives: none unless it is usable and starts on a
/// frame boundary, else every whole frame below `end` and below the physical limit.
pub open spec fn region_frame_count(r: MemoryRegion) -> nat {
    let top = if r.end < PHYS_LIMIT { r.end } else { PHYS_LIMIT };
    if r.usable && r.start % 4096 == 0 && r.start <= top {
        ((top - r.start) / 4096) as nat
    } else {
        0
    }
}

/// The frames of one region, in rising order.
pub open spec fn region_frames(r: MemoryRegion) -> Seq<u64> {
    Seq::new(region_frame_count(r), |k: int| (r.start + 4096 * k) as u64)
}

/// The frames of all regions, region after region.
pub open spec fn usable_frames(regions: Seq<MemoryRegion>) -> Seq<u64>
    decreases regions.len(),
{
    if regions.len() == 0 {
        Seq::empty()
    } else {
        usable_frames(regions.drop_last()) + region_frames(regions.last())
    }
}

/// The first `n` items of `s`, or all of `s` where it holds fewer.
pub open spec fn prefix(s: Seq<u64>, n: nat) -> Seq<u64> {
    if s.len() <= n { s } else { s.take(n as int) }
}

/// The frame allocator: an ordered list of frame start addresses, fixed at
/// boot, and a cursor that only moves forward.
pub struct BootInfoFrameAlloc {
    next: usize,
    frames: heapless::Vec<u64, 4096>,
}

impl BootInfoFrameAlloc {
    /// Every frame of the list, handed out or not.
    pub closed spec fn all_frames(&self) -> Seq<u64> {
        frame_list(self.frames)
    }

    /// How many frames have been handed out.
    pub closed spec fn cursor(&self) -> nat {
        self.next as nat
    }

    /// The cursor never passes the end of the list.
    pub open spec fn wf(&self) -> bool {
        self.cursor() <= self.all_frames().len() <= 4096
    }

    /// The frames handed out so far, in the order they left.
    pub open spec fn allocated(&self) -> Seq<u64> {
        self.all_frames().take(self.cursor() as int)
    }

    /// True when no frame is left.
    pub open spec fn exhausted(&self) -> bool {
        self.cursor() >= self.all_frames().len()
    }

    /// An allocator without any frame.
    pub fn empty() -> (a: Self)
        ensures
            a.wf(),
            a.all_frames() == Seq::<u64>::empty(),
            a.cursor() == 0,
    {
        let a = BootInfoFrameAlloc { next: 0, frames: frames_new() };
        let _n = frames_len(&a.frames);
        a
    }

    /// Hands out the next frame of the list, or `None` once the list is used up.
    pub fn allocate_frame(&mut self) -> (r: Option<u64>)
        requires
            old(self).wf(),
        ensures
            final(self).wf(),
            final(self).all_frames() == old(self).all_frames(),
            old(self).exhausted() ==> r is None && final(self).cursor() == old(self).cursor(),
            !old(self).exhausted() ==> r == Some(old(self).all_frames()[old(self).cursor() as int])
                && final(self).cursor() == old(self).cursor() + 1
                && final(self).allocated() == old(self).allocated().push(r->0),
            old(self).all_frames().no_duplicates() && r is Some ==> !old(self).allocated().contains(r->0),
    {
        if self.next >= frames_len(&self.frames) {
            return None;
        }
        let f = frames_get(&self.frames, self.next);
        self.next += 1;
        proof {
            assert(self.allocated() =~= old(self).allocated().push(f));
        }
        Some(f)
    }

    /// How many frames have been handed out.
    pub fn used(&self) -> (n: usize)
        ensures
            n == self.cursor(),
    {
        self.next
    }

    /// The `i`-th frame of the list.
    pub fn frame(&self, i: usize) -> (f: u64)
        requires
            i < self.all_frames().len(),
        ensures
            f == self.all_frames()[i as int],
    {
        frames_get(&self.frames, i)
    }

    /// How many frames the list holds.
    pub fn total(&self) -> (n: usize)
        ensures
            n == self.all_frames().len(),
    {
        frames_len(&self.frames)
    }
}

/// Appending the frames of one more region to the frames of those before it.
pub proof fn lemma_usable_frames_push(regions: Seq<MemoryRegion>, r: MemoryRegion)
    ensures
        usable_frames(regions.push(r)) == usable_frames(regions) + region_frames(r),
{
    assert(regions.push(r).drop_last() =~= regions);
}

/// Builds the allocator from the memory map: the frames of every usable
/// region in map order, cut off after the first 4096.
pub fn init_frame_alloc(regions: &Vec<MemoryRegion>) -> (a: BootInfoFrameAlloc)
    ensures
        a.wf(),
        a.cursor() == 0,
        a.all_frames() == prefix(usable_frames(regions@), 4096),
{
    let mut frames = frames_new();
    let mut i: usize = 0;
    while i < regions.len()
        invariant
            i <= regions.len(),
            frame_list(frames) == prefix(usable_frames(regions@.take(i as int)), 4096),
        decreases regions.len() - i,
    {
        let r = regions[i];
        let ghost before = usable_frames(regions@.take(i as int));
        if r.usable && r.start % 4096 == 0 {
            let top: u64 = if r.end < PHYS_LIMIT { r.end } else { PHYS_LIMIT };
            let mut addr: u64 = r.start;
            let ghost mut k: int = 0;
            while addr < top && top - addr >= 4096
                invariant
                    r.usable,
                    r.start % 4096 == 0,
                    top == if r.end < PHYS_LIMIT { r.end } else { PHYS_LIMIT },
                    0 <= k <= region_frame_count(r),
                    addr == r.start + 4096 * k,
                    addr % 4096 == 0,
                    r.start <= top ==> addr <= top,
                    frame_list(frames) == prefix(before + region_frames(r).take(k), 4096),
                decreases top - addr,
            {
                let f = frame_at(addr);
                let ghost held = frame_list(frames);
                if let Some(start) = f {
                    let _stored = frames_push(&mut frames, start);
                }
                proof {
                    assert(k < region_frame_count(r)) by {
                        assert(top - r.start >= 4096 * (k + 1));
                    }
                    assert(region_frames(r)[k] == addr);
                    assert(region_frames(r).take(k + 1) =~= region_frames(r).take(k).push(addr));
                    let grown = before + region_frames(r).take(k + 1);
                    let small = before + region_frames(r).take(k);
                    assert(grown =~= small.push(addr));
                    if small.len() < 4096 {
                        assert(prefix(grown, 4096) =~= held.push(addr));
                    } else {
                        assert(prefix(grown, 4096) =~= held);
                    }
                    k = k + 1;
                }
                addr = addr + 4096;
            }
            proof {
                if r.start <= top {
                    assert(k == region_frame_count(r)) by {
                        assert(top - addr < 4096);
                        assert(top - r.start < 4096 * (k + 1));
                    }
                } else {
                    assert(region_frame_count(r) == 0);
                }
                assert(region_frames(r).take(k) =~= region_frames(r));
            }
        } else {
            proof {
                assert(region_frame_count(r) == 0);
                assert(before + region_frames(r) =~= before);
            }
        }
        proof {
            assert(regions@.take(i + 1) =~= regions@.take(i as int).push(r));
            lemma_usable_frames_push(regions@.take(i as int), r);
        }
        i += 1;
    }
    proof {
        assert(regions@.take(i as int) =~= regions@);
    }
    let _n = frames_len(&frames);
    BootInfoFrameAlloc { next: 0, frames }
}

/// One installed page: where it lies, the frame behind it, and the flags of
/// its entry in the page table.
#[derive(Clone, Copy, Debug, PartialEq, Eq, Structural)]
pub struct Mapping {
    pub page: u64,
    pub frame: u64,
    pub flags: u64,
}

/// Flag of an entry that is present.
pub const FLAG_PRESENT: u64 = 1;

/// Flag of an entry that can be written through.
pub const FLAG_WRITABLE: u64 = 2;

/// Flag of an entry that user code can use.
pub const FLAG_USER: u64 = 4;

/// The flags of a user page: present and user-accessible, and writable where asked.
pub open spec fn flags_for(writable: bool) -> u64 {
    if writable {
        7
    } else {
        5
    }
}

/// The bits of `PRESENT`, `WRITABLE` and `USER_ACCESSIBLE` of
/// `x86_64::structures::paging::PageTableFlags`, in this order: bit zero, bit
/// one and bit two.
#[verifier::external_body]
fn flag_bits() -> (bits: (u64, u64, u64))
    ensures
        bits == (FLAG_PRESENT, FLAG_WRITABLE, FLAG_USER),
{
    (
        x86_64::structures::paging::PageTableFlags::PRESENT.bits(),
        x86_64::structures::paging::PageTableFlags::WRITABLE.bits(),
        x86_64::structures::paging::PageTableFlags::USER_ACCESSIBLE.bits(),
    )
}

/// The flags of a user page; see `flags_for`.
pub fn user_flags(writable: bool) -> (flags: u64)
    ensures
        flags == flags_for(writable),
{
    let (present, write, user) = flag_bits();
    proof {
        assert(1u64 | 4u64 == 5u64) by (bit_vector);
        assert(5u64 | 2u64 == 7u64) by (bit_vector);
    }
    let base = present | user;
    if writable {
        base | write
    } else {
        base
    }
}

/// One address space: the frame of its root table, the kernel entries of the
/// table's upper half, and the pages of the process-private lower half.
pub struct AddressSpace {
    pub root: u64,
    pub kernel: Vec<u64>,
    pub user: Vec<Mapping>,
}

/// What an address space holds, as plain values.
pub struct SpaceView {
    pub root: u64,
    pub kernel: Seq<u64>,
    pub user: Seq<Mapping>,
}

impl View for AddressSpace {
    type V = SpaceView;

    open spec fn view(&self) -> SpaceView {
        SpaceView { root: self.root, kernel: self.kernel@, user: self.user@ }
    }
}

/// Physical memory and the address spaces built in it. Slot `i` of `contents`
/// holds the bytes of the `i`-th frame that the allocator handed out.
pub struct Memory {
    alloc: BootInfoFrameAlloc,
    active: u64,
    spaces: Vec<AddressSpace>,
    contents: Vec<Vec<u8>>,
}

/// What the memory holds, as plain values.
pub struct MemoryView {
    pub frames: Seq<u64>,
    pub cursor: nat,
    pub active: u64,
    pub spaces: Seq<SpaceView>,
    pub contents: Seq<Seq<u8>>,
}

impl View for Memory {
    type V = MemoryView;

    closed spec fn view(&self) -> MemoryView {
        MemoryView {
            frames: self.alloc.all_frames(),
            cursor: self.alloc.cursor(),
            active: self.active,
            spaces: Seq::new(self.spaces@.len(), |i: int| self.spaces@[i]@),
            contents: Seq::new(self.contents@.len(), |i: int| self.contents@[i]@),
        }
    }
}

/// True when `i` is the first address space whose root is `root`.
pub open spec fn first_space(spaces: Seq<SpaceView>, root: u64, i: int) -> bool {
    &&& 0 <= i < spaces.len()
    &&& spaces[i].root == root
    &&& forall|j: int| 0 <= j < i ==> (#[trigger] spaces[j]).root != root
}

/// True when some address space has the root `root`.
pub open spec fn has_space(spaces: Seq<SpaceView>, root: u64) -> bool {
    exists|i: int| 0 <= i < spaces.len() && (#[trigger] spaces[i]).root == root
}

/// True when slot `i` is the first whose frame starts at `pa`.
pub open spec fn first_slot(handed: Seq<u64>, pa: u64, i: int) -> bool {
    &&& 0 <= i < handed.len()
    &&& handed[i] == pa
    &&& forall|j: int| 0 <= j < i ==> #[trigger] handed[j] != pa
}

impl MemoryView {
    /// The memory is consistent: one slot of 4096 bytes per frame handed out,
    /// 256 kernel entries in every space, and the active root is a known space.
    pub open spec fn wf(self) -> bool {
        &&& self.cursor <= self.frames.len() <= 4096
        &&& self.contents.len() == self.cursor
        &&& forall|i: int| 0 <= i < self.contents.len() ==> (#[trigger] self.contents[i]).len() == 4096
        &&& forall|i: int| 0 <= i < self.spaces.len() ==> (#[trigger] self.spaces[i]).kernel.len() == 256
        &&& has_space(self.spaces, self.active)
    }

    /// Every address space has the same kernel entries.
    pub open spec fn kernel_shared(self) -> bool {
        forall|i: int, j: int| 0 <= i < self.spaces.len() && 0 <= j < self.spaces.len()
            ==> (#[trigger] self.spaces[i]).kernel == (#[trigger] self.spaces[j]).kernel
    }
}

impl Memory {
    /// The memory is consistent.
    pub open spec fn wf(&self) -> bool {
        self@.wf()
    }
}

/// A page of 4096 zero bytes.
pub fn zero_page() -> (page: Vec<u8>)
    ensures
        page@ == Seq::new(4096, |i: int| 0u8),
{
    let mut page: Vec<u8> = Vec::new();
    let mut i: usize = 0;
    while i < 4096
        invariant
            i <= 4096,
            page@ == Seq::new(i as nat, |j: int| 0u8),
        decreases 4096 - i,
    {
        page.push(0u8);
        proof {
            assert(page@ =~= Seq::new((i + 1) as nat, |j: int| 0u8));
        }
        i += 1;
    }
    page
}

/// Sets up memory management at boot: the allocator from the memory map, and
/// the boot address space, active, with the given kernel entries and no user page.
pub fn init(regions: &Vec<MemoryRegion>, boot_root: u64, kernel: Vec<u64>) -> (mem: Memory)
    requires
        kernel@.len() == 256,
    ensures
        mem.wf(),
        mem@.kernel_shared(),
        mem@.frames == prefix(usable_frames(regions@), 4096),
        mem@.cursor == 0,
        mem@.active == boot_root,
        mem@.spaces == seq![(SpaceView { root: boot_root, kernel: kernel@, user: Seq::empty() })],
        mem@.contents == Seq::<Seq<u8>>::empty(),
{
    let alloc = init_frame_alloc(regions);
    let mut spaces: Vec<AddressSpace> = Vec::new();
    spaces.push(AddressSpace { root: boot_root, kernel, user: Vec::new() });
    let mem = Memory { alloc, active: boot_root, spaces, contents: Vec::new() };
    proof {
        assert(mem@.spaces =~= seq![(SpaceView { root: boot_root, kernel: kernel@, user: Seq::empty() })]);
        assert(mem@.contents =~= Seq::<Seq<u8>>::empty());
        assert(mem@.spaces[0].root == boot_root);
    }
    mem
}

/// Finds the address space whose root is `cr3`: the index of the first such
/// space, or `None` where no space has that root.
pub fn with_mapper_for_cr3(mem: &Memory, cr3: u64) -> (r: Option<usize>)
    ensures
        match r {
            Some(i) => first_space(mem@.spaces, cr3, i as int),
            None => !has_space(mem@.spaces, cr3),
        },
{
    let mut i: usize = 0;
    while i < mem.spaces.len()
        invariant
            i <= mem.spaces.len(),
            forall|j: int| 0 <= j < i ==> (#[trigger] mem@.spaces[j]).root != cr3,
        decreases mem.spaces.len() - i,
    {
        if mem.spaces[i].root == cr3 {
            assert(mem@.spaces[i as int].root == cr3);
            return Some(i);
        }
        i += 1;
    }
    None
}

/// Translates the start address of a frame to the slot that holds its bytes:
/// the first frame handed out that starts at `pa`, or `None` where none does.
pub fn phys_to_virt(mem: &Memory, pa: u64) -> (r: Option<usize>)
    requires
        mem.wf(),
    ensures
        match r {
            Some(i) => first_slot(mem@.frames.take(mem@.cursor as int), pa, i as int),
            None => !mem@.frames.take(mem@.cursor as int).contains(pa),
        },
{
    let n = mem.alloc.used();
    let mut i: usize = 0;
    while i < n
        invariant
            mem.wf(),
            n == mem@.cursor,
            i <= n,
            forall|j: int| 0 <= j < i ==> #[trigger] mem@.frames[j] != pa,
        decreases n - i,
    {
        if mem.alloc.frame(i) == pa {
            return Some(i);
        }
        i += 1;
    }
    None
}

/// The memory after a new address space was created: one more frame handed
/// out, zeroed, as the root of a space that has the kernel entries of the
/// active space and no user page.
pub open spec fn with_new_space(m: MemoryView) -> MemoryView {
    let a = choose|i: int| first_space(m.spaces, m.active, i);
    MemoryView {
        cursor: m.cursor + 1,
        contents: m.contents.push(Seq::new(4096, |i: int| 0u8)),
        spaces: m.spaces.push(SpaceView { root: m.frames[m.cursor as int], kernel: m.spaces[a].kernel, user: Seq::empty() }),
        ..m
    }
}

/// A copy of a list of table entries.
fn copy_entries(src: &Vec<u64>) -> (dst: Vec<u64>)
    ensures
        dst@ == src@,
{
    let mut dst: Vec<u64> = Vec::new();
    let mut i: usize = 0;
    while i < src.len()
        invariant
            i <= src.len(),
            dst@ == src@.take(i as int),
        decreases src.len() - i,
    {
        dst.push(src[i]);
        proof {
            assert(dst@ =~= src@.take(i + 1));
        }
        i += 1;
    }
    proof {
        assert(src@.take(i as int) =~= src@);
    }
    dst
}

/// Creates a new address space: takes a frame for the root table, zeroes it,
/// and gives the table the kernel entries of the active space. Returns the
/// root's address, or `None`, with nothing changed, when no frame is left.
pub fn create_user_pml4(mem: &mut Memory) -> (r: Option<u64>)
    requires
        old(mem).wf(),
    ensures
        final(mem).wf(),
        final(mem)@.frames == old(mem)@.frames,
        final(mem)@.active == old(mem)@.active,
        old(mem)@.kernel_shared() ==> final(mem)@.kernel_shared(),
        old(mem)@.cursor >= old(mem)@.frames.len() ==> r is None && final(mem)@ == old(mem)@,
        old(mem)@.cursor < old(mem)@.frames.len() ==> {
            &&& r == Some(old(mem)@.frames[old(mem)@.cursor as int])
            &&& final(mem)@ == with_new_space(old(mem)@)
        },
{
    let found = with_mapper_for_cr3(mem, mem.active);
    let active_index: usize = match found {
        Some(i) => i,
        None => {
            return None;
        },
    };
    let frame = match mem.alloc.allocate_frame() {
        Some(f) => f,
        None => {
            proof {
                assert(mem@.spaces =~= old(mem)@.spaces);
                assert(mem@.contents =~= old(mem)@.contents);
            }
            return None;
        },
    };
    mem.contents.push(zero_page());
    let kernel = copy_entries(&mem.spaces[active_index].kernel);
    mem.spaces.push(AddressSpace { root: frame, kernel, user: Vec::new() });
    proof {
        let n = old(mem)@.spaces.len() as int;
        assert(mem@.contents =~= old(mem)@.contents.push(Seq::new(4096, |i: int| 0u8)));
        assert(mem@.spaces.drop_last() =~= old(mem)@.spaces);
        assert(first_space(old(mem)@.spaces, old(mem)@.active, active_index as int));
        let a = choose|i: int| first_space(old(mem)@.spaces, old(mem)@.active, i);
        assert(a == active_index);
        assert(mem@.spaces =~= with_new_space(old(mem)@).spaces);
        assert(mem@.spaces[active_index as int] == old(mem)@.spaces[active_index as int]);
        assert(mem@.spaces[active_index as int].root == mem@.active);
        assert forall|i: int| 0 <= i < mem@.spaces.len() implies (#[trigger] mem@.spaces[i]).kernel.len() == 256 by {
            if i < n {
                assert(mem@.spaces[i] == old(mem)@.spaces[i]);
            }
        }
        if old(mem)@.kernel_shared() {
            assert forall|i: int, j: int| 0 <= i < mem@.spaces.len() && 0 <= j < mem@.spaces.len()
                implies (#[trigger] mem@.spaces[i]).kernel == (#[trigger] mem@.spaces[j]).kernel by {
                let a = if i < n { i } else { active_index as int };
                let b = if j < n { j } else { active_index as int };
                assert(mem@.spaces[i].kernel == old(mem)@.spaces[a].kernel);
                assert(mem@.spaces[j].kernel == old(mem)@.spaces[b].kernel);
            }
        }
    }
    Some(frame)
}

/// Creates the address space of a new process; the same as `create_user_pml4`.
pub fn alloc_user_space(mem: &mut Memory) -> (r: Option<u64>)
    requires
        old(mem).wf(),
    ensures
        final(mem).wf(),
        final(mem)@.frames == old(mem)@.frames,
        final(mem)@.active == old(mem)@.active,
        old(mem)@.kernel_shared() ==> final(mem)@.kernel_shared(),
        old(mem)@.cursor >= old(mem)@.frames.len() ==> r is None && final(mem)@ == old(mem)@,
        old(mem)@.cursor < old(mem)@.frames.len() ==> {
            &&& r == Some(old(mem)@.frames[old(mem)@.cursor as int])
            &&& final(mem)@ == with_new_space(old(mem)@)
        },
{
    create_user_pml4(mem)
}

/// How many pages a range of `len` bytes takes: `len` rounded up to whole pages.
pub open spec fn pages_for(len: nat) -> nat {
    (len + 4095) / 4096
}

/// Start of the page that holds `vaddr`.
pub open spec fn page_start(vaddr: int) -> int {
    vaddr - vaddr % 4096
}

/// True when no mapping of `user` is for `page`.
pub open spec fn page_free(user: Seq<Mapping>, page: int) -> bool {
    forall|i: int| 0 <= i < user.len() ==> (#[trigger] user[i]).page != page
}

/// True when page `k` of the range at `vaddr` lies in the lower half.
pub open spec fn addr_ok(vaddr: u64, k: int) -> bool {
    vaddr + 4096 * k < USER_LIMIT
}

/// True when page `k` of the range at `vaddr` can be installed in `user`.
pub open spec fn page_ok(user: Seq<Mapping>, vaddr: u64, k: int) -> bool {
    addr_ok(vaddr, k) && page_free(user, page_start(vaddr + 4096 * k))
}

/// How many pages at the start of the range can be installed, one after
/// another, before the first that cannot; at most `n`.
pub open spec fn leading_pages(user: Seq<Mapping>, vaddr: u64, n: nat) -> nat
    decreases n,
{
    if n == 0 {
        0
    } else {
        let m = leading_pages(user, vaddr, (n - 1) as nat);
        if m == n - 1 && page_ok(user, vaddr, n - 1) {
            n
        } else {
            m
        }
    }
}

/// The mappings of the first `count` pages of the range at `vaddr`, onto the
/// frames of the list from index `first` on.
pub open spec fn new_mappings(frames: Seq<u64>, first: int, vaddr: u64, count: nat, writable: bool) -> Seq<Mapping> {
    Seq::new(count, |k: int| Mapping {
        page: page_start(vaddr + 4096 * k) as u64,
        frame: frames[first + k],
        flags: flags_for(writable),
    })
}

/// Once a page cannot be installed, no later page counts.
pub proof fn lemma_leading_pages_stops(user: Seq<Mapping>, vaddr: u64, k: nat, n: nat)
    requires
        k <= n,
        leading_pages(user, vaddr, k) == k,
        k < n ==> !page_ok(user, vaddr, k as int),
    ensures
        leading_pages(user, vaddr, n) == k,
    decreases n,
{
    if k < n {
        lemma_leading_pages_stops(user, vaddr, k, (n - 1) as nat);
    }
}

/// `count` pages of zeros.
pub open spec fn zero_pages(count: nat) -> Seq<Seq<u8>> {
    Seq::new(count, |k: int| Seq::new(4096, |i: int| 0u8))
}

/// What `map_user_region` leaves behind in the space at index `s`: the
/// leading pages that could be installed, each on a fresh frame of zeros.
pub open spec fn region_mapped(before: MemoryView, after: MemoryView, s: int, vaddr: u64, len: nat, writable: bool) -> bool {
    let n = pages_for(len);
    let avail = before.frames.len() - before.cursor;
    let lead = leading_pages(before.spaces[s].user, vaddr, n);
    let m = if lead <= avail { lead } else { avail as nat };
    let leaked: nat = if m < n && m < avail && addr_ok(vaddr, m as int) { 1 } else { 0 };
    &&& after.frames == before.frames
    &&& after.active == before.active
    &&& after.cursor == before.cursor + m + leaked
    &&& after.contents == before.contents + zero_pages(m + leaked)
    &&& after.spaces == before.spaces.update(s, SpaceView {
            root: before.spaces[s].root,
            kernel: before.spaces[s].kernel,
            user: before.spaces[s].user + new_mappings(before.frames, before.cursor as int, vaddr, m, writable),
        })
}

/// True when the whole range can be mapped into the space at index `s`:
/// every page is in the lower half and free, and a frame is left for each.
pub open spec fn region_fits(before: MemoryView, s: int, vaddr: u64, len: nat) -> bool {
    let n = pages_for(len);
    &&& leading_pages(before.spaces[s].user, vaddr, n) == n
    &&& before.cursor + n <= before.frames.len()
}

/// True when one of the first `limit` mappings is for `page`.
fn page_mapped(user: &Vec<Mapping>, limit: usize, page: u64) -> (r: bool)
    requires
        limit <= user@.len(),
    ensures
        r == !page_free(user@.take(limit as int), page as int),
{
    let mut i: usize = 0;
    while i < limit
        invariant
            i <= limit <= user@.len(),
            forall|j: int| 0 <= j < i ==> (#[trigger] user@[j]).page != page,
        decreases limit - i,
    {
        if user[i].page == page {
            assert(user@.take(limit as int)[i as int].page == page);
            return true;
        }
        i += 1;
    }
    assert forall|j: int| 0 <= j < user@.take(limit as int).len() implies (#[trigger] user@.take(limit as int)[j]).page != page by {
        assert(user@.take(limit as int)[j] == user@[j]);
    }
    false
}

/// Maps `len` bytes at `vaddr`, rounded up to whole pages, into the space
/// whose root is `cr3`: one fresh frame per page, page after page, each
/// present and user-accessible, and writable where asked. Returns the frames in page
/// order. Fails where no space has that root, where a page lies outside the
/// lower half or is mapped already, or where the frames run out; the pages
/// installed before the failure stay, and so does a frame taken for a page
/// that was mapped already.
pub fn map_user_region(mem: &mut Memory, cr3: u64, vaddr: u64, len: usize, writable: bool) -> (r: Option<Vec<u64>>)
    requires
        old(mem).wf(),
    ensures
        final(mem).wf(),
        old(mem)@.kernel_shared() ==> final(mem)@.kernel_shared(),
        !has_space(old(mem)@.spaces, cr3) ==> r is None && final(mem)@ == old(mem)@,
        forall|s: int| first_space(old(mem)@.spaces, cr3, s) ==> {
            &&& region_mapped(old(mem)@, final(mem)@, s, vaddr, len as nat, writable)
            &&& r is Some <==> region_fits(old(mem)@, s, vaddr, len as nat)
            &&& r is Some ==> r->0@ == old(mem)@.frames.subrange(
                old(mem)@.cursor as int,
                (old(mem)@.cursor + pages_for(len as nat)) as int,
            )
        },
{
    let s: usize = match with_mapper_for_cr3(mem, cr3) {
        Some(i) => i,
        None => {
            return None;
        },
    };
    let held: usize = mem.spaces[s].user.len();
    let flags = user_flags(writable);
    let ghost before = mem@;
    let ghost user0 = mem@.spaces[s as int].user;
    let ghost n = pages_for(len as nat);
    let ghost avail = before.frames.len() - before.cursor;
    let mut frames: Vec<u64> = Vec::new();
    let mut off: u64 = 0;
    let ghost mut k: nat = 0;
    proof {
        assert(mem@.spaces[s as int].user =~= user0 + new_mappings(before.frames, before.cursor as int, vaddr, 0, writable));
        assert(mem@.contents =~= before.contents + zero_pages(0));
    }
    while off < len as u64
        invariant
            mem.wf(),
            before == old(mem)@,
            before.wf(),
            first_space(before.spaces, cr3, s as int),
            user0 == before.spaces[s as int].user,
            held == user0.len(),
            flags == flags_for(writable),
            n == pages_for(len as nat),
            avail == before.frames.len() - before.cursor,
            off == 4096 * k,
            k <= n,
            k <= avail,
            off < len ==> k < n,
            leading_pages(user0, vaddr, k) == k,
            mem@.frames == before.frames,
            mem@.active == before.active,
            mem@.cursor == before.cursor + k,
            mem@.contents == before.contents + zero_pages(k),
            mem@.spaces.len() == before.spaces.len(),
            forall|i: int| 0 <= i < before.spaces.len() && i != s ==> mem@.spaces[i] == before.spaces[i],
            mem@.spaces[s as int].root == before.spaces[s as int].root,
            mem@.spaces[s as int].kernel == before.spaces[s as int].kernel,
            mem@.spaces[s as int].user == user0 + new_mappings(before.frames, before.cursor as int, vaddr, k, writable),
            frames@ == before.frames.subrange(before.cursor as int, (before.cursor + k) as int),
            before.kernel_shared() ==> mem@.kernel_shared(),
        decreases n - k,
    {
        if vaddr >= USER_LIMIT || off >= USER_LIMIT - vaddr {
            proof {
                lemma_leading_pages_stops(user0, vaddr, k, n);
                lemma_region_done(before, mem@, s as int, vaddr, len as nat, writable, k, 0);
            }
            return None;
        }
        let frame = match mem.alloc.allocate_frame() {
            Some(f) => f,
            None => {
                proof {
                    assert(k == avail);
                    lemma_leading_pages_bounds(user0, vaddr, k, n);
                    lemma_region_done(before, mem@, s as int, vaddr, len as nat, writable, k, 0);
                }
                return None;
            },
        };
        let ghost taken = mem@;
        mem.contents.push(zero_page());
        proof {
            assert(mem@.spaces =~= taken.spaces);
            assert(mem@.contents =~= taken.contents.push(Seq::new(4096, |i: int| 0u8)));
            assert(mem@.contents =~= before.contents + zero_pages(k + 1));
            assert(mem@.spaces[s as int].user.take(held as int) =~= user0);
        }
        let page = page_of(vaddr + off);
        if page_mapped(&mem.spaces[s].user, held, page) {
            proof {
                lemma_leading_pages_stops(user0, vaddr, k, n);
                lemma_region_done(before, mem@, s as int, vaddr, len as nat, writable, k, 1);
            }
            return None;
        }
        mem.spaces[s].user.push(Mapping { page, frame, flags });
        frames.push(frame);
        proof {
            assert(page_ok(user0, vaddr, k as int));
            assert(mem@.contents =~= taken.contents.push(Seq::new(4096, |i: int| 0u8)));
            let w = choose|i: int| 0 <= i < before.spaces.len() && (#[trigger] before.spaces[i]).root == before.active;
            assert(mem@.spaces[w].root == before.active);
            assert forall|i: int| 0 <= i < mem@.spaces.len() implies (#[trigger] mem@.spaces[i]).kernel.len() == 256 by {
                assert(mem@.spaces[i].kernel == before.spaces[i].kernel);
            }
            assert(mem@.spaces[s as int].user =~= user0 + new_mappings(before.frames, before.cursor as int, vaddr, k + 1, writable));
            assert(frames@ =~= before.frames.subrange(before.cursor as int, (before.cursor + k + 1) as int));
            if before.kernel_shared() {
                assert forall|i: int, j: int| 0 <= i < mem@.spaces.len() && 0 <= j < mem@.spaces.len()
                    implies (#[trigger] mem@.spaces[i]).kernel == (#[trigger] mem@.spaces[j]).kernel by {
                    assert(mem@.spaces[i].kernel == before.spaces[i].kernel);
                    assert(mem@.spaces[j].kernel == before.spaces[j].kernel);
                }
            }
            k = k + 1;
        }
        off = off + 4096;
    }
    proof {
        assert(k == n);
        lemma_region_done(before, mem@, s as int, vaddr, len as nat, writable, k, 0);
    }
    Some(frames)
}

/// With `k` pages installed one after another from the start, `k` is no more
/// than the leading pages of any longer range.
pub proof fn lemma_leading_pages_bounds(user: Seq<Mapping>, vaddr: u64, k: nat, n: nat)
    requires
        k <= n,
        leading_pages(user, vaddr, k) == k,
    ensures
        k <= leading_pages(user, vaddr, n) <= n,
    decreases n,
{
    if k < n {
        lemma_leading_pages_bounds(user, vaddr, k, (n - 1) as nat);
    }
}

/// The state after `m` pages were installed and `leaked` frames taken beside
/// them is the state that `region_mapped` describes.
proof fn lemma_region_done(before: MemoryView, after: MemoryView, s: int, vaddr: u64, len: nat, writable: bool, m: nat, leaked: nat)
    requires
        0 <= s < before.spaces.len(),
        after.spaces.len() == before.spaces.len(),
        forall|i: int| 0 <= i < before.spaces.len() && i != s ==> after.spaces[i] == before.spaces[i],
        after.spaces[s].root == before.spaces[s].root,
        after.spaces[s].kernel == before.spaces[s].kernel,
        after.spaces[s].user == before.spaces[s].user + new_mappings(before.frames, before.cursor as int, vaddr, m, writable),
        after.frames == before.frames,
        after.active == before.active,
        after.cursor == before.cursor + m + leaked,
        after.contents == before.contents + zero_pages(m + leaked),
        before.cursor <= before.frames.len(),
        ({
            let n = pages_for(len);
            let avail = before.frames.len() - before.cursor;
            let lead = leading_pages(before.spaces[s].user, vaddr, n);
            &&& m == if lead <= avail { lead } else { avail as nat }
            &&& leaked == if m < n && m < avail && addr_ok(vaddr, m as int) { 1nat } else { 0nat }
        }),
    ensures
        region_mapped(before, after, s, vaddr, len, writable),
{
    assert(after.spaces =~= before.spaces.update(s, SpaceView {
        root: before.spaces[s].root,
        kernel: before.spaces[s].kernel,
        user: before.spaces[s].user + new_mappings(before.frames, before.cursor as int, vaddr, m, writable),
    }));
}

/// Maps a writable stack of `pages` pages that ends at `top` into the space
/// whose root is `cr3`, as `map_user_region` does for the range below `top`,
/// and returns `top`. Fails, with nothing changed, where the stack would be
/// larger than the address space below `top` or than a `usize` can say.
pub fn map_user_stack(mem: &mut Memory, cr3: u64, top: u64, pages: usize) -> (r: Option<u64>)
    requires
        old(mem).wf(),
    ensures
        final(mem).wf(),
        old(mem)@.kernel_shared() ==> final(mem)@.kernel_shared(),
        pages * 4096 > top || pages * 4096 > usize::MAX || !has_space(old(mem)@.spaces, cr3)
            ==> r is None && final(mem)@ == old(mem)@,
        pages * 4096 <= top && pages * 4096 <= usize::MAX ==> forall|s: int| first_space(old(mem)@.spaces, cr3, s) ==> {
            &&& region_mapped(old(mem)@, final(mem)@, s, (top - pages * 4096) as u64, (pages * 4096) as nat, true)
            &&& r is Some <==> region_fits(old(mem)@, s, (top - pages * 4096) as u64, (pages * 4096) as nat)
            &&& r is Some ==> r == Some(top)
        },
{
    if pages > usize::MAX / 4096 || pages as u64 > top / 4096 {
        return None;
    }
    let size: usize = pages * 4096;
    let base: u64 = top - size as u64;
    match map_user_region(mem, cr3, base, size, true) {
        Some(_) => Some(top),
        None => None,
    }
}

/// The bytes `src[start..start + count]` followed by zeros up to a whole page.
pub open spec fn padded_chunk(src: Seq<u8>, start: int, count: int) -> Seq<u8> {
    Seq::new(4096, |i: int| if i < count { src[start + i] } else { 0u8 })
}

/// Fills the frame in slot `slot`: the `count` bytes of `src` from `start`
/// on, then zeros up to the end of the page. Nothing else changes.
pub fn copy_to_frame(mem: &mut Memory, slot: usize, src: &[u8], start: usize, count: usize)
    requires
        old(mem).wf(),
        slot < old(mem)@.cursor,
        count <= 4096,
        start + count <= src@.len(),
    ensures
        final(mem).wf(),
        final(mem)@ == (MemoryView {
            contents: old(mem)@.contents.update(slot as int, padded_chunk(src@, start as int, count as int)),
            ..old(mem)@
        }),
{
    let total = src.len();
    let mut page: Vec<u8> = Vec::new();
    let mut i: usize = 0;
    while i < 4096
        invariant
            i <= 4096,
            count <= 4096,
            total == src@.len(),
            start + count <= total,
            page@ == padded_chunk(src@, start as int, count as int).take(i as int),
        decreases 4096 - i,
    {
        let b: u8 = if i < count { src[start + i] } else { 0u8 };
        page.push(b);
        proof {
            assert(page@ =~= padded_chunk(src@, start as int, count as int).take(i + 1));
        }
        i += 1;
    }
    proof {
        assert(page@ =~= padded_chunk(src@, start as int, count as int));
    }
    mem.contents[slot] = page;
    proof {
        assert(mem@.spaces =~= old(mem)@.spaces);
        assert(mem@.contents =~= old(mem)@.contents.update(slot as int, padded_chunk(src@, start as int, count as int)));
    }
}

impl Memory {
    /// The root of the active address space.
    pub fn active_root(&self) -> (root: u64)
        ensures
            root == self@.active,
    {
        self.active
    }

    /// Makes the space with the root `root` the active one. Returns whether
    /// there is such a space; without one nothing changes.
    pub fn set_active(&mut self, root: u64) -> (found: bool)
        requires
            old(self).wf(),
        ensures
            final(self).wf(),
            found == has_space(old(self)@.spaces, root),
            final(self)@ == (MemoryView { active: if found { root } else { old(self)@.active }, ..old(self)@ }),
    {
        match with_mapper_for_cr3(self, root) {
            Some(i) => {
                self.active = root;
                proof {
                    assert(self@.spaces =~= old(self)@.spaces);
                    assert(self@.contents =~= old(self)@.contents);
                    assert(self@.spaces[i as int].root == root);
                }
                true
            },
            None => false,
        }
    }

    /// How many frames have been handed out.
    pub fn frames_used(&self) -> (n: usize)
        ensures
            n == self@.cursor,
    {
        self.alloc.used()
    }

    /// How many frames the allocator was given at boot.
    pub fn frames_total(&self) -> (n: usize)
        ensures
            n == self@.frames.len(),
    {
        self.alloc.total()
    }

    /// How many address spaces there are.
    pub fn space_count(&self) -> (n: usize)
        ensures
            n == self@.spaces.len(),
    {
        self.spaces.len()
    }

    /// The bytes of the frame in slot `slot`, or `None` where no frame has that slot.
    pub fn frame_bytes(&self, slot: usize) -> (bytes: Option<&Vec<u8>>)
        ensures
            slot >= self@.contents.len() ==> bytes is None,
            slot < self@.contents.len() ==> bytes is Some && bytes->0@ == self@.contents[slot as int],
    {
        if slot < self.contents.len() {
            Some(&self.contents[slot])
        } else {
            None
        }
    }

    /// The first address space with the root `root`, or `None` where no space has it.
    pub fn space(&self, root: u64) -> (sp: Option<&AddressSpace>)
        ensures
            !has_space(self@.spaces, root) ==> sp is None,
            forall|i: int| first_space(self@.spaces, root, i) ==> sp is Some && sp->0@ == self@.spaces[i],
    {
        match with_mapper_for_cr3(self, root) {
            Some(i) => {
                proof {
                    assert forall|j: int| first_space(self@.spaces, root, j) implies j == i by {}
                }
                Some(&self.spaces[i])
            },
            None => None,
        }
    }
}

/// True when no two regions of the memory map share an address.
pub open spec fn regions_disjoint(regions: Seq<MemoryRegion>) -> bool {
    forall|i: int, j: int|
        0 <= i < j < regions.len() ==> (#[trigger] regions[i]).end <= (#[trigger] regions[j]).start || regions[j].end
            <= regions[i].start
}

/// True when the frame at `f` lies inside some usable region of the map.
pub open spec fn frame_in_map(regions: Seq<MemoryRegion>, f: u64) -> bool {
    exists|k: int| 0 <= k < regions.len() && (#[trigger] regions[k]).start <= f && f + 4096 <= regions[k].end
}

/// Every frame of a region lies inside the region, on a frame boundary.
pub proof fn lemma_region_frames(r: MemoryRegion, k: int)
    requires
        0 <= k < region_frames(r).len(),
    ensures
        r.start <= region_frames(r)[k],
        region_frames(r)[k] + 4096 <= r.end,
        region_frames(r)[k] == r.start + 4096 * k,
        region_frames(r)[k] % 4096 == 0,
        region_frames(r)[k] < PHYS_LIMIT,
{
    let top = if r.end < PHYS_LIMIT { r.end } else { PHYS_LIMIT };
    assert(region_frame_count(r) == (top - r.start) / 4096);
    assert(r.start + 4096 * (k + 1) <= top);
}

/// Every frame that the memory map gives lies inside one of its regions.
pub proof fn lemma_frames_in_map(regions: Seq<MemoryRegion>, i: int)
    requires
        0 <= i < usable_frames(regions).len(),
    ensures
        frame_in_map(regions, usable_frames(regions)[i]),
        usable_frames(regions)[i] % 4096 == 0,
    decreases regions.len(),
{
    let before = usable_frames(regions.drop_last());
    let last = regions.last();
    if i < before.len() {
        lemma_frames_in_map(regions.drop_last(), i);
        let f = before[i];
        let k = choose|k: int| 0 <= k < regions.drop_last().len() && (#[trigger] regions.drop_last()[k]).start <= f && f + 4096
            <= regions.drop_last()[k].end;
        assert(regions[k] == regions.drop_last()[k]);
    } else {
        lemma_region_frames(last, i - before.len());
        assert(regions[regions.len() - 1] == last);
    }
}

/// A memory map whose regions do not overlap gives no frame twice.
pub proof fn lemma_frames_distinct(regions: Seq<MemoryRegion>)
    requires
        regions_disjoint(regions),
    ensures
        usable_frames(regions).no_duplicates(),
        prefix(usable_frames(regions), 4096).no_duplicates(),
    decreases regions.len(),
{
    if regions.len() > 0 {
        let head = regions.drop_last();
        let last = regions.last();
        assert(regions_disjoint(head)) by {
            assert forall|i: int, j: int| 0 <= i < j < head.len() implies (#[trigger] head[i]).end <= (#[trigger] head[j]).start
                || head[j].end <= head[i].start by {
                assert(head[i] == regions[i] && head[j] == regions[j]);
            }
        }
        lemma_frames_distinct(head);
        let before = usable_frames(head);
        let all = usable_frames(regions);
        assert forall|a: int, b: int| 0 <= a < b < all.len() implies all[a] != all[b] by {
            if b < before.len() {
                assert(all[a] == before[a] && all[b] == before[b]);
            } else if a >= before.len() {
                lemma_region_frames(last, a - before.len());
                lemma_region_frames(last, b - before.len());
            } else {
                lemma_frames_in_map(head, a);
                lemma_region_frames(last, b - before.len());
                let f = before[a];
                let k = choose|k: int| 0 <= k < head.len() && (#[trigger] head[k]).start <= f && f + 4096 <= head[k].end;
                assert(head[k] == regions[k]);
                assert(regions[k].end <= regions[regions.len() - 1].start || regions[regions.len() - 1].end <= regions[k].start);
            }
        }
    }
    let all = usable_frames(regions);
    if all.len() > 4096 {
        assert forall|a: int, b: int| 0 <= a < b < all.take(4096).len() implies all.take(4096)[a] != all.take(4096)[b] by {
            assert(all.take(4096)[a] == all[a] && all.take(4096)[b] == all[b]);
        }
    }
}

/// The allocator never hands out a frame twice: with a list of frames that
/// holds none twice, as a memory map without overlapping regions gives it,
/// the frames handed out are all different, and each is a frame of the list.
pub proof fn lemma_never_twice(a: BootInfoFrameAlloc, i: int, j: int)
    requires
        a.wf(),
        a.all_frames().no_duplicates(),
        0 <= i < j < a.cursor(),
    ensures
        a.allocated()[i] != a.allocated()[j],
        a.all_frames().contains(a.allocated()[i]),
{
    assert(a.allocated()[i] == a.all_frames()[i]);
    assert(a.allocated()[j] == a.all_frames()[j]);
}

} // verus!
