use vstd::prelude::*;

verus! {

/// A bump allocator over one range of addresses: memory is handed out from
/// `next` upwards and never taken back.
pub struct Bump {
    start: usize,
    next: usize,
    end: usize,
    inited: bool,
}

/// What the allocator holds, as plain values.
pub struct BumpView {
    pub start: usize,
    pub next: usize,
    pub end: usize,
    pub inited: bool,
}

impl View for Bump {
    type V = BumpView;

    closed spec fn view(&self) -> BumpView {
        BumpView { start: self.start, next: self.next, end: self.end, inited: self.inited }
    }
}

/// The least multiple of `align` that is not below `addr`.
pub open spec fn align_up(addr: int, align: int) -> int {
    if addr % align == 0 {
        addr
    } else {
        addr + (align - addr % align)
    }
}

impl BumpView {
    /// The cursor lies inside the range.
    pub open spec fn wf(self) -> bool {
        self.start <= self.next <= self.end
    }

    /// True when `size` bytes aligned to `align` can still be handed out.
    pub open spec fn fits(self, size: usize, align: usize) -> bool {
        align > 0 && align_up(self.next as int, align as int) + size <= self.end
    }
}

impl Bump {
    /// An allocator that has not been given its range yet.
    pub fn new() -> (b: Self)
        ensures
            b@ == (BumpView { start: 0, next: 0, end: 0, inited: false }),
    {
        Bump { start: 0, next: 0, end: 0, inited: false }
    }

    /// Gives the allocator the range of `len` bytes at `start`, cut off at the
    /// end of the address space. A second call changes nothing.
    pub fn init(&mut self, start: usize, len: usize)
        ensures
            old(self)@.inited ==> final(self)@ == old(self)@,
            !old(self)@.inited ==> final(self)@ == (BumpView {
                start,
                next: start,
                end: if start + len <= usize::MAX { (start + len) as usize } else { usize::MAX },
                inited: true,
            }),
            !old(self)@.inited ==> final(self)@.wf(),
    {
        if self.inited {
            return ;
        }
        self.start = start;
        self.next = start;
        self.end = if len <= usize::MAX - start { start + len } else { usize::MAX };
        self.inited = true;
    }

    /// Hands out `size` bytes at the next address that is a multiple of
    /// `align`, and returns that address; `None`, with nothing changed, where
    /// `align` is zero or the range has not enough room left.
    pub fn allocate(&mut self, size: usize, align: usize) -> (r: Option<usize>)
        requires
            old(self)@.wf(),
        ensures
            final(self)@.wf(),
            r is Some <==> old(self)@.fits(size, align),
            r is Some ==> r->0 == align_up(old(self)@.next as int, align as int) && final(self)@ == (BumpView {
                next: (r->0 + size) as usize,
                ..old(self)@
            }),
            r is None ==> final(self)@ == old(self)@,
    {
        if align == 0 {
            return None;
        }
        let rem = self.next % align;
        let pad: usize = if rem == 0 { 0 } else { align - rem };
        if pad > self.end - self.next {
            return None;
        }
        let aligned = self.next + pad;
        if size > self.end - aligned {
            return None;
        }
        self.next = aligned + size;
        Some(aligned)
    }

    /// The first address that has not been handed out.
    pub fn next(&self) -> (a: usize)
        ensures
            a == self@.next,
    {
        self.next
    }
}

/// Gives the kernel heap its range; see `Bump::init`.
pub fn init(heap: &mut Bump, start: usize, len: usize)
    ensures
        old(heap)@.inited ==> final(heap)@ == old(heap)@,
        !old(heap)@.inited ==> final(heap)@ == (BumpView {
            start,
            next: start,
            end: if start + len <= usize::MAX { (start + len) as usize } else { usize::MAX },
            inited: true,
        }),
        !old(heap)@.inited ==> final(heap)@.wf(),
{
    heap.init(start, len);
}

} // verus!
