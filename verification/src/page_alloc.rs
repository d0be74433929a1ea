use vstd::prelude::*;
use crate::mem::memset;
use crate::types::{Paddr, PAGE_SIZE};

verus! {

/// Size in bytes of the 32-bit words in which the allocator steps through
/// the free RAM.
pub const WORD_BYTES: usize = 4;

/// Bytes that `n` pages take: the allocator counts a page as `PAGE_SIZE`
/// 32-bit words.
pub open spec fn pages_bytes(n: u32) -> int {
    n * PAGE_SIZE * WORD_BYTES
}

/// `s` with the `len` elements from index `start` on replaced by `c`.
pub open spec fn filled_range<T>(s: Seq<T>, start: int, len: int, c: T) -> Seq<T> {
    Seq::new(s.len(), |i: int| if start <= i < start + len { c } else { s[i] })
}

/// A bump allocator of whole pages over the free RAM `[free_ram, free_ram_end)`.
/// Pages are handed out in address order and never taken back. It steps
/// through the free RAM in 32-bit words, `PAGE_SIZE` words per page.
pub struct PageAllocator {
    next_paddr: Paddr,
    free_ram: Paddr,
    free_ram_end: Paddr,
}

impl PageAllocator {
    /// Address of the first page not yet handed out.
    pub closed spec fn next(&self) -> int {
        self.next_paddr as int
    }

    /// Start of the free RAM.
    pub closed spec fn start(&self) -> int {
        self.free_ram as int
    }

    /// End of the free RAM.
    pub closed spec fn end(&self) -> int {
        self.free_ram_end as int
    }

    /// The next page lies within the free RAM, a whole number of pages after
    /// its start.
    pub open spec fn wf(&self) -> bool {
        &&& self.start() <= self.next() <= self.end()
        &&& (self.next() - self.start()) % (PAGE_SIZE as int) == 0
    }

    /// `n` more pages fit in the free RAM.
    pub open spec fn fits(&self, n: u32) -> bool {
        self.next() + pages_bytes(n) <= self.end()
    }

    /// `new` is `old` after handing out `n` pages starting at `paddr`.
    pub open spec fn alloc_step(old: Self, new: Self, n: u32, paddr: int) -> bool {
        &&& new.wf()
        &&& paddr == old.next()
        &&& new.next() == paddr + pages_bytes(n)
        &&& new.start() == old.start()
        &&& new.end() == old.end()
    }

    /// An allocator over `[free_ram, free_ram_end)` that has handed out
    /// nothing yet.
    pub fn new(free_ram: Paddr, free_ram_end: Paddr) -> (a: Self)
        requires
            free_ram <= free_ram_end,
        ensures
            a.wf(),
            a.next() == free_ram,
            a.start() == free_ram,
            a.end() == free_ram_end,
    {
        PageAllocator { next_paddr: free_ram, free_ram, free_ram_end }
    }

    /// Address of the first page not yet handed out.
    pub fn next_paddr(&self) -> (p: Paddr)
        ensures
            p == self.next(),
    {
        self.next_paddr
    }

    /// Whether `n` more pages fit in the free RAM.
    pub fn has_room(&self, n: u32) -> (b: bool)
        requires
            self.wf(),
        ensures
            b == self.fits(n),
    {
        let room = self.free_ram_end - self.next_paddr;
        let unit: usize = (PAGE_SIZE as usize) * WORD_BYTES;
        let b = (n as usize) <= room / unit;
        proof {
            let nn = n as int;
            let r = room as int;
            let u = unit as int;
            assert(nn <= r / u <==> nn * u <= r) by (nonlinear_arith)
                requires
                    u > 0,
                    nn >= 0,
                    r >= 0,
            ;
            assert(u == 16384);
            assert(pages_bytes(n) == nn * 16384);
        }
        b
    }

    /// Hands out the next `n` pages, `n * PAGE_SIZE` 32-bit words, and
    /// zeroes those words in `ram`, the free RAM seen as 32-bit words (word
    /// `w` at address `start + 4 * w`). Returns the address of the first page.
    pub fn alloc_pages(&mut self, ram: &mut [u32], n: u32) -> (paddr: Paddr)
        requires
            old(self).wf(),
            old(self).fits(n),
            old(ram)@.len() * 4 == old(self).end() - old(self).start(),
        ensures
            Self::alloc_step(*old(self), *final(self), n, paddr as int),
            final(ram)@ == filled_range(
                old(ram)@,
                (paddr - old(self).start()) / 4,
                n * PAGE_SIZE,
                0u32,
            ),
            final(ram)@.len() == old(ram)@.len(),
            forall|i: int|
                (paddr - old(self).start()) / 4 <= i < (paddr - old(self).start()) / 4 + n
                    * PAGE_SIZE ==> #[trigger] final(ram)@[i] == 0,
            forall|i: int|
                0 <= i < old(ram)@.len() && !((paddr - old(self).start()) / 4 <= i < (paddr
                    - old(self).start()) / 4 + n * PAGE_SIZE) ==> #[trigger] final(ram)@[i]
                    == old(ram)@[i],
    {
        let paddr = self.next_paddr;
        let words = (n as usize) * (PAGE_SIZE as usize);
        let bytes = words * WORD_BYTES;
        self.next_paddr = paddr + bytes;
        let first = (paddr - self.free_ram) / 4;
        let (low, high) = ram.split_at_mut(first);
        memset(high, 0, words);
        assert(ram@ =~= filled_range(old(ram)@, first as int, words as int, 0u32));
        paddr
    }
}

/// Pages handed out lie in the free RAM, and two successive calls hand out
/// disjoint ranges: the second one starts where the first one ends.
pub proof fn law_allocations_disjoint(
    a0: PageAllocator,
    a1: PageAllocator,
    a2: PageAllocator,
    n1: u32,
    n2: u32,
    p1: int,
    p2: int,
)
    requires
        a0.wf(),
        PageAllocator::alloc_step(a0, a1, n1, p1),
        PageAllocator::alloc_step(a1, a2, n2, p2),
    ensures
        a0.start() <= p1,
        p1 + pages_bytes(n1) == p2,
        p2 + pages_bytes(n2) <= a0.end(),
{
}

} // verus!
