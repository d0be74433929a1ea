use vstd::prelude::*;
use vstd::arithmetic::power2::is_pow2;

verus! {

/// `s` with its first `n` elements replaced by `c`.
pub open spec fn filled<T>(s: Seq<T>, c: T, n: int) -> Seq<T> {
    Seq::new(s.len(), |i: int| if i < n { c } else { s[i] })
}

/// `dst` with its first `n` elements replaced by those of `src`.
pub open spec fn copied<T>(dst: Seq<T>, src: Seq<T>, n: int) -> Seq<T> {
    Seq::new(dst.len(), |i: int| if i < n { src[i] } else { dst[i] })
}

/// `filled` replaces exactly the first `n` elements by `c`, whatever they
/// held, and keeps the others.
pub proof fn law_filled<T>(s: Seq<T>, c: T, n: int)
    ensures
        filled(s, c, n).len() == s.len(),
        forall|i: int| 0 <= i < n && i < s.len() ==> #[trigger] filled(s, c, n)[i] == c,
        forall|i: int| n <= i < s.len() && 0 <= i ==> #[trigger] filled(s, c, n)[i] == s[i],
{
}

/// `copied` takes exactly the first `n` elements from `src`, whatever `dst`
/// held, and keeps the others of `dst`.
pub proof fn law_copied<T>(dst: Seq<T>, src: Seq<T>, n: int)
    ensures
        copied(dst, src, n).len() == dst.len(),
        forall|i: int| 0 <= i < n && i < dst.len() ==> #[trigger] copied(dst, src, n)[i] == src[i],
        forall|i: int| n <= i < dst.len() && 0 <= i ==> #[trigger] copied(dst, src, n)[i] == dst[i],
{
}

/// Writes `c` into the first `n` words of `buf` and leaves the rest alone.
pub fn memset(buf: &mut [u32], c: u32, n: usize)
    requires
        n <= old(buf)@.len(),
    ensures
        final(buf)@ == filled(old(buf)@, c, n as int),
        final(buf)@.len() == old(buf)@.len(),
        forall|i: int| 0 <= i < n ==> #[trigger] final(buf)@[i] == c,
        forall|i: int| n <= i < old(buf)@.len() ==> #[trigger] final(buf)@[i] == old(buf)@[i],
{
    proof {
        law_filled(old(buf)@, c, n as int);
    }
    let mut i: usize = 0;
    while i < n
        invariant
            i <= n,
            n <= buf@.len(),
            buf@ == filled(old(buf)@, c, i as int),
        decreases n - i,
    {
        buf[i] = c;
        i = i + 1;
        assert(buf@ =~= filled(old(buf)@, c, i as int));
    }
}

/// Copies the first `n` bytes of `src` into `dst` and leaves the rest of
/// `dst` alone.
pub fn memcpy(dst: &mut [u8], src: &[u8], n: usize)
    requires
        n <= old(dst)@.len(),
        n <= src@.len(),
    ensures
        final(dst)@ == copied(old(dst)@, src@, n as int),
        final(dst)@.len() == old(dst)@.len(),
        forall|i: int| 0 <= i < n ==> #[trigger] final(dst)@[i] == src@[i],
        forall|i: int| n <= i < old(dst)@.len() ==> #[trigger] final(dst)@[i] == old(dst)@[i],
{
    proof {
        law_copied(old(dst)@, src@, n as int);
    }
    let mut count: usize = n;
    let mut i: usize = 0;
    while count != 0
        invariant
            i + count == n,
            n <= dst@.len(),
            n <= src@.len(),
            dst@ == copied(old(dst)@, src@, i as int),
        decreases count,
    {
        dst[i] = src[i];
        i = i + 1;
        count = count - 1;
        assert(dst@ =~= copied(old(dst)@, src@, i as int));
    }
}


/// Whether `align` is a power of two and `addr` a multiple of it.
pub fn is_aligned(addr: usize, align: usize) -> (b: bool)
    ensures
        b == (is_pow2(align as int) && addr % align == 0),
{
    if align == 0 {
        proof {
            reveal(is_pow2);
        }
        return false;
    }
    let mut x: usize = align;
    while x % 2 == 0
        invariant
            x > 0,
            is_pow2(x as int) == is_pow2(align as int),
        decreases x,
    {
        proof {
            reveal(is_pow2);
        }
        x = x / 2;
    }
    proof {
        reveal(is_pow2);
    }
    x == 1 && addr % align == 0
}

} // verus!
