use vstd::prelude::*;

verus! {

/// Index of the first NUL byte of `s` at or after `i`, or `s.len()` when no
/// NUL follows `i`.
pub open spec fn nul_from(s: Seq<u8>, i: int) -> int
    decreases s.len() - i,
{
    if i >= s.len() {
        s.len() as int
    } else if s[i] == 0 {
        i
    } else {
        nul_from(s, i + 1)
    }
}

/// Length of the NUL-terminated string held in `s`: the index of its first
/// NUL byte (or `s.len()` when it holds none).
pub open spec fn c_strlen(s: Seq<u8>) -> int {
    nul_from(s, 0)
}

/// `s` holds a NUL byte, so it holds a complete C string.
pub open spec fn has_nul(s: Seq<u8>) -> bool {
    c_strlen(s) < s.len()
}

/// The C string held in `s`, without its terminator.
pub open spec fn c_str(s: Seq<u8>) -> Seq<u8> {
    s.take(c_strlen(s))
}

/// What `strcpy` leaves in `dst`: the C string of `src`, then a NUL, then
/// the old rest of `dst`.
pub open spec fn strcpy_result(dst: Seq<u8>, src: Seq<u8>) -> Seq<u8> {
    let k = c_strlen(src);
    Seq::new(dst.len(), |j: int| if j < k { src[j] } else if j == k { 0u8 } else { dst[j] })
}

/// First index at or after `i` where the two strings stop being compared:
/// one of them ends (or its NUL is reached) or their bytes differ.
pub open spec fn diff_stop_from(a: Seq<u8>, b: Seq<u8>, i: int) -> int
    decreases a.len() - i,
{
    if i >= a.len() || i >= b.len() || a[i] == 0 || b[i] == 0 || a[i] != b[i] {
        i
    } else {
        diff_stop_from(a, b, i + 1)
    }
}

/// Index at which `strcmp` stops on `a` and `b`.
pub open spec fn diff_stop(a: Seq<u8>, b: Seq<u8>) -> int {
    diff_stop_from(a, b, 0)
}

/// What `strcmp` returns: the difference of the bytes where it stops.
pub open spec fn c_str_diff(a: Seq<u8>, b: Seq<u8>) -> int {
    let k = diff_stop(a, b);
    a[k] as int - b[k] as int
}

proof fn lemma_nul_from(s: Seq<u8>, i: int)
    requires
        0 <= i <= s.len(),
    ensures
        i <= nul_from(s, i) <= s.len(),
        nul_from(s, i) < s.len() ==> s[nul_from(s, i)] == 0,
        forall|j: int| i <= j < nul_from(s, i) ==> s[j] != 0,
    decreases s.len() - i,
{
    if i < s.len() && s[i] != 0 {
        lemma_nul_from(s, i + 1);
    }
}

proof fn lemma_nul_from_is(s: Seq<u8>, i: int, k: int)
    requires
        0 <= i <= k < s.len(),
        s[k] == 0,
        forall|j: int| i <= j < k ==> s[j] != 0,
    ensures
        nul_from(s, i) == k,
    decreases k - i,
{
    if i < k {
        lemma_nul_from_is(s, i + 1, k);
    }
}

/// The first NUL of `s` lies at `k`.
proof fn lemma_c_strlen_is(s: Seq<u8>, k: int)
    requires
        0 <= k < s.len(),
        s[k] == 0,
        forall|j: int| 0 <= j < k ==> s[j] != 0,
    ensures
        c_strlen(s) == k,
{
    lemma_nul_from_is(s, 0, k);
}

/// In a string that holds a NUL, `c_strlen` is the index of the first NUL:
/// the byte there is 0 and no byte before it is.
pub proof fn law_c_strlen(s: Seq<u8>)
    requires
        has_nul(s),
    ensures
        0 <= c_strlen(s) < s.len(),
        s[c_strlen(s)] == 0,
        forall|j: int| 0 <= j < c_strlen(s) ==> s[j] != 0,
{
    lemma_nul_from(s, 0);
}

proof fn lemma_diff_stop_from(a: Seq<u8>, b: Seq<u8>, i: int)
    requires
        0 <= i,
    ensures
        i <= diff_stop_from(a, b, i),
        forall|j: int|
            i <= j < diff_stop_from(a, b, i) ==> a[j] == b[j] && a[j] != 0 && b[j] != 0,
        diff_stop_from(a, b, i) < a.len() && diff_stop_from(a, b, i) < b.len() ==> {
            let k = diff_stop_from(a, b, i);
            a[k] == 0 || b[k] == 0 || a[k] != b[k]
        },
        diff_stop_from(a, b, i) <= a.len() || diff_stop_from(a, b, i) == i,
        diff_stop_from(a, b, i) <= b.len() || diff_stop_from(a, b, i) == i,
    decreases a.len() - i,
{
    if !(i >= a.len() || i >= b.len() || a[i] == 0 || b[i] == 0 || a[i] != b[i]) {
        lemma_diff_stop_from(a, b, i + 1);
    }
}

proof fn lemma_diff_stop_from_is(a: Seq<u8>, b: Seq<u8>, i: int, k: int)
    requires
        0 <= i <= k < a.len(),
        k < b.len(),
        a[k] == 0 || b[k] == 0 || a[k] != b[k],
        forall|j: int| i <= j < k ==> a[j] == b[j] && a[j] != 0,
    ensures
        diff_stop_from(a, b, i) == k,
    decreases k - i,
{
    if i < k {
        lemma_diff_stop_from_is(a, b, i + 1, k);
    }
}

/// `strcmp` on `a` and `b` stops at `k`.
proof fn lemma_diff_stop_is(a: Seq<u8>, b: Seq<u8>, k: usize)
    requires
        k < a.len(),
        k < b.len(),
        a[k as int] == 0 || b[k as int] == 0 || a[k as int] != b[k as int],
        forall|j: int| 0 <= j < k ==> a[j] == b[j] && a[j] != 0,
    ensures
        diff_stop(a, b) == k,
{
    lemma_diff_stop_from_is(a, b, 0, k as int);
}

/// Where `strcmp` stops on two C strings: within both, and at or before the
/// terminator of each.
proof fn lemma_diff_stop(a: Seq<u8>, b: Seq<u8>)
    requires
        has_nul(a),
        has_nul(b),
    ensures
        0 <= diff_stop(a, b) <= c_strlen(a),
        diff_stop(a, b) <= c_strlen(b),
        forall|j: int| 0 <= j < diff_stop(a, b) ==> a[j] == b[j] && a[j] != 0,
        ({
            let k = diff_stop(a, b);
            a[k] == 0 || b[k] == 0 || a[k] != b[k]
        }),
{
    law_c_strlen(a);
    law_c_strlen(b);
    lemma_diff_stop_from(a, b, 0);
    let k = diff_stop(a, b);
    if k > c_strlen(a) {
        assert(a[c_strlen(a)] != 0);
    }
    if k > c_strlen(b) {
        assert(b[c_strlen(b)] != 0);
    }
}

/// What `strcpy` leaves, stated from the first NUL of `src` at `k`: the
/// bytes of `src` up to and including `k`, then the old bytes of `dst`.
pub proof fn law_strcpy_result(dst: Seq<u8>, src: Seq<u8>)
    ensures
        strcpy_result(dst, src).len() == dst.len(),
        forall|k: int|
            0 <= k < src.len() && #[trigger] src[k] == 0 && (forall|j: int|
                0 <= j < k ==> src[j] != 0) ==> {
                &&& forall|j: int|
                    0 <= j <= k && j < dst.len() ==> #[trigger] strcpy_result(dst, src)[j]
                        == src[j]
                &&& forall|j: int|
                    k < j < dst.len() ==> #[trigger] strcpy_result(dst, src)[j] == dst[j]
            },
{
    assert forall|k: int|
        0 <= k < src.len() && #[trigger] src[k] == 0 && (forall|j: int|
            0 <= j < k ==> src[j] != 0) implies {
            &&& forall|j: int|
                0 <= j <= k && j < dst.len() ==> #[trigger] strcpy_result(dst, src)[j] == src[j]
            &&& forall|j: int| k < j < dst.len() ==> #[trigger] strcpy_result(dst, src)[j] == dst[j]
        } by {
        lemma_c_strlen_is(src, k);
    }
}

/// The comparison is decided at the first index `k` where the strings
/// differ or one of them ends: every byte before `k` is equal and nonzero,
/// and the result is `a[k] - b[k]`, whatever follows and whatever the
/// lengths.
pub proof fn law_first_difference(a: Seq<u8>, b: Seq<u8>, k: int)
    requires
        0 <= k < a.len(),
        k < b.len(),
        a[k] == 0 || b[k] == 0 || a[k] != b[k],
        forall|j: int| 0 <= j < k ==> a[j] == b[j] && a[j] != 0,
    ensures
        c_str_diff(a, b) == a[k] - b[k],
        a[k] > b[k] ==> c_str_diff(a, b) > 0,
        a[k] < b[k] ==> c_str_diff(a, b) < 0,
{
    lemma_diff_stop_from_is(a, b, 0, k);
}

/// Copies the NUL-terminated string of `src`, terminator included, to the
/// start of `dst`; the rest of `dst` is left alone.
pub fn strcpy(dst: &mut [u8], src: &[u8])
    requires
        has_nul(src@),
        c_strlen(src@) < old(dst)@.len(),
    ensures
        final(dst)@ == strcpy_result(old(dst)@, src@),
        final(dst)@.len() == old(dst)@.len(),
        forall|k: int|
            0 <= k < src@.len() && #[trigger] src@[k] == 0 && (forall|j: int|
                0 <= j < k ==> src@[j] != 0) ==> {
                &&& forall|j: int| 0 <= j <= k ==> #[trigger] final(dst)@[j] == src@[j]
                &&& forall|j: int|
                    k < j < old(dst)@.len() ==> #[trigger] final(dst)@[j] == old(dst)@[j]
            },
{
    proof {
        law_strcpy_result(old(dst)@, src@);
        law_c_strlen(src@);
    }
    let mut i: usize = 0;
    while src[i] != 0
        invariant
            0 <= i <= c_strlen(src@),
            has_nul(src@),
            c_strlen(src@) < dst@.len(),
            c_strlen(src@) < src@.len(),
            src@[c_strlen(src@)] == 0,
            forall|j: int| 0 <= j < c_strlen(src@) ==> src@[j] != 0,
            dst@.len() == old(dst)@.len(),
            forall|j: int| 0 <= j < i ==> dst@[j] == src@[j],
            forall|j: int| i <= j < dst@.len() ==> dst@[j] == old(dst)@[j],
        decreases c_strlen(src@) - i,
    {
        dst[i] = src[i];
        i = i + 1;
    }
    dst[i] = 0;
    assert(final(dst)@ =~= strcpy_result(old(dst)@, src@));
}

/// Compares two NUL-terminated strings byte by byte and returns the
/// difference of the first pair of bytes that differ, or of the terminators.
pub fn strcmp(s1: &[u8], s2: &[u8]) -> (r: i32)
    requires
        has_nul(s1@),
        has_nul(s2@),
    ensures
        r == c_str_diff(s1@, s2@),
        forall|k: int|
            #![trigger s1@[k], s2@[k]]
            0 <= k < s1@.len() && k < s2@.len() && (s1@[k] == 0 || s2@[k] == 0 || s1@[k]
                != s2@[k]) && (forall|j: int| 0 <= j < k ==> s1@[j] == s2@[j] && s1@[j] != 0)
                ==> r == s1@[k] - s2@[k],
{
    proof {
        assert forall|k: int|
            #![trigger s1@[k], s2@[k]]
            0 <= k < s1@.len() && k < s2@.len() && (s1@[k] == 0 || s2@[k] == 0 || s1@[k]
                != s2@[k]) && (forall|j: int| 0 <= j < k ==> s1@[j] == s2@[j] && s1@[j] != 0)
                implies c_str_diff(s1@, s2@) == s1@[k] - s2@[k] by {
            law_first_difference(s1@, s2@, k);
        }
    }
    proof {
        law_c_strlen(s1@);
        law_c_strlen(s2@);
        lemma_diff_stop(s1@, s2@);
    }
    let mut i: usize = 0;
    while s1[i] != 0 && s2[i] != 0 && s1[i] == s2[i]
        invariant
            0 <= i <= diff_stop(s1@, s2@),
            diff_stop(s1@, s2@) <= c_strlen(s1@) < s1@.len(),
            diff_stop(s1@, s2@) <= c_strlen(s2@) < s2@.len(),
            forall|j: int| 0 <= j < i ==> s1@[j] == s2@[j] && s1@[j] != 0,
            ({
                let k = diff_stop(s1@, s2@);
                s1@[k] == 0 || s2@[k] == 0 || s1@[k] != s2@[k]
            }),
        decreases diff_stop(s1@, s2@) - i,
    {
        i = i + 1;
    }
    proof {
        lemma_diff_stop_is(s1@, s2@, i);
    }
    byte_difference(s1[i], s2[i])
}

/// `a - b`, widened so that it cannot overflow.
fn byte_difference(a: u8, b: u8) -> (d: i32)
    ensures
        d == a as int - b as int,
{
    a as i32 - b as i32
}

proof fn lemma_diff_stop_from_symmetric(a: Seq<u8>, b: Seq<u8>, i: int)
    ensures
        diff_stop_from(a, b, i) == diff_stop_from(b, a, i),
    decreases a.len() - i,
{
    if !(i >= a.len() || i >= b.len() || a[i] == 0 || b[i] == 0 || a[i] != b[i]) {
        lemma_diff_stop_from_symmetric(a, b, i + 1);
    }
}

/// A C string compares equal to itself.
pub proof fn law_compare_self(s: Seq<u8>)
    requires
        has_nul(s),
    ensures
        c_str_diff(s, s) == 0,
{
}

/// Swapping the two strings negates what the comparison gives.
pub proof fn law_compare_antisymmetric(a: Seq<u8>, b: Seq<u8>)
    ensures
        c_str_diff(a, b) == -c_str_diff(b, a),
{
    lemma_diff_stop_from_symmetric(a, b, 0);
}

/// Two C strings compare equal exactly when they hold the same bytes up to
/// their terminators.
pub proof fn law_compare_zero_iff_equal(a: Seq<u8>, b: Seq<u8>)
    requires
        has_nul(a),
        has_nul(b),
    ensures
        c_str_diff(a, b) == 0 <==> c_str(a) == c_str(b),
{
    law_c_strlen(a);
    law_c_strlen(b);
    lemma_diff_stop(a, b);
    let k = diff_stop(a, b);
    let la = c_strlen(a);
    let lb = c_strlen(b);
    if c_str_diff(a, b) == 0 {
        assert(a[k] == b[k]);
        assert(a[k] == 0 && b[k] == 0);
        if k < la {
            assert(a[k] != 0);
        }
        if k < lb {
            assert(b[k] != 0);
        }
        assert(k == la && k == lb);
        assert(c_str(a) =~= c_str(b));
    }
    if c_str(a) == c_str(b) {
        assert(c_str(a).len() == la);
        assert(c_str(b).len() == lb);
        assert(la == lb);
        if k < la {
            assert(c_str(a)[k] == c_str(b)[k]);
            assert(a[k] != 0 && b[k] != 0 && a[k] == b[k]);
        }
        assert(k == la);
    }
}

/// After `strcpy`, the destination holds the same C string as the source,
/// so the two compare equal.
pub proof fn law_strcpy_then_compare(dst: Seq<u8>, src: Seq<u8>)
    requires
        has_nul(src),
        c_strlen(src) < dst.len(),
    ensures
        has_nul(strcpy_result(dst, src)),
        c_str(strcpy_result(dst, src)) == c_str(src),
        c_str_diff(strcpy_result(dst, src), src) == 0,
{
    law_c_strlen(src);
    let d = strcpy_result(dst, src);
    let k = c_strlen(src);
    lemma_c_strlen_is(d, k);
    assert(c_str(d) =~= c_str(src));
    law_compare_zero_iff_equal(d, src);
}

} // verus!
