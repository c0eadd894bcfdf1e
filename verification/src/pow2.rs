//! Powers of two, and the capacity that a growing container moves to next.

use vstd::prelude::*;

verus! {

/// Whether `n` is one of 1, 2, 4, 8, ...
pub open spec fn is_pow2(n: int) -> bool
    decreases n,
{
    n == 1 || (n > 1 && n % 2 == 0 && is_pow2(n / 2))
}

/// The least power of two that is strictly greater than `n`.
pub open spec fn next_pow2(n: nat) -> nat
    decreases n,
{
    if n == 0 {
        1
    } else {
        2 * next_pow2(n / 2)
    }
}

/// The least power of two that is at least `n`.
pub open spec fn pow2_at_least(n: nat) -> nat {
    if n == 0 {
        1
    } else {
        next_pow2((n - 1) as nat)
    }
}

/// Half of `n`, but never less than 1.
pub open spec fn halved(n: nat) -> nat {
    if n > 1 {
        n / 2
    } else {
        1
    }
}

/// `n` with every bit below its highest set bit set as well.
spec fn smear(n: u64) -> u64 {
    let a = n | (n >> 1);
    let b = a | (a >> 2);
    let c = b | (b >> 4);
    let d = c | (c >> 8);
    let e = d | (d >> 16);
    e | (e >> 32)
}

/// `next_pow2(n)` is a power of two above `n`, and no more than twice `n`.
pub proof fn lemma_next_pow2_bounds(n: nat)
    ensures
        is_pow2(next_pow2(n) as int),
        n < next_pow2(n),
        next_pow2(n) / 2 <= n,
    decreases n,
{
    if n != 0 {
        lemma_next_pow2_bounds(n / 2);
    }
}

/// Between a power of two and its double there is no other power of two.
pub proof fn lemma_pow2_gap(p: int, q: int)
    requires
        is_pow2(p),
        is_pow2(q),
        p < q,
    ensures
        2 * p <= q,
    decreases q,
{
    if p != 1 {
        lemma_pow2_gap(p / 2, q / 2);
    }
}

/// No power of two above `n` is smaller than `next_pow2(n)`.
pub proof fn lemma_next_pow2_least(n: nat, p: int)
    requires
        is_pow2(p),
        n < p,
    ensures
        next_pow2(n) <= p,
    decreases n,
{
    if n != 0 {
        lemma_next_pow2_least(n / 2, p / 2);
    }
}

/// A power of two `r` with `r / 2 <= n < r` is `next_pow2(n)`.
pub proof fn lemma_next_pow2_unique(n: nat, r: int)
    requires
        is_pow2(r),
        r / 2 <= n < r,
    ensures
        r == next_pow2(n),
{
    lemma_next_pow2_bounds(n);
    lemma_next_pow2_least(n, r);
    if next_pow2(n) < r {
        lemma_pow2_gap(next_pow2(n) as int, r);
    }
}

/// The power of two after a power of two is its double.
pub proof fn lemma_next_pow2_doubles(p: nat)
    requires
        is_pow2(p as int),
    ensures
        next_pow2(p) == 2 * p,
    decreases p,
{
    if p == 1 {
        assert(next_pow2(0) == 1);
    } else {
        lemma_next_pow2_doubles(p / 2);
    }
}

/// `pow2_at_least(n)` is a power of two, at least `n`, and no power of two
/// that is at least `n` is smaller.
pub proof fn lemma_pow2_at_least(n: nat)
    ensures
        is_pow2(pow2_at_least(n) as int),
        n <= pow2_at_least(n),
        forall|p: int| is_pow2(p) && n <= p ==> pow2_at_least(n) <= p,
{
    if n == 0 {
        assert forall|p: int| is_pow2(p) implies 1 <= p by {}
    } else {
        lemma_next_pow2_bounds((n - 1) as nat);
        assert forall|p: int| is_pow2(p) && n <= p implies pow2_at_least(n) <= p by {
            lemma_next_pow2_least((n - 1) as nat, p);
        }
    }
}

/// A non-zero word with a single bit set is a power of two.
proof fn lemma_single_bit_is_pow2(x: u64)
    requires
        x != 0,
        x & ((x - 1) as u64) == 0,
    ensures
        is_pow2(x as int),
    decreases x,
{
    if x != 1 {
        let h: u64 = x / 2;
        assert(x % 2 == 0 && h != 0 && h & ((h - 1) as u64) == 0 && h < x) by (bit_vector)
            requires
                x != 0,
                x != 1,
                x & ((x - 1) as u64) == 0,
                h == x / 2,
        ;
        lemma_single_bit_is_pow2(h);
    }
}

/// The machine's largest index, plus one, is twice a power of two.
pub proof fn lemma_half_range_is_pow2()
    ensures
        is_pow2(usize::MAX / 2 + 1),
{
    if usize::MAX == 0xffff_ffff {
        let half: u64 = 0x8000_0000;
        assert(half & ((half - 1) as u64) == 0) by (bit_vector)
            requires
                half == 0x8000_0000,
        ;
        lemma_single_bit_is_pow2(half);
    } else {
        let half: u64 = 0x8000_0000_0000_0000;
        assert(half & ((half - 1) as u64) == 0) by (bit_vector)
            requires
                half == 0x8000_0000_0000_0000,
        ;
        lemma_single_bit_is_pow2(half);
    }
}

/// `next_pow2(n)` can be addressed just when `n` is at most half the
/// machine's largest index.
pub proof fn lemma_next_pow2_fits(n: nat)
    ensures
        next_pow2(n) <= usize::MAX <==> n <= usize::MAX / 2,
{
    lemma_next_pow2_bounds(n);
    lemma_half_range_is_pow2();
    if n > usize::MAX / 2 {
        lemma_pow2_gap(usize::MAX / 2 + 1, next_pow2(n) as int);
    }
}

/// Returns the least power of two strictly greater than `num`:
/// 1 for 0, 2 for 1, 8 for 5, 16 for 8.
pub fn get_next_pow2(num: usize) -> (r: usize)
    requires
        num <= usize::MAX / 2,
    ensures
        r == next_pow2(num as nat),
        is_pow2(r as int),
        num < r,
        forall|p: int| is_pow2(p) && num < p ==> r <= p,
{
    if num == 0 {
        return 1;
    }
    let start: u64 = num as u64;
    let mut n: u64 = start;
    n = n | (n >> 1);
    n = n | (n >> 2);
    n = n | (n >> 4);
    n = n | (n >> 8);
    n = n | (n >> 16);
    n = n | (n >> 32);
    proof {
        assert(n == smear(start));
        assert({
            let s = smear(start);
            let r = (s + 1) as u64;
            &&& s <= 0x7fff_ffff_ffff_ffff
            &&& start <= s
            &&& (s >> 1) < start
            &&& r & ((r - 1) as u64) == 0
        }) by (bit_vector)
            requires
                0 < start <= 0x7fff_ffff_ffff_ffff,
        ;
        assert(n >> 1 == n / 2) by (bit_vector);
        lemma_single_bit_is_pow2((n + 1) as u64);
        lemma_next_pow2_unique(num as nat, n + 1);
        assert forall|p: int| is_pow2(p) && num < p implies n + 1 <= p by {
            lemma_next_pow2_least(num as nat, p);
        }
    }
    (n + 1) as usize
}

} // verus!
