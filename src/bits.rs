//! Population counts of 64-bit masks.

use vstd::prelude::*;

verus! {

/// Number of set bits in `x`.
pub open spec fn popcount(x: u64) -> nat
    decreases x,
{
    if x == 0 {
        0
    } else {
        (x % 2) as nat + popcount((x / 2) as u64)
    }
}

/// The bits of two disjoint masks add up.
pub proof fn lemma_popcount_or(a: u64, b: u64)
    requires
        a & b == 0,
    ensures
        popcount(a | b) == popcount(a) + popcount(b),
    decreases a as int + b as int,
{
    if a == 0 {
        assert(a | b == b) by (bit_vector)
            requires
                a == 0,
        ;
    } else if b == 0 {
        assert(a | b == a) by (bit_vector)
            requires
                b == 0,
        ;
    } else {
        assert((a | b) != 0 && (a | b) % 2 == a % 2 + b % 2 && (a | b) / 2 == (a / 2) | (b / 2)
            && (a / 2) & (b / 2) == 0) by (bit_vector)
            requires
                a & b == 0,
                a != 0,
        ;
        lemma_popcount_or((a / 2) as u64, (b / 2) as u64);
    }
}

/// Removing a sub-mask removes exactly its bits.
pub proof fn lemma_popcount_remove(a: u64, b: u64)
    requires
        b & !a == 0,
    ensures
        popcount(a ^ b) + popcount(b) == popcount(a),
{
    assert((a ^ b) & b == 0 && (a ^ b) | b == a) by (bit_vector)
        requires
            b & !a == 0,
    ;
    lemma_popcount_or(a ^ b, b);
}

/// A single bit counts once.
pub proof fn lemma_popcount_single(k: u64)
    requires
        k < 64,
    ensures
        popcount(1u64 << k) == 1,
    decreases k,
{
    if k == 0 {
        assert(1u64 << 0u64 == 1) by (bit_vector);
        assert(popcount(0) == 0);
    } else {
        assert((1u64 << k) != 0 && (1u64 << k) % 2 == 0 && (1u64 << k) / 2 == 1u64 << ((k - 1) as u64))
            by (bit_vector)
            requires
                0 < k < 64,
        ;
        lemma_popcount_single((k - 1) as u64);
    }
}

/// A mask with no bit at or above position `n` has at most `n` bits.
pub proof fn lemma_popcount_bound(x: u64, n: u64)
    requires
        n < 64,
        x >> n == 0,
    ensures
        popcount(x) <= n,
    decreases x,
{
    if x != 0 {
        assert(n > 0 && (x / 2) < x && (x / 2) >> ((n - 1) as u64) == 0 && x % 2 <= 1) by (bit_vector)
            requires
                x != 0,
                n < 64,
                x >> n == 0,
        ;
        lemma_popcount_bound((x / 2) as u64, (n - 1) as u64);
    }
}

/// A 64-bit mask has at most 64 bits.
pub proof fn lemma_popcount_max(x: u64)
    ensures
        popcount(x) <= 64,
{
    if x != 0 {
        assert(((x / 2) as u64) >> 63u64 == 0 && x % 2 <= 1) by (bit_vector);
        lemma_popcount_bound((x / 2) as u64, 63);
    }
}

/// Counts the set bits of `x`.
pub fn count_bits(x: u64) -> (r: u32)
    ensures
        r as nat == popcount(x),
        r <= 64,
{
    proof {
        lemma_popcount_max(x);
    }
    let mut rest: u64 = x;
    let mut count: u32 = 0;
    while rest != 0
        invariant
            count as nat + popcount(rest) == popcount(x),
            popcount(x) <= 64,
        decreases rest,
    {
        assert(rest & 1 == rest % 2 && rest >> 1 == rest / 2 && rest / 2 < rest) by (bit_vector)
            requires
                rest != 0,
        ;
        count = count + (rest & 1) as u32;
        rest = rest >> 1;
    }
    count
}

} // verus!
