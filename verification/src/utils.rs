//! The single-square predicate on 64-bit masks.

use vstd::prelude::*;

verus! {

/// A mask denotes a single square when it is nonzero and a power of two,
/// stated with the usual two's-complement trick.
pub open spec fn single_bit(mask: u64) -> bool {
    mask != 0 && (mask & ((mask - 1) as u64)) == 0
}

/// True exactly when `x` has one bit set, i.e. denotes a single square.
pub fn only_one_bit_set(x: u64) -> (r: bool)
    ensures
        r == single_bit(x),
{
    x != 0 && (x & (x - 1)) == 0
}

/// Every single-bit mask is a power of two; the returned value is its
/// bit index.
pub proof fn lemma_single_bit_index(m: u64) -> (b: u64)
    requires
        single_bit(m),
    ensures
        b < 64,
        m == (1u64 << b),
{
    assert(m >> 0u64 == m) by (bit_vector);
    let b = lemma_lowest_set_bit(m, 0);
    assert(m == (1u64 << b)) by (bit_vector)
        requires
            b < 64 && (m & (1u64 << b)) != 0 && m != 0 && (m & ((m - 1) as u64)) == 0,
    ;
    b
}

/// A nonzero mask, viewed from bit `k` up, has a set bit at or above `k`.
proof fn lemma_lowest_set_bit(m: u64, k: u64) -> (b: u64)
    requires
        k < 64,
        m >> k != 0,
    ensures
        k <= b < 64,
        (m & (1u64 << b)) != 0,
    decreases 64 - k,
{
    if m & (1u64 << k) != 0 {
        k
    } else {
        assert(k < 63 && m >> (k + 1) as u64 != 0) by (bit_vector)
            requires
                k < 64 && m >> k != 0 && (m & (1u64 << k)) == 0,
        ;
        lemma_lowest_set_bit(m, (k + 1) as u64)
    }
}

} // verus!
