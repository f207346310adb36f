//! Counting occupied squares: each bitboard read as a set of square
//! indices, and the total over a sequence of bitboards.

use vstd::prelude::*;
use vstd::set_lib::lemma_int_range;
use vstd::set_lib::lemma_len_subset;
use vstd::set_lib::set_int_range;

use crate::utils::lemma_single_bit_index;
use crate::utils::single_bit;

verus! {

/// The set of square indices whose bits are set in `b`.
pub open spec fn squares_of(b: u64) -> Set<int> {
    Set::new(|s: int| 0 <= s < 64 && (b & (1u64 << (s as u64))) != 0)
}

/// A bitboard's square set is finite: it sits inside the 64 squares.
pub proof fn lemma_squares_finite(b: u64)
    ensures
        squares_of(b).finite(),
        squares_of(b).len() <= 64,
{
    lemma_int_range(0, 64);
    assert(squares_of(b).subset_of(set_int_range(0, 64)));
    lemma_len_subset(squares_of(b), set_int_range(0, 64));
}

/// The number of occupied squares across a sequence of bitboards.
pub open spec fn piece_count(bbs: Seq<u64>) -> nat
    decreases bbs.len(),
{
    if bbs.len() == 0 {
        0
    } else {
        piece_count(bbs.drop_last()) + squares_of(bbs.last()).len()
    }
}

/// Replacing one bitboard changes the total count by the difference
/// between the new and the old board's own counts.
pub proof fn lemma_piece_count_update(bbs: Seq<u64>, i: int, v: u64)
    requires
        0 <= i < bbs.len(),
    ensures
        piece_count(bbs.update(i, v)) + squares_of(bbs[i]).len() == piece_count(bbs)
            + squares_of(v).len(),
    decreases bbs.len(),
{
    let ub = bbs.update(i, v);
    if i == bbs.len() - 1 {
        assert(ub.drop_last() =~= bbs.drop_last());
    } else {
        assert(ub.drop_last() =~= bbs.drop_last().update(i, v));
        lemma_piece_count_update(bbs.drop_last(), i, v);
    }
}

/// Moving a single bit within one bitboard: the square set loses the
/// source index, gains the destination index, and keeps its size.
pub proof fn lemma_squares_move(b: u64, from: u64, to: u64)
    requires
        single_bit(from),
        single_bit(to),
        (b & from) != 0,
        (b & to) == 0,
    ensures
        squares_of((b & !from) | to).len() == squares_of(b).len(),
{
    let fi = lemma_single_bit_index(from);
    let ti = lemma_single_bit_index(to);
    lemma_squares_finite(b);
    let s = squares_of(b);
    let s2 = squares_of((b & !from) | to);
    let rhs = s.remove(fi as int).insert(ti as int);
    assert forall|q: int| s2.contains(q) == rhs.contains(q) by {
        if 0 <= q < 64 {
            let qq = q as u64;
            assert(((((b & !from) | to) & (1u64 << qq)) != 0) == (qq == ti || (qq != fi && (b
                & (1u64 << qq)) != 0))) by (bit_vector)
                requires
                    from == (1u64 << fi) && to == (1u64 << ti) && fi < 64 && ti < 64 && qq < 64,
            ;
        }
    }
    assert(s2 =~= rhs);
    assert(s.contains(fi as int));
    assert(!s.contains(ti as int));
}

/// Clearing a single set bit from a bitboard shrinks its square set by
/// exactly one square.
pub proof fn lemma_squares_capture(b: u64, to: u64)
    requires
        single_bit(to),
        (b & to) != 0,
    ensures
        squares_of(b & !to).len() + 1 == squares_of(b).len(),
{
    let ti = lemma_single_bit_index(to);
    lemma_squares_finite(b);
    let s = squares_of(b);
    let s2 = squares_of(b & !to);
    let rhs = s.remove(ti as int);
    assert forall|q: int| s2.contains(q) == rhs.contains(q) by {
        if 0 <= q < 64 {
            let qq = q as u64;
            assert((((b & !to) & (1u64 << qq)) != 0) == (qq != ti && (b & (1u64 << qq)) != 0))
                by (bit_vector)
                requires
                    to == (1u64 << ti) && ti < 64 && qq < 64,
            ;
        }
    }
    assert(s2 =~= rhs);
    assert(s.contains(ti as int));
}

} // verus!
