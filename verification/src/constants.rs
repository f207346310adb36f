//! The standard starting position and the initial castling rights.

use vstd::prelude::*;

verus! {

/// The initial castling bitmask: all four rights set (White kingside,
/// White queenside, Black kingside, Black queenside).
pub const CASTLING: u8 = 15;

/// The twelve piece-set bitboards of the standard starting position, in
/// board order: White {Pawn, Knight, Bishop, Rook, Queen, King}, then the
/// same piece order for Black. Squares are numbered rank by rank from
/// a1 (bit 0) to h8 (bit 63).
pub open spec fn starting_bitboards() -> Seq<u64> {
    seq![
        0x0000_0000_0000_FF00u64,  // White pawns: rank 2
        0x0000_0000_0000_0042u64,  // White knights: b1, g1
        0x0000_0000_0000_0024u64,  // White bishops: c1, f1
        0x0000_0000_0000_0081u64,  // White rooks: a1, h1
        0x0000_0000_0000_0008u64,  // White queen: d1
        0x0000_0000_0000_0010u64,  // White king: e1
        0x00FF_0000_0000_0000u64,  // Black pawns: rank 7
        0x4200_0000_0000_0000u64,  // Black knights: b8, g8
        0x2400_0000_0000_0000u64,  // Black bishops: c8, f8
        0x8100_0000_0000_0000u64,  // Black rooks: a8, h8
        0x0800_0000_0000_0000u64,  // Black queen: d8
        0x1000_0000_0000_0000u64,  // Black king: e8
    ]
}

/// The starting bitboard array, as executable data.
pub fn starting_positions() -> (r: [u64; 12])
    ensures
        r@ == starting_bitboards(),
{
    let r: [u64; 12] = [
        0x0000_0000_0000_FF00u64,
        0x0000_0000_0000_0042u64,
        0x0000_0000_0000_0024u64,
        0x0000_0000_0000_0081u64,
        0x0000_0000_0000_0008u64,
        0x0000_0000_0000_0010u64,
        0x00FF_0000_0000_0000u64,
        0x4200_0000_0000_0000u64,
        0x2400_0000_0000_0000u64,
        0x8100_0000_0000_0000u64,
        0x0800_0000_0000_0000u64,
        0x1000_0000_0000_0000u64,
    ];
    proof {
        assert(r@ =~= starting_bitboards());
    }
    r
}

} // verus!
