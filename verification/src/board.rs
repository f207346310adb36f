//! The board engine: position state, occupancy queries, and unchecked
//! move application over twelve pairwise-disjoint piece-set bitboards.

use vstd::prelude::*;

use crate::constants;
use crate::counting::lemma_piece_count_update;
use crate::counting::lemma_squares_capture;
use crate::counting::lemma_squares_move;
use crate::counting::piece_count;
use crate::utils::single_bit;

verus! {

/// A colour tag for occupancy queries. `Both` means the union of the White
/// and Black piece sets; it is never stored, only passed as a parameter.
#[derive(Copy, Clone, Debug, PartialEq, Eq, Structural)]
pub enum Player {
    White,
    Black,
    Both,
}

/// A piece-type tag; it only selects a bitboard index and is never stored.
#[derive(Copy, Clone, Debug, PartialEq, Eq, Structural)]
pub enum Piece {
    Pawn,
    Knight,
    Bishop,
    Rooke,
    Queen,
    King,
}

/// One of the four independent castling-rights flags.
#[derive(Copy, Clone, Debug, PartialEq, Eq, Structural)]
pub enum Castling {
    WhiteKing,
    WhiteQueen,
    BlackKing,
    BlackQueen,
}

/// The one error this engine reports: no bitboard holds any square of the
/// given mask.
#[derive(Copy, Clone, Debug, PartialEq, Eq, Structural)]
pub enum BoardError {
    NoPieceAtSquare,
}

/// The bitboard index of a piece type, for the White side; the Black side
/// of the same piece type sits six indices higher. This is the single
/// point of truth for the piece-to-index mapping.
pub open spec fn spec_piece_index(piece: Piece) -> int {
    match piece {
        Piece::Pawn => 0,
        Piece::Knight => 1,
        Piece::Bishop => 2,
        Piece::Rooke => 3,
        Piece::Queen => 4,
        Piece::King => 5,
    }
}

/// Executable form of the piece-to-index mapping.
pub fn piece_index(piece: Piece) -> (i: usize)
    ensures
        i as int == spec_piece_index(piece),
        i < 6,
{
    match piece {
        Piece::Pawn => 0,
        Piece::Knight => 1,
        Piece::Bishop => 2,
        Piece::Rooke => 3,
        Piece::Queen => 4,
        Piece::King => 5,
    }
}

/// The power-of-two mask of one castling-rights flag.
pub open spec fn spec_castling_mask(c: Castling) -> u8 {
    match c {
        Castling::WhiteKing => 1,
        Castling::WhiteQueen => 2,
        Castling::BlackKing => 4,
        Castling::BlackQueen => 8,
    }
}

/// Executable form of the castling-rights mask.
pub fn castling_mask(c: Castling) -> (m: u8)
    ensures
        m == spec_castling_mask(c),
{
    match c {
        Castling::WhiteKing => 1,
        Castling::WhiteQueen => 2,
        Castling::BlackKing => 4,
        Castling::BlackQueen => 8,
    }
}

/// The core representation invariant: no square is claimed by two of the
/// twelve piece-set bitboards.
pub open spec fn disjoint_bitboards(bbs: Seq<u64>) -> bool {
    forall|i: int, j: int| 0 <= i < j < 12 ==> ((#[trigger] bbs[i]) & (#[trigger] bbs[j])) == 0
}

/// The starting bitboards are pairwise disjoint.
pub proof fn lemma_starting_disjoint()
    ensures
        disjoint_bitboards(constants::starting_bitboards()),
{
    let s = constants::starting_bitboards();
    assert(
        (0x0000_0000_0000_FF00u64 & 0x0000_0000_0000_0042u64) == 0 &&
        (0x0000_0000_0000_FF00u64 & 0x0000_0000_0000_0024u64) == 0 &&
        (0x0000_0000_0000_FF00u64 & 0x0000_0000_0000_0081u64) == 0 &&
        (0x0000_0000_0000_FF00u64 & 0x0000_0000_0000_0008u64) == 0 &&
        (0x0000_0000_0000_FF00u64 & 0x0000_0000_0000_0010u64) == 0 &&
        (0x0000_0000_0000_FF00u64 & 0x00FF_0000_0000_0000u64) == 0 &&
        (0x0000_0000_0000_FF00u64 & 0x4200_0000_0000_0000u64) == 0 &&
        (0x0000_0000_0000_FF00u64 & 0x2400_0000_0000_0000u64) == 0 &&
        (0x0000_0000_0000_FF00u64 & 0x8100_0000_0000_0000u64) == 0 &&
        (0x0000_0000_0000_FF00u64 & 0x0800_0000_0000_0000u64) == 0 &&
        (0x0000_0000_0000_FF00u64 & 0x1000_0000_0000_0000u64) == 0 &&
        (0x0000_0000_0000_0042u64 & 0x0000_0000_0000_0024u64) == 0 &&
        (0x0000_0000_0000_0042u64 & 0x0000_0000_0000_0081u64) == 0 &&
        (0x0000_0000_0000_0042u64 & 0x0000_0000_0000_0008u64) == 0 &&
        (0x0000_0000_0000_0042u64 & 0x0000_0000_0000_0010u64) == 0 &&
        (0x0000_0000_0000_0042u64 & 0x00FF_0000_0000_0000u64) == 0 &&
        (0x0000_0000_0000_0042u64 & 0x4200_0000_0000_0000u64) == 0 &&
        (0x0000_0000_0000_0042u64 & 0x2400_0000_0000_0000u64) == 0 &&
        (0x0000_0000_0000_0042u64 & 0x8100_0000_0000_0000u64) == 0 &&
        (0x0000_0000_0000_0042u64 & 0x0800_0000_0000_0000u64) == 0 &&
        (0x0000_0000_0000_0042u64 & 0x1000_0000_0000_0000u64) == 0 &&
        (0x0000_0000_0000_0024u64 & 0x0000_0000_0000_0081u64) == 0 &&
        (0x0000_0000_0000_0024u64 & 0x0000_0000_0000_0008u64) == 0 &&
        (0x0000_0000_0000_0024u64 & 0x0000_0000_0000_0010u64) == 0 &&
        (0x0000_0000_0000_0024u64 & 0x00FF_0000_0000_0000u64) == 0 &&
        (0x0000_0000_0000_0024u64 & 0x4200_0000_0000_0000u64) == 0 &&
        (0x0000_0000_0000_0024u64 & 0x2400_0000_0000_0000u64) == 0 &&
        (0x0000_0000_0000_0024u64 & 0x8100_0000_0000_0000u64) == 0 &&
        (0x0000_0000_0000_0024u64 & 0x0800_0000_0000_0000u64) == 0 &&
        (0x0000_0000_0000_0024u64 & 0x1000_0000_0000_0000u64) == 0 &&
        (0x0000_0000_0000_0081u64 & 0x0000_0000_0000_0008u64) == 0 &&
        (0x0000_0000_0000_0081u64 & 0x0000_0000_0000_0010u64) == 0 &&
        (0x0000_0000_0000_0081u64 & 0x00FF_0000_0000_0000u64) == 0 &&
        (0x0000_0000_0000_0081u64 & 0x4200_0000_0000_0000u64) == 0 &&
        (0x0000_0000_0000_0081u64 & 0x2400_0000_0000_0000u64) == 0 &&
        (0x0000_0000_0000_0081u64 & 0x8100_0000_0000_0000u64) == 0 &&
        (0x0000_0000_0000_0081u64 & 0x0800_0000_0000_0000u64) == 0 &&
        (0x0000_0000_0000_0081u64 & 0x1000_0000_0000_0000u64) == 0 &&
        (0x0000_0000_0000_0008u64 & 0x0000_0000_0000_0010u64) == 0 &&
        (0x0000_0000_0000_0008u64 & 0x00FF_0000_0000_0000u64) == 0 &&
        (0x0000_0000_0000_0008u64 & 0x4200_0000_0000_0000u64) == 0 &&
        (0x0000_0000_0000_0008u64 & 0x2400_0000_0000_0000u64) == 0 &&
        (0x0000_0000_0000_0008u64 & 0x8100_0000_0000_0000u64) == 0 &&
        (0x0000_0000_0000_0008u64 & 0x0800_0000_0000_0000u64) == 0 &&
        (0x0000_0000_0000_0008u64 & 0x1000_0000_0000_0000u64) == 0 &&
        (0x0000_0000_0000_0010u64 & 0x00FF_0000_0000_0000u64) == 0 &&
        (0x0000_0000_0000_0010u64 & 0x4200_0000_0000_0000u64) == 0 &&
        (0x0000_0000_0000_0010u64 & 0x2400_0000_0000_0000u64) == 0 &&
        (0x0000_0000_0000_0010u64 & 0x8100_0000_0000_0000u64) == 0 &&
        (0x0000_0000_0000_0010u64 & 0x0800_0000_0000_0000u64) == 0 &&
        (0x0000_0000_0000_0010u64 & 0x1000_0000_0000_0000u64) == 0 &&
        (0x00FF_0000_0000_0000u64 & 0x4200_0000_0000_0000u64) == 0 &&
        (0x00FF_0000_0000_0000u64 & 0x2400_0000_0000_0000u64) == 0 &&
        (0x00FF_0000_0000_0000u64 & 0x8100_0000_0000_0000u64) == 0 &&
        (0x00FF_0000_0000_0000u64 & 0x0800_0000_0000_0000u64) == 0 &&
        (0x00FF_0000_0000_0000u64 & 0x1000_0000_0000_0000u64) == 0 &&
        (0x4200_0000_0000_0000u64 & 0x2400_0000_0000_0000u64) == 0 &&
        (0x4200_0000_0000_0000u64 & 0x8100_0000_0000_0000u64) == 0 &&
        (0x4200_0000_0000_0000u64 & 0x0800_0000_0000_0000u64) == 0 &&
        (0x4200_0000_0000_0000u64 & 0x1000_0000_0000_0000u64) == 0 &&
        (0x2400_0000_0000_0000u64 & 0x8100_0000_0000_0000u64) == 0 &&
        (0x2400_0000_0000_0000u64 & 0x0800_0000_0000_0000u64) == 0 &&
        (0x2400_0000_0000_0000u64 & 0x1000_0000_0000_0000u64) == 0 &&
        (0x8100_0000_0000_0000u64 & 0x0800_0000_0000_0000u64) == 0 &&
        (0x8100_0000_0000_0000u64 & 0x1000_0000_0000_0000u64) == 0 &&
        (0x0800_0000_0000_0000u64 & 0x1000_0000_0000_0000u64) == 0
    ) by (bit_vector);
    assert forall|i: int, j: int| 0 <= i < j < 12 implies ((s[i] & s[j]) == 0) by {
    }
}

/// For disjoint masks, bitwise union and arithmetic sum agree, and the sum
/// does not overflow; reading a `Both` occupancy as a sum of the two sides
/// is therefore equivalent to the bitwise union used here.
pub proof fn lemma_disjoint_union_is_sum(a: u64, b: u64)
    requires
        (a & b) == 0,
    ensures
        a + b <= u64::MAX,
        (a | b) == a + b,
{
    assert((a | b) == a + b && a + b < 0x1_0000_0000_0000_0000) by (bit_vector)
        requires
            (a & b) == 0,
    ;
}

/// The occupancy of one piece type: one side's bitboard, or the union of
/// the two sides' bitboards for `Both`.
pub open spec fn spec_occupancy(bbs: Seq<u64>, piece: Piece, player: Player) -> u64 {
    match player {
        Player::White => bbs[spec_piece_index(piece)],
        Player::Black => bbs[spec_piece_index(piece) + 6],
        Player::Both => bbs[spec_piece_index(piece)] | bbs[spec_piece_index(piece) + 6],
    }
}

/// The index scan behind piece lookup: the first index at or after `k`
/// whose bitboard overlaps `pos`, or 12 if none does.
pub open spec fn scan_owner(bbs: Seq<u64>, pos: u64, k: int) -> int
    decreases 12 - k,
{
    if k < 0 || k >= 12 {
        12
    } else if (bbs[k] & pos) != 0 {
        k
    } else {
        scan_owner(bbs, pos, k + 1)
    }
}

/// The lowest index whose bitboard overlaps `pos`, or 12 if no bitboard
/// holds any square of `pos`.
pub open spec fn owner_of(bbs: Seq<u64>, pos: u64) -> int {
    scan_owner(bbs, pos, 0)
}

/// The capture scan: the first index other than `skip` whose bitboard
/// overlaps `pos`, or 12 if none does. The exclusion keeps a move from
/// reading the square its own piece was just written to as a capture.
pub open spec fn scan_other(bbs: Seq<u64>, pos: u64, skip: int, k: int) -> int
    decreases 12 - k,
{
    if k < 0 || k >= 12 {
        12
    } else if k != skip && (bbs[k] & pos) != 0 {
        k
    } else {
        scan_other(bbs, pos, skip, k + 1)
    }
}

/// The lowest index other than `skip` whose bitboard overlaps `pos`, or 12
/// if none does.
pub open spec fn other_owner(bbs: Seq<u64>, pos: u64, skip: int) -> int {
    scan_other(bbs, pos, skip, 0)
}

/// What the owner scan returns: the first overlapping index at or after
/// `k`, with everything before it clear, or 12 when nothing overlaps.
proof fn lemma_scan_owner_props(bbs: Seq<u64>, pos: u64, k: int)
    requires
        0 <= k <= 12,
    ensures
        k <= scan_owner(bbs, pos, k) <= 12,
        scan_owner(bbs, pos, k) < 12 ==> (bbs[scan_owner(bbs, pos, k)] & pos) != 0,
        forall|m: int| k <= m < scan_owner(bbs, pos, k) && m < 12 ==> (bbs[m] & pos) == 0,
    decreases 12 - k,
{
    if k < 12 && (bbs[k] & pos) == 0 {
        lemma_scan_owner_props(bbs, pos, k + 1);
    }
}

/// What the capture scan returns: the first overlapping index other than
/// `skip` at or after `k`, with everything before it clear, or 12.
proof fn lemma_scan_other_props(bbs: Seq<u64>, pos: u64, skip: int, k: int)
    requires
        0 <= k <= 12,
    ensures
        k <= scan_other(bbs, pos, skip, k) <= 12,
        scan_other(bbs, pos, skip, k) < 12 ==> scan_other(bbs, pos, skip, k) != skip && (bbs[scan_other(
            bbs,
            pos,
            skip,
            k,
        )] & pos) != 0,
        forall|m: int|
            k <= m < scan_other(bbs, pos, skip, k) && m < 12 && m != skip ==> (bbs[m] & pos) == 0,
    decreases 12 - k,
{
    if k < 12 && (k == skip || (bbs[k] & pos) == 0) {
        lemma_scan_other_props(bbs, pos, skip, k + 1);
    }
}

/// A chess position: twelve piece-set bitboards plus the side to move, the
/// castling rights and the en-passant target square.
#[derive(Copy, Clone, Debug, PartialEq)]
pub struct Board {
    pub bitboards: [u64; 12],
    pub turn: u64,
    pub castling: u8,
    pub en_passant: u64,
}

impl Board {
    /// The core invariant over this position's bitboards.
    pub open spec fn disjoint(self) -> bool {
        disjoint_bitboards(self.bitboards@)
    }

    /// Validity of the whole position: disjoint piece sets, and an
    /// en-passant target that is empty or a single square.
    pub open spec fn wf(self) -> bool {
        self.disjoint() && (self.en_passant == 0 || single_bit(self.en_passant))
    }

    /// The standard starting position: starting bitboards, White to move,
    /// all castling rights, no en-passant target.
    pub open spec fn is_standard(self) -> bool {
        self.bitboards@ == constants::starting_bitboards() && self.turn == 0
            && self.castling == constants::CASTLING && self.en_passant == 0
    }

    /// An empty position: every field zero.
    pub fn new() -> (b: Board)
        ensures
            b.bitboards@ == Seq::new(12, |i: int| 0u64),
            b.turn == 0,
            b.castling == 0,
            b.en_passant == 0,
            b.wf(),
    {
        let b = Board { bitboards: [0; 12], turn: 0, castling: 0, en_passant: 0 };
        proof {
            assert((0u64 & 0u64) == 0) by (bit_vector);
            assert(b.bitboards@ =~= Seq::new(12, |i: int| 0u64));
        }
        b
    }

    /// Overwrite this position with the standard starting position.
    pub fn reset_board(&mut self)
        ensures
            final(self).is_standard(),
            final(self).wf(),
    {
        self.bitboards = constants::starting_positions();
        self.turn = 0;
        self.castling = constants::CASTLING;
        self.en_passant = 0;
        proof {
            lemma_starting_disjoint();
        }
    }
}

impl Board {
    /// Read the occupancy of one piece type for one side, or the union of
    /// both sides. Total: it returns zero where no such piece remains.
    pub fn get_board(&self, piece: Piece, player: Player) -> (r: u64)
        ensures
            r == spec_occupancy(self.bitboards@, piece, player),
            player is Both ==> r == (spec_occupancy(self.bitboards@, piece, Player::White)
                | spec_occupancy(self.bitboards@, piece, Player::Black)),
            player is Both && self.disjoint() ==> r == spec_occupancy(
                self.bitboards@,
                piece,
                Player::White,
            ) + spec_occupancy(self.bitboards@, piece, Player::Black),
    {
        proof {
            if self.disjoint() {
                lemma_disjoint_union_is_sum(
                    self.bitboards@[spec_piece_index(piece)],
                    self.bitboards@[spec_piece_index(piece) + 6],
                );
            }
        }
        let i = piece_index(piece);
        match player {
            Player::Both => self.bitboards[i] | self.bitboards[i + 6],
            Player::White => self.bitboards[i],
            Player::Black => self.bitboards[i + 6],
        }
    }

    /// Apply one move, trusting the caller that it is legal: clear `from`
    /// and set `to` in the bitboard owning `from`, then clear `to` from the
    /// one other bitboard holding it, if any (the capture). Fails, leaving
    /// the position unchanged, exactly when no bitboard holds `from`. Both
    /// endpoints must denote exactly one square each: multi-bit masks are
    /// excluded by precondition rather than silently aggregated. The turn,
    /// castling and en-passant fields are the caller's to maintain and are
    /// never touched.
    pub fn move_piece(&mut self, from: u64, to: u64) -> (r: Result<(), BoardError>)
        requires
            old(self).disjoint(),
            single_bit(from),
            single_bit(to),
        ensures
            final(self).turn == old(self).turn,
            final(self).castling == old(self).castling,
            final(self).en_passant == old(self).en_passant,
            (r is Ok) == (owner_of(old(self).bitboards@, from) < 12),
            r is Err ==> *final(self) == *old(self) && (forall|k: int|
                0 <= k < 12 ==> (old(self).bitboards@[k] & from) == 0),
            r is Ok ==> final(self).bitboards@ == moved_bitboards(old(self).bitboards@, from, to),
            final(self).disjoint(),
    {
        let moving_piece: usize = match self.get_bitboard_from_pos(from) {
            Ok(r) => r,
            Err(e) => return Err(e),
        };
        let ghost pre = self.bitboards@;
        let ghost i = moving_piece as int;

        self.bitboards[moving_piece] = (self.bitboards[moving_piece] ^ from) | to;

        proof {
            let b = pre[i];
            assert(((b ^ from) | to) == ((b & !from) | to)) by (bit_vector)
                requires
                    from != 0 && (from & ((from - 1) as u64)) == 0 && (b & from) != 0,
            ;
        }

        let mut j: usize = 0;
        while j < 12
            invariant
                j <= 12,
                moving_piece < 12,
                i == moving_piece as int,
                pre == old(self).bitboards@,
                pre.len() == 12,
                disjoint_bitboards(pre),
                single_bit(from),
                single_bit(to),
                owner_of(pre, from) == i,
                (pre[i] & from) != 0,
                self.bitboards@ == pre.update(i, (pre[i] & !from) | to),
                self.turn == old(self).turn,
                self.castling == old(self).castling,
                self.en_passant == old(self).en_passant,
                forall|m: int| 0 <= m < j && m != i ==> (pre[m] & to) == 0,
            decreases 12 - j,
        {
            if j != moving_piece && (self.bitboards[j] & to) != 0 {
                proof {
                    lemma_scan_other_props(pre, to, i, 0);
                    let b = pre[j as int];
                    assert((b ^ to) == (b & !to)) by (bit_vector)
                        requires
                            to != 0 && (to & ((to - 1) as u64)) == 0 && (b & to) != 0,
                    ;
                }
                self.bitboards[j] = self.bitboards[j] ^ to;
                proof {
                    assert(self.bitboards@ =~= moved_bitboards(pre, from, to));
                    lemma_move_preserves_disjoint(pre, from, to);
                }
                return Ok(());
            }
            j = j + 1;
        }
        proof {
            lemma_scan_other_props(pre, to, i, 0);
            assert(self.bitboards@ =~= moved_bitboards(pre, from, to));
            lemma_move_preserves_disjoint(pre, from, to);
        }
        Ok(())
    }

    /// Find which piece set holds a square of `pos`: the index of the first
    /// bitboard overlapping `pos`, or the lookup error when no bitboard
    /// holds any square of it.
    pub fn get_bitboard_from_pos(&self, pos: u64) -> (r: Result<usize, BoardError>)
        ensures
            r matches Ok(i) ==> i as int == owner_of(self.bitboards@, pos) && i < 12 && (
            self.bitboards@[i as int] & pos) != 0 && (forall|k: int|
                0 <= k < i ==> (self.bitboards@[k] & pos) == 0),
            r is Err ==> owner_of(self.bitboards@, pos) == 12 && (forall|k: int|
                0 <= k < 12 ==> (self.bitboards@[k] & pos) == 0),
    {
        let mut i: usize = 0;
        while i < 12
            invariant
                i <= 12,
                forall|k: int| 0 <= k < i ==> (self.bitboards@[k] & pos) == 0,
            decreases 12 - i,
        {
            if (self.bitboards[i] & pos) != 0 {
                proof {
                    lemma_scan_owner_props(self.bitboards@, pos, 0);
                }
                return Ok(i);
            }
            i = i + 1;
        }
        proof {
            lemma_scan_owner_props(self.bitboards@, pos, 0);
        }
        Err(BoardError::NoPieceAtSquare)
    }
}

/// The bitboards after a successful move of the piece on `from` to `to`:
/// the first bitboard owning `from` loses the source bit and gains the
/// destination bit; if a different bitboard holds the destination square,
/// it loses that bit (the capture).
pub open spec fn moved_bitboards(bbs: Seq<u64>, from: u64, to: u64) -> Seq<u64> {
    let i = owner_of(bbs, from);
    let stepped = bbs.update(i, (bbs[i] & !from) | to);
    let j = other_owner(bbs, to, i);
    if j == 12 {
        stepped
    } else {
        stepped.update(j, bbs[j] & !to)
    }
}

/// Under the core invariant, at most one bitboard other than `skip` can
/// hold the single square `pos`, and the capture scan finds it; every
/// index outside `skip` and the scan's result is clear of `pos`.
proof fn lemma_other_owner_unique(bbs: Seq<u64>, pos: u64, skip: int)
    requires
        bbs.len() == 12,
        disjoint_bitboards(bbs),
        single_bit(pos),
    ensures
        forall|k: int|
            0 <= k < 12 && k != skip && k != other_owner(bbs, pos, skip) ==> (bbs[k] & pos) == 0,
{
    let j = other_owner(bbs, pos, skip);
    lemma_scan_other_props(bbs, pos, skip, 0);
    assert forall|k: int|
        0 <= k < 12 && k != skip && k != j implies ((bbs[k] & pos) == 0) by {
        if k > j {
            let a = bbs[j];
            let b = bbs[k];
            assert((b & pos) == 0) by (bit_vector)
                requires
                    pos != 0 && (pos & ((pos - 1) as u64)) == 0 && (a & pos) != 0 && ((a & b) == 0
                        || (b & a) == 0),
            ;
        }
    }
}

/// A successful move keeps the twelve piece sets pairwise disjoint.
pub proof fn lemma_move_preserves_disjoint(bbs: Seq<u64>, from: u64, to: u64)
    requires
        bbs.len() == 12,
        disjoint_bitboards(bbs),
        single_bit(from),
        single_bit(to),
        owner_of(bbs, from) < 12,
    ensures
        disjoint_bitboards(moved_bitboards(bbs, from, to)),
{
    let i = owner_of(bbs, from);
    let j = other_owner(bbs, to, i);
    let nb = moved_bitboards(bbs, from, to);
    lemma_scan_owner_props(bbs, from, 0);
    lemma_scan_other_props(bbs, to, i, 0);
    lemma_other_owner_unique(bbs, to, i);
    assert forall|p: int, q: int| 0 <= p < q < 12 implies ((nb[p] & nb[q]) == 0) by {
        if p == i || q == i {
            let k = if p == i {
                q
            } else {
                p
            };
            let bi = bbs[i];
            let bk = bbs[k];
            if k == j {
                assert((((bi & !from) | to) & (bk & !to)) == 0 && ((bk & !to) & ((bi & !from)
                    | to)) == 0) by (bit_vector)
                    requires
                        (bi & bk) == 0 || (bk & bi) == 0,
                ;
            } else {
                assert((((bi & !from) | to) & bk) == 0 && (bk & ((bi & !from) | to)) == 0)
                    by (bit_vector)
                    requires
                        ((bi & bk) == 0 || (bk & bi) == 0) && (bk & to) == 0,
                ;
            }
        } else if p == j || q == j {
            let k = if p == j {
                q
            } else {
                p
            };
            let bj = bbs[j];
            let bk = bbs[k];
            assert(((bj & !to) & bk) == 0 && (bk & (bj & !to)) == 0) by (bit_vector)
                requires
                    (bj & bk) == 0 || (bk & bj) == 0,
            ;
        }
    }
}

/// A fresh position already reset to the standard starting position.
pub fn new_game() -> (b: Board)
    ensures
        b.is_standard(),
        b.wf(),
{
    let mut b = Board::new();
    b.reset_board();
    b
}

/// Resetting is idempotent: a position reset a second time is identical to
/// the position the first reset produced.
pub proof fn lemma_reset_idempotent(once: Board, twice: Board)
    requires
        once.is_standard(),
        twice.is_standard(),
    ensures
        once == twice,
{
    assert(once.bitboards@ =~= twice.bitboards@);
    assert(once.bitboards == twice.bitboards);
}

/// Move without capture: when no piece set holds the destination square, a
/// successful move changes only the mover's bitboard — the source bit is
/// cleared and the destination bit set — and the total number of occupied
/// squares is unchanged.
pub proof fn lemma_move_without_capture(bbs: Seq<u64>, from: u64, to: u64)
    requires
        bbs.len() == 12,
        disjoint_bitboards(bbs),
        single_bit(from),
        single_bit(to),
        owner_of(bbs, from) < 12,
        forall|k: int| 0 <= k < 12 ==> (bbs[k] & to) == 0,
    ensures
        ({
            let i = owner_of(bbs, from);
            let nb = moved_bitboards(bbs, from, to);
            &&& nb[i] == ((bbs[i] & !from) | to)
            &&& (nb[i] & from) == 0
            &&& (nb[i] & to) != 0
            &&& forall|k: int| 0 <= k < 12 && k != i ==> nb[k] == bbs[k]
            &&& piece_count(nb) == piece_count(bbs)
        }),
{
    let i = owner_of(bbs, from);
    let j = other_owner(bbs, to, i);
    let nb = moved_bitboards(bbs, from, to);
    lemma_scan_owner_props(bbs, from, 0);
    lemma_scan_other_props(bbs, to, i, 0);
    assert(j == 12);
    let b = bbs[i];
    assert((((b & !from) | to) & from) == 0 && (((b & !from) | to) & to) != 0) by (bit_vector)
        requires
            from != 0 && (from & ((from - 1) as u64)) == 0 && to != 0 && (to & ((to - 1) as u64))
                == 0 && (b & from) != 0 && (b & to) == 0,
    ;
    lemma_piece_count_update(bbs, i, (b & !from) | to);
    lemma_squares_move(b, from, to);
}

/// Move with capture: when a piece set other than the mover's holds the
/// destination square, a successful move clears that bit there, clears the
/// source bit and sets the destination bit in the mover's bitboard, leaves
/// every other bitboard unchanged, and the total number of occupied
/// squares drops by exactly one.
pub proof fn lemma_move_with_capture(bbs: Seq<u64>, from: u64, to: u64, cap: int)
    requires
        bbs.len() == 12,
        disjoint_bitboards(bbs),
        single_bit(from),
        single_bit(to),
        owner_of(bbs, from) < 12,
        0 <= cap < 12,
        cap != owner_of(bbs, from),
        (bbs[cap] & to) != 0,
    ensures
        ({
            let i = owner_of(bbs, from);
            let nb = moved_bitboards(bbs, from, to);
            &&& cap == other_owner(bbs, to, i)
            &&& nb[i] == ((bbs[i] & !from) | to)
            &&& (nb[i] & from) == 0
            &&& (nb[i] & to) != 0
            &&& nb[cap] == (bbs[cap] & !to)
            &&& (nb[cap] & to) == 0
            &&& forall|k: int| 0 <= k < 12 && k != i && k != cap ==> nb[k] == bbs[k]
            &&& piece_count(nb) + 1 == piece_count(bbs)
        }),
{
    let i = owner_of(bbs, from);
    let j = other_owner(bbs, to, i);
    let nb = moved_bitboards(bbs, from, to);
    lemma_scan_owner_props(bbs, from, 0);
    lemma_scan_other_props(bbs, to, i, 0);
    lemma_other_owner_unique(bbs, to, i);
    assert(cap == j);
    let b = bbs[i];
    let c = bbs[cap];
    assert((b & to) == 0) by (bit_vector)
        requires
            to != 0 && (to & ((to - 1) as u64)) == 0 && (c & to) != 0 && ((b & c) == 0 || (c & b)
                == 0),
    ;
    assert((((b & !from) | to) & from) == 0 && (((b & !from) | to) & to) != 0 && ((c & !to) & to)
        == 0) by (bit_vector)
        requires
            from != 0 && (from & ((from - 1) as u64)) == 0 && to != 0 && (to & ((to - 1) as u64))
                == 0 && (b & from) != 0 && (b & to) == 0,
    ;
    let stepped = bbs.update(i, (b & !from) | to);
    lemma_piece_count_update(bbs, i, (b & !from) | to);
    lemma_squares_move(b, from, to);
    lemma_piece_count_update(stepped, cap, c & !to);
    lemma_squares_capture(c, to);
}

} // verus!
