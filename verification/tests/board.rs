use chess_core::board::castling_mask;
use chess_core::board::new_game;
use chess_core::board::piece_index;
use chess_core::board::Board;
use chess_core::board::BoardError;
use chess_core::board::Castling;
use chess_core::board::Piece;
use chess_core::board::Player;
use chess_core::constants::starting_positions;
use chess_core::constants::CASTLING;
use chess_core::utils::only_one_bit_set;

const ALL_PIECES: [Piece; 6] = [
    Piece::Pawn,
    Piece::Knight,
    Piece::Bishop,
    Piece::Rooke,
    Piece::Queen,
    Piece::King,
];

fn total_pieces(b: &Board) -> u32 {
    b.bitboards.iter().map(|bb| bb.count_ones()).sum()
}

#[test]
fn test_get_board() {
    let mut b = Board::new();
    b.reset_board();
    let types = [
        Piece::Pawn,
        Piece::Knight,
        Piece::Bishop,
        Piece::Rooke,
        Piece::Queen,
        Piece::King,
    ];
    let start = starting_positions();
    for i in 0..types.len() {
        assert_eq!(b.get_board(types[i], Player::Both), start[i] + start[i + 6]);
    }
}

#[test]
fn test_only_one_bit_set() {
    assert!(only_one_bit_set(1));
    assert!(only_one_bit_set(2));
    assert!(only_one_bit_set(0x8000000000000000));
    assert!(!only_one_bit_set(0));
    assert!(!only_one_bit_set(3));
    assert!(!only_one_bit_set(6));
}

#[test]
fn test_new_is_zeroed() {
    let b = Board::new();
    assert_eq!(b.bitboards, [0u64; 12]);
    assert_eq!(b.turn, 0);
    assert_eq!(b.castling, 0);
    assert_eq!(b.en_passant, 0);
}

#[test]
fn test_new_game_is_standard() {
    let g = new_game();
    assert_eq!(g.bitboards, starting_positions());
    assert_eq!(g.turn, 0);
    assert_eq!(g.castling, CASTLING);
    assert_eq!(g.en_passant, 0);
    let mut b = Board::new();
    b.reset_board();
    assert_eq!(g, b);
}

#[test]
fn test_reset_is_idempotent() {
    let mut b = Board::new();
    b.reset_board();
    let once = b;
    b.reset_board();
    assert_eq!(b, once);
}

#[test]
fn test_castling_masks() {
    assert_eq!(castling_mask(Castling::WhiteKing), 1);
    assert_eq!(castling_mask(Castling::WhiteQueen), 2);
    assert_eq!(castling_mask(Castling::BlackKing), 4);
    assert_eq!(castling_mask(Castling::BlackQueen), 8);
    assert_eq!(CASTLING, 1 | 2 | 4 | 8);
}

#[test]
fn test_piece_indices() {
    for (expect, piece) in ALL_PIECES.iter().enumerate() {
        assert_eq!(piece_index(*piece), expect);
    }
}

#[test]
fn test_occupancy_both_is_union() {
    let g = new_game();
    for piece in ALL_PIECES {
        assert_eq!(
            g.get_board(piece, Player::Both),
            g.get_board(piece, Player::White) | g.get_board(piece, Player::Black)
        );
    }
}

#[test]
fn test_standard_occupancy() {
    let g = new_game();
    // Canonical squares of every piece set.
    assert_eq!(g.get_board(Piece::Pawn, Player::White), 0x0000_0000_0000_FF00);
    assert_eq!(g.get_board(Piece::Knight, Player::White), 0x0000_0000_0000_0042);
    assert_eq!(g.get_board(Piece::Bishop, Player::White), 0x0000_0000_0000_0024);
    assert_eq!(g.get_board(Piece::Rooke, Player::White), 0x0000_0000_0000_0081);
    assert_eq!(g.get_board(Piece::Queen, Player::White), 0x0000_0000_0000_0008);
    assert_eq!(g.get_board(Piece::King, Player::White), 0x0000_0000_0000_0010);
    assert_eq!(g.get_board(Piece::Pawn, Player::Black), 0x00FF_0000_0000_0000);
    assert_eq!(g.get_board(Piece::Knight, Player::Black), 0x4200_0000_0000_0000);
    assert_eq!(g.get_board(Piece::Bishop, Player::Black), 0x2400_0000_0000_0000);
    assert_eq!(g.get_board(Piece::Rooke, Player::Black), 0x8100_0000_0000_0000);
    assert_eq!(g.get_board(Piece::Queen, Player::Black), 0x0800_0000_0000_0000);
    assert_eq!(g.get_board(Piece::King, Player::Black), 0x1000_0000_0000_0000);
    // Piece counts per side.
    for player in [Player::White, Player::Black] {
        assert_eq!(g.get_board(Piece::Pawn, player).count_ones(), 8);
        assert_eq!(g.get_board(Piece::Knight, player).count_ones(), 2);
        assert_eq!(g.get_board(Piece::Bishop, player).count_ones(), 2);
        assert_eq!(g.get_board(Piece::Rooke, player).count_ones(), 2);
        assert_eq!(g.get_board(Piece::Queen, player).count_ones(), 1);
        assert_eq!(g.get_board(Piece::King, player).count_ones(), 1);
    }
}

#[test]
fn test_locate_piece_set() {
    let g = new_game();
    assert_eq!(g.get_bitboard_from_pos(1u64 << 8), Ok(0));
    assert_eq!(g.get_bitboard_from_pos(1u64 << 4), Ok(5));
    assert_eq!(g.get_bitboard_from_pos(1u64 << 48), Ok(6));
    assert_eq!(g.get_bitboard_from_pos(1u64 << 60), Ok(11));
    assert_eq!(
        g.get_bitboard_from_pos(1u64 << 16),
        Err(BoardError::NoPieceAtSquare)
    );
}

#[test]
fn test_move_without_capture() {
    // Knight b1 to c3: the destination is empty.
    let mut g = new_game();
    let before = g;
    let count = total_pieces(&g);
    let r = g.move_piece(1u64 << 1, 1u64 << 18);
    assert_eq!(r, Ok(()));
    assert_eq!(
        g.get_board(Piece::Knight, Player::White),
        (0x42u64 & !(1u64 << 1)) | (1u64 << 18)
    );
    for i in 0..12 {
        if i != 1 {
            assert_eq!(g.bitboards[i], before.bitboards[i]);
        }
    }
    assert_eq!(total_pieces(&g), count);
}

#[test]
fn test_move_with_capture() {
    // White pawn a2 takes the black pawn on a7 (legality is not checked).
    let mut g = new_game();
    let before = g;
    let count = total_pieces(&g);
    let r = g.move_piece(1u64 << 8, 1u64 << 48);
    assert_eq!(r, Ok(()));
    assert_eq!(
        g.get_board(Piece::Pawn, Player::White),
        0xFE00u64 | (1u64 << 48)
    );
    assert_eq!(
        g.get_board(Piece::Pawn, Player::Black),
        0x00FF_0000_0000_0000u64 & !(1u64 << 48)
    );
    for i in 0..12 {
        if i != 0 && i != 6 {
            assert_eq!(g.bitboards[i], before.bitboards[i]);
        }
    }
    assert_eq!(total_pieces(&g), count - 1);
}

#[test]
fn test_capture_in_lower_indexed_board() {
    // Black knight b8 lands on the white pawn a2: the captured piece's
    // bitboard has a lower index than the mover's.
    let mut g = new_game();
    let r = g.move_piece(1u64 << 57, 1u64 << 8);
    assert_eq!(r, Ok(()));
    assert_eq!(g.get_board(Piece::Pawn, Player::White), 0xFE00);
    assert_eq!(
        g.get_board(Piece::Knight, Player::Black),
        (0x4200_0000_0000_0000u64 & !(1u64 << 57)) | (1u64 << 8)
    );
    assert_eq!(total_pieces(&g), 31);
}

#[test]
fn test_move_from_empty_square_fails() {
    let mut g = new_game();
    let before = g;
    let r = g.move_piece(1u64 << 16, 1u64 << 24);
    assert_eq!(r, Err(BoardError::NoPieceAtSquare));
    assert_eq!(g.bitboards, before.bitboards);
    assert_eq!(g, before);
}

#[test]
fn test_example_pawn_push() {
    // From the standard position, a2 ("bit 8") to a3 ("bit 16") succeeds:
    // the white pawn board loses bit 8 and gains bit 16, nothing else moves.
    let mut g = new_game();
    let before = g;
    let r = g.move_piece(1u64 << 8, 1u64 << 16);
    assert_eq!(r, Ok(()));
    assert_eq!(g.bitboards[0], 0x0001_FE00);
    for i in 1..12 {
        assert_eq!(g.bitboards[i], before.bitboards[i]);
    }
    assert_eq!(g.turn, before.turn);
    assert_eq!(g.castling, before.castling);
    assert_eq!(g.en_passant, before.en_passant);
}
