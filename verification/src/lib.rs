//! A compact bitboard representation of a chess position.
//!
//! The board state is twelve 64-bit piece-set masks (one per piece type and
//! colour), kept pairwise disjoint, together with the side to move, the
//! castling rights and the en-passant target square. The library offers
//! construction and reset to the standard starting position, occupancy
//! queries, and a single unchecked move-application primitive; legality
//! checking and move generation are left to callers.

pub mod board;
pub mod constants;
pub mod counting;
pub mod utils;
