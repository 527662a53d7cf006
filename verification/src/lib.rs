//! A chess position that can be read from and written to FEN, the moves that
//! can be made on it, making and taking back moves, and telling check,
//! checkmate and stalemate.

pub mod attack;
pub mod bitboard;
pub mod board;
pub mod color;
pub mod consistency;
pub mod coordinates;
pub mod error;
pub mod fen;
pub mod fen_round_trip;
pub mod file;
pub mod genmove;
pub mod legal;
pub mod move_generation;
pub mod pieces;
pub mod position;
pub mod rank;
pub mod reach;
pub mod text;

pub use crate::bitboard::{bit_table, count_bits, pop_bit};
pub use crate::board::{get_piece_at_square, Board, GameResult, PreviousBoardState};
pub use crate::color::{Color, ALL_COLOR, NUM_COLORS};
pub use crate::coordinates::{
    array_indices_to_square, rank_file_enums_to_square, square_to_array_indices,
    square_to_rank_file_enums,
};
pub use crate::error::{Error, FenParseError};
pub use crate::file::{File, ALL_FILES, NUM_FILES};
pub use crate::genmove::{Move, MoveList, Square};
pub use crate::pieces::{
    ColoredPiece, Piece, Pieces, ALL_PIECES, NUM_PIECES, NUM_PROMOTION_PIECES, PROMOTION_PIECES,
};
pub use crate::rank::{Rank, ALL_RANKS, NUM_RANKS};
