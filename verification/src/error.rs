//! Errors reported by the library.

use vstd::prelude::*;

verus! {

/// Why a text was rejected as a FEN. Where a variant carries a text, it is
/// the part of the input that was found at fault: a field, or one rank of
/// the placement field.
#[derive(Clone, Debug, PartialEq, Eq)]
pub enum FenParseError {
    /// The placement field does not hold eight ranks, or holds the digit 0
    /// or 9. Carries the placement field.
    InvalidFormat(String),
    /// A character of the placement field names no piece.
    InvalidPiece(char),
    /// A rank of the placement field does not describe exactly eight files.
    /// Carries the rank.
    InvalidRankLength(String),
    /// Not reported by the reader, which tells a wrong number of fields by
    /// [`FenParseError::NotEnoughParts`] whether they are too few or too many.
    TooManyParts,
    /// The text does not consist of exactly six fields.
    NotEnoughParts,
    /// The second field is neither `w` nor `b`.
    InvalidActiveColor(String),
    /// The third field is neither `-` nor made of the letters `KQkq`.
    InvalidCastlingRights(String),
    /// The fourth field is neither `-` nor a square that a pawn of the side
    /// not to move can just have passed.
    InvalidEnPassantTarget(String),
    /// The fifth field is no number that fits 32 bits.
    InvalidHalfmoveClock(String),
    /// The sixth field is no number that fits 32 bits, or is zero.
    InvalidFullmoveNumber(String),
}

#[derive(Clone, Debug)]
pub enum Error {
    InvalidFenGeneral { fen_string: String },
    /// A text was rejected as a FEN.
    FenParsing(FenParseError),
    InvalidBoard,
    InvalidSquare,
    InvalidSanMove,
    InvalidUciMove,
    /// A text does not start with a digit from 1 to 8.
    InvalidRank,
    /// A text does not start with a letter from a to h.
    InvalidFile,
}

} // verus!
