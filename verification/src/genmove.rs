//! Moves and lists of moves.

use vstd::prelude::*;
use crate::pieces::Piece;

verus! {

/// A square of the board, numbered 0 to 63 rank by rank from a1 to h8.
pub type Square = u8;

/// A move names its origin, its destination and, for a promotion, the kind
/// of the new piece. What it captures and whether it castles follow from the
/// position to which it is applied.
#[derive(Debug, Copy, Clone, PartialEq, Eq, Hash, Structural)]
pub struct Move {
    pub from: Square,
    pub to: Square,
    pub promotion: Option<Piece>,
}

impl Move {
    pub fn new(from: Square, to: Square, promotion: Option<Piece>) -> (mv: Self)
        ensures
            mv == (Move { from, to, promotion }),
    {
        Move { from, to, promotion }
    }

    pub fn new_quiet(from: Square, to: Square) -> (mv: Self)
        ensures
            mv == (Move { from, to, promotion: None }),
    {
        Move { from, to, promotion: None }
    }

    pub fn new_promotion(from: Square, to: Square, promotion_piece: Piece) -> (mv: Self)
        ensures
            mv == (Move { from, to, promotion: Some(promotion_piece) }),
    {
        Move { from, to, promotion: Some(promotion_piece) }
    }
}

pub type MoveList = Vec<Move>;

} // verus!
