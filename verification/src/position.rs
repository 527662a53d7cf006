//! The mathematical model of a position and of applying and taking back a
//! move.

use vstd::prelude::*;
use crate::color::Color;
use crate::genmove::Move;
use crate::pieces::{ColoredPiece, Piece};

verus! {

/// Rank of a square, 0 for the first rank.
pub open spec fn rank_of(square: int) -> int {
    square / 8
}

/// File of a square, 0 for the a-file.
pub open spec fn file_of(square: int) -> int {
    square % 8
}

/// Whether `(rank, file)` names a square of the board.
pub open spec fn on_board(rank: int, file: int) -> bool {
    0 <= rank < 8 && 0 <= file < 8
}

/// The square at `(rank, file)`.
pub open spec fn square_of(rank: int, file: int) -> int {
    rank * 8 + file
}

pub open spec fn is_square(square: int) -> bool {
    0 <= square < 64
}

/// What stands on each of the 64 squares, indexed by square.
pub type Placement = Seq<Option<ColoredPiece>>;

/// The four castling rights.
pub struct CastlingRights {
    pub white_kingside: bool,
    pub white_queenside: bool,
    pub black_kingside: bool,
    pub black_queenside: bool,
}

/// Everything about a position that a FEN text records.
pub struct Position {
    pub placement: Placement,
    pub side_to_move: Color,
    pub castling: CastlingRights,
    /// The square that a pawn may capture onto en passant on the next move.
    pub en_passant: Option<int>,
    pub halfmove_clock: nat,
    pub fullmove_number: nat,
}

/// What applying a move destroys and taking it back needs.
pub struct Undo {
    /// What stood on the destination before the move.
    pub captured: Option<ColoredPiece>,
    pub en_passant: Option<int>,
    pub castling: CastlingRights,
    pub halfmove_clock: nat,
}

/// The piece that stands where `rook` stands moves to `target`; nothing
/// happens where `rook` is empty.
pub open spec fn relocate(placement: Placement, rook: int, target: int) -> Placement {
    match placement[rook] {
        Some(piece) => placement.update(rook, None).update(target, Some(piece)),
        None => placement,
    }
}

impl CastlingRights {
    /// The rights without those of `color`.
    pub open spec fn without_side(self, color: Color) -> CastlingRights {
        match color {
            Color::White => CastlingRights {
                white_kingside: false,
                white_queenside: false,
                ..self
            },
            Color::Black => CastlingRights {
                black_kingside: false,
                black_queenside: false,
                ..self
            },
        }
    }

    /// The rights without the one that belongs to the rook's home square
    /// `corner`; unchanged where `corner` is no such square.
    pub open spec fn without_corner(self, corner: int) -> CastlingRights {
        CastlingRights {
            white_queenside: self.white_queenside && corner != 0,
            white_kingside: self.white_kingside && corner != 7,
            black_queenside: self.black_queenside && corner != 56,
            black_kingside: self.black_kingside && corner != 63,
        }
    }
}

impl CastlingRights {
    /// The rights after `mover` has made `mv` and captured `captured` on the
    /// destination: a king's move ends both rights of its side; a rook that
    /// leaves a corner, or is captured on one, ends the right of that corner.
    pub open spec fn after_move(
        self,
        mover: ColoredPiece,
        mv: Move,
        captured: Option<ColoredPiece>,
    ) -> CastlingRights {
        let after_king = if mover.kind == Piece::King {
            self.without_side(mover.color)
        } else {
            self
        };
        let after_rook = if mover.kind == Piece::Rook {
            after_king.without_corner(mv.from as int)
        } else {
            after_king
        };
        match captured {
            Some(piece) if piece.kind == Piece::Rook => after_rook.without_corner(mv.to as int),
            _ => after_rook,
        }
    }
}

impl Position {
    /// Every square is accounted for and the en-passant target, if any, is a
    /// square.
    pub open spec fn wf(self) -> bool {
        &&& self.placement.len() == 64
        &&& self.en_passant matches Some(square) ==> is_square(square)
    }

    /// The piece that `mv` moves.
    pub open spec fn mover(self, mv: Move) -> ColoredPiece {
        self.placement[mv.from as int].unwrap()
    }

    /// A pawn moves two ranks.
    pub open spec fn is_double_push(self, mv: Move) -> bool {
        let by = rank_of(mv.to as int) - rank_of(mv.from as int);
        self.mover(mv).kind == Piece::Pawn && (by == 2 || by == -2)
    }

    /// The square that a double push passes over.
    pub open spec fn passed_square(mv: Move) -> int {
        square_of((rank_of(mv.from as int) + rank_of(mv.to as int)) / 2, file_of(mv.from as int))
    }

    /// A pawn changes file and lands on the empty en-passant target: it
    /// captures the pawn that has just passed that square.
    pub open spec fn is_en_passant_capture(self, mv: Move) -> bool {
        &&& self.mover(mv).kind == Piece::Pawn
        &&& file_of(mv.from as int) != file_of(mv.to as int)
        &&& self.placement[mv.to as int] is None
        &&& self.en_passant == Some(mv.to as int)
    }

    /// The square one rank behind the destination, as the moving side sees
    /// it: where the pawn stands that an en-passant capture takes.
    pub open spec fn en_passant_victim(self, mv: Move) -> int {
        mv.to as int - 8 * self.mover(mv).color.forward()
    }

    /// A king moves two files.
    pub open spec fn is_castle(self, mv: Move) -> bool {
        let by = file_of(mv.to as int) - file_of(mv.from as int);
        self.mover(mv).kind == Piece::King && (by == 2 || by == -2)
    }

    /// Where the rook stands before the king castles with `mv`: the corner
    /// of the king's rank towards which the king moves.
    pub open spec fn rook_home(mv: Move) -> int {
        let corner: int = if file_of(mv.to as int) > file_of(mv.from as int) {
            7
        } else {
            0
        };
        square_of(rank_of(mv.from as int), corner)
    }

    /// Where the rook stands after the king has castled with `mv`.
    pub open spec fn rook_castled(mv: Move) -> int {
        let file: int = if file_of(mv.to as int) > file_of(mv.from as int) {
            5
        } else {
            3
        };
        square_of(rank_of(mv.from as int), file)
    }

    /// The piece that stands on the destination once `mv` is made.
    pub open spec fn arriving(self, mv: Move) -> ColoredPiece {
        match mv.promotion {
            Some(kind) => ColoredPiece { kind, color: self.mover(mv).color },
            None => self.mover(mv),
        }
    }

    /// Whether `mv` can be applied: it names two squares, a piece stands on
    /// its origin, and an en-passant capture has a square to take from.
    pub open spec fn admits(self, mv: Move) -> bool {
        &&& self.wf()
        &&& mv.from < 64
        &&& mv.to < 64
        &&& self.placement[mv.from as int] is Some
        &&& self.is_en_passant_capture(mv) ==> is_square(self.en_passant_victim(mv))
    }

    /// The move sets the halfmove clock back: a pawn moves or a piece is
    /// captured. (A capture en passant is a pawn's move.)
    pub open spec fn resets_clock(self, mv: Move) -> bool {
        self.mover(mv).kind == Piece::Pawn || self.placement[mv.to as int] is Some
    }

    /// The squares after `mv`.
    pub open spec fn placement_after(self, mv: Move) -> Placement {
        let moved = self.placement.update(mv.to as int, Some(self.mover(mv))).update(
            mv.from as int,
            None,
        );
        let promoted = if mv.promotion is Some {
            moved.update(mv.to as int, Some(self.arriving(mv)))
        } else {
            moved
        };
        let taken = if self.is_en_passant_capture(mv) {
            promoted.update(self.en_passant_victim(mv), None)
        } else {
            promoted
        };
        if self.is_castle(mv) {
            relocate(taken, Self::rook_home(mv), Self::rook_castled(mv))
        } else {
            taken
        }
    }

    /// The castling rights after `mv`.
    pub open spec fn castling_after(self, mv: Move) -> CastlingRights {
        self.castling.after_move(self.mover(mv), mv, self.placement[mv.to as int])
    }

    /// The position after `mv`.
    pub open spec fn apply(self, mv: Move) -> Position {
        Position {
            placement: self.placement_after(mv),
            side_to_move: self.side_to_move.opponent(),
            castling: self.castling_after(mv),
            en_passant: if self.is_double_push(mv) {
                Some(Self::passed_square(mv))
            } else {
                None
            },
            halfmove_clock: if self.resets_clock(mv) {
                0
            } else {
                self.halfmove_clock + 1
            },
            fullmove_number: if self.side_to_move == Color::Black {
                self.fullmove_number + 1
            } else {
                self.fullmove_number
            },
        }
    }

    /// What taking `mv` back will need.
    pub open spec fn undo_of(self, mv: Move) -> Undo {
        Undo {
            captured: self.placement[mv.to as int],
            en_passant: self.en_passant,
            castling: self.castling,
            halfmove_clock: self.halfmove_clock,
        }
    }

    /// The piece that goes back to the origin when `mv` is taken back: the
    /// piece on the destination, or a pawn of its side where `mv` promoted.
    pub open spec fn returning(self, mv: Move) -> ColoredPiece {
        let arrived = self.placement[mv.to as int].unwrap();
        if mv.promotion is Some {
            ColoredPiece { kind: Piece::Pawn, color: arrived.color }
        } else {
            arrived
        }
    }

    /// Taking `mv` back restores a pawn that was captured en passant.
    pub open spec fn restores_pawn(self, mv: Move, undo: Undo) -> bool {
        &&& self.returning(mv).kind == Piece::Pawn
        &&& file_of(mv.from as int) != file_of(mv.to as int)
        &&& undo.captured is None
        &&& undo.en_passant == Some(mv.to as int)
    }

    /// The square on which such a pawn is restored.
    pub open spec fn restored_pawn_square(self, mv: Move) -> int {
        mv.to as int - 8 * self.returning(mv).color.forward()
    }

    /// Taking `mv` back returns a rook from castling.
    pub open spec fn uncastles(self, mv: Move) -> bool {
        let by = file_of(mv.to as int) - file_of(mv.from as int);
        self.returning(mv).kind == Piece::King && (by == 2 || by == -2)
    }

    /// Whether `mv` can be taken back with `undo`: it names two squares, a
    /// piece stands on its destination, the move counter can go back, and a
    /// pawn captured en passant has a square to return to.
    pub open spec fn admits_undo(self, mv: Move, undo: Undo) -> bool {
        &&& self.wf()
        &&& mv.from < 64
        &&& mv.to < 64
        &&& self.placement[mv.to as int] is Some
        &&& undo.en_passant matches Some(square) ==> is_square(square)
        &&& self.side_to_move == Color::White ==> self.fullmove_number > 0
        &&& self.restores_pawn(mv, undo) ==> is_square(self.restored_pawn_square(mv))
    }

    /// The squares after `mv` is taken back.
    pub open spec fn placement_before(self, mv: Move, undo: Undo) -> Placement {
        let back = self.placement.update(mv.from as int, Some(self.returning(mv))).update(
            mv.to as int,
            undo.captured,
        );
        let restored = if self.restores_pawn(mv, undo) {
            back.update(
                self.restored_pawn_square(mv),
                Some(
                    ColoredPiece {
                        kind: Piece::Pawn,
                        color: self.returning(mv).color.opponent(),
                    },
                ),
            )
        } else {
            back
        };
        if self.uncastles(mv) {
            relocate(restored, Self::rook_castled(mv), Self::rook_home(mv))
        } else {
            restored
        }
    }

    /// The position before `mv`, given the position after it and what the
    /// move had destroyed.
    pub open spec fn unapply(self, mv: Move, undo: Undo) -> Position {
        Position {
            placement: self.placement_before(mv, undo),
            side_to_move: self.side_to_move.opponent(),
            castling: undo.castling,
            en_passant: undo.en_passant,
            halfmove_clock: undo.halfmove_clock,
            fullmove_number: if self.side_to_move == Color::White {
                (self.fullmove_number - 1) as nat
            } else {
                self.fullmove_number
            },
        }
    }

    /// The moves that taking back undoes exactly. A promotion starts from a
    /// pawn; the origin and the destination differ; a capture en passant
    /// takes a pawn of the other side; and where a king moves two files, the
    /// rook's two squares are not those of the king and the rook's
    /// destination is empty.
    pub open spec fn reversible(self, mv: Move) -> bool {
        &&& self.admits(mv)
        &&& mv.from != mv.to
        &&& mv.promotion is Some ==> self.mover(mv).kind == Piece::Pawn
        &&& self.is_en_passant_capture(mv) ==> self.placement[self.en_passant_victim(mv)] == Some(
            ColoredPiece { kind: Piece::Pawn, color: self.mover(mv).color.opponent() },
        )
        &&& self.is_castle(mv) ==> {
            &&& Self::rook_home(mv) != mv.from
            &&& Self::rook_home(mv) != mv.to
            &&& Self::rook_castled(mv) != mv.from
            &&& Self::rook_castled(mv) != mv.to
            &&& self.placement[Self::rook_castled(mv)] is None
        }
    }
}

/// Applying a reversible move and taking it back restores the position.
pub proof fn lemma_apply_then_unapply(pos: Position, mv: Move)
    requires
        pos.reversible(mv),
    ensures
        pos.apply(mv).admits_undo(mv, pos.undo_of(mv)),
        pos.apply(mv).unapply(mv, pos.undo_of(mv)) == pos,
{
    let after = pos.apply(mv);
    let undo = pos.undo_of(mv);
    let from = mv.from as int;
    let to = mv.to as int;
    assert(after.placement.len() == 64);
    assert(after.placement[to] == Some(pos.arriving(mv)));
    assert(after.returning(mv) == pos.mover(mv));
    assert(after.restores_pawn(mv, undo) == pos.is_en_passant_capture(mv));
    assert(after.uncastles(mv) == pos.is_castle(mv));
    assert(after.placement_before(mv, undo) =~= pos.placement);
}

/// A move leaves an en-passant target exactly when it is a pawn's double
/// step, and then the target is the square that the pawn passed over.
pub proof fn lemma_en_passant_target_after_move(pos: Position, mv: Move)
    requires
        pos.admits(mv),
    ensures
        pos.is_double_push(mv) ==> pos.apply(mv).en_passant == Some(Position::passed_square(mv))
            && is_square(Position::passed_square(mv)),
        !pos.is_double_push(mv) ==> pos.apply(mv).en_passant is None,
        pos.apply(mv).wf(),
{
}

/// The halfmove clock is zero after a move exactly when a pawn moved or a
/// piece was captured, en passant included; after any other move it is one
/// more than before.
pub proof fn lemma_halfmove_clock_after_move(pos: Position, mv: Move)
    requires
        pos.admits(mv),
    ensures
        pos.apply(mv).halfmove_clock == 0 <==> pos.mover(mv).kind == Piece::Pawn
            || pos.placement[mv.to as int] is Some || pos.is_en_passant_capture(mv),
        pos.apply(mv).halfmove_clock != 0 ==> pos.apply(mv).halfmove_clock == pos.halfmove_clock
            + 1,
{
}

} // verus!
