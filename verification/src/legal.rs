//! Legal moves, check, and the end of the game.

use vstd::prelude::*;
use crate::attack::is_attacked;
use crate::board::{Board, GameResult};
use crate::color::Color;
use crate::coordinates::array_indices_to_square;
use crate::genmove::{Move, MoveList, Square};
use crate::move_generation::{pseudo_legal_moves, scan_square};
use crate::pieces::{ColoredPiece, Piece};
use crate::position::{Placement, Position};

verus! {

/// The king of `color` stands on `square`.
pub open spec fn is_king_of(placement: Placement, square: int, color: Color) -> bool {
    placement[square] == Some(ColoredPiece { kind: Piece::King, color })
}

/// The first square that holds a king of `color`, going through the board
/// from its `n`-th square on.
pub open spec fn king_from(placement: Placement, color: Color, n: int) -> Option<int>
    decreases 64 - n,
{
    if n >= 64 {
        None
    } else if is_king_of(placement, scan_square(n), color) {
        Some(scan_square(n))
    } else {
        king_from(placement, color, n + 1)
    }
}

/// The square of the king of `color`: the first one met when the board is
/// gone through from a8 to h1.
pub open spec fn king_square(placement: Placement, color: Color) -> Option<int> {
    king_from(placement, color, 0)
}

/// The king of `color` is on the board and no piece of the other side
/// attacks it.
pub open spec fn king_is_safe(placement: Placement, color: Color) -> bool {
    match king_square(placement, color) {
        Some(square) => !is_attacked(placement, square, color.opponent()),
        None => false,
    }
}

/// The king of the side to move is attacked.
pub open spec fn in_check(pos: Position) -> bool {
    match king_square(pos.placement, pos.side_to_move) {
        Some(square) => is_attacked(pos.placement, square, pos.side_to_move.opponent()),
        None => false,
    }
}

/// After `mv` the mover's own king is on the board and not attacked.
pub open spec fn keeps_king_safe(pos: Position, mv: Move) -> bool {
    king_is_safe(pos.placement_after(mv), pos.side_to_move)
}

/// The legal moves of a position: the pseudo-legal moves that leave the
/// mover's king safe, in the order in which they are generated.
pub open spec fn legal_moves(pos: Position) -> Seq<Move> {
    pseudo_legal_moves(pos).filter(|mv: Move| keeps_king_safe(pos, mv))
}

/// The side to move is in check and has no legal move.
pub open spec fn is_checkmated(pos: Position) -> bool {
    in_check(pos) && legal_moves(pos).len() == 0
}

/// The side to move is not in check and has no legal move.
pub open spec fn is_stalemated(pos: Position) -> bool {
    !in_check(pos) && legal_moves(pos).len() == 0
}

/// The result of the game once the position has been looked at: a result
/// other than in progress stays; a game in progress ends where the side to
/// move is checkmated, which the other side wins, or stalemated.
pub open spec fn result_after(pos: Position, result: GameResult) -> GameResult {
    if result != GameResult::InProgress {
        result
    } else if is_checkmated(pos) {
        GameResult::Checkmate(pos.side_to_move.opponent())
    } else if is_stalemated(pos) {
        GameResult::Stalemate
    } else {
        GameResult::InProgress
    }
}

/// Looking at a position a second time changes nothing, and a game that is
/// over stays as it ended.
pub proof fn lemma_result_is_sticky(pos: Position, result: GameResult)
    ensures
        result_after(pos, result_after(pos, result)) == result_after(pos, result),
        result != GameResult::InProgress ==> result_after(pos, result) == result,
{
}

/// A position is never both checkmate and stalemate, and a legal move is
/// always a pseudo-legal move that keeps the king safe.
pub proof fn lemma_legal_moves_are_safe(pos: Position, i: int)
    requires
        0 <= i < legal_moves(pos).len(),
    ensures
        !(is_checkmated(pos) && is_stalemated(pos)),
        pseudo_legal_moves(pos).contains(legal_moves(pos)[i]),
        keeps_king_safe(pos, legal_moves(pos)[i]),
{
    let pred = |mv: Move| keeps_king_safe(pos, mv);
    pseudo_legal_moves(pos).lemma_filter_pred(pred, i);
    assert(legal_moves(pos).contains(legal_moves(pos)[i]));
    pseudo_legal_moves(pos).lemma_filter_contains_rev(pred, legal_moves(pos)[i]);
}

impl Board {
    /// The square of the king of `color`: the first one met when the board
    /// is gone through from a8 to h1, or nothing where there is no such king.
    pub fn find_king_square(&self, color: Color) -> (found: Option<Square>)
        ensures
            match found {
                Some(square) => king_square(self@.placement, color) == Some(square as int) && square
                    < 64,
                None => king_square(self@.placement, color) is None,
            },
    {
        let mut n: usize = 0;
        while n < 64
            invariant
                n <= 64,
                king_square(self@.placement, color) == king_from(self@.placement, color, n as int),
            decreases 64 - n,
        {
            let square = array_indices_to_square(n / 8, n % 8);
            if let Some(piece) = self.piece_on(square) {
                if piece.color == color && piece.kind == Piece::King {
                    return Some(square);
                }
            }
            n += 1;
        }
        None
    }

    /// Whether the king of `color` is on the board and not attacked.
    fn has_safe_king(&self, color: Color) -> (safe: bool)
        ensures
            safe == king_is_safe(self@.placement, color),
    {
        match self.find_king_square(color) {
            Some(king_sq) => !self.is_square_attacked(king_sq, color.other()),
            None => false,
        }
    }

    /// The legal moves of the side to move: each pseudo-legal move is tried
    /// on a copy of the position and kept where the mover's king is safe
    /// afterwards.
    pub fn generate_legal_moves(&self) -> (moves: MoveList)
        requires
            self.wf(),
        ensures
            moves@ == legal_moves(self@),
            forall|i: int| 0 <= i < moves@.len() ==> self@.admits(#[trigger] moves@[i]),
    {
        let pseudo_legal = self.generate_pseudo_legal_moves();
        let mut legal: MoveList = Vec::new();
        let current_player_color = self.active_color;
        let ghost pred = |mv: Move| keeps_king_safe(self@, mv);
        let mut i: usize = 0;
        assert(pseudo_legal@.take(0) =~= Seq::empty());
        assert(Seq::<Move>::empty().filter(pred) =~= Seq::empty()) by {
            reveal(Seq::filter);
        }
        while i < pseudo_legal.len()
            invariant
                i <= pseudo_legal.len(),
                self.wf(),
                current_player_color == self.active_color,
                pred == (|mv: Move| keeps_king_safe(self@, mv)),
                forall|k: int|
                    0 <= k < pseudo_legal@.len() ==> self@.admits(#[trigger] pseudo_legal@[k]),
                legal@ == pseudo_legal@.take(i as int).filter(pred),
                forall|k: int| 0 <= k < legal@.len() ==> self@.admits(#[trigger] legal@[k]),
            decreases pseudo_legal.len() - i,
        {
            let mv = pseudo_legal[i];
            let mut temp_board = self.scratch_copy();
            assert(temp_board@.admits(mv)) by {
                assert(self@.admits(pseudo_legal@[i as int]));
            }
            assert(temp_board@.placement_after(mv) == self@.placement_after(mv));
            temp_board.make_move(&mv);
            let keep = temp_board.has_safe_king(current_player_color);
            assert(keep == pred(mv));
            proof {
                pseudo_legal@.take(i as int).lemma_filter_push(mv, pred);
                assert(pseudo_legal@.take(i as int).push(mv) =~= pseudo_legal@.take(i + 1));
            }
            if keep {
                legal.push(mv);
            }
            i += 1;
        }
        assert(pseudo_legal@.take(pseudo_legal.len() as int) =~= pseudo_legal@);
        legal
    }

    /// Whether the king of the side to move is attacked.
    pub fn is_in_check(&self) -> (check: bool)
        ensures
            check == in_check(self@),
    {
        let current_player_color = self.active_color;
        match self.find_king_square(current_player_color) {
            Some(king_sq) => self.is_square_attacked(king_sq, current_player_color.other()),
            None => false,
        }
    }

    /// Whether the side to move is in check and has no legal move.
    pub fn is_checkmate(&self) -> (mate: bool)
        requires
            self.wf(),
        ensures
            mate == is_checkmated(self@),
    {
        self.is_in_check() && self.generate_legal_moves().len() == 0
    }

    /// Whether the side to move is not in check and has no legal move.
    pub fn is_stalemate(&self) -> (stale: bool)
        requires
            self.wf(),
        ensures
            stale == is_stalemated(self@),
    {
        !self.is_in_check() && self.generate_legal_moves().len() == 0
    }

    /// Whether the game has been found to be over.
    pub fn is_game_over(&self) -> (over: bool)
        ensures
            over == (self.game_result != GameResult::InProgress),
    {
        self.game_result != GameResult::InProgress
    }

    /// Looks at the position and records the end of the game where it has
    /// come. Nothing but the result changes, and a result once recorded
    /// stays.
    pub fn update_game_result(&mut self)
        requires
            old(self).wf(),
        ensures
            final(self).game_result == result_after(old(self)@, old(self).game_result),
            *final(self) == (Board { game_result: final(self).game_result, ..*old(self) }),
    {
        if self.game_result != GameResult::InProgress {
            return ;
        }
        if self.is_checkmate() {
            let winner = self.active_color.other();
            self.game_result = GameResult::Checkmate(winner);
        } else if self.is_stalemate() {
            self.game_result = GameResult::Stalemate;
        }
    }
}

} // verus!
