//! The moves that the pieces of the side to move can make, king safety
//! aside.

use vstd::prelude::*;
use crate::attack::{
    all_directions, all_short, bishop_direction_table, bishop_directions, is_direction,
    king_offset_table, king_offsets, knight_offset_table, knight_offsets, rank_and_file,
    ray_room, rook_direction_table, rook_directions,
};
use crate::board::Board;
use crate::color::Color;
use crate::coordinates::{array_indices_to_square, offset_square, square_at};
use crate::genmove::{Move, MoveList, Square};
use crate::pieces::{promotion_kinds, Piece};
use crate::position::{file_of, on_board, rank_of, square_of, Placement, Position};

verus! {

/// The move from `from` to `to` that promotes nothing.
pub open spec fn quiet(from: int, to: int) -> Move {
    Move { from: from as u8, to: to as u8, promotion: None }
}

/// A piece of `color` may land on `square`: it is empty or holds a piece of
/// the other side.
pub open spec fn can_land(placement: Placement, square: int, color: Color) -> bool {
    placement[square] matches Some(piece) ==> piece.color != color
}

/// The move by `offset`, where that stays on the board and lands on no piece
/// of the mover's own side.
pub open spec fn step_moves(placement: Placement, from: int, color: Color, offset: (i8, i8)) -> Seq<
    Move,
> {
    let rank = rank_of(from) + offset.0;
    let file = file_of(from) + offset.1;
    if on_board(rank, file) && can_land(placement, square_of(rank, file), color) {
        seq![quiet(from, square_of(rank, file))]
    } else {
        Seq::empty()
    }
}

/// The moves of a piece that leaps by `offsets`, in the order of the offsets.
pub open spec fn leap_moves(
    placement: Placement,
    from: int,
    color: Color,
    offsets: Seq<(i8, i8)>,
) -> Seq<Move>
    decreases offsets.len(),
{
    if offsets.len() == 0 {
        Seq::empty()
    } else {
        leap_moves(placement, from, color, offsets.drop_last()) + step_moves(
            placement,
            from,
            color,
            offsets.last(),
        )
    }
}

/// The moves of a piece from `from` along one ray, beginning with the
/// square after `(rank, file)`: every empty square up to the first occupied
/// one, and that one too where it holds a piece of the other side.
pub open spec fn ray_moves(
    placement: Placement,
    from: int,
    color: Color,
    rank: int,
    file: int,
    dir: (i8, i8),
) -> Seq<Move>
    decreases ray_room(rank, file, dir),
{
    let r = rank + dir.0;
    let f = file + dir.1;
    if !is_direction(dir) || !on_board(r, f) {
        Seq::empty()
    } else {
        match placement[square_of(r, f)] {
            None => seq![quiet(from, square_of(r, f))] + ray_moves(
                placement,
                from,
                color,
                r,
                f,
                dir,
            ),
            Some(piece) => if piece.color != color {
                seq![quiet(from, square_of(r, f))]
            } else {
                Seq::empty()
            },
        }
    }
}

/// The moves of a piece that slides along `dirs`, ray by ray.
pub open spec fn slide_moves(
    placement: Placement,
    from: int,
    color: Color,
    dirs: Seq<(i8, i8)>,
) -> Seq<Move>
    decreases dirs.len(),
{
    if dirs.len() == 0 {
        Seq::empty()
    } else {
        slide_moves(placement, from, color, dirs.drop_last()) + ray_moves(
            placement,
            from,
            color,
            rank_of(from),
            file_of(from),
            dirs.last(),
        )
    }
}

/// The rank on which the pawns of `color` start.
pub open spec fn pawn_start_rank(color: Color) -> int {
    match color {
        Color::White => 1,
        Color::Black => 6,
    }
}

/// The rank on which the pawns of `color` promote.
pub open spec fn promotion_rank(color: Color) -> int {
    match color {
        Color::White => 7,
        Color::Black => 0,
    }
}

/// The rank from which the pawns of `color` capture en passant.
pub open spec fn en_passant_rank(color: Color) -> int {
    match color {
        Color::White => 4,
        Color::Black => 3,
    }
}

/// The rank on which the king and the rooks of `color` start.
pub open spec fn home_rank(color: Color) -> int {
    match color {
        Color::White => 0,
        Color::Black => 7,
    }
}

/// The promotion of a pawn from `from` on `to`, to the `i`-th kind.
pub open spec fn promotion(from: int, to: int, i: int) -> Move {
    Move { from: from as u8, to: to as u8, promotion: Some(promotion_kinds()[i]) }
}

/// A pawn's arrival on `to`: one move, or on the far rank one move for each
/// kind that it may promote to.
pub open spec fn pawn_arrivals(from: int, to: int, color: Color) -> Seq<Move> {
    if rank_of(to) == promotion_rank(color) {
        Seq::new(4, |i: int| promotion(from, to, i))
    } else {
        seq![quiet(from, to)]
    }
}

/// A pawn's steps straight ahead: one onto an empty square, and from the
/// starting rank a second one onto an empty square behind that.
pub open spec fn pawn_pushes(placement: Placement, from: int, color: Color) -> Seq<Move> {
    let rank = rank_of(from);
    let file = file_of(from);
    let one = square_of(rank + color.forward(), file);
    let two = square_of(rank + 2 * color.forward(), file);
    if on_board(rank + color.forward(), file) && placement[one] is None {
        pawn_arrivals(from, one, color) + (if rank == pawn_start_rank(color) && placement[two] is None {
            seq![quiet(from, two)]
        } else {
            Seq::empty()
        })
    } else {
        Seq::empty()
    }
}

/// A pawn's capture towards the file `side` (-1 or 1) away: onto a piece of
/// the other side diagonally in front.
pub open spec fn pawn_capture(placement: Placement, from: int, color: Color, side: int) -> Seq<Move> {
    let rank = rank_of(from) + color.forward();
    let file = file_of(from) + side;
    if on_board(rank, file) && placement[square_of(rank, file)] is Some && can_land(
        placement,
        square_of(rank, file),
        color,
    ) {
        pawn_arrivals(from, square_of(rank, file), color)
    } else {
        Seq::empty()
    }
}

/// A pawn's capture en passant: from its fifth rank onto the en-passant
/// target, where that is diagonally in front of it.
pub open spec fn pawn_en_passant(target: Option<int>, from: int, color: Color) -> Seq<Move> {
    match target {
        Some(square) => {
            let side = file_of(square) - file_of(from);
            if rank_of(from) == en_passant_rank(color) && rank_of(square) == rank_of(from)
                + color.forward() && (side == 1 || side == -1) {
                seq![quiet(from, square)]
            } else {
                Seq::empty()
            }
        },
        None => Seq::empty(),
    }
}

/// All moves of a pawn of `color` on `from`.
pub open spec fn pawn_moves(pos: Position, from: int, color: Color) -> Seq<Move> {
    pawn_pushes(pos.placement, from, color) + pawn_capture(pos.placement, from, color, -1)
        + pawn_capture(pos.placement, from, color, 1) + pawn_en_passant(
        pos.en_passant,
        from,
        color,
    )
}

/// The king's move to the g-file of its home rank, offered while `color` may
/// castle kingside and the f- and g-file squares of that rank are empty.
pub open spec fn kingside_castle(pos: Position, from: int, color: Color) -> Seq<Move> {
    let rank = home_rank(color);
    let may = match color {
        Color::White => pos.castling.white_kingside,
        Color::Black => pos.castling.black_kingside,
    };
    if may && pos.placement[square_of(rank, 5)] is None && pos.placement[square_of(rank, 6)] is None {
        seq![quiet(from, square_of(rank, 6))]
    } else {
        Seq::empty()
    }
}

/// The king's move to the c-file of its home rank, offered while `color` may
/// castle queenside and the b-, c- and d-file squares of that rank are empty.
pub open spec fn queenside_castle(pos: Position, from: int, color: Color) -> Seq<Move> {
    let rank = home_rank(color);
    let may = match color {
        Color::White => pos.castling.white_queenside,
        Color::Black => pos.castling.black_queenside,
    };
    if may && pos.placement[square_of(rank, 1)] is None && pos.placement[square_of(rank, 2)] is None
        && pos.placement[square_of(rank, 3)] is None {
        seq![quiet(from, square_of(rank, 2))]
    } else {
        Seq::empty()
    }
}

/// All moves of a king of `color` on `from`: its steps, then castling.
/// Whether the squares that the king starts from, crosses or reaches are
/// attacked is not looked at here.
pub open spec fn king_moves(pos: Position, from: int, color: Color) -> Seq<Move> {
    leap_moves(pos.placement, from, color, king_offsets()) + kingside_castle(pos, from, color)
        + queenside_castle(pos, from, color)
}

/// The moves of a piece of kind `kind` and side `color` on `from`.
pub open spec fn moves_of_kind(pos: Position, from: int, kind: Piece, color: Color) -> Seq<Move> {
    match kind {
        Piece::Pawn => pawn_moves(pos, from, color),
        Piece::Knight => leap_moves(pos.placement, from, color, knight_offsets()),
        Piece::Bishop => slide_moves(pos.placement, from, color, bishop_directions()),
        Piece::Rook => slide_moves(pos.placement, from, color, rook_directions()),
        Piece::Queen => slide_moves(pos.placement, from, color, king_offsets()),
        Piece::King => king_moves(pos, from, color),
    }
}

/// The moves from `from`: those of the piece on it, where that belongs to
/// the side to move.
pub open spec fn moves_from(pos: Position, from: int) -> Seq<Move> {
    match pos.placement[from] {
        Some(piece) if piece.color == pos.side_to_move => moves_of_kind(
            pos,
            from,
            piece.kind,
            piece.color,
        ),
        _ => Seq::empty(),
    }
}

/// The `n`-th square in the order in which the board is gone through: rank
/// by rank from the eighth to the first, each from the a-file to the h-file.
pub open spec fn scan_square(n: int) -> int {
    square_at(n / 8, n % 8)
}

/// The moves from the first `n` squares in that order.
pub open spec fn moves_through(pos: Position, n: int) -> Seq<Move>
    decreases n,
{
    if n <= 0 {
        Seq::empty()
    } else {
        moves_through(pos, n - 1) + moves_from(pos, scan_square(n - 1))
    }
}

/// The pseudo-legal moves of a position: every move of the side to move
/// that obeys the way its piece moves, whether or not it leaves the mover's
/// king attacked.
pub open spec fn pseudo_legal_moves(pos: Position) -> Seq<Move> {
    moves_through(pos, 64)
}

/// `mv` starts on `from`, ends on the board, and, where it changes file,
/// goes one rank forward for `color`. Every move that a generator makes for
/// a piece on `from` is of this shape.
pub open spec fn aims_from(from: int, color: Color, mv: Move) -> bool {
    &&& mv.from == from
    &&& mv.to < 64
    &&& file_of(mv.to as int) == file_of(from) || rank_of(mv.to as int) == rank_of(from)
        + color.forward()
}

/// `mv` starts on `from` and ends on the board.
pub open spec fn lands_from(from: int, mv: Move) -> bool {
    mv.from == from && mv.to < 64
}

/// The moves added to `before` to give `after`, each starting on `from` and
/// ending on the board.
pub open spec fn added_land_from(before: Seq<Move>, after: Seq<Move>, from: int) -> bool {
    forall|i: int| before.len() <= i < after.len() ==> lands_from(from, #[trigger] after[i])
}

impl Board {
    /// Adds the moves of a piece of `piece_color` on `from_sq` that leaps by
    /// `offsets`.
    fn generate_leap_moves(
        &self,
        from_sq: Square,
        piece_color: Color,
        offsets: &[(i8, i8)],
        moves: &mut MoveList,
    )
        requires
            from_sq < 64,
            all_short(offsets@),
        ensures
            final(moves)@ == old(moves)@ + leap_moves(
                self@.placement,
                from_sq as int,
                piece_color,
                offsets@,
            ),
            added_land_from(old(moves)@, final(moves)@, from_sq as int),
    {
        let (from_rank, from_file) = rank_and_file(from_sq);
        let mut i: usize = 0;
        assert(offsets@.take(0) =~= Seq::empty());
        while i < offsets.len()
            invariant
                i <= offsets.len(),
                from_sq < 64,
                all_short(offsets@),
                from_rank == rank_of(from_sq as int),
                from_file == file_of(from_sq as int),
                moves@ == old(moves)@ + leap_moves(
                    self@.placement,
                    from_sq as int,
                    piece_color,
                    offsets@.take(i as int),
                ),
                added_land_from(old(moves)@, moves@, from_sq as int),
            decreases offsets.len() - i,
        {
            let (dr, df) = offsets[i];
            assert(offsets@.take(i + 1).drop_last() =~= offsets@.take(i as int));
            assert(offsets@.take(i + 1).last() == offsets@[i as int]);
            if let Some(target_sq) = offset_square(from_rank, from_file, dr, df) {
                let lands = match self.piece_on(target_sq) {
                    Some(piece_on_target_sq) => piece_on_target_sq.color != piece_color,
                    None => true,
                };
                if lands {
                    moves.push(Move::new_quiet(from_sq, target_sq));
                }
            }
            i += 1;
        }
        assert(offsets@.take(offsets.len() as int) =~= offsets@);
    }

    /// Adds the moves of a piece of `piece_color` on `from_sq` along the ray
    /// from its square in direction `dir`.
    fn generate_ray_moves(
        &self,
        from_sq: Square,
        piece_color: Color,
        dir: (i8, i8),
        moves: &mut MoveList,
    )
        requires
            from_sq < 64,
            is_direction(dir),
        ensures
            final(moves)@ == old(moves)@ + ray_moves(
                self@.placement,
                from_sq as int,
                piece_color,
                rank_of(from_sq as int),
                file_of(from_sq as int),
                dir,
            ),
            added_land_from(old(moves)@, final(moves)@, from_sq as int),
    {
        let (from_rank, from_file) = rank_and_file(from_sq);
        let mut current_rank = from_rank;
        let mut current_file = from_file;
        let ghost all = ray_moves(
            self@.placement,
            from_sq as int,
            piece_color,
            from_rank as int,
            from_file as int,
            dir,
        );
        loop
            invariant
                from_sq < 64,
                is_direction(dir),
                on_board(current_rank as int, current_file as int),
                all == ray_moves(
                    self@.placement,
                    from_sq as int,
                    piece_color,
                    rank_of(from_sq as int),
                    file_of(from_sq as int),
                    dir,
                ),
                old(moves)@ + all == moves@ + ray_moves(
                    self@.placement,
                    from_sq as int,
                    piece_color,
                    current_rank as int,
                    current_file as int,
                    dir,
                ),
                added_land_from(old(moves)@, moves@, from_sq as int),
            decreases ray_room(current_rank as int, current_file as int, dir),
        {
            let ghost rest = ray_moves(
                self@.placement,
                from_sq as int,
                piece_color,
                current_rank as int,
                current_file as int,
                dir,
            );
            match offset_square(current_rank, current_file, dir.0, dir.1) {
                None => {
                    assert(moves@ + rest =~= moves@);
                    return ;
                },
                Some(target_sq) => {
                    match self.piece_on(target_sq) {
                        None => {
                            let ghost earlier = moves@;
                            moves.push(Move::new_quiet(from_sq, target_sq));
                            current_rank = current_rank + dir.0;
                            current_file = current_file + dir.1;
                            assert(earlier + rest =~= moves@ + ray_moves(
                                self@.placement,
                                from_sq as int,
                                piece_color,
                                current_rank as int,
                                current_file as int,
                                dir,
                            ));
                        },
                        Some(p) => {
                            let ghost earlier = moves@;
                            if p.color != piece_color {
                                moves.push(Move::new_quiet(from_sq, target_sq));
                            }
                            assert(earlier + rest =~= moves@);
                            return ;
                        },
                    }
                },
            }
        }
    }

    /// Adds the moves of a piece of `piece_color` on `from_sq` that slides
    /// along `directions`.
    fn generate_sliding_moves(
        &self,
        from_sq: Square,
        piece_color: Color,
        directions: &[(i8, i8)],
        moves: &mut MoveList,
    )
        requires
            from_sq < 64,
            all_directions(directions@),
        ensures
            final(moves)@ == old(moves)@ + slide_moves(
                self@.placement,
                from_sq as int,
                piece_color,
                directions@,
            ),
            added_land_from(old(moves)@, final(moves)@, from_sq as int),
    {
        let mut i: usize = 0;
        assert(directions@.take(0) =~= Seq::empty());
        while i < directions.len()
            invariant
                i <= directions.len(),
                from_sq < 64,
                all_directions(directions@),
                moves@ == old(moves)@ + slide_moves(
                    self@.placement,
                    from_sq as int,
                    piece_color,
                    directions@.take(i as int),
                ),
                added_land_from(old(moves)@, moves@, from_sq as int),
            decreases directions.len() - i,
        {
            assert(directions@.take(i + 1).drop_last() =~= directions@.take(i as int));
            assert(directions@.take(i + 1).last() == directions@[i as int]);
            self.generate_ray_moves(from_sq, piece_color, directions[i], moves);
            i += 1;
        }
        assert(directions@.take(directions.len() as int) =~= directions@);
    }

    /// Adds the arrival of a pawn of `piece_color` from `from_sq` on
    /// `target_sq`: one move, or the four promotions on the far rank.
    fn add_pawn_move(from_sq: Square, target_sq: Square, piece_color: Color, moves: &mut MoveList)
        requires
            from_sq < 64,
            target_sq < 64,
        ensures
            final(moves)@ == old(moves)@ + pawn_arrivals(
                from_sq as int,
                target_sq as int,
                piece_color,
            ),
            forall|i: int|
                old(moves)@.len() <= i < final(moves)@.len() ==> (#[trigger] final(moves)@[i]).from
                    == from_sq && final(moves)@[i].to == target_sq,
    {
        let promotion_rank_val: u8 = match piece_color {
            Color::White => 7,
            Color::Black => 0,
        };
        if target_sq / 8 == promotion_rank_val {
            let kinds = Piece::promotions();
            let mut i: usize = 0;
            while i < 4
                invariant
                    i <= 4,
                    kinds@ == promotion_kinds(),
                    moves@ == old(moves)@ + Seq::new(
                        i as nat,
                        |k: int| promotion(from_sq as int, target_sq as int, k),
                    ),
                decreases 4 - i,
            {
                moves.push(Move::new_promotion(from_sq, target_sq, kinds[i]));
                i += 1;
                assert(moves@ =~= old(moves)@ + Seq::new(
                    i as nat,
                    |k: int| promotion(from_sq as int, target_sq as int, k),
                ));
            }
        } else {
            moves.push(Move::new_quiet(from_sq, target_sq));
            assert(moves@ =~= old(moves)@ + seq![quiet(from_sq as int, target_sq as int)]);
        }
    }

    /// Adds the capture of a pawn towards the file `side` away.
    fn generate_pawn_capture(
        &self,
        from_sq: Square,
        piece_color: Color,
        side: i8,
        moves: &mut MoveList,
    )
        requires
            from_sq < 64,
            side == 1 || side == -1,
        ensures
            final(moves)@ == old(moves)@ + pawn_capture(
                self@.placement,
                from_sq as int,
                piece_color,
                side as int,
            ),
            forall|i: int|
                old(moves)@.len() <= i < final(moves)@.len() ==> aims_from(
                    from_sq as int,
                    piece_color,
                    #[trigger] final(moves)@[i],
                ),
    {
        let (from_rank, from_file) = rank_and_file(from_sq);
        let forward: i8 = match piece_color {
            Color::White => 1,
            Color::Black => -1,
        };
        if let Some(target_sq) = offset_square(from_rank, from_file, forward, side) {
            if let Some(piece_on_target) = self.piece_on(target_sq) {
                if piece_on_target.color != piece_color {
                    Board::add_pawn_move(from_sq, target_sq, piece_color, moves);
                    return ;
                }
            }
        }
        assert(moves@ =~= old(moves)@ + Seq::<Move>::empty());
    }

    /// Adds the steps of a pawn straight ahead.
    fn generate_pawn_pushes(&self, from_sq: Square, piece_color: Color, moves: &mut MoveList)
        requires
            from_sq < 64,
        ensures
            final(moves)@ == old(moves)@ + pawn_pushes(
                self@.placement,
                from_sq as int,
                piece_color,
            ),
            forall|i: int|
                old(moves)@.len() <= i < final(moves)@.len() ==> aims_from(
                    from_sq as int,
                    piece_color,
                    #[trigger] final(moves)@[i],
                ),
    {
        let (from_rank, from_file) = rank_and_file(from_sq);
        let (forward, start_rank): (i8, i8) = match piece_color {
            Color::White => (1, 1),
            Color::Black => (-1, 6),
        };
        if let Some(one_step) = offset_square(from_rank, from_file, forward, 0) {
            if self.piece_on(one_step).is_none() {
                Board::add_pawn_move(from_sq, one_step, piece_color, moves);
                if from_rank == start_rank {
                    let two_steps = (from_rank + 2 * forward) as u8 * 8 + from_file as u8;
                    if self.piece_on(two_steps).is_none() {
                        moves.push(Move::new_quiet(from_sq, two_steps));
                    }
                }
            }
        }
        assert(moves@ =~= old(moves)@ + pawn_pushes(self@.placement, from_sq as int, piece_color));
    }

    /// Adds the capture en passant of a pawn, where the position offers one
    /// to it.
    fn generate_pawn_en_passant(&self, from_sq: Square, piece_color: Color, moves: &mut MoveList)
        requires
            self.wf(),
            from_sq < 64,
        ensures
            final(moves)@ == old(moves)@ + pawn_en_passant(
                self@.en_passant,
                from_sq as int,
                piece_color,
            ),
            forall|i: int|
                old(moves)@.len() <= i < final(moves)@.len() ==> aims_from(
                    from_sq as int,
                    piece_color,
                    #[trigger] final(moves)@[i],
                ),
    {
        let (from_rank, from_file) = rank_and_file(from_sq);
        let (forward, passing_rank): (i8, i8) = match piece_color {
            Color::White => (1, 4),
            Color::Black => (-1, 3),
        };
        if let Some((ep_row, ep_col)) = self.en_passant_target {
            let ep_target_sq = array_indices_to_square(ep_row, ep_col);
            let (ep_rank, ep_file) = rank_and_file(ep_target_sq);
            if from_rank == passing_rank && ep_rank == from_rank + forward && (ep_file == from_file
                + 1 || ep_file == from_file - 1) {
                moves.push(Move::new_quiet(from_sq, ep_target_sq));
            }
        }
        assert(moves@ =~= old(moves)@ + pawn_en_passant(
            self@.en_passant,
            from_sq as int,
            piece_color,
        ));
    }

    /// Adds the moves of a pawn of `piece_color` on `from_sq`: its steps
    /// straight ahead, its captures to the left and to the right, and its
    /// capture en passant.
    pub fn generate_pawn_moves(&self, from_sq: Square, piece_color: Color, moves: &mut MoveList)
        requires
            self.wf(),
            from_sq < 64,
        ensures
            final(moves)@ == old(moves)@ + pawn_moves(self@, from_sq as int, piece_color),
            forall|i: int|
                old(moves)@.len() <= i < final(moves)@.len() ==> aims_from(
                    from_sq as int,
                    piece_color,
                    #[trigger] final(moves)@[i],
                ),
    {
        let ghost pushes = pawn_pushes(self@.placement, from_sq as int, piece_color);
        let ghost left = pawn_capture(self@.placement, from_sq as int, piece_color, -1);
        let ghost right = pawn_capture(self@.placement, from_sq as int, piece_color, 1);
        let ghost passing = pawn_en_passant(self@.en_passant, from_sq as int, piece_color);
        self.generate_pawn_pushes(from_sq, piece_color, moves);
        self.generate_pawn_capture(from_sq, piece_color, -1, moves);
        self.generate_pawn_capture(from_sq, piece_color, 1, moves);
        self.generate_pawn_en_passant(from_sq, piece_color, moves);
        assert(moves@ =~= old(moves)@ + (pushes + left + right + passing));
    }

    /// Adds the moves of a knight of `piece_color` on `from_sq`.
    pub fn generate_knight_moves(&self, from_sq: Square, piece_color: Color, moves: &mut MoveList)
        requires
            from_sq < 64,
        ensures
            final(moves)@ == old(moves)@ + leap_moves(
                self@.placement,
                from_sq as int,
                piece_color,
                knight_offsets(),
            ),
            added_land_from(old(moves)@, final(moves)@, from_sq as int),
    {
        let offsets = knight_offset_table();
        self.generate_leap_moves(from_sq, piece_color, offsets.as_slice(), moves);
    }

    /// Adds the moves of a bishop of `piece_color` on `from_sq`.
    pub fn generate_bishop_moves(&self, from_sq: Square, piece_color: Color, moves: &mut MoveList)
        requires
            from_sq < 64,
        ensures
            final(moves)@ == old(moves)@ + slide_moves(
                self@.placement,
                from_sq as int,
                piece_color,
                bishop_directions(),
            ),
            added_land_from(old(moves)@, final(moves)@, from_sq as int),
    {
        let directions = bishop_direction_table();
        self.generate_sliding_moves(from_sq, piece_color, directions.as_slice(), moves);
    }

    /// Adds the moves of a rook of `piece_color` on `from_sq`.
    pub fn generate_rook_moves(&self, from_sq: Square, piece_color: Color, moves: &mut MoveList)
        requires
            from_sq < 64,
        ensures
            final(moves)@ == old(moves)@ + slide_moves(
                self@.placement,
                from_sq as int,
                piece_color,
                rook_directions(),
            ),
            added_land_from(old(moves)@, final(moves)@, from_sq as int),
    {
        let directions = rook_direction_table();
        self.generate_sliding_moves(from_sq, piece_color, directions.as_slice(), moves);
    }

    /// Adds the moves of a queen of `piece_color` on `from_sq`.
    pub fn generate_queen_moves(&self, from_sq: Square, piece_color: Color, moves: &mut MoveList)
        requires
            from_sq < 64,
        ensures
            final(moves)@ == old(moves)@ + slide_moves(
                self@.placement,
                from_sq as int,
                piece_color,
                king_offsets(),
            ),
            added_land_from(old(moves)@, final(moves)@, from_sq as int),
    {
        let directions = king_offset_table();
        self.generate_sliding_moves(from_sq, piece_color, directions.as_slice(), moves);
    }

    /// Adds the moves of a king of `piece_color` on `from_sq`: its steps,
    /// then castling to either side where the right is held and the squares
    /// between are empty.
    pub fn generate_king_moves(&self, from_sq: Square, piece_color: Color, moves: &mut MoveList)
        requires
            from_sq < 64,
        ensures
            final(moves)@ == old(moves)@ + king_moves(self@, from_sq as int, piece_color),
            added_land_from(old(moves)@, final(moves)@, from_sq as int),
    {
        let ghost steps = leap_moves(self@.placement, from_sq as int, piece_color, king_offsets());
        let ghost short = kingside_castle(self@, from_sq as int, piece_color);
        let ghost long = queenside_castle(self@, from_sq as int, piece_color);
        let offsets = king_offset_table();
        self.generate_leap_moves(from_sq, piece_color, offsets.as_slice(), moves);

        let (home, can_castle_ks, can_castle_qs): (u8, bool, bool) = match piece_color {
            Color::White => (0, self.castling_kingside_white, self.castling_queenside_white),
            Color::Black => (56, self.castling_kingside_black, self.castling_queenside_black),
        };
        if can_castle_ks && self.piece_on(home + 5).is_none() && self.piece_on(home + 6).is_none() {
            moves.push(Move::new_quiet(from_sq, home + 6));
        }
        assert(moves@ =~= old(moves)@ + steps + short);
        if can_castle_qs && self.piece_on(home + 1).is_none() && self.piece_on(home + 2).is_none()
            && self.piece_on(home + 3).is_none() {
            moves.push(Move::new_quiet(from_sq, home + 2));
        }
        assert(moves@ =~= old(moves)@ + steps + short + long);
        assert(old(moves)@ + steps + short + long =~= old(moves)@ + (steps + short + long));
    }

    /// The pseudo-legal moves of the side to move, square by square from a8
    /// to h1. Each of them can be applied to the position.
    pub fn generate_pseudo_legal_moves(&self) -> (moves: MoveList)
        requires
            self.wf(),
        ensures
            moves@ == pseudo_legal_moves(self@),
            forall|i: int| 0 <= i < moves@.len() ==> self@.admits(#[trigger] moves@[i]),
    {
        let mut moves: MoveList = Vec::new();
        let player_color = self.active_color;
        let mut n: usize = 0;
        while n < 64
            invariant
                n <= 64,
                self.wf(),
                player_color == self.active_color,
                moves@ == moves_through(self@, n as int),
                forall|i: int| 0 <= i < moves@.len() ==> self@.admits(#[trigger] moves@[i]),
            decreases 64 - n,
        {
            let from_square = array_indices_to_square(n / 8, n % 8);
            let ghost earlier = moves@;
            if let Some(piece_on_square) = self.piece_on(from_square) {
                if piece_on_square.color == player_color {
                    match piece_on_square.kind {
                        Piece::Pawn => self.generate_pawn_moves(
                            from_square,
                            player_color,
                            &mut moves,
                        ),
                        Piece::Knight => self.generate_knight_moves(
                            from_square,
                            player_color,
                            &mut moves,
                        ),
                        Piece::Bishop => self.generate_bishop_moves(
                            from_square,
                            player_color,
                            &mut moves,
                        ),
                        Piece::Rook => self.generate_rook_moves(
                            from_square,
                            player_color,
                            &mut moves,
                        ),
                        Piece::Queen => self.generate_queen_moves(
                            from_square,
                            player_color,
                            &mut moves,
                        ),
                        Piece::King => self.generate_king_moves(
                            from_square,
                            player_color,
                            &mut moves,
                        ),
                    }
                }
            }
            assert(moves@ =~= earlier + moves_from(self@, scan_square(n as int)));
            assert forall|i: int| 0 <= i < moves@.len() implies self@.admits(
                #[trigger] moves@[i],
            ) by {
                if i >= earlier.len() {
                    let mv = moves@[i];
                    assert(lands_from(from_square as int, mv));
                }
            }
            n += 1;
        }
        moves
    }
}

} // verus!
