//! Which squares the pieces of a side attack.

use vstd::prelude::*;
use crate::board::Board;
use crate::color::Color;
use crate::coordinates::{offset_square, square_to_rank_file_enums};
use crate::genmove::Square;
use crate::pieces::{ColoredPiece, Piece};
use crate::position::{file_of, is_square, on_board, rank_of, square_of, Placement};

verus! {

/// The eight jumps of a knight, as rank and file offsets.
pub open spec fn knight_offsets() -> Seq<(i8, i8)> {
    seq![
        (1i8, 2i8),
        (1i8, -2i8),
        (-1i8, 2i8),
        (-1i8, -2i8),
        (2i8, 1i8),
        (2i8, -1i8),
        (-2i8, 1i8),
        (-2i8, -1i8),
    ]
}

/// The eight steps of a king, which are also the directions of a queen.
pub open spec fn king_offsets() -> Seq<(i8, i8)> {
    seq![
        (0i8, 1i8),
        (0i8, -1i8),
        (1i8, 0i8),
        (-1i8, 0i8),
        (1i8, 1i8),
        (1i8, -1i8),
        (-1i8, 1i8),
        (-1i8, -1i8),
    ]
}

/// The four directions of a rook.
pub open spec fn rook_directions() -> Seq<(i8, i8)> {
    seq![(0i8, 1i8), (0i8, -1i8), (1i8, 0i8), (-1i8, 0i8)]
}

/// The four directions of a bishop.
pub open spec fn bishop_directions() -> Seq<(i8, i8)> {
    seq![(1i8, 1i8), (1i8, -1i8), (-1i8, 1i8), (-1i8, -1i8)]
}

/// A step to a neighbouring square.
pub open spec fn is_direction(dir: (i8, i8)) -> bool {
    &&& -1 <= dir.0 <= 1
    &&& -1 <= dir.1 <= 1
    &&& dir != (0i8, 0i8)
}

/// Every entry is a step to a neighbouring square.
pub open spec fn all_directions(dirs: Seq<(i8, i8)>) -> bool {
    forall|i: int| 0 <= i < dirs.len() ==> is_direction(#[trigger] dirs[i])
}

/// Every entry is an offset of at most two ranks and two files.
pub open spec fn all_short(offsets: Seq<(i8, i8)>) -> bool {
    forall|i: int|
        0 <= i < offsets.len() ==> -2 <= (#[trigger] offsets[i]).0 <= 2 && -2 <= offsets[i].1 <= 2
}

/// `target` is the square that lies `offset` away from `(rank, file)`.
pub open spec fn steps_to(rank: int, file: int, offset: (i8, i8), target: int) -> bool {
    on_board(rank + offset.0, file + offset.1) && target == square_of(
        rank + offset.0,
        file + offset.1,
    )
}

/// `target` lies one of `offsets` away from `from`.
pub open spec fn leaps_to(from: int, offsets: Seq<(i8, i8)>, target: int) -> bool {
    exists|i: int|
        0 <= i < offsets.len() && steps_to(rank_of(from), file_of(from), #[trigger] offsets[i], target)
}

/// How many more steps of `dir` the board has room for at most, counted
/// along the rank where `dir` changes the rank and along the file otherwise.
pub open spec fn ray_room(rank: int, file: int, dir: (i8, i8)) -> int {
    if dir.0 > 0 {
        7 - rank
    } else if dir.0 < 0 {
        rank
    } else if dir.1 > 0 {
        7 - file
    } else {
        file
    }
}

/// Going from `(rank, file)` in direction `dir`, `target` is met before the
/// edge of the board and not after an occupied square.
pub open spec fn ray_hits(
    placement: Placement,
    rank: int,
    file: int,
    dir: (i8, i8),
    target: int,
) -> bool
    decreases ray_room(rank, file, dir),
{
    let r = rank + dir.0;
    let f = file + dir.1;
    if !is_direction(dir) || !on_board(r, f) {
        false
    } else if square_of(r, f) == target {
        true
    } else if placement[square_of(r, f)] is Some {
        false
    } else {
        ray_hits(placement, r, f, dir, target)
    }
}

/// A piece on `from` that slides along `dirs` reaches `target`.
pub open spec fn slides_to(placement: Placement, from: int, dirs: Seq<(i8, i8)>, target: int) -> bool {
    exists|i: int|
        0 <= i < dirs.len() && ray_hits(
            placement,
            rank_of(from),
            file_of(from),
            #[trigger] dirs[i],
            target,
        )
}

/// A pawn of `color` on `from` attacks `target`: one of the two squares
/// diagonally in front of it, whatever stands there.
pub open spec fn pawn_attacks(from: int, color: Color, target: int) -> bool {
    let rank = rank_of(from);
    let file = file_of(from);
    steps_to(rank, file, (color.forward() as i8, -1i8), target) || steps_to(
        rank,
        file,
        (color.forward() as i8, 1i8),
        target,
    )
}

/// `piece`, standing on `from`, attacks `target`. Whose turn it is and
/// whether the piece is pinned play no part.
pub open spec fn piece_attacks(
    placement: Placement,
    from: int,
    piece: ColoredPiece,
    target: int,
) -> bool {
    match piece.kind {
        Piece::Pawn => pawn_attacks(from, piece.color, target),
        Piece::Knight => leaps_to(from, knight_offsets(), target),
        Piece::Bishop => slides_to(placement, from, bishop_directions(), target),
        Piece::Rook => slides_to(placement, from, rook_directions(), target),
        Piece::Queen => slides_to(placement, from, king_offsets(), target),
        Piece::King => leaps_to(from, king_offsets(), target),
    }
}

/// A piece of side `by` stands on `from` and attacks `target`.
pub open spec fn attacks_from(placement: Placement, from: int, by: Color, target: int) -> bool {
    placement[from] matches Some(piece) && piece.color == by && piece_attacks(
        placement,
        from,
        piece,
        target,
    )
}

/// Some piece of side `by` attacks `target`.
pub open spec fn is_attacked(placement: Placement, target: int, by: Color) -> bool {
    exists|from: int| is_square(from) && #[trigger] attacks_from(placement, from, by, target)
}

pub fn knight_offset_table() -> (table: [(i8, i8); 8])
    ensures
        table@ == knight_offsets(),
{
    let table: [(i8, i8); 8] = [(1, 2), (1, -2), (-1, 2), (-1, -2), (2, 1), (2, -1), (-2, 1), (-2, -1)];
    assert(table@ =~= knight_offsets());
    table
}

pub fn king_offset_table() -> (table: [(i8, i8); 8])
    ensures
        table@ == king_offsets(),
{
    let table: [(i8, i8); 8] = [(0, 1), (0, -1), (1, 0), (-1, 0), (1, 1), (1, -1), (-1, 1), (-1, -1)];
    assert(table@ =~= king_offsets());
    table
}

pub fn rook_direction_table() -> (table: [(i8, i8); 4])
    ensures
        table@ == rook_directions(),
{
    let table: [(i8, i8); 4] = [(0, 1), (0, -1), (1, 0), (-1, 0)];
    assert(table@ =~= rook_directions());
    table
}

pub fn bishop_direction_table() -> (table: [(i8, i8); 4])
    ensures
        table@ == bishop_directions(),
{
    let table: [(i8, i8); 4] = [(1, 1), (1, -1), (-1, 1), (-1, -1)];
    assert(table@ =~= bishop_directions());
    table
}

/// Rank and file of a square, as signed numbers for offset arithmetic.
pub fn rank_and_file(square: Square) -> (place: (i8, i8))
    requires
        square < 64,
    ensures
        place.0 == rank_of(square as int),
        place.1 == file_of(square as int),
        on_board(place.0 as int, place.1 as int),
{
    let (rank_enum, file_enum) = square_to_rank_file_enums(square);
    (rank_enum.to_index() as i8, file_enum.to_index() as i8)
}

impl Board {
    /// Whether a piece that leaps by `offsets` from `piece_sq` lands on
    /// `target_sq` with one of them.
    fn is_leap_attacking(piece_sq: Square, target_sq: Square, offsets: &[(i8, i8)]) -> (hit: bool)
        requires
            piece_sq < 64,
            all_short(offsets@),
        ensures
            hit == leaps_to(piece_sq as int, offsets@, target_sq as int),
    {
        let (rank, file) = rank_and_file(piece_sq);
        let mut i: usize = 0;
        while i < offsets.len()
            invariant
                i <= offsets.len(),
                all_short(offsets@),
                rank == rank_of(piece_sq as int),
                file == file_of(piece_sq as int),
                on_board(rank as int, file as int),
                forall|j: int|
                    0 <= j < i ==> !steps_to(
                        rank as int,
                        file as int,
                        #[trigger] offsets@[j],
                        target_sq as int,
                    ),
            decreases offsets.len() - i,
        {
            let (dr, df) = offsets[i];
            if let Some(attack_sq) = offset_square(rank, file, dr, df) {
                if attack_sq == target_sq {
                    assert(steps_to(rank as int, file as int, offsets@[i as int], target_sq as int));
                    return true;
                }
            }
            i += 1;
        }
        false
    }

    /// Whether a pawn of `pawn_color` on `pawn_sq` attacks `target_sq`.
    pub fn is_pawn_attacking(&self, pawn_sq: Square, pawn_color: Color, target_sq: Square) -> (hit:
        bool)
        requires
            pawn_sq < 64,
        ensures
            hit == pawn_attacks(pawn_sq as int, pawn_color, target_sq as int),
    {
        let (rank, file) = rank_and_file(pawn_sq);
        let forward: i8 = match pawn_color {
            Color::White => 1,
            Color::Black => -1,
        };
        let left = offset_square(rank, file, forward, -1);
        let right = offset_square(rank, file, forward, 1);
        left == Some(target_sq) || right == Some(target_sq)
    }

    /// Whether a knight on `knight_sq` attacks `target_sq`.
    pub fn is_knight_attacking(&self, knight_sq: Square, target_sq: Square) -> (hit: bool)
        requires
            knight_sq < 64,
        ensures
            hit == leaps_to(knight_sq as int, knight_offsets(), target_sq as int),
    {
        let offsets = knight_offset_table();
        Board::is_leap_attacking(knight_sq, target_sq, offsets.as_slice())
    }

    /// Whether a king on `king_sq` attacks `target_sq`.
    pub fn is_king_attacking(&self, king_sq: Square, target_sq: Square) -> (hit: bool)
        requires
            king_sq < 64,
        ensures
            hit == leaps_to(king_sq as int, king_offsets(), target_sq as int),
    {
        let offsets = king_offset_table();
        Board::is_leap_attacking(king_sq, target_sq, offsets.as_slice())
    }

    /// Whether a piece that goes from `(rank, file)` in direction `dir`
    /// meets `target_sq` before the edge of the board and not after an
    /// occupied square.
    fn is_ray_attacking(&self, rank: i8, file: i8, dir: (i8, i8), target_sq: Square) -> (hit: bool)
        requires
            on_board(rank as int, file as int),
            is_direction(dir),
        ensures
            hit == ray_hits(self@.placement, rank as int, file as int, dir, target_sq as int),
    {
        let mut current_rank = rank;
        let mut current_file = file;
        loop
            invariant
                on_board(current_rank as int, current_file as int),
                is_direction(dir),
                ray_hits(self@.placement, rank as int, file as int, dir, target_sq as int)
                    == ray_hits(
                    self@.placement,
                    current_rank as int,
                    current_file as int,
                    dir,
                    target_sq as int,
                ),
            decreases ray_room(current_rank as int, current_file as int, dir),
        {
            match offset_square(current_rank, current_file, dir.0, dir.1) {
                None => {
                    return false;
                },
                Some(current_sq) => {
                    if current_sq == target_sq {
                        return true;
                    }
                    if self.piece_on(current_sq).is_some() {
                        return false;
                    }
                    current_rank = current_rank + dir.0;
                    current_file = current_file + dir.1;
                },
            }
        }
    }

    /// Whether a piece on `piece_sq` that slides along `directions` reaches
    /// `target_sq`: the square lies on one of the rays, and no piece stands
    /// between.
    pub fn is_sliding_piece_attacking(
        &self,
        piece_sq: Square,
        target_sq: Square,
        directions: &[(i8, i8)],
    ) -> (hit: bool)
        requires
            piece_sq < 64,
            all_directions(directions@),
        ensures
            hit == slides_to(self@.placement, piece_sq as int, directions@, target_sq as int),
    {
        let (rank, file) = rank_and_file(piece_sq);
        let mut i: usize = 0;
        while i < directions.len()
            invariant
                i <= directions.len(),
                all_directions(directions@),
                rank == rank_of(piece_sq as int),
                file == file_of(piece_sq as int),
                on_board(rank as int, file as int),
                forall|j: int|
                    0 <= j < i ==> !ray_hits(
                        self@.placement,
                        rank as int,
                        file as int,
                        #[trigger] directions@[j],
                        target_sq as int,
                    ),
            decreases directions.len() - i,
        {
            if self.is_ray_attacking(rank, file, directions[i], target_sq) {
                assert(ray_hits(
                    self@.placement,
                    rank as int,
                    file as int,
                    directions@[i as int],
                    target_sq as int,
                ));
                return true;
            }
            i += 1;
        }
        false
    }

    /// Whether a rook on `rook_sq` attacks `target_sq`.
    pub fn is_rook_attacking(&self, rook_sq: Square, target_sq: Square) -> (hit: bool)
        requires
            rook_sq < 64,
        ensures
            hit == slides_to(self@.placement, rook_sq as int, rook_directions(), target_sq as int),
    {
        let directions = rook_direction_table();
        self.is_sliding_piece_attacking(rook_sq, target_sq, directions.as_slice())
    }

    /// Whether a bishop on `bishop_sq` attacks `target_sq`.
    pub fn is_bishop_attacking(&self, bishop_sq: Square, target_sq: Square) -> (hit: bool)
        requires
            bishop_sq < 64,
        ensures
            hit == slides_to(
                self@.placement,
                bishop_sq as int,
                bishop_directions(),
                target_sq as int,
            ),
    {
        let directions = bishop_direction_table();
        self.is_sliding_piece_attacking(bishop_sq, target_sq, directions.as_slice())
    }

    /// Whether a queen on `queen_sq` attacks `target_sq`.
    pub fn is_queen_attacking(&self, queen_sq: Square, target_sq: Square) -> (hit: bool)
        requires
            queen_sq < 64,
        ensures
            hit == slides_to(self@.placement, queen_sq as int, king_offsets(), target_sq as int),
    {
        let directions = king_offset_table();
        self.is_sliding_piece_attacking(queen_sq, target_sq, directions.as_slice())
    }

    /// Whether `piece`, standing on `from`, attacks `target_sq`.
    fn is_piece_attacking(&self, from: Square, piece: ColoredPiece, target_sq: Square) -> (hit: bool)
        requires
            from < 64,
        ensures
            hit == piece_attacks(self@.placement, from as int, piece, target_sq as int),
    {
        match piece.kind {
            Piece::Pawn => self.is_pawn_attacking(from, piece.color, target_sq),
            Piece::Knight => self.is_knight_attacking(from, target_sq),
            Piece::Bishop => self.is_bishop_attacking(from, target_sq),
            Piece::Rook => self.is_rook_attacking(from, target_sq),
            Piece::Queen => self.is_queen_attacking(from, target_sq),
            Piece::King => self.is_king_attacking(from, target_sq),
        }
    }

    /// Whether some piece of `attacker_color` attacks `target_sq`, whoever
    /// is to move.
    pub fn is_square_attacked(&self, target_sq: Square, attacker_color: Color) -> (attacked: bool)
        ensures
            attacked == is_attacked(self@.placement, target_sq as int, attacker_color),
    {
        let mut n: u8 = 0;
        while n < 64
            invariant
                n <= 64,
                forall|from: int|
                    0 <= from < n ==> !#[trigger] attacks_from(
                        self@.placement,
                        from,
                        attacker_color,
                        target_sq as int,
                    ),
            decreases 64 - n,
        {
            if let Some(piece_on_square) = self.piece_on(n) {
                if piece_on_square.color == attacker_color {
                    if self.is_piece_attacking(n, piece_on_square, target_sq) {
                        assert(attacks_from(
                            self@.placement,
                            n as int,
                            attacker_color,
                            target_sq as int,
                        ));
                        return true;
                    }
                }
            }
            n += 1;
        }
        false
    }
}

} // verus!
