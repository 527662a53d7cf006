//! Rays and leaps said in terms of distances, and the link between the
//! squares a piece attacks and the moves it is given.

use vstd::prelude::*;
use crate::attack::{
    bishop_directions, is_direction, king_offsets, knight_offsets, leaps_to, piece_attacks,
    ray_hits, ray_room, rook_directions, slides_to, steps_to,
};
use crate::color::Color;
use crate::genmove::Move;
use crate::move_generation::{
    can_land, leap_moves, moves_of_kind, quiet, ray_moves, slide_moves, step_moves,
};
use crate::pieces::{ColoredPiece, Piece};
use crate::position::{file_of, is_square, on_board, rank_of, square_of, Placement, Position};

verus! {

/// `k` steps in the sense of `d`: `k` forward, `k` backward or none.
pub open spec fn along(k: int, d: i8) -> int {
    if d > 0 {
        k
    } else if d < 0 {
        -k
    } else {
        0
    }
}

/// Whether the `k`-th step from `(rank, file)` in direction `dir` is on the
/// board.
pub open spec fn ray_on_board(rank: int, file: int, dir: (i8, i8), k: int) -> bool {
    on_board(rank + along(k, dir.0), file + along(k, dir.1))
}

/// The square `k` steps from `(rank, file)` in direction `dir`.
pub open spec fn ray_square(rank: int, file: int, dir: (i8, i8), k: int) -> int {
    square_of(rank + along(k, dir.0), file + along(k, dir.1))
}

/// The `j`-th step of the ray is an empty square of the board.
pub open spec fn is_clear_at(placement: Placement, rank: int, file: int, dir: (i8, i8), j: int) -> bool {
    ray_on_board(rank, file, dir, j) && placement[ray_square(rank, file, dir, j)] is None
}

/// The ray reaches its `k`-th square: that square is on the board, and all
/// squares before it are empty.
pub open spec fn reaches(placement: Placement, rank: int, file: int, dir: (i8, i8), k: int) -> bool {
    &&& k >= 1
    &&& ray_on_board(rank, file, dir, k)
    &&& forall|j: int| 1 <= j < k ==> #[trigger] is_clear_at(placement, rank, file, dir, j)
}

/// A ray that reaches its `k`-th square from one step further back reaches
/// the same square as its `k + 1`-st from here, where the step between is
/// empty; and the other way round.
proof fn lemma_reaches_shift(placement: Placement, rank: int, file: int, dir: (i8, i8), k: int)
    requires
        is_direction(dir),
        k >= 1,
    ensures
        ray_square(rank + dir.0, file + dir.1, dir, k) == ray_square(rank, file, dir, k + 1),
        reaches(placement, rank, file, dir, k + 1) <==> is_clear_at(placement, rank, file, dir, 1)
            && reaches(placement, rank + dir.0, file + dir.1, dir, k),
{
    let r1 = rank + dir.0;
    let f1 = file + dir.1;
    assert forall|j: int|
        ray_on_board(r1, f1, dir, j) == ray_on_board(rank, file, dir, j + 1) && ray_square(
            r1,
            f1,
            dir,
            j,
        ) == ray_square(rank, file, dir, j + 1) && is_clear_at(placement, r1, f1, dir, j)
            == is_clear_at(placement, rank, file, dir, j + 1) by {}
    if reaches(placement, rank, file, dir, k + 1) {
        assert(is_clear_at(placement, rank, file, dir, 1));
        assert forall|j: int| 1 <= j < k implies #[trigger] is_clear_at(
            placement,
            r1,
            f1,
            dir,
            j,
        ) by {
            assert(is_clear_at(placement, rank, file, dir, j + 1));
        }
    }
    if is_clear_at(placement, rank, file, dir, 1) && reaches(placement, r1, f1, dir, k) {
        assert forall|j: int| 1 <= j < k + 1 implies #[trigger] is_clear_at(
            placement,
            rank,
            file,
            dir,
            j,
        ) by {
            if j > 1 {
                assert(is_clear_at(placement, r1, f1, dir, j - 1));
            }
        }
    }
}

/// A sliding piece attacks along a ray exactly the squares that the ray
/// reaches: those with nothing but empty squares before them.
pub proof fn lemma_ray_hits_what_it_reaches(
    placement: Placement,
    rank: int,
    file: int,
    dir: (i8, i8),
    target: int,
)
    requires
        is_direction(dir),
    ensures
        ray_hits(placement, rank, file, dir, target) <==> exists|k: int| #[trigger]
            reaches(placement, rank, file, dir, k) && ray_square(rank, file, dir, k) == target,
    decreases ray_room(rank, file, dir),
{
    let r1 = rank + dir.0;
    let f1 = file + dir.1;
    assert(ray_square(rank, file, dir, 1) == square_of(r1, f1));
    assert(ray_on_board(rank, file, dir, 1) == on_board(r1, f1));
    if on_board(r1, f1) {
        if square_of(r1, f1) == target {
            assert(reaches(placement, rank, file, dir, 1));
        } else {
            if placement[square_of(r1, f1)] is None {
                lemma_ray_hits_what_it_reaches(placement, r1, f1, dir, target);
                if ray_hits(placement, r1, f1, dir, target) {
                    let k = choose|k: int| #[trigger]
                        reaches(placement, r1, f1, dir, k) && ray_square(r1, f1, dir, k) == target;
                    lemma_reaches_shift(placement, rank, file, dir, k);
                    assert(reaches(placement, rank, file, dir, k + 1));
                }
            }
            if exists|k: int| #[trigger]
                reaches(placement, rank, file, dir, k) && ray_square(rank, file, dir, k)
                    == target {
                let k = choose|k: int| #[trigger]
                    reaches(placement, rank, file, dir, k) && ray_square(rank, file, dir, k)
                        == target;
                assert(k > 1);
                lemma_reaches_shift(placement, rank, file, dir, k - 1);
                assert(is_clear_at(placement, rank, file, dir, 1));
                assert(reaches(placement, r1, f1, dir, k - 1));
            }
        }
    } else {
        assert forall|k: int| !#[trigger] reaches(placement, rank, file, dir, k) by {
            if k > 1 && reaches(placement, rank, file, dir, k) {
                assert(is_clear_at(placement, rank, file, dir, 1));
            }
        }
    }
}

/// A sliding piece is given a move along a ray exactly to the squares that
/// the ray reaches and that hold no piece of its own side.
pub proof fn lemma_ray_moves_where_it_reaches(
    placement: Placement,
    from: int,
    color: Color,
    rank: int,
    file: int,
    dir: (i8, i8),
    mv: Move,
)
    requires
        is_direction(dir),
    ensures
        ray_moves(placement, from, color, rank, file, dir).contains(mv) <==> exists|k: int|
            #[trigger] reaches(placement, rank, file, dir, k) && can_land(
                placement,
                ray_square(rank, file, dir, k),
                color,
            ) && mv == quiet(from, ray_square(rank, file, dir, k)),
    decreases ray_room(rank, file, dir),
{
    let r1 = rank + dir.0;
    let f1 = file + dir.1;
    let moves = ray_moves(placement, from, color, rank, file, dir);
    let first = quiet(from, square_of(r1, f1));
    assert(ray_square(rank, file, dir, 1) == square_of(r1, f1));
    assert(ray_on_board(rank, file, dir, 1) == on_board(r1, f1));
    if on_board(r1, f1) {
        assert(reaches(placement, rank, file, dir, 1));
        if placement[square_of(r1, f1)] is None {
            let rest = ray_moves(placement, from, color, r1, f1, dir);
            lemma_ray_moves_where_it_reaches(placement, from, color, r1, f1, dir, mv);
            assert(moves == seq![first] + rest);
            if rest.contains(mv) {
                let i = choose|i: int| 0 <= i < rest.len() && rest[i] == mv;
                assert(moves[i + 1] == mv);
                let k = choose|k: int| #[trigger]
                    reaches(placement, r1, f1, dir, k) && can_land(
                        placement,
                        ray_square(r1, f1, dir, k),
                        color,
                    ) && mv == quiet(from, ray_square(r1, f1, dir, k));
                lemma_reaches_shift(placement, rank, file, dir, k);
                assert(reaches(placement, rank, file, dir, k + 1));
            }
            if mv == first {
                assert(moves[0] == mv);
            }
            if moves.contains(mv) {
                let i = choose|i: int| 0 <= i < moves.len() && moves[i] == mv;
                if i > 0 {
                    assert(rest[i - 1] == mv);
                }
            }
            if exists|k: int| #[trigger]
                reaches(placement, rank, file, dir, k) && can_land(
                    placement,
                    ray_square(rank, file, dir, k),
                    color,
                ) && mv == quiet(from, ray_square(rank, file, dir, k)) {
                let k = choose|k: int| #[trigger]
                    reaches(placement, rank, file, dir, k) && can_land(
                        placement,
                        ray_square(rank, file, dir, k),
                        color,
                    ) && mv == quiet(from, ray_square(rank, file, dir, k));
                if k > 1 {
                    lemma_reaches_shift(placement, rank, file, dir, k - 1);
                    assert(reaches(placement, r1, f1, dir, k - 1));
                    assert(rest.contains(mv));
                }
            }
        } else {
            assert forall|k: int| k > 1 implies !#[trigger] reaches(
                placement,
                rank,
                file,
                dir,
                k,
            ) by {
                if reaches(placement, rank, file, dir, k) {
                    assert(is_clear_at(placement, rank, file, dir, 1));
                }
            }
            if can_land(placement, square_of(r1, f1), color) {
                assert(moves =~= seq![first]);
                assert(moves[0] == first);
            } else {
                assert(moves =~= Seq::empty());
            }
        }
    } else {
        assert(moves =~= Seq::empty());
        assert forall|k: int| !#[trigger] reaches(placement, rank, file, dir, k) by {
            if k > 1 && reaches(placement, rank, file, dir, k) {
                assert(is_clear_at(placement, rank, file, dir, 1));
            }
        }
    }
}

/// A sliding piece is given a move to a square exactly where it attacks the
/// square and no piece of its own side stands there.
pub proof fn lemma_slide_moves_where_it_attacks(
    placement: Placement,
    from: int,
    color: Color,
    dirs: Seq<(i8, i8)>,
    target: int,
)
    requires
        is_square(from),
        is_square(target),
        forall|i: int| 0 <= i < dirs.len() ==> is_direction(#[trigger] dirs[i]),
    ensures
        slide_moves(placement, from, color, dirs).contains(quiet(from, target)) <==> slides_to(
            placement,
            from,
            dirs,
            target,
        ) && can_land(placement, target, color),
    decreases dirs.len(),
{
    let mv = quiet(from, target);
    let moves = slide_moves(placement, from, color, dirs);
    let rank = rank_of(from);
    let file = file_of(from);
    if dirs.len() == 0 {
        assert(moves =~= Seq::empty());
    } else {
        let earlier = slide_moves(placement, from, color, dirs.drop_last());
        let dir = dirs.last();
        let last = ray_moves(placement, from, color, rank, file, dir);
        assert(is_direction(dirs[dirs.len() - 1]));
        assert forall|i: int| 0 <= i < dirs.drop_last().len() implies is_direction(
            #[trigger] dirs.drop_last()[i],
        ) by {
            assert(dirs.drop_last()[i] == dirs[i]);
        }
        lemma_slide_moves_where_it_attacks(placement, from, color, dirs.drop_last(), target);
        lemma_ray_moves_where_it_reaches(placement, from, color, rank, file, dir, mv);
        lemma_ray_hits_what_it_reaches(placement, rank, file, dir, target);
        assert(moves == earlier + last);
        // The last ray gives the move exactly where it hits the target.
        assert(last.contains(mv) <==> ray_hits(placement, rank, file, dir, target) && can_land(
            placement,
            target,
            color,
        )) by {
            if last.contains(mv) {
                let k = choose|k: int| #[trigger]
                    reaches(placement, rank, file, dir, k) && can_land(
                        placement,
                        ray_square(rank, file, dir, k),
                        color,
                    ) && mv == quiet(from, ray_square(rank, file, dir, k));
                assert(ray_on_board(rank, file, dir, k));
                assert(ray_square(rank, file, dir, k) == target);
            }
            if ray_hits(placement, rank, file, dir, target) && can_land(placement, target, color) {
                let k = choose|k: int| #[trigger]
                    reaches(placement, rank, file, dir, k) && ray_square(rank, file, dir, k)
                        == target;
                assert(reaches(placement, rank, file, dir, k) && can_land(
                    placement,
                    ray_square(rank, file, dir, k),
                    color,
                ) && mv == quiet(from, ray_square(rank, file, dir, k)));
            }
        }
        // The list holds the move exactly where one of its two parts does.
        if earlier.contains(mv) {
            let i = choose|i: int| 0 <= i < earlier.len() && earlier[i] == mv;
            assert(moves[i] == mv);
        }
        if last.contains(mv) {
            let i = choose|i: int| 0 <= i < last.len() && last[i] == mv;
            assert(moves[earlier.len() + i] == mv);
        }
        if moves.contains(mv) {
            let i = choose|i: int| 0 <= i < moves.len() && moves[i] == mv;
            if i < earlier.len() {
                assert(earlier[i] == mv);
            } else {
                assert(last[i - earlier.len()] == mv);
            }
        }
        // The piece slides to the target exactly where one of its rays hits it.
        if slides_to(placement, from, dirs.drop_last(), target) {
            let i = choose|i: int|
                0 <= i < dirs.drop_last().len() && ray_hits(
                    placement,
                    rank,
                    file,
                    #[trigger] dirs.drop_last()[i],
                    target,
                );
            assert(dirs[i] == dirs.drop_last()[i]);
        }
        if slides_to(placement, from, dirs, target) {
            let i = choose|i: int|
                0 <= i < dirs.len() && ray_hits(placement, rank, file, #[trigger] dirs[i], target);
            if i < dirs.len() - 1 {
                assert(dirs.drop_last()[i] == dirs[i]);
            }
        }
    }
}

/// A leaping piece is given a move to a square exactly where it attacks the
/// square and no piece of its own side stands there.
pub proof fn lemma_leap_moves_where_it_attacks(
    placement: Placement,
    from: int,
    color: Color,
    offsets: Seq<(i8, i8)>,
    target: int,
)
    requires
        is_square(from),
        is_square(target),
    ensures
        leap_moves(placement, from, color, offsets).contains(quiet(from, target)) <==> leaps_to(
            from,
            offsets,
            target,
        ) && can_land(placement, target, color),
    decreases offsets.len(),
{
    let mv = quiet(from, target);
    let moves = leap_moves(placement, from, color, offsets);
    let rank = rank_of(from);
    let file = file_of(from);
    if offsets.len() == 0 {
        assert(moves =~= Seq::empty());
    } else {
        let earlier = leap_moves(placement, from, color, offsets.drop_last());
        let offset = offsets.last();
        let last = step_moves(placement, from, color, offset);
        lemma_leap_moves_where_it_attacks(placement, from, color, offsets.drop_last(), target);
        assert(moves == earlier + last);
        assert(last.contains(mv) <==> steps_to(rank, file, offset, target) && can_land(
            placement,
            target,
            color,
        )) by {
            if last.contains(mv) {
                assert(last[0] == mv);
            }
            if steps_to(rank, file, offset, target) && can_land(placement, target, color) {
                assert(last[0] == mv);
            }
        }
        if earlier.contains(mv) {
            let i = choose|i: int| 0 <= i < earlier.len() && earlier[i] == mv;
            assert(moves[i] == mv);
        }
        if last.contains(mv) {
            assert(moves[earlier.len() as int] == mv);
        }
        if moves.contains(mv) {
            let i = choose|i: int| 0 <= i < moves.len() && moves[i] == mv;
            if i < earlier.len() {
                assert(earlier[i] == mv);
            } else {
                assert(last[i - earlier.len()] == mv);
            }
        }
        if leaps_to(from, offsets.drop_last(), target) {
            let i = choose|i: int|
                0 <= i < offsets.drop_last().len() && steps_to(
                    rank,
                    file,
                    #[trigger] offsets.drop_last()[i],
                    target,
                );
            assert(offsets[i] == offsets.drop_last()[i]);
        }
        if steps_to(rank, file, offset, target) {
            assert(offsets[offsets.len() - 1] == offset);
        }
        if leaps_to(from, offsets, target) {
            let i = choose|i: int|
                0 <= i < offsets.len() && steps_to(rank, file, #[trigger] offsets[i], target);
            if i < offsets.len() - 1 {
                assert(offsets.drop_last()[i] == offsets[i]);
            }
        }
    }
}

/// A knight, a bishop, a rook or a queen is given a move to a square
/// exactly where it attacks the square and no piece of its own side stands
/// there.
pub proof fn lemma_piece_moves_where_it_attacks(pos: Position, from: int, piece: ColoredPiece, target: int)
    requires
        is_square(from),
        is_square(target),
        piece.kind != Piece::Pawn,
        piece.kind != Piece::King,
    ensures
        moves_of_kind(pos, from, piece.kind, piece.color).contains(quiet(from, target))
            <==> piece_attacks(pos.placement, from, piece, target) && can_land(
            pos.placement,
            target,
            piece.color,
        ),
{
    match piece.kind {
        Piece::Knight => {
            lemma_leap_moves_where_it_attacks(
                pos.placement,
                from,
                piece.color,
                knight_offsets(),
                target,
            );
        },
        Piece::Bishop => {
            lemma_slide_moves_where_it_attacks(
                pos.placement,
                from,
                piece.color,
                bishop_directions(),
                target,
            );
        },
        Piece::Rook => {
            lemma_slide_moves_where_it_attacks(
                pos.placement,
                from,
                piece.color,
                rook_directions(),
                target,
            );
        },
        Piece::Queen => {
            lemma_slide_moves_where_it_attacks(
                pos.placement,
                from,
                piece.color,
                king_offsets(),
                target,
            );
        },
        _ => {},
    }
}

} // verus!
