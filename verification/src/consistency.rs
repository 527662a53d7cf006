//! In a consistent position every generated move can be taken back exactly.

use vstd::prelude::*;
use crate::attack::{
    bishop_directions, is_direction, king_offsets, knight_offsets, rook_directions,
};
use crate::color::Color;
use crate::genmove::Move;
use crate::legal::{is_king_of, keeps_king_safe, legal_moves};
use crate::move_generation::{
    can_land, home_rank, king_moves, kingside_castle, leap_moves, moves_from, moves_of_kind,
    moves_through, pawn_arrivals, pawn_capture, pawn_en_passant, pawn_moves, pawn_pushes,
    pseudo_legal_moves, queenside_castle, ray_moves, scan_square, slide_moves, step_moves,
};
use crate::pieces::{ColoredPiece, Piece};
use crate::position::{file_of, is_square, on_board, rank_of, square_of, Placement, Position};

verus! {

/// The square on which the king of `color` starts.
pub open spec fn king_home(color: Color) -> int {
    square_of(home_rank(color), 4)
}

/// Whether `color` holds a castling right.
pub open spec fn may_castle(pos: Position, color: Color) -> bool {
    match color {
        Color::White => pos.castling.white_kingside || pos.castling.white_queenside,
        Color::Black => pos.castling.black_kingside || pos.castling.black_queenside,
    }
}

/// What a position that arises in play always satisfies, as far as taking
/// back moves depends on it: behind the en-passant target stands the pawn
/// that has just passed it, and a side to move that holds a castling right
/// has its king on the king's home square and nowhere else.
pub open spec fn is_consistent(pos: Position) -> bool {
    let side = pos.side_to_move;
    &&& pos.wf()
    &&& pos.en_passant matches Some(target) ==> {
        let behind = target - 8 * side.forward();
        &&& is_square(behind)
        &&& pos.placement[behind] == Some(
            ColoredPiece { kind: Piece::Pawn, color: side.opponent() },
        )
    }
    &&& may_castle(pos, side) ==> forall|square: int|
        is_square(square) && #[trigger] is_king_of(pos.placement, square, side) ==> square
            == king_home(side)
}

/// The position from which a game starts is consistent.
pub proof fn lemma_starting_position_is_consistent()
    ensures
        is_consistent(crate::board::starting_position()),
{
}

/// `mv` goes from `from` to another square of the board and promotes
/// nothing.
pub open spec fn is_plain_move(from: int, mv: Move) -> bool {
    &&& mv.from == from
    &&& mv.to < 64
    &&& mv.to != from
    &&& mv.promotion is None
}

/// `mv` is a plain move of at most one file.
pub open spec fn is_short_move(from: int, mv: Move) -> bool {
    &&& is_plain_move(from, mv)
    &&& -1 <= file_of(mv.to as int) - file_of(from) <= 1
}

/// `mv` is a move of a pawn of `color`: it goes to another rank of the
/// board, and where it changes file it goes one rank forward.
pub open spec fn is_pawn_move(from: int, color: Color, mv: Move) -> bool {
    &&& mv.from == from
    &&& mv.to < 64
    &&& rank_of(mv.to as int) != rank_of(from)
    &&& file_of(mv.to as int) == file_of(from) || rank_of(mv.to as int) == rank_of(from)
        + color.forward()
}

/// `mv` is a move of a pawn of `color` as the generator makes them: one
/// rank forward, or two ranks forward on its file onto an empty square, and
/// never onto a piece of its own side; where it promotes, not to a king.
pub open spec fn is_generated_pawn_move(pos: Position, from: int, color: Color, mv: Move) -> bool {
    let by = rank_of(mv.to as int) - rank_of(from);
    &&& is_pawn_move(from, color, mv)
    &&& by == color.forward() || {
        &&& by == 2 * color.forward()
        &&& file_of(mv.to as int) == file_of(from)
        &&& pos.placement[mv.to as int] is None
        &&& pos.placement[square_of(rank_of(from) + color.forward(), file_of(from))] is None
        &&& mv.promotion is None
    }
    &&& mv.promotion matches Some(kind) ==> kind != Piece::King
    &&& pos.en_passant != Some(mv.to as int) ==> can_land(pos.placement, mv.to as int, color)
}

/// Every move of a leaping piece is a plain move, and a short one where
/// no offset spans more than one file.
pub proof fn lemma_leap_moves_are_plain(
    placement: Placement,
    from: int,
    color: Color,
    offsets: Seq<(i8, i8)>,
    i: int,
)
    requires
        is_square(from),
        forall|k: int| 0 <= k < offsets.len() ==> #[trigger] offsets[k] != (0i8, 0i8),
        0 <= i < leap_moves(placement, from, color, offsets).len(),
    ensures
        is_plain_move(from, leap_moves(placement, from, color, offsets)[i]),
        can_land(placement, leap_moves(placement, from, color, offsets)[i].to as int, color),
        (forall|k: int| 0 <= k < offsets.len() ==> -1 <= (#[trigger] offsets[k]).1 <= 1)
            ==> is_short_move(from, leap_moves(placement, from, color, offsets)[i]),
    decreases offsets.len(),
{
    if offsets.len() > 0 {
        let earlier = leap_moves(placement, from, color, offsets.drop_last());
        if i < earlier.len() {
            assert forall|k: int| 0 <= k < offsets.drop_last().len() implies
                #[trigger] offsets.drop_last()[k] != (0i8, 0i8) by {
                assert(offsets.drop_last()[k] == offsets[k]);
            }
            lemma_leap_moves_are_plain(placement, from, color, offsets.drop_last(), i);
            if forall|k: int| 0 <= k < offsets.len() ==> -1 <= (#[trigger] offsets[k]).1 <= 1 {
                assert forall|k: int| 0 <= k < offsets.drop_last().len() implies -1 <= (
                #[trigger] offsets.drop_last()[k]).1 <= 1 by {
                    assert(offsets.drop_last()[k] == offsets[k]);
                }
            }
        } else {
            let offset = offsets.last();
            assert(offset == offsets[offsets.len() - 1]);
            let last = step_moves(placement, from, color, offset);
            assert(leap_moves(placement, from, color, offsets)[i] == last[i - earlier.len()]);
        }
    }
}

/// Every move along a ray is a plain move.
pub proof fn lemma_ray_moves_are_plain(
    placement: Placement,
    from: int,
    color: Color,
    rank: int,
    file: int,
    dir: (i8, i8),
    i: int,
)
    requires
        is_square(from),
        0 <= i < ray_moves(placement, from, color, rank, file, dir).len(),
        dir.0 > 0 ==> rank >= rank_of(from),
        dir.0 < 0 ==> rank <= rank_of(from),
        dir.0 == 0 && dir.1 > 0 ==> file >= file_of(from),
        dir.0 == 0 && dir.1 < 0 ==> file <= file_of(from),
    ensures
        is_plain_move(from, ray_moves(placement, from, color, rank, file, dir)[i]),
        can_land(placement, ray_moves(placement, from, color, rank, file, dir)[i].to as int, color),
    decreases crate::attack::ray_room(rank, file, dir),
{
    let r = rank + dir.0;
    let f = file + dir.1;
    if is_direction(dir) && on_board(r, f) {
        if placement[square_of(r, f)] is None && i > 0 {
            let rest = ray_moves(placement, from, color, r, f, dir);
            assert(ray_moves(placement, from, color, rank, file, dir)[i] == rest[i - 1]);
            lemma_ray_moves_are_plain(placement, from, color, r, f, dir, i - 1);
        }
    }
}

/// Every move of a sliding piece is a plain move.
pub proof fn lemma_slide_moves_are_plain(
    placement: Placement,
    from: int,
    color: Color,
    dirs: Seq<(i8, i8)>,
    i: int,
)
    requires
        is_square(from),
        0 <= i < slide_moves(placement, from, color, dirs).len(),
    ensures
        is_plain_move(from, slide_moves(placement, from, color, dirs)[i]),
        can_land(placement, slide_moves(placement, from, color, dirs)[i].to as int, color),
    decreases dirs.len(),
{
    if dirs.len() > 0 {
        let earlier = slide_moves(placement, from, color, dirs.drop_last());
        if i < earlier.len() {
            lemma_slide_moves_are_plain(placement, from, color, dirs.drop_last(), i);
        } else {
            lemma_ray_moves_are_plain(
                placement,
                from,
                color,
                rank_of(from),
                file_of(from),
                dirs.last(),
                i - earlier.len(),
            );
        }
    }
}

/// Every move that a pawn is given is a move of a pawn.
pub proof fn lemma_pawn_moves_are_pawn_moves(pos: Position, from: int, color: Color, i: int)
    requires
        is_square(from),
        pos.wf(),
        0 <= i < pawn_moves(pos, from, color).len(),
    ensures
        is_pawn_move(from, color, pawn_moves(pos, from, color)[i]),
        is_generated_pawn_move(pos, from, color, pawn_moves(pos, from, color)[i]),
{
    let pushes = pawn_pushes(pos.placement, from, color);
    let left = pawn_capture(pos.placement, from, color, -1);
    let right = pawn_capture(pos.placement, from, color, 1);
    let passing = pawn_en_passant(pos.en_passant, from, color);
    let mv = pawn_moves(pos, from, color)[i];
    let rank = rank_of(from);
    let file = file_of(from);
    let ahead = rank + color.forward();
    if i < pushes.len() {
        let one = square_of(ahead, file);
        let arrivals = pawn_arrivals(from, one, color);
        assert(mv == pushes[i]);
        if i < arrivals.len() {
            assert(mv == arrivals[i]);
        }
    } else if i < pushes.len() + left.len() {
        assert(mv == left[i - pushes.len()]);
        let arrivals = pawn_arrivals(from, square_of(ahead, file - 1), color);
        assert(mv == arrivals[i - pushes.len()]);
    } else if i < pushes.len() + left.len() + right.len() {
        assert(mv == right[i - pushes.len() - left.len()]);
        let arrivals = pawn_arrivals(from, square_of(ahead, file + 1), color);
        assert(mv == arrivals[i - pushes.len() - left.len()]);
    } else {
        assert(mv == passing[i - pushes.len() - left.len() - right.len()]);
    }
}

/// A plain move of a piece that is neither pawn nor king can be taken back.
pub proof fn lemma_plain_move_is_reversible(pos: Position, from: int, mv: Move)
    requires
        pos.wf(),
        is_square(from),
        is_plain_move(from, mv),
        pos.placement[from] matches Some(piece) && piece.kind != Piece::Pawn && piece.kind
            != Piece::King,
    ensures
        pos.reversible(mv),
{
}

/// A short move of a king can be taken back.
pub proof fn lemma_king_step_is_reversible(pos: Position, from: int, mv: Move)
    requires
        pos.wf(),
        is_square(from),
        is_short_move(from, mv),
        pos.placement[from] matches Some(piece) && piece.kind == Piece::King,
    ensures
        pos.reversible(mv),
{
}

/// A move of a pawn of the side to move can be taken back in a consistent
/// position.
pub proof fn lemma_pawn_move_is_reversible(pos: Position, from: int, mv: Move)
    requires
        is_consistent(pos),
        is_square(from),
        is_pawn_move(from, pos.side_to_move, mv),
        pos.placement[from] == Some(
            ColoredPiece { kind: Piece::Pawn, color: pos.side_to_move },
        ),
    ensures
        pos.reversible(mv),
{
}

/// Every move that a king of the side to move is given can be taken back in
/// a consistent position.
pub proof fn lemma_king_moves_are_reversible(pos: Position, from: int, i: int)
    requires
        is_consistent(pos),
        is_square(from),
        is_king_of(pos.placement, from, pos.side_to_move),
        0 <= i < king_moves(pos, from, pos.side_to_move).len(),
    ensures
        pos.reversible(king_moves(pos, from, pos.side_to_move)[i]),
{
    let color = pos.side_to_move;
    let steps = leap_moves(pos.placement, from, color, king_offsets());
    let short = kingside_castle(pos, from, color);
    let long = queenside_castle(pos, from, color);
    let mv = king_moves(pos, from, color)[i];
    if i < steps.len() {
        assert(mv == steps[i]);
        lemma_leap_moves_are_plain(pos.placement, from, color, king_offsets(), i);
        lemma_king_step_is_reversible(pos, from, mv);
    } else if i < steps.len() + short.len() {
        assert(mv == short[i - steps.len()]);
        assert(may_castle(pos, color));
        assert(from == king_home(color));
    } else {
        assert(mv == long[i - steps.len() - short.len()]);
        assert(may_castle(pos, color));
        assert(from == king_home(color));
    }
}

/// Every move from a square can be taken back in a consistent position.
pub proof fn lemma_moves_from_are_reversible(pos: Position, from: int, i: int)
    requires
        is_consistent(pos),
        is_square(from),
        0 <= i < moves_from(pos, from).len(),
    ensures
        pos.reversible(moves_from(pos, from)[i]),
{
    let piece = pos.placement[from].unwrap();
    let color = piece.color;
    let mv = moves_from(pos, from)[i];
    assert(mv == moves_of_kind(pos, from, piece.kind, color)[i]);
    match piece.kind {
        Piece::Pawn => {
            lemma_pawn_moves_are_pawn_moves(pos, from, color, i);
            lemma_pawn_move_is_reversible(pos, from, mv);
        },
        Piece::Knight => {
            lemma_leap_moves_are_plain(pos.placement, from, color, knight_offsets(), i);
            lemma_plain_move_is_reversible(pos, from, mv);
        },
        Piece::Bishop => {
            lemma_slide_moves_are_plain(pos.placement, from, color, bishop_directions(), i);
            lemma_plain_move_is_reversible(pos, from, mv);
        },
        Piece::Rook => {
            lemma_slide_moves_are_plain(pos.placement, from, color, rook_directions(), i);
            lemma_plain_move_is_reversible(pos, from, mv);
        },
        Piece::Queen => {
            lemma_slide_moves_are_plain(pos.placement, from, color, king_offsets(), i);
            lemma_plain_move_is_reversible(pos, from, mv);
        },
        Piece::King => {
            lemma_king_moves_are_reversible(pos, from, i);
        },
    }
}

/// Every move from the first `n` squares can be taken back in a consistent
/// position.
pub proof fn lemma_moves_through_are_reversible(pos: Position, n: int, i: int)
    requires
        is_consistent(pos),
        0 <= n <= 64,
        0 <= i < moves_through(pos, n).len(),
    ensures
        pos.reversible(moves_through(pos, n)[i]),
    decreases n,
{
    if n > 0 {
        let earlier = moves_through(pos, n - 1);
        if i < earlier.len() {
            lemma_moves_through_are_reversible(pos, n - 1, i);
        } else {
            lemma_moves_from_are_reversible(pos, scan_square(n - 1), i - earlier.len());
        }
    }
}

/// Whether `color` holds the castling right of the given wing.
pub open spec fn holds_right(pos: Position, color: Color, kingside: bool) -> bool {
    match color {
        Color::White => if kingside {
            pos.castling.white_kingside
        } else {
            pos.castling.white_queenside
        },
        Color::Black => if kingside {
            pos.castling.black_kingside
        } else {
            pos.castling.black_queenside
        },
    }
}

/// The square on which the rook of `color` for the given wing starts.
pub open spec fn rook_corner(color: Color, kingside: bool) -> int {
    square_of(home_rank(color), if kingside { 7int } else { 0int })
}

/// The castling rights of `color` are backed by the board: a right held
/// means that the rook of that wing stands on its corner and that the king
/// stands on its home square and nowhere else.
pub open spec fn rights_are_backed(pos: Position, color: Color) -> bool {
    &&& may_castle(pos, color) ==> forall|square: int|
        is_square(square) && #[trigger] is_king_of(pos.placement, square, color) ==> square
            == king_home(color)
    &&& holds_right(pos, color, true) ==> pos.placement[rook_corner(color, true)] == Some(
        ColoredPiece { kind: Piece::Rook, color },
    )
    &&& holds_right(pos, color, false) ==> pos.placement[rook_corner(color, false)] == Some(
        ColoredPiece { kind: Piece::Rook, color },
    )
}

/// What every position of a game satisfies: it is consistent, the
/// en-passant target is an empty square, and the castling rights of both
/// sides are backed by the board.
pub open spec fn is_sound(pos: Position) -> bool {
    &&& is_consistent(pos)
    &&& pos.en_passant matches Some(target) ==> pos.placement[target] is None
    &&& rights_are_backed(pos, Color::White)
    &&& rights_are_backed(pos, Color::Black)
}

/// The position from which a game starts is sound.
pub proof fn lemma_starting_position_is_sound()
    ensures
        is_sound(crate::board::starting_position()),
{
}

/// A sound position stays sound when a move is made that goes from a piece
/// of the side to move to a square not held by that side, changes the
/// board as a move of that piece does, and promotes to no king.
proof fn lemma_move_keeps_soundness(pos: Position, mv: Move)
    requires
        is_sound(pos),
        pos.reversible(mv),
        pos.mover(mv).color == pos.side_to_move,
        can_land(pos.placement, mv.to as int, pos.side_to_move),
        mv.promotion matches Some(kind) ==> kind != Piece::King,
        pos.is_double_push(mv) ==> {
            &&& mv.promotion is None
            &&& Position::passed_square(mv) == mv.from + 8 * pos.side_to_move.forward()
            &&& mv.to == mv.from + 16 * pos.side_to_move.forward()
            &&& pos.placement[Position::passed_square(mv)] is None
        },
        pos.is_castle(mv) ==> {
            &&& mv.from == king_home(pos.side_to_move)
            &&& rank_of(mv.to as int) == rank_of(mv.from as int)
            &&& holds_right(pos, pos.side_to_move, file_of(mv.to as int) > file_of(mv.from as int))
        },
    ensures
        is_sound(pos.apply(mv)),
{
    let after = pos.apply(mv);
    let side = pos.side_to_move;
    let from = mv.from as int;
    let to = mv.to as int;
    let mover = pos.mover(mv);
    assert(after.wf());
    if pos.is_double_push(mv) {
        let passed = Position::passed_square(mv);
        assert(mover.kind == Piece::Pawn);
        assert(!pos.is_en_passant_capture(mv));
        assert(!pos.is_castle(mv));
        assert(after.placement[to] == Some(mover));
        assert(after.placement[passed] is None);
        assert(passed - 8 * after.side_to_move.forward() == to);
    }
    assert(after.en_passant matches Some(target) ==> after.placement[target] is None);
    assert forall|color: Color| #[trigger] rights_are_backed(after, color) by {
        assert(rights_are_backed(pos, color));
        if may_castle(after, color) {
            assert(may_castle(pos, color));
            assert forall|square: int|
                is_square(square) && #[trigger] is_king_of(
                    after.placement,
                    square,
                    color,
                ) implies square == king_home(color) by {
                if after.placement[square] == pos.placement[square] {
                    assert(is_king_of(pos.placement, square, color));
                } else if pos.is_castle(mv) {
                    assert(color != side);
                    assert(pos.placement[Position::rook_home(mv)] == Some(
                        ColoredPiece { kind: Piece::Rook, color: side },
                    ));
                } else {
                    assert(square == to);
                }
            }
        }
    }
    assert(rights_are_backed(after, Color::White));
    assert(rights_are_backed(after, Color::Black));
    assert(rights_are_backed(after, after.side_to_move));
    assert(is_consistent(after));
}

/// Every move from a square keeps a sound position sound.
pub proof fn lemma_moves_from_keep_soundness(pos: Position, from: int, i: int)
    requires
        is_sound(pos),
        is_square(from),
        0 <= i < moves_from(pos, from).len(),
    ensures
        is_sound(pos.apply(moves_from(pos, from)[i])),
{
    let piece = pos.placement[from].unwrap();
    let color = piece.color;
    let mv = moves_from(pos, from)[i];
    assert(mv == moves_of_kind(pos, from, piece.kind, color)[i]);
    lemma_moves_from_are_reversible(pos, from, i);
    match piece.kind {
        Piece::Pawn => {
            lemma_pawn_moves_are_pawn_moves(pos, from, color, i);
        },
        Piece::Knight => {
            lemma_leap_moves_are_plain(pos.placement, from, color, knight_offsets(), i);
        },
        Piece::Bishop => {
            lemma_slide_moves_are_plain(pos.placement, from, color, bishop_directions(), i);
        },
        Piece::Rook => {
            lemma_slide_moves_are_plain(pos.placement, from, color, rook_directions(), i);
        },
        Piece::Queen => {
            lemma_slide_moves_are_plain(pos.placement, from, color, king_offsets(), i);
        },
        Piece::King => {
            let steps = leap_moves(pos.placement, from, color, king_offsets());
            let short = kingside_castle(pos, from, color);
            let long = queenside_castle(pos, from, color);
            if i < steps.len() {
                assert(mv == steps[i]);
                lemma_leap_moves_are_plain(pos.placement, from, color, king_offsets(), i);
            } else if i < steps.len() + short.len() {
                assert(mv == short[i - steps.len()]);
                assert(may_castle(pos, color));
                assert(is_king_of(pos.placement, from, color));
            } else {
                assert(mv == long[i - steps.len() - short.len()]);
                assert(may_castle(pos, color));
                assert(is_king_of(pos.placement, from, color));
            }
        },
    }
    lemma_move_keeps_soundness(pos, mv);
}

/// Every move from the first `n` squares keeps a sound position sound.
pub proof fn lemma_moves_through_keep_soundness(pos: Position, n: int, i: int)
    requires
        is_sound(pos),
        0 <= n <= 64,
        0 <= i < moves_through(pos, n).len(),
    ensures
        is_sound(pos.apply(moves_through(pos, n)[i])),
    decreases n,
{
    if n > 0 {
        let earlier = moves_through(pos, n - 1);
        if i < earlier.len() {
            lemma_moves_through_keep_soundness(pos, n - 1, i);
        } else {
            lemma_moves_from_keep_soundness(pos, scan_square(n - 1), i - earlier.len());
        }
    }
}

/// A game stays sound: every pseudo-legal move, and so every legal move,
/// leads from a sound position to a sound position.
pub proof fn lemma_soundness_is_kept(pos: Position, i: int)
    requires
        is_sound(pos),
        0 <= i < pseudo_legal_moves(pos).len(),
    ensures
        is_sound(pos.apply(pseudo_legal_moves(pos)[i])),
{
    lemma_moves_through_keep_soundness(pos, 64, i);
}

/// Every legal move leads from a sound position to a sound position.
pub proof fn lemma_legal_moves_keep_soundness(pos: Position, i: int)
    requires
        is_sound(pos),
        0 <= i < legal_moves(pos).len(),
    ensures
        is_sound(pos.apply(legal_moves(pos)[i])),
{
    let mv = legal_moves(pos)[i];
    let pred = |m: Move| keeps_king_safe(pos, m);
    assert(legal_moves(pos).contains(mv));
    pseudo_legal_moves(pos).lemma_filter_contains_rev(pred, mv);
    let k = choose|k: int| 0 <= k < pseudo_legal_moves(pos).len() && pseudo_legal_moves(pos)[k] == mv;
    lemma_soundness_is_kept(pos, k);
}

/// In a consistent position every pseudo-legal move can be applied and then
/// taken back, which restores the position exactly.
pub proof fn lemma_pseudo_legal_moves_are_reversible(pos: Position, i: int)
    requires
        is_consistent(pos),
        0 <= i < pseudo_legal_moves(pos).len(),
    ensures
        pos.reversible(pseudo_legal_moves(pos)[i]),
        pos.apply(pseudo_legal_moves(pos)[i]).unapply(
            pseudo_legal_moves(pos)[i],
            pos.undo_of(pseudo_legal_moves(pos)[i]),
        ) == pos,
{
    lemma_moves_through_are_reversible(pos, 64, i);
    crate::position::lemma_apply_then_unapply(pos, pseudo_legal_moves(pos)[i]);
}

/// In a consistent position every legal move can be applied and then taken
/// back, which restores the position exactly.
pub proof fn lemma_legal_moves_are_reversible(pos: Position, i: int)
    requires
        is_consistent(pos),
        0 <= i < legal_moves(pos).len(),
    ensures
        pos.reversible(legal_moves(pos)[i]),
        pos.apply(legal_moves(pos)[i]).admits_undo(
            legal_moves(pos)[i],
            pos.undo_of(legal_moves(pos)[i]),
        ),
        pos.apply(legal_moves(pos)[i]).unapply(legal_moves(pos)[i], pos.undo_of(legal_moves(pos)[i]))
            == pos,
{
    let mv = legal_moves(pos)[i];
    let pred = |m: Move| keeps_king_safe(pos, m);
    assert(legal_moves(pos).contains(mv));
    pseudo_legal_moves(pos).lemma_filter_contains_rev(pred, mv);
    let k = choose|k: int| 0 <= k < pseudo_legal_moves(pos).len() && pseudo_legal_moves(pos)[k] == mv;
    lemma_pseudo_legal_moves_are_reversible(pos, k);
    crate::position::lemma_apply_then_unapply(pos, mv);
}

} // verus!
