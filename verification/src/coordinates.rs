//! Conversions between a linear square index and the row/column layout of the
//! board grid.

use vstd::prelude::*;
use crate::file::File;
use crate::genmove::Square;
use crate::position::{file_of, is_square, on_board, rank_of, square_of};
use crate::rank::Rank;

verus! {

/// Row of the board grid that holds `square`: row 0 is the eighth rank.
pub open spec fn array_row_of(square: int) -> int {
    if square / 8 > 7 {
        0
    } else {
        7 - square / 8
    }
}

/// Column of the board grid that holds `square`: column 0 is the a-file.
pub open spec fn array_col_of(square: int) -> int {
    square % 8
}

/// Square index of the grid cell at `(row, col)`.
pub open spec fn square_at(row: int, col: int) -> int {
    (7 - row) * 8 + col
}

/// The rank and the file of `square`. A number past 63 is read modulo 64.
pub fn square_to_rank_file_enums(square: Square) -> (place: (Rank, File))
    ensures
        place.0.index() == rank_of(square as int) % 8,
        place.1.number() == file_of(square as int),
{
    let rank_val = (square / 8) as usize;
    let file_val = (square % 8) as usize;
    (Rank::from_index(rank_val), File::from_index(file_val))
}

/// The square on `rank` and `file`.
pub fn rank_file_enums_to_square(rank: Rank, file: File) -> (square: Square)
    ensures
        square == square_of(rank.index(), file.number()),
        square < 64,
{
    (rank.to_index() * 8 + file.to_index()) as Square
}

/// The row and column of the board grid that hold `square`. A number past
/// 63 is read as a square of the eighth rank.
pub fn square_to_array_indices(square: Square) -> (indices: (usize, usize))
    ensures
        indices.0 == array_row_of(square as int),
        indices.1 == array_col_of(square as int),
        indices.1 < 8,
        indices.0 < 8,
{
    let rank_val = (square / 8) as usize;
    let file_val = (square % 8) as usize;
    let array_rank_idx = if rank_val > 7 { 0 } else { 7 - rank_val };
    (array_rank_idx, file_val)
}

/// The square that the board grid holds at a row and a column.
pub fn array_indices_to_square(array_rank_idx: usize, array_file_idx: usize) -> (square: Square)
    requires
        array_rank_idx < 8,
        array_file_idx < 8,
    ensures
        square == square_at(array_rank_idx as int, array_file_idx as int),
        square < 64,
{
    let rank_val = (7 - array_rank_idx) as u8;
    let file_val = array_file_idx as u8;
    rank_val * 8 + file_val
}

/// The square one step of `(dr, df)` away from `(rank, file)`, if that is
/// on the board.
pub fn offset_square(rank: i8, file: i8, dr: i8, df: i8) -> (square: Option<Square>)
    requires
        on_board(rank as int, file as int),
        -2 <= dr <= 2,
        -2 <= df <= 2,
    ensures
        match square {
            Some(sq) => on_board(rank + dr, file + df) && sq == square_of(rank + dr, file + df),
            None => !on_board(rank + dr, file + df),
        },
{
    let r = rank + dr;
    let f = file + df;
    if r >= 0 && r <= 7 && f >= 0 && f <= 7 {
        Some((r as u8) * 8 + (f as u8))
    } else {
        None
    }
}

/// Going from a square to its row and column in the grid and back gives the
/// square again, and so does the way there and back from a row and a column.
pub proof fn lemma_array_indices_round_trip()
    ensures
        forall|square: int|
            is_square(square) ==> #[trigger] square_at(array_row_of(square), array_col_of(square))
                == square,
        forall|square: int|
            is_square(square) ==> on_board(
                #[trigger] array_row_of(square),
                array_col_of(square),
            ),
        forall|row: int, col: int|
            on_board(row, col) ==> array_row_of(#[trigger] square_at(row, col)) == row
                && array_col_of(square_at(row, col)) == col && is_square(square_at(row, col)),
{
}

/// Going from a square to its rank and file and back gives the square
/// again, and so does the way there and back from a rank and a file.
pub proof fn lemma_rank_file_round_trip()
    ensures
        forall|square: int|
            is_square(square) ==> #[trigger] square_of(rank_of(square), file_of(square)) == square
                && on_board(rank_of(square), file_of(square)),
        forall|rank: int, file: int|
            on_board(rank, file) ==> rank_of(#[trigger] square_of(rank, file)) == rank && file_of(
                square_of(rank, file),
            ) == file && is_square(square_of(rank, file)),
{
}

} // verus!
