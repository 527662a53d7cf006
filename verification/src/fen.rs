//! Forsyth-Edwards Notation: reading a position from a text of six fields
//! and writing it back.

use vstd::prelude::*;
use crate::board::{Board, GameResult};
use crate::color::Color;
use crate::error::{Error, FenParseError};
use crate::pieces::{piece_of_symbol, ColoredPiece, Piece};
use crate::coordinates::{array_col_of, array_row_of, square_at};
use crate::position::{file_of, rank_of, square_of, CastlingRights, Placement, Position};
use crate::text::{
    char_is_digit, char_is_space, chars_of, decimal, digit_char, digit_from_value,
    digit_to_value, digit_value, is_digit, is_space, parse_u32, push_decimal, read_u32,
    string_of,
};

verus! {

/// Why a text is no FEN, with the part of the text that is at fault.
pub enum FenFault {
    InvalidFormat(Seq<char>),
    InvalidPiece(char),
    InvalidRankLength(Seq<char>),
    TooManyParts,
    NotEnoughParts,
    InvalidActiveColor(Seq<char>),
    InvalidCastlingRights(Seq<char>),
    InvalidEnPassantTarget(Seq<char>),
    InvalidHalfmoveClock(Seq<char>),
    InvalidFullmoveNumber(Seq<char>),
}

impl View for FenParseError {
    type V = FenFault;

    open spec fn view(&self) -> FenFault {
        match self {
            FenParseError::InvalidFormat(text) => FenFault::InvalidFormat(text@),
            FenParseError::InvalidPiece(c) => FenFault::InvalidPiece(*c),
            FenParseError::InvalidRankLength(text) => FenFault::InvalidRankLength(text@),
            FenParseError::TooManyParts => FenFault::TooManyParts,
            FenParseError::NotEnoughParts => FenFault::NotEnoughParts,
            FenParseError::InvalidActiveColor(text) => FenFault::InvalidActiveColor(text@),
            FenParseError::InvalidCastlingRights(text) => FenFault::InvalidCastlingRights(text@),
            FenParseError::InvalidEnPassantTarget(text) => FenFault::InvalidEnPassantTarget(text@),
            FenParseError::InvalidHalfmoveClock(text) => FenFault::InvalidHalfmoveClock(text@),
            FenParseError::InvalidFullmoveNumber(text) => FenFault::InvalidFullmoveNumber(text@),
        }
    }
}

/// One rank of the board, from the a-file to the h-file.
pub type Row = Seq<Option<ColoredPiece>>;

/// The fields of a text: its longest stretches without a space character,
/// in order.
pub open spec fn fields(text: Seq<char>) -> Seq<Seq<char>>
    decreases text.len(),
{
    if text.len() == 0 {
        Seq::empty()
    } else {
        let before = fields(text.drop_last());
        if is_space(text.last()) {
            before
        } else if text.len() >= 2 && !is_space(text[text.len() - 2]) {
            before.drop_last().push(before.last().push(text.last()))
        } else {
            before.push(seq![text.last()])
        }
    }
}

/// The parts of a text between its occurrences of `/`, in order: always at
/// least one, and empty where two of them follow each other or stand at
/// either end.
pub open spec fn rank_texts(text: Seq<char>) -> Seq<Seq<char>>
    decreases text.len(),
{
    if text.len() == 0 {
        seq![Seq::empty()]
    } else {
        let before = rank_texts(text.drop_last());
        if text.last() == '/' {
            before.push(Seq::empty())
        } else {
            before.drop_last().push(before.last().push(text.last()))
        }
    }
}

/// `count` empty squares.
pub open spec fn empty_squares(count: int) -> Row {
    Seq::new(count as nat, |i: int| None::<ColoredPiece>)
}

/// Reads the rank `text` of the placement `field` from its `i`-th character
/// on, `row` being the squares read so far: a digit from 1 to 8 stands for
/// that many empty squares, a piece letter for its piece, and all of them
/// together fill exactly eight squares.
pub open spec fn read_rank(field: Seq<char>, text: Seq<char>, i: int, row: Row) -> Result<
    Row,
    FenFault,
>
    decreases text.len() - i,
{
    if i < 0 || i >= text.len() {
        if row.len() == 8 {
            Ok(row)
        } else {
            Err(FenFault::InvalidRankLength(text))
        }
    } else if is_digit(text[i]) {
        let count = digit_value(text[i]);
        if count == 0 || count == 9 {
            Err(FenFault::InvalidFormat(field))
        } else if row.len() + count > 8 {
            Err(FenFault::InvalidRankLength(text))
        } else {
            read_rank(field, text, i + 1, row + empty_squares(count))
        }
    } else if row.len() >= 8 {
        Err(FenFault::InvalidRankLength(text))
    } else {
        match piece_of_symbol(text[i]) {
            Some(piece) => read_rank(field, text, i + 1, row.push(Some(piece))),
            None => Err(FenFault::InvalidPiece(text[i])),
        }
    }
}

/// Reads the ranks of the placement `field` from the `n`-th on, up to the
/// eighth, `rows` being the ranks read so far.
pub open spec fn read_ranks(field: Seq<char>, ranks: Seq<Seq<char>>, n: int, rows: Seq<Row>) -> Result<
    Seq<Row>,
    FenFault,
>
    decreases ranks.len() - n,
{
    if n < 0 || n >= ranks.len() || n >= 8 {
        Ok(rows)
    } else {
        match read_rank(field, ranks[n], 0, Seq::empty()) {
            Ok(row) => read_ranks(field, ranks, n + 1, rows.push(row)),
            Err(fault) => Err(fault),
        }
    }
}

/// The squares of the board, given its ranks from the eighth to the first.
pub open spec fn placement_of_rows(rows: Seq<Row>) -> Placement {
    Seq::new(64, |square: int| rows[7 - square / 8][square % 8])
}

/// Reads the placement field: eight ranks from the eighth to the first,
/// with `/` between them. The first rank at fault decides the error; after
/// that, a number of ranks other than eight.
pub open spec fn read_placement(field: Seq<char>) -> Result<Placement, FenFault> {
    let ranks = rank_texts(field);
    match read_ranks(field, ranks, 0, Seq::empty()) {
        Err(fault) => Err(fault),
        Ok(rows) => if ranks.len() != 8 {
            Err(FenFault::InvalidFormat(field))
        } else {
            Ok(placement_of_rows(rows))
        },
    }
}

/// Reads the side to move: `w` or `b`.
pub open spec fn read_color(field: Seq<char>) -> Result<Color, FenFault> {
    if field == seq!['w'] {
        Ok(Color::White)
    } else if field == seq!['b'] {
        Ok(Color::Black)
    } else {
        Err(FenFault::InvalidActiveColor(field))
    }
}

/// Whether `c` names a castling right.
pub open spec fn is_castling_letter(c: char) -> bool {
    c == 'K' || c == 'Q' || c == 'k' || c == 'q'
}

/// Reads the castling rights: `-` for none, or letters out of `KQkq`, each
/// of which grants its right.
pub open spec fn read_castling(field: Seq<char>) -> Result<CastlingRights, FenFault> {
    if field == seq!['-'] {
        Ok(
            CastlingRights {
                white_kingside: false,
                white_queenside: false,
                black_kingside: false,
                black_queenside: false,
            },
        )
    } else if forall|i: int| 0 <= i < field.len() ==> is_castling_letter(#[trigger] field[i]) {
        Ok(
            CastlingRights {
                white_kingside: field.contains('K'),
                white_queenside: field.contains('Q'),
                black_kingside: field.contains('k'),
                black_queenside: field.contains('q'),
            },
        )
    } else {
        Err(FenFault::InvalidCastlingRights(field))
    }
}

/// Reads the en-passant target: `-` for none, or a file letter from a to h
/// and the digit of the rank that a pawn of the side not to move has just
/// passed: 6 with White to move, 3 with Black to move.
pub open spec fn read_en_passant(field: Seq<char>, side_to_move: Color) -> Result<
    Option<int>,
    FenFault,
> {
    if field == seq!['-'] {
        Ok(None)
    } else if field.len() == 2 && 'a' <= field[0] <= 'h' && (field[1] == '6' && side_to_move
        == Color::White || field[1] == '3' && side_to_move == Color::Black) {
        Ok(Some(square_of(digit_value(field[1]) - 1, field[0] as int - 'a' as int)))
    } else {
        Err(FenFault::InvalidEnPassantTarget(field))
    }
}

/// Reads the halfmove clock: a number that fits 32 bits.
pub open spec fn read_halfmove_clock(field: Seq<char>) -> Result<nat, FenFault> {
    match parse_u32(field) {
        Some(n) => Ok(n as nat),
        None => Err(FenFault::InvalidHalfmoveClock(field)),
    }
}

/// Reads the fullmove number: a number that fits 32 bits and is not zero.
pub open spec fn read_fullmove_number(field: Seq<char>) -> Result<nat, FenFault> {
    match parse_u32(field) {
        Some(n) if n != 0 => Ok(n as nat),
        _ => Err(FenFault::InvalidFullmoveNumber(field)),
    }
}

/// Reads the six fields of a FEN in order; the first field at fault decides
/// the error.
pub open spec fn read_fields(parts: Seq<Seq<char>>) -> Result<Position, FenFault> {
    match read_placement(parts[0]) {
        Err(fault) => Err(fault),
        Ok(placement) => match read_color(parts[1]) {
            Err(fault) => Err(fault),
            Ok(side_to_move) => match read_castling(parts[2]) {
                Err(fault) => Err(fault),
                Ok(castling) => match read_en_passant(parts[3], side_to_move) {
                    Err(fault) => Err(fault),
                    Ok(en_passant) => match read_halfmove_clock(parts[4]) {
                        Err(fault) => Err(fault),
                        Ok(halfmove_clock) => match read_fullmove_number(parts[5]) {
                            Err(fault) => Err(fault),
                            Ok(fullmove_number) => Ok(
                                Position {
                                    placement,
                                    side_to_move,
                                    castling,
                                    en_passant,
                                    halfmove_clock,
                                    fullmove_number,
                                },
                            ),
                        },
                    },
                },
            },
        },
    }
}

/// The position that a text describes as a FEN, or why it describes none.
pub open spec fn parse_position(text: Seq<char>) -> Result<Position, FenFault> {
    let parts = fields(text);
    if parts.len() != 6 {
        Err(FenFault::NotEnoughParts)
    } else {
        read_fields(parts)
    }
}

/// The digit for a run of `empties` empty squares, or nothing where there
/// is no such run.
pub open spec fn run_text(empties: int) -> Seq<char> {
    if empties > 0 {
        seq![digit_char(empties)]
    } else {
        Seq::empty()
    }
}

/// The text of a rank from its `i`-th square on, after `empties` empty
/// squares that are not written yet.
pub open spec fn rank_text_from(row: Row, i: int, empties: int) -> Seq<char>
    decreases row.len() - i,
{
    if i < 0 || i >= row.len() {
        run_text(empties)
    } else {
        match row[i] {
            Some(piece) => run_text(empties) + seq![piece.symbol()] + rank_text_from(row, i + 1, 0),
            None => rank_text_from(row, i + 1, empties + 1),
        }
    }
}

/// The text of a rank: the letter of each piece, and for each run of empty
/// squares its length.
pub open spec fn rank_text(row: Row) -> Seq<char> {
    rank_text_from(row, 0, 0)
}

/// The rank that the board holds in row `row` of its grid.
pub open spec fn row_of(placement: Placement, row: int) -> Row {
    Seq::new(8, |col: int| placement[square_at(row, col)])
}

/// The text of the ranks from row `row` of the grid on, with `/` between
/// them.
pub open spec fn placement_text_from(placement: Placement, row: int) -> Seq<char>
    decreases 8 - row,
{
    if row < 0 || row >= 8 {
        Seq::empty()
    } else if row == 7 {
        rank_text(row_of(placement, row))
    } else {
        rank_text(row_of(placement, row)) + seq!['/'] + placement_text_from(placement, row + 1)
    }
}

/// The placement field: the ranks from the eighth to the first.
pub open spec fn placement_text(placement: Placement) -> Seq<char> {
    placement_text_from(placement, 0)
}

pub open spec fn color_text(color: Color) -> Seq<char> {
    match color {
        Color::White => seq!['w'],
        Color::Black => seq!['b'],
    }
}

/// The letter of a right that is held, or nothing.
pub open spec fn right_text(held: bool, letter: char) -> Seq<char> {
    if held {
        seq![letter]
    } else {
        Seq::empty()
    }
}

/// The castling field: the letters of the rights held, in the order
/// `KQkq`, or `-` where none is held.
pub open spec fn castling_text(rights: CastlingRights) -> Seq<char> {
    let letters = right_text(rights.white_kingside, 'K') + right_text(rights.white_queenside, 'Q')
        + right_text(rights.black_kingside, 'k') + right_text(rights.black_queenside, 'q');
    if letters.len() == 0 {
        seq!['-']
    } else {
        letters
    }
}

/// The en-passant field: the name of the target square, or `-`.
pub open spec fn en_passant_text(target: Option<int>) -> Seq<char> {
    match target {
        Some(square) => seq![
            (file_of(square) + 'a' as int) as char,
            digit_char(rank_of(square) + 1),
        ],
        None => seq!['-'],
    }
}

/// The FEN of a position: its six fields with one blank between them.
pub open spec fn fen_text(pos: Position) -> Seq<char> {
    placement_text(pos.placement) + seq![' '] + color_text(pos.side_to_move) + seq![' ']
        + castling_text(pos.castling) + seq![' '] + en_passant_text(pos.en_passant) + seq![' ']
        + decimal(pos.halfmove_clock) + seq![' '] + decimal(pos.fullmove_number)
}

/// The texts that a list of character vectors holds.
pub open spec fn texts(parts: Seq<Vec<char>>) -> Seq<Seq<char>> {
    Seq::new(parts.len(), |i: int| parts[i]@)
}

/// Splits a text into its fields.
pub fn split_fields(chars: &Vec<char>) -> (parts: Vec<Vec<char>>)
    ensures
        texts(parts@) == fields(chars@),
{
    let mut parts: Vec<Vec<char>> = Vec::new();
    let mut current: Vec<char> = Vec::new();
    let mut i: usize = 0;
    assert(chars@.take(0) =~= Seq::empty());
    assert(texts(parts@) =~= Seq::empty());
    while i < chars.len()
        invariant
            i <= chars.len(),
            current@.len() > 0 <==> i > 0 && !is_space(chars@[i - 1]),
            fields(chars@.take(i as int)) == if current@.len() > 0 {
                texts(parts@).push(current@)
            } else {
                texts(parts@)
            },
        decreases chars.len() - i,
    {
        let c = chars[i];
        let ghost prefix = chars@.take(i + 1);
        assert(prefix.drop_last() =~= chars@.take(i as int));
        assert(prefix.last() == c);
        if char_is_space(c) {
            if current.len() > 0 {
                let ghost before = texts(parts@);
                parts.push(current);
                assert(texts(parts@) =~= before.push(current@));
                current = Vec::new();
            }
        } else {
            let ghost word = current@;
            let ghost done = texts(parts@);
            current.push(c);
            proof {
                if word.len() > 0 {
                    assert(prefix[prefix.len() - 2] == chars@[i - 1]);
                    assert(done.push(word).drop_last() =~= done);
                } else {
                    assert(current@ =~= seq![c]);
                    if i > 0 {
                        assert(prefix[prefix.len() - 2] == chars@[i - 1]);
                    }
                }
            }
        }
        i += 1;
    }
    assert(chars@.take(chars.len() as int) =~= chars@);
    if current.len() > 0 {
        let ghost before = texts(parts@);
        parts.push(current);
        assert(texts(parts@) =~= before.push(current@));
    }
    parts
}

/// Splits a placement field at each `/`.
pub fn split_ranks(field: &Vec<char>) -> (parts: Vec<Vec<char>>)
    ensures
        texts(parts@) == rank_texts(field@),
{
    let mut parts: Vec<Vec<char>> = Vec::new();
    let mut current: Vec<char> = Vec::new();
    let mut i: usize = 0;
    assert(field@.take(0) =~= Seq::empty());
    assert(texts(parts@).push(current@) =~= seq![Seq::<char>::empty()]);
    while i < field.len()
        invariant
            i <= field.len(),
            rank_texts(field@.take(i as int)) == texts(parts@).push(current@),
        decreases field.len() - i,
    {
        let c = field[i];
        let ghost prefix = field@.take(i + 1);
        let ghost done = texts(parts@);
        let ghost word = current@;
        assert(prefix.drop_last() =~= field@.take(i as int));
        assert(prefix.last() == c);
        assert(done.push(word).drop_last() =~= done);
        if c == '/' {
            parts.push(current);
            assert(texts(parts@) =~= done.push(word));
            current = Vec::new();
        } else {
            current.push(c);
        }
        i += 1;
    }
    assert(field@.take(field.len() as int) =~= field@);
    let ghost done = texts(parts@);
    parts.push(current);
    assert(texts(parts@) =~= done.push(current@));
    parts
}

/// The squares of the board, given the grid that holds them.
pub open spec fn placement_of_grid(grid: [[Option<ColoredPiece>; 8]; 8]) -> Placement {
    Seq::new(64, |square: int| grid[array_row_of(square)][array_col_of(square)])
}

/// The text held by `chars`, as a string.
fn text_of(chars: &Vec<char>) -> (text: String)
    ensures
        text@ == chars@,
{
    let text = string_of(chars, 0, chars.len());
    assert(chars@.subrange(0, chars.len() as int) =~= chars@);
    text
}

/// Reads one rank of the placement `field`.
fn parse_rank(field: &Vec<char>, text: &Vec<char>) -> (res: Result<
    [Option<ColoredPiece>; 8],
    FenParseError,
>)
    ensures
        match res {
            Ok(row) => read_rank(field@, text@, 0, Seq::empty()) == Ok::<Row, FenFault>(row@),
            Err(e) => read_rank(field@, text@, 0, Seq::empty()) == Err::<Row, FenFault>(e@),
        },
{
    let mut row: [Option<ColoredPiece>; 8] = [None; 8];
    let mut file_idx: usize = 0;
    let mut i: usize = 0;
    assert(row@.take(0) =~= Seq::empty());
    while i < text.len()
        invariant
            i <= text.len(),
            file_idx <= 8,
            forall|k: int| file_idx <= k < 8 ==> row@[k] is None,
            read_rank(field@, text@, 0, Seq::empty()) == read_rank(
                field@,
                text@,
                i as int,
                row@.take(file_idx as int),
            ),
        decreases text.len() - i,
    {
        let c = text[i];
        let ghost seen = row@.take(file_idx as int);
        if char_is_digit(c) {
            let count = digit_to_value(c) as usize;
            if count == 0 || count == 9 {
                return Err(FenParseError::InvalidFormat(text_of(field)));
            }
            if file_idx + count > 8 {
                return Err(FenParseError::InvalidRankLength(text_of(text)));
            }
            file_idx += count;
            assert(seen + empty_squares(count as int) =~= row@.take(file_idx as int));
        } else {
            if file_idx >= 8 {
                return Err(FenParseError::InvalidRankLength(text_of(text)));
            }
            match Board::fen_char_to_colored_piece(c) {
                Some(colored_piece) => {
                    row[file_idx] = Some(colored_piece);
                    file_idx += 1;
                    assert(seen.push(Some(colored_piece)) =~= row@.take(file_idx as int));
                },
                None => {
                    return Err(FenParseError::InvalidPiece(c));
                },
            }
        }
        i += 1;
    }
    if file_idx != 8 {
        return Err(FenParseError::InvalidRankLength(text_of(text)));
    }
    assert(row@.take(8) =~= row@);
    Ok(row)
}

/// Reads the placement field into a grid.
fn parse_placement(field: &Vec<char>) -> (res: Result<
    [[Option<ColoredPiece>; 8]; 8],
    FenParseError,
>)
    ensures
        match res {
            Ok(grid) => read_placement(field@) == Ok::<Placement, FenFault>(
                placement_of_grid(grid),
            ),
            Err(e) => read_placement(field@) == Err::<Placement, FenFault>(e@),
        },
{
    let ranks = split_ranks(field);
    let mut grid: [[Option<ColoredPiece>; 8]; 8] = [[None; 8]; 8];
    let ghost mut rows: Seq<Row> = Seq::empty();
    let mut n: usize = 0;
    while n < ranks.len() && n < 8
        invariant
            n <= ranks.len(),
            n <= 8,
            texts(ranks@) == rank_texts(field@),
            rows.len() == n,
            forall|k: int| 0 <= k < n ==> #[trigger] rows[k] == grid@[k]@,
            read_ranks(field@, rank_texts(field@), 0, Seq::empty()) == read_ranks(
                field@,
                rank_texts(field@),
                n as int,
                rows,
            ),
        decreases ranks.len() - n,
    {
        assert(texts(ranks@)[n as int] == ranks@[n as int]@);
        match parse_rank(field, &ranks[n]) {
            Ok(row) => {
                grid[n] = row;
                proof {
                    rows = rows.push(row@);
                }
            },
            Err(e) => {
                return Err(e);
            },
        }
        n += 1;
    }
    assert(texts(ranks@).len() == ranks@.len());
    if ranks.len() != 8 {
        return Err(FenParseError::InvalidFormat(text_of(field)));
    }
    assert(placement_of_rows(rows) =~= placement_of_grid(grid));
    Ok(grid)
}

/// Reads the side to move.
fn parse_color(field: &Vec<char>) -> (res: Result<Color, FenParseError>)
    ensures
        match res {
            Ok(color) => read_color(field@) == Ok::<Color, FenFault>(color),
            Err(e) => read_color(field@) == Err::<Color, FenFault>(e@),
        },
{
    if field.len() == 1 && field[0] == 'w' {
        assert(field@ =~= seq!['w']);
        Ok(Color::White)
    } else if field.len() == 1 && field[0] == 'b' {
        assert(field@ =~= seq!['b']);
        Ok(Color::Black)
    } else {
        assert(seq!['w'].len() == 1 && seq!['w'][0] == 'w');
        assert(seq!['b'].len() == 1 && seq!['b'][0] == 'b');
        Err(FenParseError::InvalidActiveColor(text_of(field)))
    }
}

/// Reads the castling rights, in the order white kingside, white
/// queenside, black kingside, black queenside.
fn parse_castling(field: &Vec<char>) -> (res: Result<(bool, bool, bool, bool), FenParseError>)
    ensures
        match res {
            Ok(rights) => read_castling(field@) == Ok::<CastlingRights, FenFault>(
                CastlingRights {
                    white_kingside: rights.0,
                    white_queenside: rights.1,
                    black_kingside: rights.2,
                    black_queenside: rights.3,
                },
            ),
            Err(e) => read_castling(field@) == Err::<CastlingRights, FenFault>(e@),
        },
{
    if field.len() == 1 && field[0] == '-' {
        assert(field@ =~= seq!['-']);
        return Ok((false, false, false, false));
    }
    assert(field@ != seq!['-']) by {
        assert(seq!['-'].len() == 1 && seq!['-'][0] == '-');
    }
    let mut white_kingside = false;
    let mut white_queenside = false;
    let mut black_kingside = false;
    let mut black_queenside = false;
    let mut i: usize = 0;
    while i < field.len()
        invariant
            i <= field.len(),
            field@ != seq!['-'],
            forall|k: int| 0 <= k < i ==> is_castling_letter(#[trigger] field@[k]),
            white_kingside == field@.take(i as int).contains('K'),
            white_queenside == field@.take(i as int).contains('Q'),
            black_kingside == field@.take(i as int).contains('k'),
            black_queenside == field@.take(i as int).contains('q'),
        decreases field.len() - i,
    {
        let c = field[i];
        let ghost seen = field@.take(i as int);
        let ghost next = field@.take(i + 1);
        assert(next =~= seen.push(c));
        assert forall|letter: char| next.contains(letter) == (seen.contains(letter) || letter
            == c) by {
            if seen.contains(letter) {
                let k = choose|k: int| 0 <= k < seen.len() && seen[k] == letter;
                assert(next[k] == letter);
            }
            if letter == c {
                assert(next[i as int] == c);
            }
        }
        if c == 'K' {
            white_kingside = true;
        } else if c == 'Q' {
            white_queenside = true;
        } else if c == 'k' {
            black_kingside = true;
        } else if c == 'q' {
            black_queenside = true;
        } else {
            assert(!is_castling_letter(field@[i as int]));
            return Err(FenParseError::InvalidCastlingRights(text_of(field)));
        }
        i += 1;
    }
    assert(field@.take(field.len() as int) =~= field@);
    Ok((white_kingside, white_queenside, black_kingside, black_queenside))
}

/// Reads the en-passant target as a row and a column of the grid.
fn parse_en_passant(field: &Vec<char>, side_to_move: Color) -> (res: Result<
    Option<(usize, usize)>,
    FenParseError,
>)
    ensures
        match res {
            Ok(target) => read_en_passant(field@, side_to_move) == Ok::<Option<int>, FenFault>(
                crate::board::target_square(target),
            ) && crate::board::target_on_board(target),
            Err(e) => read_en_passant(field@, side_to_move) == Err::<Option<int>, FenFault>(e@),
        },
{
    if field.len() == 1 && field[0] == '-' {
        assert(field@ =~= seq!['-']);
        return Ok(None);
    }
    assert(field@ != seq!['-']) by {
        assert(seq!['-'].len() == 1 && seq!['-'][0] == '-');
    }
    if field.len() != 2 {
        return Err(FenParseError::InvalidEnPassantTarget(text_of(field)));
    }
    let file_char = field[0];
    let rank_char = field[1];
    let fits = (rank_char == '6' && side_to_move == Color::White) || (rank_char == '3'
        && side_to_move == Color::Black);
    if !('a' <= file_char && file_char <= 'h') || !fits {
        return Err(FenParseError::InvalidEnPassantTarget(text_of(field)));
    }
    let file = ((file_char as u32) - 97) as usize;
    let rank_digit = digit_to_value(rank_char) as usize;
    Ok(Some((8 - rank_digit, file)))
}

impl Board {
    /// The piece that a FEN character stands for: an upper-case letter for a
    /// white piece, a lower-case letter for a black one.
    pub fn fen_char_to_colored_piece(c: char) -> (piece: Option<ColoredPiece>)
        ensures
            piece == piece_of_symbol(c),
    {
        if c == 'P' {
            Some(ColoredPiece::new(Piece::Pawn, Color::White))
        } else if c == 'N' {
            Some(ColoredPiece::new(Piece::Knight, Color::White))
        } else if c == 'B' {
            Some(ColoredPiece::new(Piece::Bishop, Color::White))
        } else if c == 'R' {
            Some(ColoredPiece::new(Piece::Rook, Color::White))
        } else if c == 'Q' {
            Some(ColoredPiece::new(Piece::Queen, Color::White))
        } else if c == 'K' {
            Some(ColoredPiece::new(Piece::King, Color::White))
        } else if c == 'p' {
            Some(ColoredPiece::new(Piece::Pawn, Color::Black))
        } else if c == 'n' {
            Some(ColoredPiece::new(Piece::Knight, Color::Black))
        } else if c == 'b' {
            Some(ColoredPiece::new(Piece::Bishop, Color::Black))
        } else if c == 'r' {
            Some(ColoredPiece::new(Piece::Rook, Color::Black))
        } else if c == 'q' {
            Some(ColoredPiece::new(Piece::Queen, Color::Black))
        } else if c == 'k' {
            Some(ColoredPiece::new(Piece::King, Color::Black))
        } else {
            None
        }
    }

    /// Reads a position from a FEN. The board that comes back has an empty
    /// history and a game in progress. A text that is no FEN is rejected with
    /// the first fault found in it, going through the fields in order.
    pub fn parse_fen(fen_string: &str) -> (res: Result<Board, Error>)
        ensures
            match res {
                Ok(board) => {
                    &&& parse_position(fen_string@) == Ok::<Position, FenFault>(board@)
                    &&& board.wf()
                    &&& board.move_history@.len() == 0
                    &&& board.game_result == GameResult::InProgress
                },
                Err(e) => e matches Error::FenParsing(fault) && parse_position(fen_string@)
                    == Err::<Position, FenFault>(fault@),
            },
    {
        let chars = chars_of(fen_string);
        let parts = split_fields(&chars);
        assert(texts(parts@).len() == parts@.len());
        if parts.len() != 6 {
            return Err(Error::FenParsing(FenParseError::NotEnoughParts));
        }
        assert(forall|k: int| 0 <= k < 6 ==> texts(parts@)[k] == (#[trigger] parts@[k])@);
        let squares = match parse_placement(&parts[0]) {
            Ok(grid) => grid,
            Err(e) => {
                return Err(Error::FenParsing(e));
            },
        };
        let active_color = match parse_color(&parts[1]) {
            Ok(color) => color,
            Err(e) => {
                return Err(Error::FenParsing(e));
            },
        };
        let rights = match parse_castling(&parts[2]) {
            Ok(rights) => rights,
            Err(e) => {
                return Err(Error::FenParsing(e));
            },
        };
        let en_passant_target = match parse_en_passant(&parts[3], active_color) {
            Ok(target) => target,
            Err(e) => {
                return Err(Error::FenParsing(e));
            },
        };
        let halfmove_clock = match read_u32(&parts[4], 0, parts[4].len()) {
            Some(n) => n,
            None => {
                assert(parts@[4]@.subrange(0, parts@[4]@.len() as int) =~= parts@[4]@);
                return Err(
                    Error::FenParsing(FenParseError::InvalidHalfmoveClock(text_of(&parts[4]))),
                );
            },
        };
        assert(parts@[4]@.subrange(0, parts@[4]@.len() as int) =~= parts@[4]@);
        assert(parts@[5]@.subrange(0, parts@[5]@.len() as int) =~= parts@[5]@);
        let fullmove_number = match read_u32(&parts[5], 0, parts[5].len()) {
            Some(n) => n,
            None => {
                return Err(
                    Error::FenParsing(FenParseError::InvalidFullmoveNumber(text_of(&parts[5]))),
                );
            },
        };
        if fullmove_number == 0 {
            return Err(
                Error::FenParsing(FenParseError::InvalidFullmoveNumber(text_of(&parts[5]))),
            );
        }
        let board = Board {
            squares,
            active_color,
            castling_kingside_white: rights.0,
            castling_queenside_white: rights.1,
            castling_kingside_black: rights.2,
            castling_queenside_black: rights.3,
            en_passant_target,
            halfmove_clock,
            fullmove_number,
            move_history: Vec::new(),
            game_result: GameResult::InProgress,
        };
        assert(board@.placement == placement_of_grid(squares));
        Ok(board)
    }

    /// Adds the text of row `row` of the grid to `out`.
    fn push_rank_text(&self, row: usize, out: &mut Vec<char>)
        requires
            row < 8,
        ensures
            final(out)@ == old(out)@ + rank_text(row_of(self@.placement, row as int)),
    {
        let ghost squares = row_of(self@.placement, row as int);
        let mut empty_squares_count: u8 = 0;
        let mut f_idx: usize = 0;
        while f_idx < 8
            invariant
                f_idx <= 8,
                row < 8,
                empty_squares_count <= f_idx,
                squares == row_of(self@.placement, row as int),
                old(out)@ + rank_text(squares) == out@ + rank_text_from(
                    squares,
                    f_idx as int,
                    empty_squares_count as int,
                ),
            decreases 8 - f_idx,
        {
            let ghost rest = rank_text_from(squares, f_idx as int, empty_squares_count as int);
            let ghost earlier = out@;
            assert(squares[f_idx as int] == self.squares[row as int][f_idx as int]);
            match self.squares[row][f_idx] {
                Some(colored_piece) => {
                    if empty_squares_count > 0 {
                        out.push(digit_from_value(empty_squares_count));
                        empty_squares_count = 0;
                    }
                    out.push(colored_piece.to_char());
                    assert(earlier + rest =~= out@ + rank_text_from(squares, f_idx + 1, 0));
                },
                None => {
                    empty_squares_count += 1;
                },
            }
            f_idx += 1;
        }
        let ghost earlier = out@;
        if empty_squares_count > 0 {
            out.push(digit_from_value(empty_squares_count));
        }
        assert(earlier + rank_text_from(squares, 8, empty_squares_count as int) =~= out@);
    }

    /// Adds the placement field to `out`.
    fn push_placement_text(&self, out: &mut Vec<char>)
        ensures
            final(out)@ == old(out)@ + placement_text(self@.placement),
    {
        let mut r_idx: usize = 0;
        while r_idx < 8
            invariant
                r_idx <= 8,
                old(out)@ + placement_text(self@.placement) == out@ + placement_text_from(
                    self@.placement,
                    r_idx as int,
                ),
            decreases 8 - r_idx,
        {
            let ghost earlier = out@;
            let ghost rest = placement_text_from(self@.placement, r_idx as int);
            self.push_rank_text(r_idx, out);
            if r_idx < 7 {
                out.push('/');
            }
            assert(earlier + rest =~= out@ + placement_text_from(self@.placement, r_idx + 1));
            r_idx += 1;
        }
        assert(out@ + placement_text_from(self@.placement, 8) =~= out@);
    }

    /// Adds the castling field to `out`.
    fn push_castling_text(&self, out: &mut Vec<char>)
        ensures
            final(out)@ == old(out)@ + castling_text(self@.castling),
    {
        let before_rights = out.len();
        if self.castling_kingside_white {
            out.push('K');
        }
        if self.castling_queenside_white {
            out.push('Q');
        }
        if self.castling_kingside_black {
            out.push('k');
        }
        if self.castling_queenside_black {
            out.push('q');
        }
        if out.len() == before_rights {
            out.push('-');
        }
        assert(out@ =~= old(out)@ + castling_text(self@.castling));
    }

    /// Adds the en-passant field to `out`.
    fn push_en_passant_text(&self, out: &mut Vec<char>)
        requires
            self.wf(),
        ensures
            final(out)@ == old(out)@ + en_passant_text(self@.en_passant),
    {
        match self.en_passant_target {
            Some((ep_arr_r, ep_arr_f)) => {
                out.push((97u8 + ep_arr_f as u8) as char);
                out.push(digit_from_value((8 - ep_arr_r) as u8));
            },
            None => {
                out.push('-');
            },
        }
        assert(out@ =~= old(out)@ + en_passant_text(self@.en_passant));
    }

    /// The FEN of the position. The history and the result of the game are
    /// not part of it.
    pub fn to_fen_string(&self) -> (fen: String)
        requires
            self.wf(),
        ensures
            fen@ == fen_text(self@),
    {
        let mut out: Vec<char> = Vec::new();
        self.push_placement_text(&mut out);
        out.push(' ');
        match self.active_color {
            Color::White => out.push('w'),
            Color::Black => out.push('b'),
        }
        out.push(' ');
        let ghost head = out@;
        assert(head =~= placement_text(self@.placement) + seq![' '] + color_text(
            self@.side_to_move,
        ) + seq![' ']);
        self.push_castling_text(&mut out);
        out.push(' ');
        self.push_en_passant_text(&mut out);
        out.push(' ');
        push_decimal(&mut out, self.halfmove_clock);
        out.push(' ');
        push_decimal(&mut out, self.fullmove_number);
        assert(out@ =~= head + castling_text(self@.castling) + seq![' '] + en_passant_text(
            self@.en_passant,
        ) + seq![' '] + decimal(self@.halfmove_clock) + seq![' '] + decimal(
            self@.fullmove_number,
        ));
        assert(out@ =~= fen_text(self@));
        text_of(&out)
    }
}

} // verus!
