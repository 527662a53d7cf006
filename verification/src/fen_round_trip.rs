//! Writing a position as a FEN and reading the text back gives the position
//! again.

use vstd::prelude::*;
use crate::color::Color;
use crate::coordinates::square_at;
use crate::fen::{
    castling_text, color_text, empty_squares, en_passant_text, fen_text, fields,
    is_castling_letter, parse_position, placement_of_rows, placement_text, placement_text_from,
    rank_text, rank_text_from, rank_texts, read_castling, read_color, read_en_passant,
    read_fields, read_fullmove_number, read_halfmove_clock, read_placement, read_rank,
    read_ranks, row_of, run_text, FenFault, Row,
};
use crate::pieces::lemma_symbol_names_piece;
use crate::position::{file_of, is_square, rank_of, CastlingRights, Placement, Position};
use crate::text::{
    all_digits, decimal, decimal_value, digit_char, digit_value, is_digit, is_space, parse_u32,
};

verus! {

/// The positions that a FEN can record: all 64 squares are accounted for,
/// an en-passant target lies on the sixth rank with White to move or on the
/// third with Black to move, and the two counters fit 32 bits, the fullmove
/// number being at least one.
pub open spec fn is_recordable(pos: Position) -> bool {
    &&& pos.placement.len() == 64
    &&& pos.en_passant matches Some(square) ==> {
        &&& is_square(square)
        &&& rank_of(square) == 5 && pos.side_to_move == Color::White || rank_of(square) == 2
            && pos.side_to_move == Color::Black
    }
    &&& pos.halfmove_clock <= u32::MAX
    &&& 1 <= pos.fullmove_number <= u32::MAX
}

/// A character that may stand in a field of a written FEN: no space and no
/// separator of ranks.
pub open spec fn is_plain(c: char) -> bool {
    !is_space(c) && c != '/'
}

/// A text without a space.
pub open spec fn is_word(text: Seq<char>) -> bool {
    text.len() > 0 && forall|i: int| 0 <= i < text.len() ==> !is_space(#[trigger] text[i])
}

/// A text made of plain characters alone.
pub open spec fn all_plain(text: Seq<char>) -> bool {
    forall|i: int| 0 <= i < text.len() ==> is_plain(#[trigger] text[i])
}

/// A text without a space is its own single field.
pub proof fn lemma_fields_of_word(word: Seq<char>)
    requires
        is_word(word),
    ensures
        fields(word) == seq![word],
    decreases word.len(),
{
    if word.len() == 1 {
        assert(fields(word.drop_last()) =~= Seq::empty());
        assert(seq![word.last()] =~= word);
        assert(fields(word) =~= seq![word]);
    } else {
        let shorter = word.drop_last();
        assert(is_word(shorter));
        lemma_fields_of_word(shorter);
        assert(shorter.push(word.last()) =~= word);
        assert(fields(word) =~= seq![word]);
    }
}

/// A blank and a text without a space add one field.
pub proof fn lemma_fields_append_word(text: Seq<char>, word: Seq<char>)
    requires
        is_word(word),
    ensures
        fields(text + seq![' '] + word) == fields(text).push(word),
    decreases word.len(),
{
    let head = text + seq![' '];
    let whole = head + word;
    assert(head.drop_last() =~= text);
    assert(is_space(head.last()));
    assert(fields(head) == fields(text));
    if word.len() == 1 {
        assert(whole.drop_last() =~= head);
        assert(whole[whole.len() - 2] == ' ');
        assert(seq![whole.last()] =~= word);
    } else {
        let shorter = word.drop_last();
        assert(is_word(shorter));
        lemma_fields_append_word(text, shorter);
        assert(whole.drop_last() =~= head + shorter);
        assert(whole[whole.len() - 2] == word[word.len() - 2]);
        assert(shorter.push(word.last()) =~= word);
        assert(fields(text).push(shorter).drop_last() =~= fields(text));
    }
}

/// A text always has at least one rank text.
pub proof fn lemma_rank_texts_nonempty(text: Seq<char>)
    ensures
        rank_texts(text).len() >= 1,
    decreases text.len(),
{
    if text.len() > 0 {
        lemma_rank_texts_nonempty(text.drop_last());
    }
}

/// A text without `/` is its own single rank text.
pub proof fn lemma_rank_texts_of_word(word: Seq<char>)
    requires
        all_plain(word),
    ensures
        rank_texts(word) == seq![word],
    decreases word.len(),
{
    if word.len() == 0 {
        assert(word =~= Seq::empty());
    } else {
        let shorter = word.drop_last();
        assert(all_plain(shorter));
        lemma_rank_texts_of_word(shorter);
        assert(is_plain(word[word.len() - 1]));
        assert(shorter.push(word.last()) =~= word);
        assert(rank_texts(word) =~= seq![word]);
    }
}

/// The rank texts of two texts joined by `/` are those of the first
/// followed by those of the second.
pub proof fn lemma_rank_texts_join(first: Seq<char>, second: Seq<char>)
    ensures
        rank_texts(first + seq!['/'] + second) == rank_texts(first) + rank_texts(second),
    decreases second.len(),
{
    let head = first + seq!['/'];
    let whole = head + second;
    if second.len() == 0 {
        assert(whole =~= head);
        assert(head.drop_last() =~= first);
        assert(rank_texts(second) =~= seq![Seq::<char>::empty()]);
        assert(rank_texts(head) =~= rank_texts(first) + rank_texts(second));
    } else {
        let shorter = second.drop_last();
        lemma_rank_texts_join(first, shorter);
        lemma_rank_texts_nonempty(shorter);
        assert(whole.drop_last() =~= head + shorter);
        assert(whole.last() == second.last());
        assert(rank_texts(whole) =~= rank_texts(first) + rank_texts(second));
    }
}

/// The text of a rank holds plain characters only.
pub proof fn lemma_rank_text_is_plain(row: Row, i: int, empties: int)
    requires
        0 <= empties <= i <= row.len() <= 8,
    ensures
        all_plain(rank_text_from(row, i, empties)),
        i < row.len() || empties > 0 ==> rank_text_from(row, i, empties).len() > 0,
    decreases row.len() - i,
{
    if i < row.len() {
        match row[i] {
            Some(piece) => {
                lemma_rank_text_is_plain(row, i + 1, 0);
                assert(is_plain(piece.symbol()));
            },
            None => {
                lemma_rank_text_is_plain(row, i + 1, empties + 1);
            },
        }
    }
}

/// The text of the placement holds no space and is not empty.
pub proof fn lemma_placement_text_is_word(placement: Placement, row: int)
    requires
        0 <= row < 8,
    ensures
        is_word(placement_text_from(placement, row)),
    decreases 8 - row,
{
    lemma_rank_text_is_plain(row_of(placement, row), 0, 0);
    if row < 7 {
        lemma_placement_text_is_word(placement, row + 1);
    }
}

/// Reading the text of a rank gives the rank.
pub proof fn lemma_read_rank_text(
    field: Seq<char>,
    text: Seq<char>,
    i: int,
    row: Row,
    j: int,
    empties: int,
)
    requires
        row.len() == 8,
        0 <= empties <= j <= 8,
        forall|k: int| j - empties <= k < j ==> row[k] is None,
        0 <= i <= text.len(),
        text.subrange(i, text.len() as int) == rank_text_from(row, j, empties),
    ensures
        read_rank(field, text, i, row.take(j - empties)) == Ok::<Row, FenFault>(row),
    decreases 8 - j,
{
    let rest = text.subrange(i, text.len() as int);
    let seen = row.take(j - empties);
    let run = run_text(empties);
    let filled = seen + empty_squares(empties);
    assert(filled =~= row.take(j));
    assert(rest.len() == text.len() - i);
    if empties > 0 {
        assert(is_digit(digit_char(empties)) && digit_value(digit_char(empties)) == empties);
    }
    if j == 8 {
        assert(row.take(8) =~= row);
        if empties > 0 {
            assert(rest =~= seq![digit_char(empties)]);
            assert(text[i] == rest[0]);
            assert(read_rank(field, text, i, seen) == read_rank(field, text, i + 1, filled));
        }
    } else {
        match row[j] {
            None => {
                lemma_read_rank_text(field, text, i, row, j + 1, empties + 1);
            },
            Some(piece) => {
                let tail = rank_text_from(row, j + 1, 0);
                assert(rest == run + seq![piece.symbol()] + tail);
                lemma_symbol_names_piece(piece);
                assert(!is_digit(piece.symbol()));
                assert(row.take(j).push(Some(piece)) =~= row.take(j + 1));
                if empties > 0 {
                    assert(run.len() == 1);
                    assert(rest.len() == 2 + tail.len());
                    assert(rest[0] == digit_char(empties));
                    assert(rest[1] == piece.symbol());
                    assert(text[i] == rest[0]);
                    assert(text[i + 1] == rest[1]);
                    assert forall|k: int| 0 <= k < tail.len() implies text[i + 2 + k] == tail[k] by {
                        assert(rest[k + 2] == tail[k]);
                        assert(text[i + 2 + k] == rest[k + 2]);
                    }
                    assert(text.subrange(i + 2, text.len() as int) =~= tail);
                    lemma_read_rank_text(field, text, i + 2, row, j + 1, 0);
                    assert(read_rank(field, text, i, seen) == read_rank(
                        field,
                        text,
                        i + 1,
                        filled,
                    ));
                    assert(read_rank(field, text, i + 1, row.take(j)) == read_rank(
                        field,
                        text,
                        i + 2,
                        row.take(j + 1),
                    ));
                } else {
                    assert(run.len() == 0);
                    assert(rest.len() == 1 + tail.len());
                    assert(rest[0] == piece.symbol());
                    assert(text[i] == rest[0]);
                    assert forall|k: int| 0 <= k < tail.len() implies text[i + 1 + k] == tail[k] by {
                        assert(rest[k + 1] == tail[k]);
                        assert(text[i + 1 + k] == rest[k + 1]);
                    }
                    assert(text.subrange(i + 1, text.len() as int) =~= tail);
                    lemma_read_rank_text(field, text, i + 1, row, j + 1, 0);
                    assert(seen =~= row.take(j));
                    assert(read_rank(field, text, i, row.take(j)) == read_rank(
                        field,
                        text,
                        i + 1,
                        row.take(j + 1),
                    ));
                }
            },
        }
    }
}

/// The rows of the grid from row `from` on.
pub open spec fn rows_from(placement: Placement, from: int) -> Seq<Row> {
    Seq::new((8 - from) as nat, |k: int| row_of(placement, from + k))
}

/// The texts of the rows of the grid from row `from` on.
pub open spec fn row_texts_from(placement: Placement, from: int) -> Seq<Seq<char>> {
    Seq::new((8 - from) as nat, |k: int| rank_text(row_of(placement, from + k)))
}

/// The placement text falls apart at `/` into the texts of its ranks.
pub proof fn lemma_rank_texts_of_placement(placement: Placement, row: int)
    requires
        0 <= row < 8,
    ensures
        rank_texts(placement_text_from(placement, row)) == row_texts_from(placement, row),
    decreases 8 - row,
{
    let first = rank_text(row_of(placement, row));
    lemma_rank_text_is_plain(row_of(placement, row), 0, 0);
    lemma_rank_texts_of_word(first);
    if row == 7 {
        assert(row_texts_from(placement, row) =~= seq![first]);
    } else {
        let rest = placement_text_from(placement, row + 1);
        lemma_rank_texts_of_placement(placement, row + 1);
        lemma_rank_texts_join(first, rest);
        assert(seq![first] + row_texts_from(placement, row + 1) =~= row_texts_from(
            placement,
            row,
        ));
    }
}

/// Reading the rank texts of a placement one after the other gives its
/// rows.
pub proof fn lemma_read_ranks_of_placement(field: Seq<char>, placement: Placement, n: int)
    requires
        0 <= n <= 8,
    ensures
        read_ranks(field, row_texts_from(placement, 0), n, rows_from(placement, 0).take(n))
            == Ok::<Seq<Row>, FenFault>(rows_from(placement, 0)),
    decreases 8 - n,
{
    let ranks = row_texts_from(placement, 0);
    let rows = rows_from(placement, 0);
    if n == 8 {
        assert(rows.take(8) =~= rows);
    } else {
        let row = row_of(placement, n);
        let text = rank_text(row);
        assert(ranks[n] == text);
        assert(text.subrange(0, text.len() as int) =~= text);
        assert(row.take(0) =~= Seq::empty());
        lemma_read_rank_text(field, text, 0, row, 0, 0);
        assert(rows.take(n).push(row) =~= rows.take(n + 1));
        lemma_read_ranks_of_placement(field, placement, n + 1);
    }
}

/// Reading the placement text gives the placement.
pub proof fn lemma_read_placement_text(placement: Placement)
    requires
        placement.len() == 64,
    ensures
        read_placement(placement_text(placement)) == Ok::<Placement, FenFault>(placement),
{
    let field = placement_text(placement);
    lemma_rank_texts_of_placement(placement, 0);
    lemma_read_ranks_of_placement(field, placement, 0);
    assert(rows_from(placement, 0).take(0) =~= Seq::empty());
    assert(placement_of_rows(rows_from(placement, 0)) =~= placement) by {
        assert forall|square: int| 0 <= square < 64 implies rows_from(placement, 0)[7 - square
            / 8][square % 8] == placement[square] by {
            assert(square_at(7 - square / 8, square % 8) == square);
        }
    }
}

/// A numeral holds digits only, at least one, and denotes its number.
pub proof fn lemma_decimal_denotes(n: nat)
    ensures
        decimal(n).len() > 0,
        all_digits(decimal(n)),
        decimal_value(decimal(n)) == n,
    decreases n,
{
    if n < 10 {
        let s = decimal(n);
        assert(s.drop_last() =~= Seq::empty());
        assert(decimal_value(s.drop_last()) == 0);
        assert(s.last() == digit_char(n as int));
        assert(is_digit(s[0]));
    } else {
        let shorter = decimal(n / 10);
        lemma_decimal_denotes(n / 10);
        let s = decimal(n);
        assert(s.drop_last() =~= shorter);
        assert(s.last() == digit_char((n % 10) as int));
        assert forall|i: int| 0 <= i < s.len() implies is_digit(#[trigger] s[i]) by {
            if i < shorter.len() {
                assert(s[i] == shorter[i]);
            }
        }
    }
}

/// Reading a numeral gives its number.
pub proof fn lemma_parse_decimal(n: nat)
    requires
        n <= u32::MAX,
    ensures
        parse_u32(decimal(n)) == Some(n as u32),
        is_word(decimal(n)),
{
    lemma_decimal_denotes(n);
    assert(is_digit(decimal(n)[0]));
    assert forall|i: int| 0 <= i < decimal(n).len() implies !is_space(#[trigger] decimal(n)[i]) by {
        assert(is_digit(decimal(n)[i]));
    }
}

/// Reading the castling text gives the rights.
pub proof fn lemma_read_castling_text(rights: CastlingRights)
    ensures
        read_castling(castling_text(rights)) == Ok::<CastlingRights, FenFault>(rights),
        is_word(castling_text(rights)),
{
    let text = castling_text(rights);
    if !rights.white_kingside && !rights.white_queenside && !rights.black_kingside
        && !rights.black_queenside {
        assert(text =~= seq!['-']);
    } else {
        assert(is_castling_letter(text[0]));
        assert(text != seq!['-']) by {
            assert(seq!['-'][0] == '-');
        }
        assert forall|i: int| 0 <= i < text.len() implies is_castling_letter(#[trigger] text[i])
            && !is_space(text[i]) by {}
        let wk: int = if rights.white_kingside { 1 } else { 0 };
        let wq: int = if rights.white_queenside { 1 } else { 0 };
        let bk: int = if rights.black_kingside { 1 } else { 0 };
        if rights.white_kingside {
            assert(text[0] == 'K');
        }
        if rights.white_queenside {
            assert(text[wk] == 'Q');
        }
        if rights.black_kingside {
            assert(text[wk + wq] == 'k');
        }
        if rights.black_queenside {
            assert(text[wk + wq + bk] == 'q');
        }
        assert(text.contains('K') == rights.white_kingside);
        assert(text.contains('Q') == rights.white_queenside);
        assert(text.contains('k') == rights.black_kingside);
        assert(text.contains('q') == rights.black_queenside);
    }
}

/// Reading the en-passant text gives the target.
pub proof fn lemma_read_en_passant_text(target: Option<int>, side_to_move: Color)
    requires
        target matches Some(square) ==> is_square(square) && (rank_of(square) == 5 && side_to_move
            == Color::White || rank_of(square) == 2 && side_to_move == Color::Black),
    ensures
        read_en_passant(en_passant_text(target), side_to_move) == Ok::<Option<int>, FenFault>(
            target,
        ),
        is_word(en_passant_text(target)),
{
    let text = en_passant_text(target);
    match target {
        Some(square) => {
            assert(text != seq!['-']) by {
                assert(seq!['-'].len() == 1);
            }
            assert(text[0] as int == file_of(square) + 'a' as int);
            assert(text[1] == digit_char(rank_of(square) + 1));
        },
        None => {},
    }
}

/// Writing a recordable position as a FEN and reading the text back gives
/// the position again, so that writing it once more gives the same text.
pub proof fn lemma_fen_round_trip(pos: Position)
    requires
        is_recordable(pos),
    ensures
        parse_position(fen_text(pos)) == Ok::<Position, FenFault>(pos),
        parse_position(fen_text(pos)) matches Ok(read) && fen_text(read) == fen_text(pos),
{
    let placement = placement_text(pos.placement);
    let color = color_text(pos.side_to_move);
    let castling = castling_text(pos.castling);
    let en_passant = en_passant_text(pos.en_passant);
    let halfmove = decimal(pos.halfmove_clock);
    let fullmove = decimal(pos.fullmove_number);

    lemma_placement_text_is_word(pos.placement, 0);
    lemma_read_placement_text(pos.placement);
    lemma_read_castling_text(pos.castling);
    lemma_read_en_passant_text(pos.en_passant, pos.side_to_move);
    lemma_parse_decimal(pos.halfmove_clock);
    lemma_parse_decimal(pos.fullmove_number);
    assert(is_word(color));

    lemma_fields_of_word(placement);
    let one = placement;
    lemma_fields_append_word(one, color);
    let two = one + seq![' '] + color;
    lemma_fields_append_word(two, castling);
    let three = two + seq![' '] + castling;
    lemma_fields_append_word(three, en_passant);
    let four = three + seq![' '] + en_passant;
    lemma_fields_append_word(four, halfmove);
    let five = four + seq![' '] + halfmove;
    lemma_fields_append_word(five, fullmove);
    let parts = fields(fen_text(pos));
    assert(parts =~= seq![placement, color, castling, en_passant, halfmove, fullmove]);
    assert(read_color(color) == Ok::<Color, FenFault>(pos.side_to_move)) by {
        assert(seq!['w'] != seq!['b']) by {
            assert(seq!['w'][0] == 'w');
        }
    }
    assert(read_halfmove_clock(halfmove) == Ok::<nat, FenFault>(pos.halfmove_clock));
    assert(read_fullmove_number(fullmove) == Ok::<nat, FenFault>(pos.fullmove_number));
    assert(read_fields(parts) == Ok::<Position, FenFault>(pos));
}

} // verus!
