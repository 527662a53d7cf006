// Colors, pieces, ranks, files and bit sets.

use engine::{
    bit_table, count_bits, pop_bit, Color, ColoredPiece, File, Piece, Pieces, Rank,
};
use std::str::FromStr;

#[test]
fn test_color() {
    assert_eq!(Color::White.to_index(), 0);
    assert_eq!(Color::Black.to_index(), 1);
    assert_eq!(Color::from_index(0), Color::White);
    assert_eq!(Color::from_index(7), Color::Black);
    assert_eq!(Color::iter(), vec![Color::White, Color::Black]);
    assert_eq!(!Color::White, Color::Black);
    assert_eq!(!Color::Black, Color::White);
    assert_eq!(Color::White.other(), Color::Black);
    assert_eq!(Color::White.to_my_backrank(), Rank::First);
    assert_eq!(Color::Black.to_my_backrank(), Rank::Eighth);
    assert_eq!(Color::White.to_their_backrank(), Rank::Eighth);
    assert_eq!(Color::Black.to_their_backrank(), Rank::First);
    assert_eq!(Color::White.to_second_rank(), Rank::Second);
    assert_eq!(Color::Black.to_second_rank(), Rank::Seventh);
    assert_eq!(Color::White.to_fourth_rank(), Rank::Fourth);
    assert_eq!(Color::Black.to_fourth_rank(), Rank::Fifth);
    assert_eq!(Color::White.to_seventh_rank(), Rank::Seventh);
    assert_eq!(Color::Black.to_seventh_rank(), Rank::Second);
}

#[test]
fn test_rank() {
    let all = Rank::iter();
    assert_eq!(all.len(), 8);
    for (i, rank) in all.iter().enumerate() {
        assert_eq!(rank.to_index(), i);
        assert_eq!(Rank::from_index(i), *rank);
        assert_eq!(Rank::from_index(i + 8), *rank);
    }
    assert_eq!(Rank::Third.up(), Rank::Fourth);
    assert_eq!(Rank::Third.down(), Rank::Second);
    assert_eq!(Rank::Eighth.up(), Rank::First);
    assert_eq!(Rank::First.down(), Rank::Eighth);
    assert_eq!(Rank::from_str("4").ok(), Some(Rank::Fourth));
    assert_eq!(Rank::from_str("8x").ok(), Some(Rank::Eighth));
    assert!(Rank::from_str("9").is_err());
    assert!(Rank::from_str("").is_err());
    assert_eq!(Rank::parse("1").ok(), Some(Rank::First));
}

#[test]
fn test_file() {
    let all = File::iter();
    assert_eq!(all.len(), 8);
    for (i, file) in all.iter().enumerate() {
        assert_eq!(file.to_index(), i);
        assert_eq!(file.index(), i);
        assert_eq!(File::from_index(i), *file);
        assert_eq!(file.to_char(), (b'a' + i as u8) as char);
    }
    assert_eq!(File::from_index(11), File::D);
    assert_eq!(File::C.left(), File::B);
    assert_eq!(File::C.right(), File::D);
    assert_eq!(File::A.left(), File::H);
    assert_eq!(File::H.right(), File::A);
    assert_eq!(File::from_str("e").ok(), Some(File::E));
    assert!(File::from_str("i").is_err());
    assert!(File::from_str("").is_err());
    assert_eq!(File::parse("h1").ok(), Some(File::H));
}

#[test]
fn test_piece() {
    let all = Piece::iter();
    assert_eq!(
        all,
        vec![Piece::Pawn, Piece::Knight, Piece::Bishop, Piece::Rook, Piece::Queen, Piece::King]
    );
    for (i, kind) in all.iter().enumerate() {
        assert_eq!(kind.to_index(), i);
    }
    assert!(Piece::Pawn < Piece::Knight);
    assert!(Piece::Queen < Piece::King);
    assert_eq!(Piece::Knight.to_string(Color::White), "N");
    assert_eq!(Piece::Knight.to_string(Color::Black), "n");
    assert_eq!(Piece::King.to_string(Color::White), "K");
    assert_eq!(
        Piece::promotions(),
        [Piece::Queen, Piece::Knight, Piece::Rook, Piece::Bishop]
    );
    let piece = ColoredPiece::new(Piece::Rook, Color::Black);
    assert_eq!(piece.kind, Piece::Rook);
    assert_eq!(piece.color, Color::Black);
    assert_eq!(piece.to_char(), 'r');
    assert_eq!(ColoredPiece::new(Piece::Pawn, Color::White).to_char(), 'P');
    assert_eq!(Pieces::WhiteQueen.to_string(), "Q");
    assert_eq!(Pieces::BlackBishop.to_string(), "b");
    assert_eq!(Pieces::BlackPawn.to_string(), "p");
}

#[test]
fn test_bit_table() {
    let table = bit_table();
    assert_eq!(table[0], 0);
    assert_eq!(table[63], 63);
    assert_eq!(table.len(), 64);
}

#[test]
fn test_pop_bit() {
    let mut bb = 0b10101;
    assert_eq!(pop_bit(&mut bb), 0);
    assert_eq!(bb, 0b10100);
    assert_eq!(pop_bit(&mut bb), 2);
    assert_eq!(bb, 0b10000);
    assert_eq!(pop_bit(&mut bb), 4);
    assert_eq!(bb, 0b0);
    assert_eq!(pop_bit(&mut bb), -1);

    let mut bb_single = 1 << 63;
    assert_eq!(pop_bit(&mut bb_single), 63);
    assert_eq!(bb_single, 0);

    let mut bb_empty = 0u64;
    assert_eq!(pop_bit(&mut bb_empty), -1);
    assert_eq!(bb_empty, 0);
}

#[test]
fn test_count_bits() {
    assert_eq!(count_bits(0), 0);
    assert_eq!(count_bits(0b1), 1);
    assert_eq!(count_bits(0b10111), 4);
    assert_eq!(count_bits(u64::MAX), 64);
    let bb: u64 = (1 << 0) | (1 << 15) | (1 << 63);
    assert_eq!(count_bits(bb), 3);
    let bb_octal: u64 = 0o14444444444444;
    assert_eq!(count_bits(bb_octal), 14);
}
