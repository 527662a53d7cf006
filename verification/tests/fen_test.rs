// Reading and writing FEN.

use engine::{Board, Color, ColoredPiece, Error, FenParseError, GameResult, Piece};

fn fault(text: &str) -> FenParseError {
    match Board::parse_fen(text) {
        Err(Error::FenParsing(fault)) => fault,
        Err(other) => panic!("unexpected error {:?}", other),
        Ok(_) => panic!("{:?} should be rejected", text),
    }
}

const START: &str = "rnbqkbnr/pppppppp/8/8/8/8/PPPPPPPP/RNBQKBNR w KQkq - 0 1";

#[test]
fn test_fen_round_trip() {
    let texts = [
        START,
        "rnbqkbnr/pppppppp/8/8/4P3/8/PPPP1PPP/RNBQKBNR b KQkq e3 0 1",
        "8/8/8/3pP3/8/8/8/8 w - d6 12 345",
        "r3k2r/8/8/8/8/8/8/R3K2R b Kq - 4294967295 4294967295",
        "k7/2K5/1Q6/8/8/8/8/8 b - - 0 1",
        "p6P/1p4P1/2p2P2/3pP3/3Pp3/2P2p2/1P4p1/P6p w Qk - 99 100",
    ];
    for text in texts {
        let board = Board::parse_fen(text).unwrap();
        assert_eq!(board.to_fen_string(), text);
    }
}

#[test]
fn test_parsed_fields() {
    let board = Board::parse_fen("8/8/8/3pP3/8/8/8/8 w Kq d6 12 345").unwrap();
    assert_eq!(board.active_color, Color::White);
    assert!(board.castling_kingside_white);
    assert!(!board.castling_queenside_white);
    assert!(!board.castling_kingside_black);
    assert!(board.castling_queenside_black);
    assert_eq!(board.en_passant_target, Some((2, 3)));
    assert_eq!(board.halfmove_clock, 12);
    assert_eq!(board.fullmove_number, 345);
    assert!(board.move_history.is_empty());
    assert_eq!(board.game_result, GameResult::InProgress);
    assert!(board.squares[3][3].is_some());
    assert!(board.squares[3][4].is_some());
    assert!(board.squares[0][0].is_none());
}

#[test]
fn test_text_is_normalized_on_the_way_back() {
    // Any white space separates the fields, the castling letters may come
    // in any order, empty squares may be written one by one, and a number
    // may carry a sign and leading zeros.
    let board = Board::parse_fen("  4k3/11111111/8/8/8/8/8/4K3\tw \u{3000} qK  -  +007 010\n").unwrap();
    assert_eq!(board.to_fen_string(), "4k3/8/8/8/8/8/8/4K3 w Kq - 7 10");
}

#[test]
fn test_wrong_number_of_fields() {
    assert_eq!(fault(""), FenParseError::NotEnoughParts);
    assert_eq!(fault("8/8/8/8/8/8/8/8 w - - 0"), FenParseError::NotEnoughParts);
    assert_eq!(fault("8/8/8/8/8/8/8/8 w - - 0 1 extra"), FenParseError::NotEnoughParts);
}

#[test]
fn test_placement_faults() {
    assert_eq!(
        fault("8/8/8/8/8/8/8/7x w - - 0 1"),
        FenParseError::InvalidPiece('x')
    );
    assert_eq!(
        fault("8/8/8/8/8/8/8/7 w - - 0 1"),
        FenParseError::InvalidRankLength("7".to_string())
    );
    assert_eq!(
        fault("8/8/8/8/8/8/8/63 w - - 0 1"),
        FenParseError::InvalidRankLength("63".to_string())
    );
    assert_eq!(
        fault("8/8/8/8/8/8/8/8p w - - 0 1"),
        FenParseError::InvalidRankLength("8p".to_string())
    );
    assert_eq!(
        fault("8//8/8/8/8/8/8 w - - 0 1"),
        FenParseError::InvalidRankLength("".to_string())
    );
    assert_eq!(
        fault("8/8/8/8/8/8/8 w - - 0 1"),
        FenParseError::InvalidFormat("8/8/8/8/8/8/8".to_string())
    );
    assert_eq!(
        fault("8/8/8/8/8/8/8/8/8 w - - 0 1"),
        FenParseError::InvalidFormat("8/8/8/8/8/8/8/8/8".to_string())
    );
    assert_eq!(
        fault("8/8/8/8/8/8/8/9 w - - 0 1"),
        FenParseError::InvalidFormat("8/8/8/8/8/8/8/9".to_string())
    );
    assert_eq!(
        fault("8/8/8/8/8/8/8/80 w - - 0 1"),
        FenParseError::InvalidFormat("8/8/8/8/8/8/8/80".to_string())
    );
    // The first rank at fault decides, before the number of ranks does.
    assert_eq!(
        fault("8/8/z7/8 w - - 0 1"),
        FenParseError::InvalidPiece('z')
    );
    // A fault past the eighth rank is not looked at.
    assert_eq!(
        fault("8/8/8/8/8/8/8/8/z w - - 0 1"),
        FenParseError::InvalidFormat("8/8/8/8/8/8/8/8/z".to_string())
    );
}

#[test]
fn test_faults_of_the_other_fields() {
    assert_eq!(
        fault("8/8/8/8/8/8/8/8 white - - 0 1"),
        FenParseError::InvalidActiveColor("white".to_string())
    );
    assert_eq!(
        fault("8/8/8/8/8/8/8/8 W - - 0 1"),
        FenParseError::InvalidActiveColor("W".to_string())
    );
    assert_eq!(
        fault("8/8/8/8/8/8/8/8 w KQx - 0 1"),
        FenParseError::InvalidCastlingRights("KQx".to_string())
    );
    assert_eq!(
        fault("8/8/8/8/8/8/8/8 w -- - 0 1"),
        FenParseError::InvalidCastlingRights("--".to_string())
    );
    assert_eq!(
        fault("8/8/8/8/8/8/8/8 w - e3 0 1"),
        FenParseError::InvalidEnPassantTarget("e3".to_string())
    );
    assert_eq!(
        fault("8/8/8/8/8/8/8/8 b - e6 0 1"),
        FenParseError::InvalidEnPassantTarget("e6".to_string())
    );
    assert_eq!(
        fault("8/8/8/8/8/8/8/8 w - i6 0 1"),
        FenParseError::InvalidEnPassantTarget("i6".to_string())
    );
    assert_eq!(
        fault("8/8/8/8/8/8/8/8 w - e 0 1"),
        FenParseError::InvalidEnPassantTarget("e".to_string())
    );
    assert_eq!(
        fault("8/8/8/8/8/8/8/8 w - e66 0 1"),
        FenParseError::InvalidEnPassantTarget("e66".to_string())
    );
    assert_eq!(
        fault("8/8/8/8/8/8/8/8 w - - -1 1"),
        FenParseError::InvalidHalfmoveClock("-1".to_string())
    );
    assert_eq!(
        fault("8/8/8/8/8/8/8/8 w - - x 1"),
        FenParseError::InvalidHalfmoveClock("x".to_string())
    );
    assert_eq!(
        fault("8/8/8/8/8/8/8/8 w - - 4294967296 1"),
        FenParseError::InvalidHalfmoveClock("4294967296".to_string())
    );
    assert_eq!(
        fault("8/8/8/8/8/8/8/8 w - - + 1"),
        FenParseError::InvalidHalfmoveClock("+".to_string())
    );
    assert_eq!(
        fault("8/8/8/8/8/8/8/8 w - - 0 0"),
        FenParseError::InvalidFullmoveNumber("0".to_string())
    );
    assert_eq!(
        fault("8/8/8/8/8/8/8/8 w - - 0 1.5"),
        FenParseError::InvalidFullmoveNumber("1.5".to_string())
    );
}

#[test]
fn test_first_field_at_fault_decides() {
    assert_eq!(
        fault("8/8/8/8/8/8/8/7 x y z a b"),
        FenParseError::InvalidRankLength("7".to_string())
    );
    assert_eq!(
        fault("8/8/8/8/8/8/8/8 x y z a b"),
        FenParseError::InvalidActiveColor("x".to_string())
    );
    assert_eq!(
        fault("8/8/8/8/8/8/8/8 w y z a b"),
        FenParseError::InvalidCastlingRights("y".to_string())
    );
    assert_eq!(
        fault("8/8/8/8/8/8/8/8 w - z a b"),
        FenParseError::InvalidEnPassantTarget("z".to_string())
    );
    assert_eq!(
        fault("8/8/8/8/8/8/8/8 w - - a b"),
        FenParseError::InvalidHalfmoveClock("a".to_string())
    );
}

#[test]
fn test_piece_letters() {
    assert_eq!(
        Board::fen_char_to_colored_piece('N'),
        Some(ColoredPiece::new(Piece::Knight, Color::White))
    );
    assert_eq!(
        Board::fen_char_to_colored_piece('q'),
        Some(ColoredPiece::new(Piece::Queen, Color::Black))
    );
    assert_eq!(Board::fen_char_to_colored_piece('x'), None);
    assert_eq!(Board::fen_char_to_colored_piece('1'), None);
    for kind in Piece::iter() {
        for color in Color::iter() {
            let piece = ColoredPiece::new(kind, color);
            assert_eq!(Board::fen_char_to_colored_piece(piece.to_char()), Some(piece));
        }
    }
}

#[test]
fn test_starting_position() {
    let board = Board::starting_position();
    assert_eq!(board.to_fen_string(), START);
    assert_eq!(board.squares, Board::parse_fen(START).unwrap().squares);
    assert!(board.move_history.is_empty());
    assert_eq!(board.game_result, GameResult::InProgress);
    assert_eq!(board.generate_legal_moves().len(), 20);
}

#[test]
fn test_empty_board() {
    let board = Board::new();
    assert_eq!(board.to_fen_string(), "8/8/8/8/8/8/8/8 w - - 0 1");
    assert_eq!(Board::new_empty().to_fen_string(), "8/8/8/8/8/8/8/8 w - - 0 1");
    assert!(!board.is_game_over());
}
