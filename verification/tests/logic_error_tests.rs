// En passant bookkeeping, move constructors and coordinates.

use engine::coordinates::{array_indices_to_square, square_to_array_indices};
use engine::{Board, Move, Piece};

fn sq(s: &str) -> u8 {
    assert_eq!(s.len(), 2);
    let file_char = s.chars().nth(0).unwrap();
    let rank_char = s.chars().nth(1).unwrap();
    let file_val = (file_char as u8) - b'a';
    let rank_val = (rank_char as u8) - b'1';
    rank_val * 8 + file_val
}

#[test]
fn test_en_passant_white_pawn_double_push() {
    let mut board = Board::parse_fen("rnbqkbnr/pppppppp/8/8/8/8/PPPPPPPP/RNBQKBNR w KQkq - 0 1")
        .expect("Failed to parse starting position");

    let e4_move = Move::new_quiet(sq("e2"), sq("e4"));
    board.make_move(&e4_move);

    let expected_ep_target = Some((5, 4));

    assert_eq!(
        board.en_passant_target, expected_ep_target,
        "En passant target should be set to e3 after e2-e4 double push. Got: {:?}",
        board.en_passant_target
    );
}

#[test]
fn test_en_passant_black_pawn_double_push() {
    let mut board = Board::parse_fen("rnbqkbnr/pppppppp/8/8/8/8/PPPPPPPP/RNBQKBNR w KQkq - 0 1")
        .expect("Failed to parse starting position");

    board.make_move(&Move::new_quiet(sq("e2"), sq("e4")));

    let d5_move = Move::new_quiet(sq("d7"), sq("d5"));
    board.make_move(&d5_move);

    let expected_ep_target = Some((2, 3));

    assert_eq!(
        board.en_passant_target, expected_ep_target,
        "En passant target should be set to d6 after d7-d5 double push. Got: {:?}",
        board.en_passant_target
    );
}

#[test]
fn test_move_new_with_promotion_parameter() {
    let promotion_move = Move::new(sq("a7"), sq("a8"), Some(Piece::Queen));

    assert_eq!(
        promotion_move.promotion,
        Some(Piece::Queen),
        "Move::new() should respect the promotion parameter. Got: {:?}",
        promotion_move.promotion
    );
}

#[test]
fn test_move_new_promotion_works_correctly() {
    let promotion_move = Move::new_promotion(sq("a7"), sq("a8"), Piece::Queen);

    assert_eq!(
        promotion_move.promotion,
        Some(Piece::Queen),
        "Move::new_promotion() should set the promotion correctly"
    );
}

#[test]
fn test_coordinate_conversion_consistency() {
    let test_cases = vec![
        (sq("a1"), "a1"),
        (sq("a8"), "a8"),
        (sq("h1"), "h1"),
        (sq("h8"), "h8"),
        (sq("e4"), "e4"),
        (sq("d5"), "d5"),
    ];

    for (square, name) in test_cases {
        let (arr_r, arr_f) = square_to_array_indices(square);
        let reconstructed = array_indices_to_square(arr_r, arr_f);
        assert_eq!(
            square, reconstructed,
            "Square {} conversion should be reversible: {} -> ({},{}) -> {}",
            name, square, arr_r, arr_f, reconstructed
        );
    }
}

#[test]
fn test_en_passant_target_is_cleared_by_other_moves() {
    let mut board = Board::parse_fen("rnbqkbnr/pppppppp/8/8/8/8/PPPPPPPP/RNBQKBNR w KQkq - 0 1")
        .unwrap();
    board.make_move(&Move::new_quiet(sq("e2"), sq("e4")));
    assert_eq!(board.en_passant_target, Some((5, 4)));
    board.make_move(&Move::new_quiet(sq("g8"), sq("f6")));
    assert_eq!(board.en_passant_target, None);
    board.make_move(&Move::new_quiet(sq("e4"), sq("e5")));
    assert_eq!(board.en_passant_target, None);
}

#[test]
fn test_en_passant_capture_takes_the_passed_pawn() {
    let mut board = Board::parse_fen("rnbqkbnr/pppppppp/8/4P3/8/8/PPPP1PPP/RNBQKBNR b KQkq - 0 1")
        .unwrap();
    board.make_move(&Move::new_quiet(sq("d7"), sq("d5")));
    assert_eq!(board.en_passant_target, Some((2, 3)));
    let legal_moves = board.generate_legal_moves();
    let capture = legal_moves
        .iter()
        .find(|m| m.from == sq("e5") && m.to == sq("d6"))
        .expect("the capture en passant should be legal");
    let before = board.to_fen_string();
    board.make_move(capture);
    assert_eq!(
        board.to_fen_string(),
        "rnbqkbnr/ppp1pppp/3P4/8/8/8/PPPP1PPP/RNBQKBNR b KQkq - 0 2"
    );
    assert_eq!(board.halfmove_clock, 0);
    assert_eq!(board.undo_move(), Ok(()));
    assert_eq!(board.to_fen_string(), before);
}

#[test]
fn test_all_squares_convert_both_ways() {
    for square in 0u8..64 {
        let (row, col) = square_to_array_indices(square);
        assert_eq!(row, 7 - (square / 8) as usize);
        assert_eq!(col, (square % 8) as usize);
        assert_eq!(array_indices_to_square(row, col), square);
        let (rank, file) = engine::square_to_rank_file_enums(square);
        assert_eq!(rank.to_index(), (square / 8) as usize);
        assert_eq!(file.to_index(), (square % 8) as usize);
        assert_eq!(engine::rank_file_enums_to_square(rank, file), square);
    }
    // A number past 63 is read as a square of the eighth rank.
    assert_eq!(square_to_array_indices(70), (0, 6));
}
