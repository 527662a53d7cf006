// Move generation.

use engine::{Board, Color, Move, Piece, Square};
use std::collections::HashSet;

fn sq(s: &str) -> Square {
    assert_eq!(
        s.len(),
        2,
        "Square string must be 2 characters, e.g., 'e4'. Input was: '{}'",
        s
    );
    let file_char = s
        .chars()
        .nth(0)
        .unwrap_or_else(|| panic!("Empty string for square file: {}", s));
    let rank_char = s
        .chars()
        .nth(1)
        .unwrap_or_else(|| panic!("Empty string for square rank: {}", s));

    assert!(
        ('a'..='h').contains(&file_char),
        "Invalid file character: {} in {}",
        file_char,
        s
    );
    assert!(
        ('1'..='8').contains(&rank_char),
        "Invalid rank character: {} in {}",
        rank_char,
        s
    );

    let file_val = (file_char as u8) - b'a';
    let rank_val = (rank_char as u8) - b'1';

    rank_val * 8 + file_val
}

fn quiet_moves(from: &str, targets: &[&str]) -> Vec<Move> {
    targets
        .iter()
        .map(|to| Move::new_quiet(sq(from), sq(to)))
        .collect()
}

#[test]
fn test_knight_moves_from_d4_on_empty_board_center() {
    let fen = "8/8/8/8/3N4/8/8/8 w - - 0 1";
    let board = Board::parse_fen(fen).expect("Failed to parse FEN for knight test");

    let knight_from_sq: Square = sq("d4");

    let all_generated_moves = board.generate_pseudo_legal_moves();

    let knight_actual_moves: HashSet<Move> = all_generated_moves
        .into_iter()
        .filter(|m| m.from == knight_from_sq)
        .collect();

    let expected_moves: HashSet<Move> = [
        Move::new_quiet(knight_from_sq, sq("c2")),
        Move::new_quiet(knight_from_sq, sq("e2")),
        Move::new_quiet(knight_from_sq, sq("b3")),
        Move::new_quiet(knight_from_sq, sq("f3")),
        Move::new_quiet(knight_from_sq, sq("b5")),
        Move::new_quiet(knight_from_sq, sq("f5")),
        Move::new_quiet(knight_from_sq, sq("c6")),
        Move::new_quiet(knight_from_sq, sq("e6")),
    ]
    .iter()
    .cloned()
    .collect();

    assert_eq!(
        knight_actual_moves.len(),
        expected_moves.len(),
        "Expected {} moves, but got {}. Generated: {:?}",
        expected_moves.len(),
        knight_actual_moves.len(),
        knight_actual_moves
    );
    assert_eq!(
        knight_actual_moves, expected_moves,
        "Generated knight moves from d4 do not match expected moves."
    );
}

#[test]
fn test_starting_position_has_twenty_legal_moves() {
    let board = Board::parse_fen("rnbqkbnr/pppppppp/8/8/8/8/PPPPPPPP/RNBQKBNR w KQkq - 0 1")
        .unwrap();
    assert_eq!(board.generate_legal_moves().len(), 20);
    assert_eq!(board.generate_pseudo_legal_moves().len(), 20);
}

#[test]
fn test_knight_moves_come_in_the_order_of_its_jumps() {
    let board = Board::parse_fen("8/8/8/8/3N4/8/8/8 w - - 0 1").unwrap();
    let moves = board.generate_pseudo_legal_moves();
    assert_eq!(
        moves,
        quiet_moves("d4", &["f5", "b5", "f3", "b3", "e6", "c6", "e2", "c2"])
    );
}

#[test]
fn test_knight_in_the_corner() {
    let board = Board::parse_fen("8/8/8/8/8/8/8/N7 w - - 0 1").unwrap();
    assert_eq!(
        board.generate_pseudo_legal_moves(),
        quiet_moves("a1", &["c2", "b3"])
    );
}

#[test]
fn test_rook_rays_stop_at_pieces() {
    // The rook on d4 meets its own pawn on d6 and a black pawn on f4.
    let board = Board::parse_fen("8/8/3P4/8/3R1p2/8/8/8 w - - 0 1").unwrap();
    let mut moves = Vec::new();
    board.generate_rook_moves(sq("d4"), Color::White, &mut moves);
    assert_eq!(
        moves,
        quiet_moves("d4", &["e4", "f4", "c4", "b4", "a4", "d5", "d3", "d2", "d1"])
    );
}

#[test]
fn test_bishop_and_queen_rays() {
    let board = Board::parse_fen("8/8/8/8/8/8/8/B7 w - - 0 1").unwrap();
    let mut moves = Vec::new();
    board.generate_bishop_moves(sq("a1"), Color::White, &mut moves);
    assert_eq!(
        moves,
        quiet_moves("a1", &["b2", "c3", "d4", "e5", "f6", "g7", "h8"])
    );

    let board = Board::parse_fen("8/8/8/8/8/8/8/Q7 w - - 0 1").unwrap();
    let mut moves = vec![Move::new_quiet(1, 2)];
    board.generate_queen_moves(sq("a1"), Color::White, &mut moves);
    assert_eq!(moves.len(), 1 + 21);
    assert_eq!(moves[0], Move::new_quiet(1, 2));
    assert_eq!(moves[1], Move::new_quiet(sq("a1"), sq("b1")));
}

#[test]
fn test_pawn_pushes_and_captures() {
    // A white pawn on e2 with black pieces on d3 and f3.
    let board = Board::parse_fen("8/8/8/8/8/3p1n2/4P3/8 w - - 0 1").unwrap();
    let mut moves = Vec::new();
    board.generate_pawn_moves(sq("e2"), Color::White, &mut moves);
    assert_eq!(moves, quiet_moves("e2", &["e3", "e4", "d3", "f3"]));

    // Blocked on the square in front: no push at all.
    let board = Board::parse_fen("8/8/8/8/8/4p3/4P3/8 w - - 0 1").unwrap();
    let mut moves = Vec::new();
    board.generate_pawn_moves(sq("e2"), Color::White, &mut moves);
    assert!(moves.is_empty());

    // Blocked two squares ahead: the single step only.
    let board = Board::parse_fen("8/8/8/8/4p3/8/4P3/8 w - - 0 1").unwrap();
    let mut moves = Vec::new();
    board.generate_pawn_moves(sq("e2"), Color::White, &mut moves);
    assert_eq!(moves, quiet_moves("e2", &["e3"]));

    // A black pawn moves down the board.
    let board = Board::parse_fen("8/4p3/8/8/8/8/8/8 b - - 0 1").unwrap();
    assert_eq!(
        board.generate_pseudo_legal_moves(),
        quiet_moves("e7", &["e6", "e5"])
    );
}

#[test]
fn test_promotions_come_in_four_kinds() {
    let board = Board::parse_fen("6n1/7P/8/8/8/8/8/8 w - - 0 1").unwrap();
    let moves = board.generate_pseudo_legal_moves();
    let expected = vec![
        Move::new_promotion(sq("h7"), sq("h8"), Piece::Queen),
        Move::new_promotion(sq("h7"), sq("h8"), Piece::Knight),
        Move::new_promotion(sq("h7"), sq("h8"), Piece::Rook),
        Move::new_promotion(sq("h7"), sq("h8"), Piece::Bishop),
        Move::new_promotion(sq("h7"), sq("g8"), Piece::Queen),
        Move::new_promotion(sq("h7"), sq("g8"), Piece::Knight),
        Move::new_promotion(sq("h7"), sq("g8"), Piece::Rook),
        Move::new_promotion(sq("h7"), sq("g8"), Piece::Bishop),
    ];
    assert_eq!(moves, expected);
}

#[test]
fn test_en_passant_is_offered_from_the_fifth_rank_only() {
    let board = Board::parse_fen("8/8/8/3pP3/8/8/8/8 w - d6 0 1").unwrap();
    let moves = board.generate_pseudo_legal_moves();
    assert_eq!(moves, quiet_moves("e5", &["e6", "d6"]));

    // The same target, but the pawn stands a file too far away.
    let board = Board::parse_fen("8/8/8/3p1P2/8/8/8/8 w - d6 0 1").unwrap();
    assert_eq!(
        board.generate_pseudo_legal_moves(),
        quiet_moves("f5", &["f6"])
    );

    let board = Board::parse_fen("8/8/8/8/3pP3/8/8/8 b - e3 0 1").unwrap();
    assert_eq!(
        board.generate_pseudo_legal_moves(),
        quiet_moves("d4", &["d3", "e3"])
    );
}

#[test]
fn test_castling_is_offered_with_right_and_empty_squares() {
    let board = Board::parse_fen("r3k2r/8/8/8/8/8/8/R3K2R w KQkq - 0 1").unwrap();
    let mut moves = Vec::new();
    board.generate_king_moves(sq("e1"), Color::White, &mut moves);
    assert_eq!(
        moves,
        quiet_moves("e1", &["f1", "d1", "e2", "f2", "d2", "g1", "c1"])
    );

    // Without the rights no castling is offered.
    let board = Board::parse_fen("r3k2r/8/8/8/8/8/8/R3K2R w kq - 0 1").unwrap();
    let mut moves = Vec::new();
    board.generate_king_moves(sq("e1"), Color::White, &mut moves);
    assert_eq!(moves, quiet_moves("e1", &["f1", "d1", "e2", "f2", "d2"]));

    // A piece between king and rook stops castling to that side.
    let board = Board::parse_fen("r3k2r/8/8/8/8/8/8/RN2K1NR w KQ - 0 1").unwrap();
    let mut moves = Vec::new();
    board.generate_king_moves(sq("e1"), Color::White, &mut moves);
    assert_eq!(moves, quiet_moves("e1", &["f1", "d1", "e2", "f2", "d2"]));

    let board = Board::parse_fen("r3k2r/8/8/8/8/8/8/R3K2R b KQkq - 0 1").unwrap();
    let mut moves = Vec::new();
    board.generate_king_moves(sq("e8"), Color::Black, &mut moves);
    assert_eq!(
        moves,
        quiet_moves("e8", &["f8", "d8", "e7", "f7", "d7", "g8", "c8"])
    );
}

#[test]
fn test_castling_through_an_attacked_square_is_still_legal() {
    // The rook on f8 attacks f1, which the king crosses: the move is kept,
    // because only the square on which the king lands is looked at.
    let board = Board::parse_fen("5r1k/8/8/8/8/8/8/4K2R w K - 0 1").unwrap();
    let legal = board.generate_legal_moves();
    assert!(legal.contains(&Move::new_quiet(sq("e1"), sq("g1"))));
    // Landing on an attacked square is not legal.
    let board = Board::parse_fen("6rk/8/8/8/8/8/8/4K2R w K - 0 1").unwrap();
    let legal = board.generate_legal_moves();
    assert!(!legal.contains(&Move::new_quiet(sq("e1"), sq("g1"))));
}

#[test]
fn test_square_attacks() {
    let board = Board::parse_fen("4k3/8/8/8/3r4/8/4P3/4K3 w - - 0 1").unwrap();
    // The rook attacks along its rank and file up to the first piece.
    assert!(board.is_square_attacked(sq("d1"), Color::Black));
    assert!(board.is_square_attacked(sq("a4"), Color::Black));
    assert!(board.is_square_attacked(sq("h4"), Color::Black));
    assert!(!board.is_square_attacked(sq("e5"), Color::Black));
    // A pawn attacks the two squares diagonally in front, not the one ahead.
    assert!(board.is_square_attacked(sq("d3"), Color::White));
    assert!(board.is_square_attacked(sq("f3"), Color::White));
    assert!(!board.is_square_attacked(sq("e3"), Color::White));
    assert!(board.is_pawn_attacking(sq("e2"), Color::White, sq("d3")));
    assert!(!board.is_pawn_attacking(sq("e2"), Color::Black, sq("d3")));
    assert!(board.is_pawn_attacking(sq("e2"), Color::Black, sq("d1")));
    // The king attacks its neighbours.
    assert!(board.is_square_attacked(sq("d2"), Color::White));
    assert!(board.is_king_attacking(sq("e1"), sq("f2")));
    assert!(!board.is_king_attacking(sq("e1"), sq("e3")));
    assert!(board.is_knight_attacking(sq("g1"), sq("f3")));
    assert!(!board.is_knight_attacking(sq("g1"), sq("g3")));
    // No number past 63 is a square that can be attacked.
    assert!(!board.is_square_attacked(64, Color::Black));
}

#[test]
fn test_sliding_attacks_are_blocked() {
    let board = Board::parse_fen("8/8/8/8/R2p3q/8/8/8 w - - 0 1").unwrap();
    assert!(board.is_rook_attacking(sq("a4"), sq("d4")));
    assert!(!board.is_rook_attacking(sq("a4"), sq("e4")));
    assert!(board.is_queen_attacking(sq("h4"), sq("d4")));
    assert!(board.is_queen_attacking(sq("h4"), sq("e1")));
    assert!(!board.is_queen_attacking(sq("h4"), sq("a4")));
    assert!(board.is_bishop_attacking(sq("h4"), sq("d8")));
    assert!(!board.is_bishop_attacking(sq("h4"), sq("h8")));
    assert!(board.is_sliding_piece_attacking(sq("a4"), sq("a8"), &[(1, 0)]));
    assert!(!board.is_sliding_piece_attacking(sq("a4"), sq("a1"), &[(1, 0)]));
}
