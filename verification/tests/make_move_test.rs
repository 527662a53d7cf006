// Making and taking back moves.

use engine::{get_piece_at_square, Board, Color, ColoredPiece, Move, Piece};

fn sq(s: &str) -> u8 {
    let file_val = (s.chars().nth(0).unwrap() as u8) - b'a';
    let rank_val = (s.chars().nth(1).unwrap() as u8) - b'1';
    rank_val * 8 + file_val
}

fn after(fen: &str, mv: Move) -> String {
    let mut board = Board::parse_fen(fen).unwrap();
    board.make_move(&mv);
    board.to_fen_string()
}

/// Makes the move, takes it back, and expects the position as it was.
fn round_trip(fen: &str, mv: Move) {
    let mut board = Board::parse_fen(fen).unwrap();
    let snapshot = board.make_move(&mv);
    assert_eq!(board.move_history.len(), 1);
    assert_eq!(board.move_history[0].0, mv);
    assert_eq!(snapshot.previous_halfmove_clock, board.move_history[0].1.previous_halfmove_clock);
    assert_eq!(board.undo_move(), Ok(()));
    assert_eq!(board.to_fen_string(), fen);
    assert_eq!(board.move_history.len(), 0);

    let mut board = Board::parse_fen(fen).unwrap();
    let squares = board.squares;
    let snapshot = board.make_move(&mv);
    board.unmake_move(&mv, &snapshot);
    assert_eq!(board.squares, squares);
    assert_eq!(board.to_fen_string(), fen);
    assert_eq!(board.move_history.len(), 1);
}

const START: &str = "rnbqkbnr/pppppppp/8/8/8/8/PPPPPPPP/RNBQKBNR w KQkq - 0 1";

#[test]
fn test_double_push_sets_target_and_clock() {
    assert_eq!(
        after(START, Move::new_quiet(sq("e2"), sq("e4"))),
        "rnbqkbnr/pppppppp/8/8/4P3/8/PPPP1PPP/RNBQKBNR b KQkq e3 0 1"
    );
}

#[test]
fn test_quiet_move_counts_the_clock_and_black_counts_the_move() {
    assert_eq!(
        after(START, Move::new_quiet(sq("g1"), sq("f3"))),
        "rnbqkbnr/pppppppp/8/8/8/5N2/PPPPPPPP/RNBQKB1R b KQkq - 1 1"
    );
    assert_eq!(
        after(
            "rnbqkbnr/pppppppp/8/8/8/5N2/PPPPPPPP/RNBQKB1R b KQkq - 1 1",
            Move::new_quiet(sq("g8"), sq("f6"))
        ),
        "rnbqkb1r/pppppppp/5n2/8/8/5N2/PPPPPPPP/RNBQKB1R w KQkq - 2 2"
    );
}

#[test]
fn test_capture_resets_the_clock() {
    assert_eq!(
        after("4k3/8/8/3p4/8/4N3/8/4K3 w - - 7 30", Move::new_quiet(sq("e3"), sq("d5"))),
        "4k3/8/8/3N4/8/8/8/4K3 b - - 0 30"
    );
}

#[test]
fn test_promotion_replaces_the_pawn() {
    assert_eq!(
        after("8/7P/8/8/8/8/8/8 w - - 3 1", Move::new_promotion(sq("h7"), sq("h8"), Piece::Queen)),
        "7Q/8/8/8/8/8/8/8 b - - 0 1"
    );
    assert_eq!(
        after("8/8/8/8/8/8/7p/8 b - - 3 1", Move::new(sq("h2"), sq("h1"), Some(Piece::Knight))),
        "8/8/8/8/8/8/8/7n w - - 0 2"
    );
}

#[test]
fn test_castling_moves_the_rook_and_ends_the_rights() {
    let fen = "r3k2r/8/8/8/8/8/8/R3K2R w KQkq - 0 1";
    assert_eq!(
        after(fen, Move::new_quiet(sq("e1"), sq("g1"))),
        "r3k2r/8/8/8/8/8/8/R4RK1 b kq - 1 1"
    );
    assert_eq!(
        after(fen, Move::new_quiet(sq("e1"), sq("c1"))),
        "r3k2r/8/8/8/8/8/8/2KR3R b kq - 1 1"
    );
    let fen = "r3k2r/8/8/8/8/8/8/R3K2R b KQkq - 0 1";
    assert_eq!(
        after(fen, Move::new_quiet(sq("e8"), sq("g8"))),
        "r4rk1/8/8/8/8/8/8/R3K2R w KQ - 1 2"
    );
    assert_eq!(
        after(fen, Move::new_quiet(sq("e8"), sq("c8"))),
        "2kr3r/8/8/8/8/8/8/R3K2R w KQ - 1 2"
    );
}

#[test]
fn test_rook_moves_and_rook_captures_end_one_right() {
    let fen = "r3k2r/8/8/8/8/8/8/R3K2R w KQkq - 0 1";
    assert_eq!(
        after(fen, Move::new_quiet(sq("a1"), sq("a2"))),
        "r3k2r/8/8/8/8/8/R7/4K2R b Kkq - 1 1"
    );
    assert_eq!(
        after(fen, Move::new_quiet(sq("h1"), sq("h2"))),
        "r3k2r/8/8/8/8/8/7R/R3K3 b Qkq - 1 1"
    );
    // The rook on a1 takes the rook on a8: both corners lose their right.
    assert_eq!(
        after(fen, Move::new_quiet(sq("a1"), sq("a8"))),
        "R3k2r/8/8/8/8/8/8/4K2R b Kk - 0 1"
    );
    assert_eq!(
        after(fen, Move::new_quiet(sq("h1"), sq("h8"))),
        "r3k2R/8/8/8/8/8/8/R3K3 b Qq - 0 1"
    );
}

#[test]
fn test_en_passant_capture_of_either_side() {
    assert_eq!(
        after("8/8/8/3pP3/8/8/8/8 w - d6 0 1", Move::new_quiet(sq("e5"), sq("d6"))),
        "8/8/3P4/8/8/8/8/8 b - - 0 1"
    );
    assert_eq!(
        after("8/8/8/8/3pP3/8/8/8 b - e3 0 1", Move::new_quiet(sq("d4"), sq("e3"))),
        "8/8/8/8/8/4p3/8/8 w - - 0 2"
    );
}

#[test]
fn test_make_then_unmake_restores_the_position() {
    round_trip(START, Move::new_quiet(sq("e2"), sq("e4")));
    round_trip(START, Move::new_quiet(sq("g1"), sq("f3")));
    round_trip(
        "rnbqkb1r/pppppppp/5n2/8/8/5N2/PPPPPPPP/RNBQKB1R b KQkq - 2 2",
        Move::new_quiet(sq("f6"), sq("e4")),
    );
    round_trip("4k3/8/8/3p4/8/4N3/8/4K3 w - - 7 30", Move::new_quiet(sq("e3"), sq("d5")));
    round_trip("8/8/8/3pP3/8/8/8/8 w - d6 0 1", Move::new_quiet(sq("e5"), sq("d6")));
    round_trip("8/8/8/8/3pP3/8/8/8 b - e3 0 1", Move::new_quiet(sq("d4"), sq("e3")));
    round_trip("6n1/7P/8/8/8/8/8/8 w - - 3 1", Move::new_promotion(sq("h7"), sq("g8"), Piece::Rook));
    round_trip("r3k2r/8/8/8/8/8/8/R3K2R w KQkq - 4 9", Move::new_quiet(sq("e1"), sq("g1")));
    round_trip("r3k2r/8/8/8/8/8/8/R3K2R w KQkq - 4 9", Move::new_quiet(sq("e1"), sq("c1")));
    round_trip("r3k2r/8/8/8/8/8/8/R3K2R b KQkq - 4 9", Move::new_quiet(sq("e8"), sq("g8")));
    round_trip("r3k2r/8/8/8/8/8/8/R3K2R b KQkq - 4 9", Move::new_quiet(sq("e8"), sq("c8")));
    round_trip("r3k2r/8/8/8/8/8/8/R3K2R w KQkq - 4 9", Move::new_quiet(sq("a1"), sq("a8")));
}

#[test]
fn test_every_legal_move_of_a_busy_position_can_be_taken_back() {
    let fen = "r3k2r/pppq1ppp/2n2n2/1B1pP3/3P4/2N2N2/PPP2PPP/R2QK2R w KQkq d6 0 9";
    let board = Board::parse_fen(fen).unwrap();
    let legal = board.generate_legal_moves();
    assert!(legal.len() > 30);
    for mv in legal {
        let mut copy = Board::parse_fen(fen).unwrap();
        copy.make_move(&mv);
        assert_eq!(copy.undo_move(), Ok(()));
        assert_eq!(copy.to_fen_string(), fen);
    }
}

#[test]
fn test_undo_on_empty_history_is_reported() {
    let mut board = Board::parse_fen(START).unwrap();
    assert_eq!(board.undo_move(), Err("No move to undo"));
    assert_eq!(board.to_fen_string(), START);
    board.make_move(&Move::new_quiet(sq("e2"), sq("e4")));
    board.make_move(&Move::new_quiet(sq("e7"), sq("e5")));
    assert_eq!(board.undo_move(), Ok(()));
    assert_eq!(board.undo_move(), Ok(()));
    assert_eq!(board.undo_move(), Err("No move to undo"));
    assert_eq!(board.to_fen_string(), START);
}

#[test]
fn test_snapshot_holds_what_the_move_destroys() {
    let mut board = Board::parse_fen("r3k2r/8/8/8/8/8/8/R3K2R w KQkq - 5 1").unwrap();
    let snapshot = board.make_move(&Move::new_quiet(sq("a1"), sq("a8")));
    assert_eq!(
        snapshot.captured_piece,
        Some(ColoredPiece::new(Piece::Rook, Color::Black))
    );
    assert_eq!(snapshot.previous_en_passant_target, None);
    assert!(snapshot.castling_kingside_white);
    assert!(snapshot.castling_queenside_white);
    assert!(snapshot.castling_kingside_black);
    assert!(snapshot.castling_queenside_black);
    assert_eq!(snapshot.previous_halfmove_clock, 5);
}

#[test]
fn test_moves_that_cannot_be_made_are_told() {
    let mut board = Board::parse_fen(START).unwrap();
    assert!(board.is_well_formed());
    assert!(board.can_make_move(&Move::new_quiet(sq("e2"), sq("e4"))));
    // No piece stands on e4.
    assert!(!board.can_make_move(&Move::new_quiet(sq("e4"), sq("e5"))));
    // Not a square.
    assert!(!board.can_make_move(&Move::new_quiet(sq("e2"), 64)));
    assert!(!board.can_make_move(&Move::new_quiet(64, sq("e2"))));
    // The halfmove clock is full, so only a pawn's move or a capture fits.
    board.halfmove_clock = u32::MAX;
    assert!(!board.can_make_move(&Move::new_quiet(sq("g1"), sq("f3"))));
    assert!(board.can_make_move(&Move::new_quiet(sq("e2"), sq("e4"))));
    board.halfmove_clock = 0;
    // The fullmove number is full, which matters when Black moves.
    board.fullmove_number = u32::MAX;
    assert!(board.can_make_move(&Move::new_quiet(sq("e2"), sq("e4"))));
    board.active_color = Color::Black;
    assert!(!board.can_make_move(&Move::new_quiet(sq("e7"), sq("e5"))));
    board.fullmove_number = 1;
    // An en-passant target off the board.
    board.en_passant_target = Some((8, 0));
    assert!(!board.is_well_formed());
    assert!(!board.can_make_move(&Move::new_quiet(sq("e7"), sq("e5"))));
}

#[test]
fn test_moves_that_cannot_be_taken_back_are_told() {
    let mut board = Board::parse_fen(START).unwrap();
    assert!(board.can_undo_move());
    let mv = Move::new_quiet(sq("e2"), sq("e4"));
    let snapshot = board.make_move(&mv);
    assert!(board.can_undo_move());
    assert!(board.can_unmake_move(&mv, &snapshot));
    // Nothing stands on e5 that could go back.
    assert!(!board.can_unmake_move(&Move::new_quiet(sq("e3"), sq("e5")), &snapshot));
    assert!(!board.can_unmake_move(&Move::new_quiet(sq("e2"), 64), &snapshot));
    let mut off_board = snapshot;
    off_board.previous_en_passant_target = Some((0, 8));
    assert!(!board.can_unmake_move(&mv, &off_board));
    // The fullmove number cannot go below zero when Black's move is taken back.
    let mut board = Board::parse_fen("4k3/8/8/8/8/8/8/4K3 w - - 0 1").unwrap();
    board.fullmove_number = 0;
    let black_move = Move::new_quiet(sq("e7"), sq("e8"));
    assert!(!board.can_unmake_move(&black_move, &snapshot));
    board.fullmove_number = 1;
    assert!(board.can_unmake_move(&black_move, &snapshot));
}

#[test]
fn test_pieces_are_read_by_square() {
    let board = Board::parse_fen(START).unwrap();
    assert_eq!(
        get_piece_at_square(&board, sq("e1")),
        Some(ColoredPiece::new(Piece::King, Color::White))
    );
    assert_eq!(
        get_piece_at_square(&board, sq("d8")),
        Some(ColoredPiece::new(Piece::Queen, Color::Black))
    );
    assert_eq!(get_piece_at_square(&board, sq("e4")), None);
    assert_eq!(board.piece_on(sq("a2")), Some(ColoredPiece::new(Piece::Pawn, Color::White)));
    let mut board = Board::new_empty();
    board.place(sq("c3"), Some(ColoredPiece::new(Piece::Bishop, Color::Black)));
    assert_eq!(board.squares[5][2], Some(ColoredPiece::new(Piece::Bishop, Color::Black)));
    assert_eq!(board.to_fen_string(), "8/8/8/8/8/2b5/8/8 w - - 0 1");
    let copy = board.scratch_copy();
    assert_eq!(copy.squares, board.squares);
}
