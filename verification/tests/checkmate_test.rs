// Checkmate, stalemate and check.

use engine::{Board, Color, GameResult};

fn sq(s: &str) -> u8 {
    assert_eq!(s.len(), 2);
    let file_char = s.chars().nth(0).unwrap();
    let rank_char = s.chars().nth(1).unwrap();
    let file_val = (file_char as u8) - b'a';
    let rank_val = (rank_char as u8) - b'1';
    rank_val * 8 + file_val
}

fn play(board: &mut Board, from: &str, to: &str, what: &str) {
    let legal_moves = board.generate_legal_moves();
    let mv = legal_moves
        .iter()
        .find(|m| m.from == sq(from) && m.to == sq(to))
        .expect(what);
    board.make_move(mv);
    board.update_game_result();
}

#[test]
fn test_fools_mate() {
    let mut board = Board::parse_fen("rnbqkbnr/pppppppp/8/8/8/8/PPPPPPPP/RNBQKBNR w KQkq - 0 1")
        .expect("Failed to parse starting position");

    play(&mut board, "f2", "f3", "f3 move should be legal");
    assert_eq!(board.game_result, GameResult::InProgress);

    play(&mut board, "e7", "e5", "e5 move should be legal");
    assert_eq!(board.game_result, GameResult::InProgress);

    play(&mut board, "g2", "g4", "g4 move should be legal");
    assert_eq!(board.game_result, GameResult::InProgress);

    play(&mut board, "d8", "h4", "Qh4 move should be legal");

    assert_eq!(board.game_result, GameResult::Checkmate(Color::Black));
    assert!(board.is_checkmate());
    assert!(board.is_game_over());
}

#[test]
fn test_back_rank_mate() {
    let mut board = Board::parse_fen("6k1/5ppp/8/8/8/8/5PPP/R5K1 w - - 0 1")
        .expect("Failed to parse position");

    play(&mut board, "a1", "a8", "Ra8 move should be legal");

    assert_eq!(board.game_result, GameResult::Checkmate(Color::White));
    assert!(board.is_checkmate());
    assert!(board.is_game_over());
}

#[test]
fn test_stalemate() {
    let board = Board::parse_fen("k7/2K5/1Q6/8/8/8/8/8 b - - 0 1")
        .expect("Failed to parse stalemate position");

    assert!(board.is_stalemate());
    assert!(!board.is_checkmate());
    assert!(!board.is_in_check());
}

#[test]
fn test_position_with_legal_moves_not_checkmate() {
    let board = Board::parse_fen("rnbqkbnr/pppppppp/8/8/8/8/PPPPPPPP/RNBQKBNR w KQkq - 0 1")
        .expect("Failed to parse starting position");

    assert!(!board.is_checkmate());
    assert!(!board.is_stalemate());
    assert!(!board.is_in_check());
    assert_eq!(board.game_result, GameResult::InProgress);
}

#[test]
fn test_check_but_not_checkmate() {
    let board = Board::parse_fen("4k3/8/8/8/8/8/4r3/4K3 w - - 0 1")
        .expect("Failed to parse check position");

    assert!(board.is_in_check());
    assert!(!board.is_checkmate());
    assert!(!board.is_stalemate());
    assert_eq!(board.game_result, GameResult::InProgress);
}

#[test]
fn test_scholars_mate() {
    let mut board = Board::parse_fen("rnbqkbnr/pppppppp/8/8/8/8/PPPPPPPP/RNBQKBNR w KQkq - 0 1")
        .expect("Failed to parse starting position");

    play(&mut board, "e2", "e4", "e4 move should be legal");
    play(&mut board, "e7", "e5", "e5 move should be legal");
    play(&mut board, "f1", "c4", "Bc4 move should be legal");
    play(&mut board, "b8", "c6", "Nc6 move should be legal");
    play(&mut board, "d1", "h5", "Qh5 move should be legal");
    play(&mut board, "g8", "f6", "Nf6 move should be legal");
    play(&mut board, "h5", "f7", "Qxf7 move should be legal");

    assert_eq!(board.game_result, GameResult::Checkmate(Color::White));
    assert!(board.is_checkmate());
    assert!(board.is_game_over());
}

#[test]
fn test_fools_mate_leaves_white_without_moves() {
    let mut board = Board::parse_fen("rnbqkbnr/pppppppp/8/8/8/8/PPPPPPPP/RNBQKBNR w KQkq - 0 1")
        .unwrap();
    play(&mut board, "f2", "f3", "f3");
    play(&mut board, "e7", "e5", "e5");
    play(&mut board, "g2", "g4", "g4");
    play(&mut board, "d8", "h4", "Qh4");
    assert!(board.generate_legal_moves().is_empty());
    assert!(board.is_in_check());
    assert!(!board.is_stalemate());
    assert_eq!(board.active_color, Color::White);
}

#[test]
fn test_result_is_sticky() {
    let mut board = Board::parse_fen("k7/2K5/1Q6/8/8/8/8/8 b - - 0 1").unwrap();
    assert!(!board.is_game_over());
    board.update_game_result();
    assert_eq!(board.game_result, GameResult::Stalemate);
    board.update_game_result();
    assert_eq!(board.game_result, GameResult::Stalemate);

    // A recorded result stays even where the position no longer shows it.
    let mut other = Board::parse_fen("rnbqkbnr/pppppppp/8/8/8/8/PPPPPPPP/RNBQKBNR w KQkq - 0 1")
        .unwrap();
    other.game_result = GameResult::Checkmate(Color::White);
    other.update_game_result();
    assert_eq!(other.game_result, GameResult::Checkmate(Color::White));
}

#[test]
fn test_find_king_square() {
    let board = Board::parse_fen("4k3/8/8/8/8/8/4r3/4K3 w - - 0 1").unwrap();
    assert_eq!(board.find_king_square(Color::White), Some(sq("e1")));
    assert_eq!(board.find_king_square(Color::Black), Some(sq("e8")));
    let empty = Board::new();
    assert_eq!(empty.find_king_square(Color::White), None);
    assert!(!empty.is_in_check());
    // Without a king no move counts as legal, and the side is stalemated.
    let lone = Board::parse_fen("8/8/8/8/3N4/8/8/8 w - - 0 1").unwrap();
    assert_eq!(lone.generate_pseudo_legal_moves().len(), 8);
    assert!(lone.generate_legal_moves().is_empty());
    assert!(lone.is_stalemate());
}

#[test]
fn test_pinned_piece_may_not_move_away() {
    // The knight on e2 shields the king on e1 from the rook on e8.
    let board = Board::parse_fen("4r1k1/8/8/8/8/8/4N3/4K3 w - - 0 1").unwrap();
    let legal = board.generate_legal_moves();
    assert!(legal.iter().all(|m| m.from != sq("e2")));
    assert_eq!(legal.len(), 4);
    let pseudo = board.generate_pseudo_legal_moves();
    assert_eq!(pseudo.iter().filter(|m| m.from == sq("e2")).count(), 6);
}
