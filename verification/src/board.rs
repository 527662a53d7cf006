//! The board: the position together with the history of the moves made on
//! it and the result of the game.

use vstd::prelude::*;
use crate::color::Color;
use crate::coordinates::{array_col_of, array_row_of, square_at, square_to_array_indices};
use crate::genmove::{Move, Square};
use crate::pieces::{ColoredPiece, Piece};
use crate::position::{CastlingRights, Position, Undo};

verus! {

#[derive(Debug, Clone, Copy, PartialEq, Eq, Structural)]
pub enum GameResult {
    InProgress,
    /// Checkmate, with the side that won.
    Checkmate(Color),
    Stalemate,
}

/// What a move destroys, kept so that the move can be taken back.
#[derive(Debug, Clone, Copy)]
pub struct PreviousBoardState {
    pub captured_piece: Option<ColoredPiece>,
    pub previous_en_passant_target: Option<(usize, usize)>,
    pub castling_kingside_white: bool,
    pub castling_queenside_white: bool,
    pub castling_kingside_black: bool,
    pub castling_queenside_black: bool,
    pub previous_halfmove_clock: u32,
}

/// A position, mutated in place by making and taking back moves. `squares`
/// is indexed by row and column, row 0 being the eighth rank and column 0
/// the a-file.
#[derive(Clone, Debug)]
pub struct Board {
    pub squares: [[Option<ColoredPiece>; 8]; 8],
    pub active_color: Color,
    pub castling_kingside_white: bool,
    pub castling_queenside_white: bool,
    pub castling_kingside_black: bool,
    pub castling_queenside_black: bool,
    /// Row and column of the en-passant target.
    pub en_passant_target: Option<(usize, usize)>,
    pub halfmove_clock: u32,
    pub fullmove_number: u32,
    /// The moves made and not taken back, oldest first.
    pub move_history: Vec<(Move, PreviousBoardState)>,
    pub game_result: GameResult,
}

/// The square that a row and a column name, if any are given.
pub open spec fn target_square(target: Option<(usize, usize)>) -> Option<int> {
    match target {
        Some((row, col)) => Some(square_at(row as int, col as int)),
        None => None,
    }
}

/// Whether a row and a column, if any are given, lie on the board.
pub open spec fn target_on_board(target: Option<(usize, usize)>) -> bool {
    target matches Some((row, col)) ==> row < 8 && col < 8
}

impl View for PreviousBoardState {
    type V = Undo;

    open spec fn view(&self) -> Undo {
        Undo {
            captured: self.captured_piece,
            en_passant: target_square(self.previous_en_passant_target),
            castling: CastlingRights {
                white_kingside: self.castling_kingside_white,
                white_queenside: self.castling_queenside_white,
                black_kingside: self.castling_kingside_black,
                black_queenside: self.castling_queenside_black,
            },
            halfmove_clock: self.previous_halfmove_clock as nat,
        }
    }
}

impl PreviousBoardState {
    /// The recorded en-passant target lies on the board.
    pub open spec fn wf(&self) -> bool {
        target_on_board(self.previous_en_passant_target)
    }
}

impl View for Board {
    type V = Position;

    open spec fn view(&self) -> Position {
        Position {
            placement: Seq::new(
                64,
                |square: int| self.squares[array_row_of(square)][array_col_of(square)],
            ),
            side_to_move: self.active_color,
            castling: CastlingRights {
                white_kingside: self.castling_kingside_white,
                white_queenside: self.castling_queenside_white,
                black_kingside: self.castling_kingside_black,
                black_queenside: self.castling_queenside_black,
            },
            en_passant: target_square(self.en_passant_target),
            halfmove_clock: self.halfmove_clock as nat,
            fullmove_number: self.fullmove_number as nat,
        }
    }
}

/// The kind of piece that starts the game on `file` of the back rank.
pub open spec fn back_rank_kind(file: int) -> Piece {
    if file == 0 || file == 7 {
        Piece::Rook
    } else if file == 1 || file == 6 {
        Piece::Knight
    } else if file == 2 || file == 5 {
        Piece::Bishop
    } else if file == 3 {
        Piece::Queen
    } else {
        Piece::King
    }
}

/// What stands on `square` when a game starts.
pub open spec fn starting_piece(square: int) -> Option<ColoredPiece> {
    let rank = square / 8;
    let file = square % 8;
    if rank == 0 {
        Some(ColoredPiece { kind: back_rank_kind(file), color: Color::White })
    } else if rank == 1 {
        Some(ColoredPiece { kind: Piece::Pawn, color: Color::White })
    } else if rank == 6 {
        Some(ColoredPiece { kind: Piece::Pawn, color: Color::Black })
    } else if rank == 7 {
        Some(ColoredPiece { kind: back_rank_kind(file), color: Color::Black })
    } else {
        None
    }
}

/// The position from which a game starts: White to move, all castling
/// rights, no en-passant target, and the counters at 0 and 1.
pub open spec fn starting_position() -> Position {
    Position {
        placement: Seq::new(64, |square: int| starting_piece(square)),
        side_to_move: Color::White,
        castling: CastlingRights {
            white_kingside: true,
            white_queenside: true,
            black_kingside: true,
            black_queenside: true,
        },
        en_passant: None,
        halfmove_clock: 0,
        fullmove_number: 1,
    }
}

/// The piece on `square`; total, because a number past 63 is read as a
/// square of the eighth rank.
pub fn get_piece_at_square(board: &Board, square: Square) -> (piece: Option<ColoredPiece>)
    ensures
        piece == board.squares[array_row_of(square as int)][array_col_of(square as int)],
        square < 64 ==> piece == board@.placement[square as int],
{
    let (arr_r, arr_f) = square_to_array_indices(square);
    board.squares[arr_r][arr_f]
}

impl Board {
    /// The en-passant target lies on the board.
    pub open spec fn wf(&self) -> bool {
        target_on_board(self.en_passant_target)
    }

    /// What a move from this position destroys.
    pub open spec fn snapshot(&self, mv: Move) -> PreviousBoardState {
        PreviousBoardState {
            captured_piece: self@.placement[mv.to as int],
            previous_en_passant_target: self.en_passant_target,
            castling_kingside_white: self.castling_kingside_white,
            castling_queenside_white: self.castling_queenside_white,
            castling_kingside_black: self.castling_kingside_black,
            castling_queenside_black: self.castling_queenside_black,
            previous_halfmove_clock: self.halfmove_clock,
        }
    }

    /// An empty board with White to move, no castling rights, no en-passant
    /// target, and the counters at their starting values.
    pub fn new() -> (board: Self)
        ensures
            board.wf(),
            board@.placement == Seq::new(64, |square: int| None::<ColoredPiece>),
            board@.side_to_move == Color::White,
            board@.castling == (CastlingRights {
                white_kingside: false,
                white_queenside: false,
                black_kingside: false,
                black_queenside: false,
            }),
            board@.en_passant is None,
            board@.halfmove_clock == 0,
            board@.fullmove_number == 1,
            board.move_history@.len() == 0,
            board.game_result == GameResult::InProgress,
    {
        let board = Board {
            squares: [[None; 8]; 8],
            active_color: Color::White,
            castling_kingside_white: false,
            castling_queenside_white: false,
            castling_kingside_black: false,
            castling_queenside_black: false,
            en_passant_target: None,
            halfmove_clock: 0,
            fullmove_number: 1,
            move_history: Vec::new(),
            game_result: GameResult::InProgress,
        };
        assert(board@.placement =~= Seq::new(64, |square: int| None::<ColoredPiece>));
        board
    }

    /// The position from which a game starts, with an empty history.
    pub fn starting_position() -> (board: Self)
        ensures
            board.wf(),
            board@ == starting_position(),
            board.move_history@.len() == 0,
            board.game_result == GameResult::InProgress,
    {
        let white = [
            Some(ColoredPiece { kind: Piece::Rook, color: Color::White }),
            Some(ColoredPiece { kind: Piece::Knight, color: Color::White }),
            Some(ColoredPiece { kind: Piece::Bishop, color: Color::White }),
            Some(ColoredPiece { kind: Piece::Queen, color: Color::White }),
            Some(ColoredPiece { kind: Piece::King, color: Color::White }),
            Some(ColoredPiece { kind: Piece::Bishop, color: Color::White }),
            Some(ColoredPiece { kind: Piece::Knight, color: Color::White }),
            Some(ColoredPiece { kind: Piece::Rook, color: Color::White }),
        ];
        let black = [
            Some(ColoredPiece { kind: Piece::Rook, color: Color::Black }),
            Some(ColoredPiece { kind: Piece::Knight, color: Color::Black }),
            Some(ColoredPiece { kind: Piece::Bishop, color: Color::Black }),
            Some(ColoredPiece { kind: Piece::Queen, color: Color::Black }),
            Some(ColoredPiece { kind: Piece::King, color: Color::Black }),
            Some(ColoredPiece { kind: Piece::Bishop, color: Color::Black }),
            Some(ColoredPiece { kind: Piece::Knight, color: Color::Black }),
            Some(ColoredPiece { kind: Piece::Rook, color: Color::Black }),
        ];
        let white_pawns = [Some(ColoredPiece { kind: Piece::Pawn, color: Color::White }); 8];
        let black_pawns = [Some(ColoredPiece { kind: Piece::Pawn, color: Color::Black }); 8];
        let empty = [None; 8];
        let board = Board {
            squares: [black, black_pawns, empty, empty, empty, empty, white_pawns, white],
            active_color: Color::White,
            castling_kingside_white: true,
            castling_queenside_white: true,
            castling_kingside_black: true,
            castling_queenside_black: true,
            en_passant_target: None,
            halfmove_clock: 0,
            fullmove_number: 1,
            move_history: Vec::new(),
            game_result: GameResult::InProgress,
        };
        assert(board@.placement =~= starting_position().placement);
        board
    }

    /// Same as [`Board::new`].
    pub fn new_empty() -> (board: Self)
        ensures
            board.wf(),
            board@.placement == Seq::new(64, |square: int| None::<ColoredPiece>),
            board@.side_to_move == Color::White,
            board@.castling == (CastlingRights {
                white_kingside: false,
                white_queenside: false,
                black_kingside: false,
                black_queenside: false,
            }),
            board@.en_passant is None,
            board@.halfmove_clock == 0,
            board@.fullmove_number == 1,
            board.move_history@.len() == 0,
            board.game_result == GameResult::InProgress,
    {
        Board::new()
    }

    /// The piece on `square`.
    pub fn piece_on(&self, square: Square) -> (piece: Option<ColoredPiece>)
        requires
            square < 64,
        ensures
            piece == self@.placement[square as int],
    {
        get_piece_at_square(self, square)
    }

    /// Puts `piece` on `square`, or clears the square.
    pub fn place(&mut self, square: Square, piece: Option<ColoredPiece>)
        requires
            square < 64,
        ensures
            final(self)@ == (Position {
                placement: old(self)@.placement.update(square as int, piece),
                ..old(self)@
            }),
            *final(self) == (Board { squares: final(self).squares, ..*old(self) }),
    {
        let (arr_r, arr_f) = square_to_array_indices(square);
        self.squares[arr_r][arr_f] = piece;
        assert(final(self)@.placement =~= old(self)@.placement.update(square as int, piece));
    }

    /// A copy of the position with an empty history and the counters at their
    /// starting values, for trying moves out.
    pub fn scratch_copy(&self) -> (copy: Board)
        ensures
            copy@ == (Position { halfmove_clock: 0, fullmove_number: 1, ..self@ }),
            copy.en_passant_target == self.en_passant_target,
            copy.move_history@.len() == 0,
            copy.game_result == self.game_result,
    {
        Board {
            squares: self.squares,
            active_color: self.active_color,
            castling_kingside_white: self.castling_kingside_white,
            castling_queenside_white: self.castling_queenside_white,
            castling_kingside_black: self.castling_kingside_black,
            castling_queenside_black: self.castling_queenside_black,
            en_passant_target: self.en_passant_target,
            halfmove_clock: 0,
            fullmove_number: 1,
            move_history: Vec::new(),
            game_result: self.game_result,
        }
    }

    /// Moves whatever stands on `rook` to `target`; does nothing where
    /// `rook` is empty.
    fn relocate(&mut self, rook: Square, target: Square)
        requires
            rook < 64,
            target < 64,
        ensures
            final(self)@ == (Position {
                placement: crate::position::relocate(
                    old(self)@.placement,
                    rook as int,
                    target as int,
                ),
                ..old(self)@
            }),
            *final(self) == (Board { squares: final(self).squares, ..*old(self) }),
    {
        match self.piece_on(rook) {
            Some(piece) => {
                self.place(rook, None);
                self.place(target, Some(piece));
            },
            None => {},
        }
    }

    /// Moves the pieces as `mv` asks: the piece itself, with what a
    /// promotion, a capture en passant or castling adds to that.
    fn shift_pieces(&mut self, mv: &Move)
        requires
            old(self).wf(),
            old(self)@.admits(*mv),
        ensures
            final(self)@.placement == old(self)@.placement_after(*mv),
            *final(self) == (Board { squares: final(self).squares, ..*old(self) }),
    {
        let ghost before = self@;
        let from_rank = mv.from / 8;
        let from_file = mv.from % 8;
        let to_rank = mv.to / 8;
        let to_file = mv.to % 8;
        let piece_moved = self.piece_on(mv.from).unwrap();
        let captured_piece = self.piece_on(mv.to);
        let en_passant_capture = piece_moved.kind == Piece::Pawn && from_file != to_file
            && captured_piece.is_none() && match self.en_passant_target {
            Some((row, col)) => row == 7 - to_rank as usize && col == to_file as usize,
            None => false,
        };
        assert(en_passant_capture == before.is_en_passant_capture(*mv));

        self.place(mv.to, Some(piece_moved));
        self.place(mv.from, None);
        if let Some(promotion_kind) = mv.promotion {
            self.place(mv.to, Some(ColoredPiece { kind: promotion_kind, color: piece_moved.color }));
        }
        if en_passant_capture {
            let victim = match piece_moved.color {
                Color::White => mv.to - 8,
                Color::Black => mv.to + 8,
            };
            self.place(victim, None);
        }
        if piece_moved.kind == Piece::King && (to_file == from_file + 2 || from_file == to_file
            + 2) {
            let (rook_from_file, rook_to_file): (u8, u8) = if to_file > from_file {
                (7, 5)
            } else {
                (0, 3)
            };
            self.relocate(from_rank * 8 + rook_from_file, from_rank * 8 + rook_to_file);
        }
    }

    /// Brings the castling rights up to date after `mover` has made `mv` and
    /// captured `captured` on the destination.
    fn update_castling_rights(
        &mut self,
        mover: ColoredPiece,
        mv: &Move,
        captured: Option<ColoredPiece>,
    )
        ensures
            final(self)@ == (Position {
                castling: old(self)@.castling.after_move(mover, *mv, captured),
                ..old(self)@
            }),
            *final(self) == (Board {
                castling_kingside_white: final(self).castling_kingside_white,
                castling_queenside_white: final(self).castling_queenside_white,
                castling_kingside_black: final(self).castling_kingside_black,
                castling_queenside_black: final(self).castling_queenside_black,
                ..*old(self)
            }),
    {
        if mover.kind == Piece::King {
            match mover.color {
                Color::White => {
                    self.castling_kingside_white = false;
                    self.castling_queenside_white = false;
                },
                Color::Black => {
                    self.castling_kingside_black = false;
                    self.castling_queenside_black = false;
                },
            }
        }
        if mover.kind == Piece::Rook {
            self.clear_corner_right(mv.from);
        }
        if let Some(piece) = captured {
            if piece.kind == Piece::Rook {
                self.clear_corner_right(mv.to);
            }
        }
    }

    /// Applies `mv`: moves the piece, with what a promotion, a capture en
    /// passant or castling adds to that, and brings the castling rights, the
    /// en-passant target, the two counters and the side to move up to date.
    /// The move is added to the history; the result of the game is left as it
    /// is. Returns what the move destroyed.
    pub fn make_move(&mut self, mv: &Move) -> (undo: PreviousBoardState)
        requires
            old(self).wf(),
            old(self)@.admits(*mv),
            !old(self)@.resets_clock(*mv) ==> old(self).halfmove_clock < u32::MAX,
            old(self).active_color == Color::Black ==> old(self).fullmove_number < u32::MAX,
        ensures
            final(self)@ == old(self)@.apply(*mv),
            final(self).wf(),
            undo == old(self).snapshot(*mv),
            undo@ == old(self)@.undo_of(*mv),
            undo.wf(),
            final(self).move_history@ == old(self).move_history@.push((*mv, undo)),
            final(self).game_result == old(self).game_result,
    {
        let from_rank = mv.from / 8;
        let to_rank = mv.to / 8;
        let piece_moved = self.piece_on(mv.from).unwrap();
        let captured_piece = self.piece_on(mv.to);
        let prev_state = PreviousBoardState {
            captured_piece,
            previous_en_passant_target: self.en_passant_target,
            castling_kingside_white: self.castling_kingside_white,
            castling_queenside_white: self.castling_queenside_white,
            castling_kingside_black: self.castling_kingside_black,
            castling_queenside_black: self.castling_queenside_black,
            previous_halfmove_clock: self.halfmove_clock,
        };
        self.move_history.push((*mv, prev_state));
        self.shift_pieces(mv);
        self.update_castling_rights(piece_moved, mv, captured_piece);

        if piece_moved.kind == Piece::Pawn || captured_piece.is_some() {
            self.halfmove_clock = 0;
        } else {
            self.halfmove_clock += 1;
        }
        if piece_moved.kind == Piece::Pawn && (to_rank == from_rank + 2 || from_rank == to_rank
            + 2) {
            let passed_rank = (from_rank + to_rank) / 2;
            self.en_passant_target = Some(square_to_array_indices(passed_rank * 8 + mv.from % 8));
        } else {
            self.en_passant_target = None;
        }
        if self.active_color == Color::Black {
            self.fullmove_number += 1;
        }
        self.active_color = self.active_color.other();
        prev_state
    }

    /// Ends the castling right that belongs to the rook's home square
    /// `corner`; does nothing for any other square.
    fn clear_corner_right(&mut self, corner: Square)
        ensures
            final(self)@ == (Position {
                castling: old(self)@.castling.without_corner(corner as int),
                ..old(self)@
            }),
            *final(self) == (Board {
                castling_kingside_white: final(self).castling_kingside_white,
                castling_queenside_white: final(self).castling_queenside_white,
                castling_kingside_black: final(self).castling_kingside_black,
                castling_queenside_black: final(self).castling_queenside_black,
                ..*old(self)
            }),
    {
        if corner == 0 {
            self.castling_queenside_white = false;
        }
        if corner == 7 {
            self.castling_kingside_white = false;
        }
        if corner == 56 {
            self.castling_queenside_black = false;
        }
        if corner == 63 {
            self.castling_kingside_black = false;
        }
    }

    /// Moves the pieces back as taking `mv` back asks: the piece itself,
    /// what it had captured, a pawn captured en passant, and the rook of a
    /// castling.
    fn return_pieces(&mut self, mv: &Move, undo: &PreviousBoardState)
        requires
            undo.wf(),
            old(self)@.admits_undo(*mv, undo@),
        ensures
            final(self)@.placement == old(self)@.placement_before(*mv, undo@),
            *final(self) == (Board { squares: final(self).squares, ..*old(self) }),
    {
        let ghost after = self@;
        let from_rank = mv.from / 8;
        let from_file = mv.from % 8;
        let to_rank = mv.to / 8;
        let to_file = mv.to % 8;
        let arrived = self.piece_on(mv.to).unwrap();
        let returning = if mv.promotion.is_some() {
            ColoredPiece { kind: Piece::Pawn, color: arrived.color }
        } else {
            arrived
        };
        let restores_pawn = returning.kind == Piece::Pawn && from_file != to_file
            && undo.captured_piece.is_none() && match undo.previous_en_passant_target {
            Some((row, col)) => row == 7 - to_rank as usize && col == to_file as usize,
            None => false,
        };
        assert(restores_pawn == after.restores_pawn(*mv, undo@));

        self.place(mv.from, Some(returning));
        self.place(mv.to, undo.captured_piece);
        if restores_pawn {
            let victim = match returning.color {
                Color::White => mv.to - 8,
                Color::Black => mv.to + 8,
            };
            self.place(
                victim,
                Some(ColoredPiece { kind: Piece::Pawn, color: returning.color.other() }),
            );
        }
        if returning.kind == Piece::King && (to_file == from_file + 2 || from_file == to_file + 2) {
            let (rook_home_file, rook_castled_file): (u8, u8) = if to_file > from_file {
                (7, 5)
            } else {
                (0, 3)
            };
            self.relocate(from_rank * 8 + rook_castled_file, from_rank * 8 + rook_home_file);
        }
    }

    /// Takes `mv` back, given what it destroyed: the exact inverse of
    /// [`Board::make_move`] for the moves that
    /// [`Position::reversible`](crate::position::Position::reversible)
    /// describes. The history and the result of the game are left as they are.
    pub fn unmake_move(&mut self, mv: &Move, undo: &PreviousBoardState)
        requires
            undo.wf(),
            old(self)@.admits_undo(*mv, undo@),
        ensures
            final(self)@ == old(self)@.unapply(*mv, undo@),
            final(self).wf(),
            final(self).move_history == old(self).move_history,
            final(self).game_result == old(self).game_result,
    {
        self.return_pieces(mv, undo);
        self.active_color = self.active_color.other();
        if self.active_color == Color::Black {
            self.fullmove_number -= 1;
        }
        self.castling_kingside_white = undo.castling_kingside_white;
        self.castling_queenside_white = undo.castling_queenside_white;
        self.castling_kingside_black = undo.castling_kingside_black;
        self.castling_queenside_black = undo.castling_queenside_black;
        self.en_passant_target = undo.previous_en_passant_target;
        self.halfmove_clock = undo.previous_halfmove_clock;
    }

    /// Whether the en-passant target lies on the board.
    pub fn is_well_formed(&self) -> (ok: bool)
        ensures
            ok == self.wf(),
    {
        match self.en_passant_target {
            Some((row, col)) => row < 8 && col < 8,
            None => true,
        }
    }

    /// Whether [`Board::make_move`] may be called with `mv`: the board is
    /// well formed, the move can be applied to the position, and the
    /// counters that the move raises have room.
    pub fn can_make_move(&self, mv: &Move) -> (ok: bool)
        ensures
            ok == {
                &&& self.wf()
                &&& self@.admits(*mv)
                &&& !self@.resets_clock(*mv) ==> self.halfmove_clock < u32::MAX
                &&& self.active_color == Color::Black ==> self.fullmove_number < u32::MAX
            },
    {
        if !self.is_well_formed() || mv.from >= 64 || mv.to >= 64 {
            return false;
        }
        let piece_moved = match self.piece_on(mv.from) {
            Some(piece) => piece,
            None => {
                return false;
            },
        };
        let captured_piece = self.piece_on(mv.to);
        let is_pawn = piece_moved.kind == Piece::Pawn;
        let en_passant_capture = is_pawn && mv.from % 8 != mv.to % 8 && captured_piece.is_none()
            && match self.en_passant_target {
            Some((row, col)) => row == 7 - (mv.to / 8) as usize && col == (mv.to % 8) as usize,
            None => false,
        };
        assert(en_passant_capture == self@.is_en_passant_capture(*mv));
        if en_passant_capture {
            let has_victim = match piece_moved.color {
                Color::White => mv.to >= 8,
                Color::Black => mv.to < 56,
            };
            if !has_victim {
                return false;
            }
        }
        if !is_pawn && captured_piece.is_none() && self.halfmove_clock == u32::MAX {
            return false;
        }
        !(self.active_color == Color::Black && self.fullmove_number == u32::MAX)
    }

    /// Whether [`Board::unmake_move`] may be called with `mv` and `undo`.
    pub fn can_unmake_move(&self, mv: &Move, undo: &PreviousBoardState) -> (ok: bool)
        ensures
            ok == (undo.wf() && self@.admits_undo(*mv, undo@)),
    {
        let recorded_on_board = match undo.previous_en_passant_target {
            Some((row, col)) => row < 8 && col < 8,
            None => true,
        };
        let target_is_square = match self.en_passant_target {
            Some((row, col)) => {
                let square: i128 = (7 - row as i128) * 8 + col as i128;
                0 <= square && square < 64
            },
            None => true,
        };
        if !recorded_on_board || !target_is_square || mv.from >= 64 || mv.to >= 64 {
            return false;
        }
        let arrived = match self.piece_on(mv.to) {
            Some(piece) => piece,
            None => {
                return false;
            },
        };
        if self.active_color == Color::White && self.fullmove_number == 0 {
            return false;
        }
        let returning_is_pawn = mv.promotion.is_some() || arrived.kind == Piece::Pawn;
        let restores_pawn = returning_is_pawn && mv.from % 8 != mv.to % 8
            && undo.captured_piece.is_none() && match undo.previous_en_passant_target {
            Some((row, col)) => row == 7 - (mv.to / 8) as usize && col == (mv.to % 8) as usize,
            None => false,
        };
        assert(restores_pawn == self@.restores_pawn(*mv, undo@));
        if restores_pawn {
            match arrived.color {
                Color::White => mv.to >= 8,
                Color::Black => mv.to < 56,
            }
        } else {
            true
        }
    }

    /// Whether [`Board::undo_move`] may be called: the history is empty, or
    /// its last move can be taken back.
    pub fn can_undo_move(&self) -> (ok: bool)
        ensures
            ok == (self.move_history@.len() > 0 ==> {
                let last = self.move_history@.last();
                last.1.wf() && self@.admits_undo(last.0, last.1@)
            }),
    {
        let n = self.move_history.len();
        if n == 0 {
            true
        } else {
            let (mv, undo) = self.move_history[n - 1];
            self.can_unmake_move(&mv, &undo)
        }
    }

    /// Takes back the last move of the history and removes it from there.
    /// With an empty history nothing changes and the condition is reported.
    pub fn undo_move(&mut self) -> (res: Result<(), &'static str>)
        requires
            old(self).move_history@.len() > 0 ==> {
                let last = old(self).move_history@.last();
                last.1.wf() && old(self)@.admits_undo(last.0, last.1@)
            },
        ensures
            match res {
                Ok(_) => {
                    let last = old(self).move_history@.last();
                    &&& old(self).move_history@.len() > 0
                    &&& final(self)@ == old(self)@.unapply(last.0, last.1@)
                    &&& final(self).wf()
                    &&& final(self).move_history@ == old(self).move_history@.drop_last()
                    &&& final(self).game_result == old(self).game_result
                },
                Err(message) => {
                    &&& old(self).move_history@.len() == 0
                    &&& *final(self) == (Board {
                        move_history: final(self).move_history,
                        ..*old(self)
                    })
                    &&& final(self).move_history@ == old(self).move_history@
                    &&& message@ == "No move to undo"@
                },
            },
    {
        match self.move_history.pop() {
            Some((mv, prev_state)) => {
                self.unmake_move(&mv, &prev_state);
                Ok(())
            },
            None => Err("No move to undo"),
        }
    }
}

} // verus!
