//! Piece kinds and pieces of a side.

use vstd::prelude::*;
use crate::color::Color;

verus! {

/// The six kinds of chess piece, in the conventional order of value.
#[derive(Debug, Copy, Clone, Eq, PartialEq, PartialOrd, Hash, Ord, Structural)]
pub enum Piece {
    Pawn,
    Knight,
    Bishop,
    Rook,
    Queen,
    King,
}

pub const NUM_PIECES: usize = 6;

pub const ALL_PIECES: [Piece; NUM_PIECES] = [
    Piece::Pawn,
    Piece::Knight,
    Piece::Bishop,
    Piece::Rook,
    Piece::Queen,
    Piece::King,
];

pub const NUM_PROMOTION_PIECES: usize = 4;

/// The kinds a pawn may promote to, in the order in which promotions are
/// generated.
pub const PROMOTION_PIECES: [Piece; 4] = [Piece::Queen, Piece::Knight, Piece::Rook, Piece::Bishop];

/// The kinds a pawn may promote to, in the order in which promotions are
/// generated.
pub open spec fn promotion_kinds() -> Seq<Piece> {
    seq![Piece::Queen, Piece::Knight, Piece::Rook, Piece::Bishop]
}

impl Piece {
    /// Position of the kind in the order of the enumeration.
    pub open spec fn index(self) -> int {
        match self {
            Piece::Pawn => 0,
            Piece::Knight => 1,
            Piece::Bishop => 2,
            Piece::Rook => 3,
            Piece::Queen => 4,
            Piece::King => 5,
        }
    }

    /// The lower-case letter that names the kind.
    pub open spec fn letter(self) -> char {
        match self {
            Piece::Pawn => 'p',
            Piece::Knight => 'n',
            Piece::Bishop => 'b',
            Piece::Rook => 'r',
            Piece::Queen => 'q',
            Piece::King => 'k',
        }
    }

    /// The upper-case letter that names the kind.
    pub open spec fn capital(self) -> char {
        match self {
            Piece::Pawn => 'P',
            Piece::Knight => 'N',
            Piece::Bishop => 'B',
            Piece::Rook => 'R',
            Piece::Queen => 'Q',
            Piece::King => 'K',
        }
    }

    #[inline]
    pub fn to_index(&self) -> (i: usize)
        ensures
            i == self.index(),
    {
        match self {
            Piece::Pawn => 0,
            Piece::Knight => 1,
            Piece::Bishop => 2,
            Piece::Rook => 3,
            Piece::Queen => 4,
            Piece::King => 5,
        }
    }

    /// The one-letter name of a piece of this kind and of the given side:
    /// upper case for White, lower case for Black.
    #[inline]
    pub fn to_string(&self, color: Color) -> (name: String)
        ensures
            name@ == seq![(ColoredPiece { kind: *self, color }).symbol()],
    {
        let mut name = String::new();
        name.push(ColoredPiece::new(*self, color).to_char());
        name
    }

    /// All kinds, from pawn to king.
    pub fn iter() -> (all: Vec<Piece>)
        ensures
            all@.len() == 6,
            forall|i: int| 0 <= i < 6 ==> (#[trigger] all@[i]).index() == i,
    {
        let mut all: Vec<Piece> = Vec::new();
        all.push(Piece::Pawn);
        all.push(Piece::Knight);
        all.push(Piece::Bishop);
        all.push(Piece::Rook);
        all.push(Piece::Queen);
        all.push(Piece::King);
        all
    }

    /// The kinds a pawn may promote to.
    pub fn promotions() -> (kinds: [Piece; 4])
        ensures
            kinds@ == promotion_kinds(),
    {
        let kinds = PROMOTION_PIECES;
        assert(kinds@ =~= promotion_kinds());
        kinds
    }
}

#[derive(Debug, Copy, Clone, Eq, PartialEq, PartialOrd, Hash, Structural)]
pub struct ColoredPiece {
    pub kind: Piece,
    pub color: Color,
}

impl ColoredPiece {
    /// The character that stands for the piece in a FEN text.
    pub open spec fn symbol(self) -> char {
        match self.color {
            Color::White => self.kind.capital(),
            Color::Black => self.kind.letter(),
        }
    }

    pub fn new(kind: Piece, color: Color) -> (piece: Self)
        ensures
            piece == (ColoredPiece { kind, color }),
    {
        ColoredPiece { kind, color }
    }

    pub fn to_char(&self) -> (c: char)
        ensures
            c == self.symbol(),
    {
        match self.color {
            Color::White => match self.kind {
                Piece::Pawn => 'P',
                Piece::Knight => 'N',
                Piece::Bishop => 'B',
                Piece::Rook => 'R',
                Piece::Queen => 'Q',
                Piece::King => 'K',
            },
            Color::Black => match self.kind {
                Piece::Pawn => 'p',
                Piece::Knight => 'n',
                Piece::Bishop => 'b',
                Piece::Rook => 'r',
                Piece::Queen => 'q',
                Piece::King => 'k',
            },
        }
    }
}

/// The piece that a FEN character stands for, if any.
pub open spec fn piece_of_symbol(c: char) -> Option<ColoredPiece> {
    if c == 'P' {
        Some(ColoredPiece { kind: Piece::Pawn, color: Color::White })
    } else if c == 'N' {
        Some(ColoredPiece { kind: Piece::Knight, color: Color::White })
    } else if c == 'B' {
        Some(ColoredPiece { kind: Piece::Bishop, color: Color::White })
    } else if c == 'R' {
        Some(ColoredPiece { kind: Piece::Rook, color: Color::White })
    } else if c == 'Q' {
        Some(ColoredPiece { kind: Piece::Queen, color: Color::White })
    } else if c == 'K' {
        Some(ColoredPiece { kind: Piece::King, color: Color::White })
    } else if c == 'p' {
        Some(ColoredPiece { kind: Piece::Pawn, color: Color::Black })
    } else if c == 'n' {
        Some(ColoredPiece { kind: Piece::Knight, color: Color::Black })
    } else if c == 'b' {
        Some(ColoredPiece { kind: Piece::Bishop, color: Color::Black })
    } else if c == 'r' {
        Some(ColoredPiece { kind: Piece::Rook, color: Color::Black })
    } else if c == 'q' {
        Some(ColoredPiece { kind: Piece::Queen, color: Color::Black })
    } else if c == 'k' {
        Some(ColoredPiece { kind: Piece::King, color: Color::Black })
    } else {
        None
    }
}

/// A character stands for a piece exactly when it is that piece's symbol.
pub proof fn lemma_symbol_names_piece(piece: ColoredPiece)
    ensures
        piece_of_symbol(piece.symbol()) == Some(piece),
{
}

/// The twelve pieces, each named by its side and kind.
#[derive(Debug, Copy, Clone)]
pub enum Pieces {
    WhitePawn,
    WhiteKnight,
    WhiteBishop,
    WhiteRook,
    WhiteQueen,
    WhiteKing,
    BlackPawn,
    BlackKnight,
    BlackBishop,
    BlackRook,
    BlackQueen,
    BlackKing,
}

impl Pieces {
    /// The same piece as a kind and a side.
    pub open spec fn colored(self) -> ColoredPiece {
        match self {
            Pieces::WhitePawn => ColoredPiece { kind: Piece::Pawn, color: Color::White },
            Pieces::WhiteKnight => ColoredPiece { kind: Piece::Knight, color: Color::White },
            Pieces::WhiteBishop => ColoredPiece { kind: Piece::Bishop, color: Color::White },
            Pieces::WhiteRook => ColoredPiece { kind: Piece::Rook, color: Color::White },
            Pieces::WhiteQueen => ColoredPiece { kind: Piece::Queen, color: Color::White },
            Pieces::WhiteKing => ColoredPiece { kind: Piece::King, color: Color::White },
            Pieces::BlackPawn => ColoredPiece { kind: Piece::Pawn, color: Color::Black },
            Pieces::BlackKnight => ColoredPiece { kind: Piece::Knight, color: Color::Black },
            Pieces::BlackBishop => ColoredPiece { kind: Piece::Bishop, color: Color::Black },
            Pieces::BlackRook => ColoredPiece { kind: Piece::Rook, color: Color::Black },
            Pieces::BlackQueen => ColoredPiece { kind: Piece::Queen, color: Color::Black },
            Pieces::BlackKing => ColoredPiece { kind: Piece::King, color: Color::Black },
        }
    }

    pub fn to_string(self) -> (name: &'static str)
        ensures
            name@ == seq![self.colored().symbol()],
    {
        proof {
            reveal_strlit("P");
            reveal_strlit("N");
            reveal_strlit("B");
            reveal_strlit("R");
            reveal_strlit("Q");
            reveal_strlit("K");
            reveal_strlit("p");
            reveal_strlit("n");
            reveal_strlit("b");
            reveal_strlit("r");
            reveal_strlit("q");
            reveal_strlit("k");
        }
        let name = match self {
            Pieces::WhitePawn => "P",
            Pieces::WhiteKnight => "N",
            Pieces::WhiteBishop => "B",
            Pieces::WhiteRook => "R",
            Pieces::WhiteQueen => "Q",
            Pieces::WhiteKing => "K",
            Pieces::BlackPawn => "p",
            Pieces::BlackKnight => "n",
            Pieces::BlackBishop => "b",
            Pieces::BlackRook => "r",
            Pieces::BlackQueen => "q",
            Pieces::BlackKing => "k",
        };
        assert(name@ =~= seq![self.colored().symbol()]);
        name
    }
}

} // verus!
