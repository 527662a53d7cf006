//! The two sides of a game.

use vstd::prelude::*;
use crate::rank::Rank;

verus! {

#[derive(PartialOrd, PartialEq, Eq, Copy, Clone, Debug, Hash, Structural)]
pub enum Color {
    White,
    Black,
}

pub const NUM_COLORS: usize = 2;

pub const ALL_COLOR: [Color; NUM_COLORS] = [Color::White, Color::Black];

impl Color {
    /// Position of the side in the conventional order: White first.
    pub open spec fn index(self) -> int {
        match self {
            Color::White => 0,
            Color::Black => 1,
        }
    }

    /// The other side.
    pub open spec fn opponent(self) -> Color {
        match self {
            Color::White => Color::Black,
            Color::Black => Color::White,
        }
    }

    /// Rank offset of one pawn step for this side: up the board for White,
    /// down for Black.
    pub open spec fn forward(self) -> int {
        match self {
            Color::White => 1,
            Color::Black => -1,
        }
    }

    #[inline]
    pub fn to_index(&self) -> (i: usize)
        ensures
            i == self.index(),
    {
        match self {
            Color::White => 0,
            Color::Black => 1,
        }
    }

    #[inline]
    pub fn from_index(i: usize) -> (color: Color)
        ensures
            color.index() == i % 2,
    {
        if i % 2 == 0 {
            Color::White
        } else {
            Color::Black
        }
    }

    /// Both sides, White first.
    pub fn iter() -> (all: Vec<Color>)
        ensures
            all@ == seq![Color::White, Color::Black],
    {
        let mut all: Vec<Color> = Vec::new();
        all.push(Color::White);
        all.push(Color::Black);
        all
    }

    /// The other side.
    #[inline]
    pub fn other(&self) -> (color: Color)
        ensures
            color == self.opponent(),
    {
        match self {
            Color::White => Color::Black,
            Color::Black => Color::White,
        }
    }

    /// The rank on which this side's pieces start.
    #[inline]
    pub fn to_my_backrank(&self) -> (rank: Rank)
        ensures
            rank.index() == self.index() * 7,
    {
        match *self {
            Color::White => Rank::First,
            Color::Black => Rank::Eighth,
        }
    }

    /// The rank on which the opponent's pieces start, where this side's
    /// pawns promote.
    #[inline]
    pub fn to_their_backrank(&self) -> (rank: Rank)
        ensures
            rank.index() == 7 - self.index() * 7,
    {
        match *self {
            Color::White => Rank::Eighth,
            Color::Black => Rank::First,
        }
    }

    /// The rank on which this side's pawns start.
    #[inline]
    pub fn to_second_rank(&self) -> (rank: Rank)
        ensures
            rank.index() == 1 + self.index() * 5,
    {
        match *self {
            Color::White => Rank::Second,
            Color::Black => Rank::Seventh,
        }
    }

    /// The rank that this side's pawns reach with a double step.
    #[inline]
    pub fn to_fourth_rank(&self) -> (rank: Rank)
        ensures
            rank.index() == 3 + self.index(),
    {
        match *self {
            Color::White => Rank::Fourth,
            Color::Black => Rank::Fifth,
        }
    }

    /// The last rank before this side's pawns promote.
    #[inline]
    pub fn to_seventh_rank(&self) -> (rank: Rank)
        ensures
            rank.index() == 6 - self.index() * 5,
    {
        match *self {
            Color::White => Rank::Seventh,
            Color::Black => Rank::Second,
        }
    }
}

impl core::ops::Not for Color {
    type Output = Color;

    #[inline]
    fn not(self) -> (color: Color) {
        match self {
            Color::White => Color::Black,
            Color::Black => Color::White,
        }
    }
}

impl vstd::std_specs::ops::NotSpecImpl for Color {
    open spec fn obeys_not_spec() -> bool {
        true
    }

    open spec fn not_req(self) -> bool {
        true
    }

    open spec fn not_spec(self) -> Color {
        self.opponent()
    }
}

} // verus!
