//! The eight ranks of the board.

use vstd::prelude::*;
use crate::error::Error;

verus! {

#[derive(Copy, Clone, PartialEq, Eq, PartialOrd, Debug, Hash, Structural)]
pub enum Rank {
    First,
    Second,
    Third,
    Fourth,
    Fifth,
    Sixth,
    Seventh,
    Eighth,
}

pub const NUM_RANKS: usize = 8;

pub const ALL_RANKS: [Rank; NUM_RANKS] = [
    Rank::First,
    Rank::Second,
    Rank::Third,
    Rank::Fourth,
    Rank::Fifth,
    Rank::Sixth,
    Rank::Seventh,
    Rank::Eighth,
];

impl Rank {
    /// Zero-based number of the rank: 0 for the first rank, 7 for the eighth.
    pub open spec fn index(self) -> int {
        match self {
            Rank::First => 0,
            Rank::Second => 1,
            Rank::Third => 2,
            Rank::Fourth => 3,
            Rank::Fifth => 4,
            Rank::Sixth => 5,
            Rank::Seventh => 6,
            Rank::Eighth => 7,
        }
    }

    /// The digit that names the rank.
    pub open spec fn digit(self) -> char {
        match self {
            Rank::First => '1',
            Rank::Second => '2',
            Rank::Third => '3',
            Rank::Fourth => '4',
            Rank::Fifth => '5',
            Rank::Sixth => '6',
            Rank::Seventh => '7',
            Rank::Eighth => '8',
        }
    }

    /// All ranks, from the first to the eighth.
    pub fn iter() -> (all: Vec<Rank>)
        ensures
            all@.len() == 8,
            forall|i: int| 0 <= i < 8 ==> (#[trigger] all@[i]).index() == i,
    {
        let mut all: Vec<Rank> = Vec::new();
        all.push(Rank::First);
        all.push(Rank::Second);
        all.push(Rank::Third);
        all.push(Rank::Fourth);
        all.push(Rank::Fifth);
        all.push(Rank::Sixth);
        all.push(Rank::Seventh);
        all.push(Rank::Eighth);
        all
    }

    /// The rank with number `i` modulo 8.
    #[inline]
    pub fn from_index(i: usize) -> (rank: Rank)
        ensures
            rank.index() == i % 8,
    {
        let low = i % 8;
        if low == 0 {
            Rank::First
        } else if low == 1 {
            Rank::Second
        } else if low == 2 {
            Rank::Third
        } else if low == 3 {
            Rank::Fourth
        } else if low == 4 {
            Rank::Fifth
        } else if low == 5 {
            Rank::Sixth
        } else if low == 6 {
            Rank::Seventh
        } else {
            Rank::Eighth
        }
    }

    /// The rank below, wrapping from the first rank to the eighth.
    #[inline]
    pub fn down(&self) -> (rank: Rank)
        ensures
            rank.index() == (self.index() + 7) % 8,
    {
        Rank::from_index(self.to_index() + 7)
    }

    /// The rank above, wrapping from the eighth rank to the first.
    #[inline]
    pub fn up(&self) -> (rank: Rank)
        ensures
            rank.index() == (self.index() + 1) % 8,
    {
        Rank::from_index(self.to_index() + 1)
    }

    #[inline]
    pub fn to_index(&self) -> (i: usize)
        ensures
            i == self.index(),
    {
        match self {
            Rank::First => 0,
            Rank::Second => 1,
            Rank::Third => 2,
            Rank::Fourth => 3,
            Rank::Fifth => 4,
            Rank::Sixth => 5,
            Rank::Seventh => 6,
            Rank::Eighth => 7,
        }
    }

    /// Reads a rank from the first character of `s`, which must be one of the
    /// digits 1 to 8.
    pub fn parse(s: &str) -> (res: Result<Rank, Error>)
        ensures
            match res {
                Ok(rank) => s@.len() > 0 && s@[0] == rank.digit(),
                Err(e) => e == Error::InvalidRank && (s@.len() == 0 || !('1' <= s@[0] <= '8')),
            },
    {
        if s.unicode_len() < 1 {
            return Err(Error::InvalidRank);
        }
        let c = s.get_char(0);
        if c == '1' {
            Ok(Rank::First)
        } else if c == '2' {
            Ok(Rank::Second)
        } else if c == '3' {
            Ok(Rank::Third)
        } else if c == '4' {
            Ok(Rank::Fourth)
        } else if c == '5' {
            Ok(Rank::Fifth)
        } else if c == '6' {
            Ok(Rank::Sixth)
        } else if c == '7' {
            Ok(Rank::Seventh)
        } else if c == '8' {
            Ok(Rank::Eighth)
        } else {
            Err(Error::InvalidRank)
        }
    }
}

impl core::str::FromStr for Rank {
    type Err = Error;

    /// Reads a rank from the first character of `s`, as [`Rank::parse`]
    /// does.
    fn from_str(s: &str) -> (res: Result<Self, Self::Err>)
        ensures
            match res {
                Ok(rank) => s@.len() > 0 && s@[0] == rank.digit(),
                Err(e) => e == Error::InvalidRank && (s@.len() == 0 || !('1' <= s@[0] <= '8')),
            },
    {
        Rank::parse(s)
    }
}

} // verus!
