//! The eight files of the board.

use vstd::prelude::*;
use crate::error::Error;

verus! {

#[derive(Copy, Clone, Debug, PartialEq, Eq, PartialOrd, Hash, Structural)]
pub enum File {
    A,
    B,
    C,
    D,
    E,
    F,
    G,
    H,
}

pub const NUM_FILES: usize = 8;

pub const ALL_FILES: [File; NUM_FILES] = [
    File::A,
    File::B,
    File::C,
    File::D,
    File::E,
    File::F,
    File::G,
    File::H,
];

impl File {
    /// Zero-based number of the file: 0 for the a-file, 7 for the h-file.
    pub open spec fn number(self) -> int {
        match self {
            File::A => 0,
            File::B => 1,
            File::C => 2,
            File::D => 3,
            File::E => 4,
            File::F => 5,
            File::G => 6,
            File::H => 7,
        }
    }

    /// The letter that names the file.
    pub open spec fn letter(self) -> char {
        match self {
            File::A => 'a',
            File::B => 'b',
            File::C => 'c',
            File::D => 'd',
            File::E => 'e',
            File::F => 'f',
            File::G => 'g',
            File::H => 'h',
        }
    }

    /// The file with number `i` modulo 8.
    #[inline]
    pub fn from_index(i: usize) -> (file: File)
        ensures
            file.number() == i % 8,
    {
        let low = i % 8;
        if low == 0 {
            File::A
        } else if low == 1 {
            File::B
        } else if low == 2 {
            File::C
        } else if low == 3 {
            File::D
        } else if low == 4 {
            File::E
        } else if low == 5 {
            File::F
        } else if low == 6 {
            File::G
        } else {
            File::H
        }
    }

    /// All files, from a to h.
    pub fn iter() -> (all: Vec<File>)
        ensures
            all@.len() == 8,
            forall|i: int| 0 <= i < 8 ==> (#[trigger] all@[i]).number() == i,
    {
        let mut all: Vec<File> = Vec::new();
        all.push(File::A);
        all.push(File::B);
        all.push(File::C);
        all.push(File::D);
        all.push(File::E);
        all.push(File::F);
        all.push(File::G);
        all.push(File::H);
        all
    }

    /// The file to the left, wrapping from a to h.
    #[inline]
    pub fn left(&self) -> (file: File)
        ensures
            file.number() == (self.number() + 7) % 8,
    {
        File::from_index(self.to_index() + 7)
    }

    /// The file to the right, wrapping from h to a.
    #[inline]
    pub fn right(&self) -> (file: File)
        ensures
            file.number() == (self.number() + 1) % 8,
    {
        File::from_index(self.to_index() + 1)
    }

    #[inline]
    pub fn to_index(&self) -> (i: usize)
        ensures
            i == self.number(),
    {
        match self {
            File::A => 0,
            File::B => 1,
            File::C => 2,
            File::D => 3,
            File::E => 4,
            File::F => 5,
            File::G => 6,
            File::H => 7,
        }
    }

    /// Same as [`File::to_index`].
    pub fn index(&self) -> (i: usize)
        ensures
            i == self.number(),
    {
        self.to_index()
    }

    pub fn to_char(self) -> (c: char)
        ensures
            c == self.letter(),
    {
        match self {
            File::A => 'a',
            File::B => 'b',
            File::C => 'c',
            File::D => 'd',
            File::E => 'e',
            File::F => 'f',
            File::G => 'g',
            File::H => 'h',
        }
    }

    /// Reads a file from the first character of `s`, which must be one of the
    /// letters a to h.
    pub fn parse(s: &str) -> (res: Result<File, Error>)
        ensures
            match res {
                Ok(file) => s@.len() > 0 && s@[0] == file.letter(),
                Err(e) => e == Error::InvalidFile && (s@.len() == 0 || !('a' <= s@[0] <= 'h')),
            },
    {
        if s.unicode_len() < 1 {
            return Err(Error::InvalidFile);
        }
        let c = s.get_char(0);
        if c == 'a' {
            Ok(File::A)
        } else if c == 'b' {
            Ok(File::B)
        } else if c == 'c' {
            Ok(File::C)
        } else if c == 'd' {
            Ok(File::D)
        } else if c == 'e' {
            Ok(File::E)
        } else if c == 'f' {
            Ok(File::F)
        } else if c == 'g' {
            Ok(File::G)
        } else if c == 'h' {
            Ok(File::H)
        } else {
            Err(Error::InvalidFile)
        }
    }
}

impl core::str::FromStr for File {
    type Err = Error;

    /// Reads a file from the first character of `s`, as [`File::parse`]
    /// does.
    fn from_str(s: &str) -> (res: Result<Self, Self::Err>)
        ensures
            match res {
                Ok(file) => s@.len() > 0 && s@[0] == file.letter(),
                Err(e) => e == Error::InvalidFile && (s@.len() == 0 || !('a' <= s@[0] <= 'h')),
            },
    {
        File::parse(s)
    }
}

} // verus!
