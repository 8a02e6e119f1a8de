//! A board file (column): an integer in `[0, 8)`, `0` = file A (west edge)
//! through `7` = file H (east edge).

use vstd::prelude::*;

verus! {

/// The conventional letter of file `f`, `'A'` through `'H'`.
pub open spec fn file_letter(f: u64) -> char
    recommends
        f < 8,
{
    if f == 0 {
        'A'
    } else if f == 1 {
        'B'
    } else if f == 2 {
        'C'
    } else if f == 3 {
        'D'
    } else if f == 4 {
        'E'
    } else if f == 5 {
        'F'
    } else if f == 6 {
        'G'
    } else {
        'H'
    }
}

/// A board file. Always holds a value below eight.
#[derive(Clone, Copy, Debug, PartialEq, Eq, Structural)]
pub struct File {
    f: u8,
}

impl View for File {
    type V = u64;

    closed spec fn view(&self) -> u64 {
        self.f as u64
    }
}

impl File {
    #[verifier::type_invariant]
    spec fn inv(self) -> bool {
        self.f < 8
    }

    pub fn new(f: u8) -> (r: Self)
        requires
            f < 8,
        ensures
            r@ == f as u64,
    {
        File { f }
    }

    pub fn get(&self) -> (r: u8)
        ensures
            r as u64 == self@,
            r < 8,
    {
        proof {
            use_type_invariant(self);
        }
        self.f
    }

    /// The file's conventional letter, `'A'` through `'H'`.
    pub fn letter(&self) -> (c: char)
        ensures
            c == file_letter(self@),
    {
        proof {
            use_type_invariant(self);
        }
        match self.f {
            0 => 'A',
            1 => 'B',
            2 => 'C',
            3 => 'D',
            4 => 'E',
            5 => 'F',
            6 => 'G',
            _ => 'H',
        }
    }
}

} // verus!
