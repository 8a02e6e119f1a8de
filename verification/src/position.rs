//! A board square: an integer in `[0, 64)`, laid out rank-major, so that
//! index = rank * 8 + file and bit 0 is the square A1.

use vstd::prelude::*;

use crate::file::File;
use crate::rank::Rank;

verus! {

/// One of the 64 squares of the board. Always holds a value below 64.
#[derive(Clone, Copy, Debug, PartialEq, Eq, Structural)]
pub struct Position {
    p: u8,
}

impl View for Position {
    type V = u64;

    closed spec fn view(&self) -> u64 {
        self.p as u64
    }
}

impl Position {
    #[verifier::type_invariant]
    spec fn inv(self) -> bool {
        self.p < 64
    }

    pub fn new(p: u8) -> (r: Self)
        requires
            p < 64,
        ensures
            r@ == p as u64,
    {
        Position { p }
    }

    pub fn from_file_rank(f: File, r: Rank) -> (pos: Self)
        ensures
            pos@ == r@ * 8 + f@,
    {
        Position::new(f.get() + 8 * r.get())
    }

    pub fn get(&self) -> (r: u8)
        ensures
            r as u64 == self@,
            r < 64,
    {
        proof {
            use_type_invariant(self);
        }
        self.p
    }

    /// The rank this square lies on.
    pub fn rank(&self) -> (r: Rank)
        ensures
            r@ == self@ / 8,
    {
        proof {
            use_type_invariant(self);
        }
        Rank::new(self.p / 8)
    }

    /// The file this square lies on.
    pub fn file(&self) -> (f: File)
        ensures
            f@ == self@ % 8,
    {
        proof {
            use_type_invariant(self);
        }
        File::new(self.p % 8)
    }
}

} // verus!
