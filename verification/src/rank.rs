//! A board rank (row): an integer in `[0, 8)`, `0` = rank 1 (south edge)
//! through `7` = rank 8 (north edge).

use vstd::prelude::*;

verus! {

/// A board rank. Always holds a value below eight.
#[derive(Clone, Copy, Debug, PartialEq, Eq, Structural)]
pub struct Rank {
    r: u8,
}

impl View for Rank {
    type V = u64;

    closed spec fn view(&self) -> u64 {
        self.r as u64
    }
}

impl Rank {
    #[verifier::type_invariant]
    spec fn inv(self) -> bool {
        self.r < 8
    }

    pub fn new(r: u8) -> (res: Self)
        requires
            r < 8,
        ensures
            res@ == r as u64,
    {
        Rank { r }
    }

    pub fn get(&self) -> (r: u8)
        ensures
            r as u64 == self@,
            r < 8,
    {
        proof {
            use_type_invariant(self);
        }
        self.r
    }

    /// The rank's conventional one-based number, `1` through `8`.
    pub fn number(&self) -> (n: u8)
        ensures
            n as u64 == self@ + 1,
    {
        proof {
            use_type_invariant(self);
        }
        self.r + 1
    }
}

} // verus!
