//! The mathematical model of the 64-bit board: square membership, the eight
//! directional single-step shifts with their wraparound masks, multi-file
//! masks, and occluded fill as iterated single-step propagation.

use vstd::prelude::*;

verus! {

/// Every square of file A (the westernmost file), one bit per rank.
pub const FILE_A: u64 = 0x0101010101010101;

/// Every square of file H (the easternmost file), one bit per rank.
pub const FILE_H: u64 = 0x8080808080808080;

/// Every square of the board.
pub const FULL_BOARD: u64 = 0xFFFFFFFFFFFFFFFF;

/// The eight board directions. North is towards higher ranks, east towards
/// higher files; bit index = rank * 8 + file.
#[derive(Clone, Copy, Debug, PartialEq, Eq, Structural)]
pub enum Dir {
    N,
    S,
    E,
    W,
    Ne,
    Nw,
    Se,
    Sw,
}

/// Square `s` (in `[0, 64)`) is a member of the word `w`.
pub open spec fn has_sq(w: u64, s: u64) -> bool
    recommends
        s < 64,
{
    w & (1u64 << s) != 0u64
}

/// One single-step shift of a whole board in direction `d`. Steps with an
/// east or west component mask away the file that a wrapped bit would enter,
/// so pieces fall off the board edge instead of reappearing on the far file.
pub open spec fn sh(w: u64, d: Dir) -> u64 {
    match d {
        Dir::N => w << 8u64,
        Dir::S => w >> 8u64,
        Dir::E => (w << 1u64) & !FILE_A,
        Dir::W => (w >> 1u64) & !FILE_H,
        Dir::Ne => (w << 9u64) & !FILE_A,
        Dir::Nw => (w << 7u64) & !FILE_H,
        Dir::Se => (w >> 7u64) & !FILE_A,
        Dir::Sw => (w >> 9u64) & !FILE_H,
    }
}

/// `w` shifted `k` single steps in direction `d`.
pub open spec fn sh_iter(w: u64, d: Dir, k: nat) -> u64
    decreases k,
{
    if k == 0 {
        w
    } else {
        sh(sh_iter(w, d, (k - 1) as nat), d)
    }
}

/// `k` rounds of single-step occluded propagation of `src` in direction `d`:
/// each round adds, for every reached square, its neighbour one step away in
/// `d` provided that neighbour lies in `empty`.
pub open spec fn fill_rec(src: u64, empty: u64, d: Dir, k: nat) -> u64
    decreases k,
{
    if k == 0 {
        src
    } else {
        let g = fill_rec(src, empty, d, (k - 1) as nat);
        g | (empty & sh(g, d))
    }
}

/// The occluded fill of `src` through `empty` in direction `d`: every square
/// reachable from `src` by repeated single steps through squares of `empty`.
/// Seven rounds saturate, since no path on an 8x8 board takes more steps.
pub open spec fn fill(src: u64, empty: u64, d: Dir) -> u64 {
    fill_rec(src, empty, d, 7)
}

/// The mask of the `n` easternmost files (those nearest file H).
pub open spec fn east_files(n: nat) -> u64
    recommends
        n <= 8,
    decreases n,
{
    if n == 0 {
        0u64
    } else {
        east_files((n - 1) as nat) | (FILE_A << ((8 - n) as u64))
    }
}

/// The mask of the `n` westernmost files (those nearest file A).
pub open spec fn west_files(n: nat) -> u64
    recommends
        n <= 8,
    decreases n,
{
    if n == 0 {
        0u64
    } else {
        west_files((n - 1) as nat) | (FILE_A << ((n - 1) as u64))
    }
}

/// A multi-step northward shift of `amount` ranks; shifting by eight or more
/// ranks pushes every square off the board.
pub open spec fn sh_n_by(w: u64, amount: u8) -> u64 {
    if amount >= 8 {
        0u64
    } else {
        w << ((8 * amount) as u64)
    }
}

/// A multi-step southward shift of `amount` ranks; shifting by eight or more
/// ranks pushes every square off the board.
pub open spec fn sh_s_by(w: u64, amount: u8) -> u64 {
    if amount >= 8 {
        0u64
    } else {
        w >> ((8 * amount) as u64)
    }
}

/// Whether a single step in direction `d` can land on square `q` from
/// inside the board: true iff `q` has an origin square one step away
/// against `d`.
pub open spec fn step_ok(q: u64, d: Dir) -> bool
    recommends
        q < 64,
{
    match d {
        Dir::N => q >= 8,
        Dir::S => q + 8 < 64,
        Dir::E => q % 8 != 0,
        Dir::W => q % 8 != 7,
        Dir::Ne => q >= 9 && q % 8 != 0,
        Dir::Nw => q >= 7 && q % 8 != 7,
        Dir::Se => q + 7 < 64 && q % 8 != 0,
        Dir::Sw => q + 9 < 64 && q % 8 != 7,
    }
}

/// The square from which a single step in direction `d` lands on `q`.
pub open spec fn step_origin(q: u64, d: Dir) -> u64
    recommends
        q < 64,
        step_ok(q, d),
{
    match d {
        Dir::N => (q - 8) as u64,
        Dir::S => (q + 8) as u64,
        Dir::E => (q - 1) as u64,
        Dir::W => (q + 1) as u64,
        Dir::Ne => (q - 9) as u64,
        Dir::Nw => (q - 7) as u64,
        Dir::Se => (q + 7) as u64,
        Dir::Sw => (q + 9) as u64,
    }
}

/// Square `q` is reachable from a square of `src` by at most `k` single
/// steps in direction `d`, every step landing on a square of `empty`.
pub open spec fn reach(src: u64, empty: u64, d: Dir, q: u64, k: nat) -> bool
    recommends
        q < 64,
    decreases k,
{
    if k == 0 {
        has_sq(src, q)
    } else {
        reach(src, empty, d, q, (k - 1) as nat) || (has_sq(empty, q) && step_ok(q, d) && reach(
            src,
            empty,
            d,
            step_origin(q, d),
            (k - 1) as nat,
        ))
    }
}

/// Character `i` of the textual rendering of `w`: eight lines, rank 8 first,
/// each line eight cells (`1` for a member square, `.` otherwise), every cell
/// followed by a space, every line closed by a newline.
pub open spec fn grid_char(w: u64, i: int) -> char
    recommends
        0 <= i < 136,
{
    let row = i / 17;
    let off = i % 17;
    if off == 16 {
        '\n'
    } else if off % 2 == 1 {
        ' '
    } else if has_sq(w, (((7 - row) * 8) + off / 2) as u64) {
        '1'
    } else {
        '.'
    }
}

} // verus!
