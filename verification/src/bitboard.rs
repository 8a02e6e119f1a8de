//! The 64-bit square set: bitwise algebra, the eight directional shifts with
//! wraparound masking, occluded fill (Kogge-Stone), sliding-attack
//! generation, iteration over member squares and textual rendering.

use vstd::prelude::*;

use crate::bits::{
    east_files, fill, fill_rec, grid_char, has_sq, sh, sh_n_by, sh_s_by, west_files, Dir, FILE_A,
    FILE_H,
};
use crate::file::File;
use crate::position::Position;
use crate::rank::Rank;
use vstd::string::StringExecFns;

verus! {

/// A set of board squares, one bit per square: bit i set means square i is a
/// member. A pure value type; every operation returns a new value.
#[derive(Clone, Copy, Debug, PartialEq, Eq, Structural)]
pub struct BitBoard {
    bits: u64,
}

impl View for BitBoard {
    type V = u64;

    closed spec fn view(&self) -> u64 {
        self.bits
    }
}

impl BitBoard {
    /// Wraps a raw 64-bit pattern; no validation is needed, every pattern is
    /// a set.
    pub fn new(bb: u64) -> (r: Self)
        ensures
            r@ == bb,
    {
        BitBoard { bits: bb }
    }

    /// True iff no square is a member.
    pub fn empty(&self) -> (r: bool)
        ensures
            r == (self@ == 0u64),
    {
        self.bits == 0
    }

    /// True iff square `p` is a member.
    pub fn is_piece_at(&self, p: Position) -> (r: bool)
        ensures
            r == has_sq(self@, p@),
    {
        !self.and(Self::from_position(p)).empty()
    }

    /// The single-square set holding exactly `p`.
    pub fn from_position(p: Position) -> (r: Self)
        ensures
            r@ == (1u64 << p@),
    {
        BitBoard { bits: 1u64 << (p.get() as u64) }
    }

    /// The full-rank mask: every square of rank `r`.
    pub fn from_rank(r: Rank) -> (res: Self)
        ensures
            res@ == (0xFFu64 << ((8 * r@) as u64)),
    {
        BitBoard { bits: 0xFFu64 << ((8 * r.get()) as u64) }
    }

    /// The full-file mask: every square of file `f`.
    pub fn from_file(f: File) -> (r: Self)
        ensures
            r@ == (FILE_A << (f@ as u64)),
    {
        BitBoard { bits: FILE_A << (f.get() as u64) }
    }

    /// The mask of the `num_files` easternmost files.
    pub fn from_east_files(num_files: u8) -> (r: Self)
        requires
            num_files <= 8,
        ensures
            r@ == east_files(num_files as nat),
    {
        let mut files: u64 = 0;
        let mut i: u8 = 0;
        while i < num_files
            invariant
                i <= num_files,
                num_files <= 8,
                files == east_files(i as nat),
            decreases num_files - i,
        {
            files = files | (FILE_A << ((7 - i) as u64));
            i = i + 1;
        }
        BitBoard { bits: files }
    }

    /// The mask of the `num_files` westernmost files.
    pub fn from_west_files(num_files: u8) -> (r: Self)
        requires
            num_files <= 8,
        ensures
            r@ == west_files(num_files as nat),
    {
        let mut files: u64 = 0;
        let mut i: u8 = 0;
        while i < num_files
            invariant
                i <= num_files,
                num_files <= 8,
                files == west_files(i as nat),
            decreases num_files - i,
        {
            files = files | (FILE_A << (i as u64));
            i = i + 1;
        }
        BitBoard { bits: files }
    }

    /// Set intersection.
    pub fn and(self, other: Self) -> (r: Self)
        ensures
            r@ == self@ & other@,
    {
        BitBoard { bits: self.bits & other.bits }
    }

    /// Set union.
    pub fn or(self, other: Self) -> (r: Self)
        ensures
            r@ == self@ | other@,
    {
        BitBoard { bits: self.bits | other.bits }
    }

    /// Symmetric difference.
    pub fn xor(self, other: Self) -> (r: Self)
        ensures
            r@ == self@ ^ other@,
    {
        BitBoard { bits: self.bits ^ other.bits }
    }

    /// Complement.
    pub fn not(self) -> (r: Self)
        ensures
            r@ == !self@,
    {
        BitBoard { bits: !self.bits }
    }

    /// Logical shift left of the raw word by `amount` bits.
    pub fn shl(self, amount: u8) -> (r: Self)
        requires
            amount < 64,
        ensures
            r@ == (self@ << (amount as u64)),
    {
        BitBoard { bits: self.bits << (amount as u64) }
    }

    /// Logical shift right of the raw word by `amount` bits.
    pub fn shr(self, amount: u8) -> (r: Self)
        requires
            amount < 64,
        ensures
            r@ == (self@ >> (amount as u64)),
    {
        BitBoard { bits: self.bits >> (amount as u64) }
    }

    /// Intersection, mutating the owning binding.
    pub fn and_assign(&mut self, other: Self)
        ensures
            final(self)@ == old(self)@ & other@,
    {
        self.bits = self.bits & other.bits;
    }

    /// Union, mutating the owning binding.
    pub fn or_assign(&mut self, other: Self)
        ensures
            final(self)@ == old(self)@ | other@,
    {
        self.bits = self.bits | other.bits;
    }

    /// Symmetric difference, mutating the owning binding.
    pub fn xor_assign(&mut self, other: Self)
        ensures
            final(self)@ == old(self)@ ^ other@,
    {
        self.bits = self.bits ^ other.bits;
    }

    /// Left shift, mutating the owning binding.
    pub fn shl_assign(&mut self, amount: u8)
        requires
            amount < 64,
        ensures
            final(self)@ == (old(self)@ << (amount as u64)),
    {
        self.bits = self.bits << (amount as u64);
    }

    /// Right shift, mutating the owning binding.
    pub fn shr_assign(&mut self, amount: u8)
        requires
            amount < 64,
        ensures
            final(self)@ == (old(self)@ >> (amount as u64)),
    {
        self.bits = self.bits >> (amount as u64);
    }

    /// One step north: every member square moves one rank up; rank 8 falls
    /// off the board.
    pub fn shift_n(&self) -> (r: Self)
        ensures
            r@ == sh(self@, Dir::N),
            forall|s: u64|
                s < 64 ==> (has_sq(r@, s) <==> s >= 8 && has_sq(self@, (s - 8) as u64)),
    {
        proof {
            lemma_sh_n_sem(self.bits);
        }
        BitBoard { bits: self.bits << 8u64 }
    }

    /// One step south: every member square moves one rank down; rank 1 falls
    /// off the board.
    pub fn shift_s(&self) -> (r: Self)
        ensures
            r@ == sh(self@, Dir::S),
            forall|s: u64|
                s < 64 ==> (has_sq(r@, s) <==> s + 8 < 64 && has_sq(self@, (s + 8) as u64)),
    {
        proof {
            lemma_sh_s_sem(self.bits);
        }
        BitBoard { bits: self.bits >> 8u64 }
    }

    /// One step east: every member square moves one file towards H; file H
    /// falls off the board, and nothing wraps into file A.
    pub fn shift_e(&self) -> (r: Self)
        ensures
            r@ == sh(self@, Dir::E),
            forall|s: u64|
                s < 64 ==> (has_sq(r@, s) <==> s % 8 != 0 && has_sq(self@, (s - 1) as u64)),
    {
        proof {
            lemma_sh_e_sem(self.bits);
        }
        BitBoard { bits: (self.bits << 1u64) & !FILE_A }
    }

    /// One step west: every member square moves one file towards A; file A
    /// falls off the board, and nothing wraps into file H.
    pub fn shift_w(&self) -> (r: Self)
        ensures
            r@ == sh(self@, Dir::W),
            forall|s: u64|
                s < 64 ==> (has_sq(r@, s) <==> s % 8 != 7 && has_sq(self@, (s + 1) as u64)),
    {
        proof {
            lemma_sh_w_sem(self.bits);
        }
        BitBoard { bits: (self.bits >> 1u64) & !FILE_H }
    }

    /// One step north-east.
    pub fn shift_ne(&self) -> (r: Self)
        ensures
            r@ == sh(self@, Dir::Ne),
            forall|s: u64|
                s < 64 ==> (has_sq(r@, s) <==> s >= 9 && s % 8 != 0 && has_sq(
                    self@,
                    (s - 9) as u64,
                )),
    {
        proof {
            lemma_sh_ne_sem(self.bits);
        }
        BitBoard { bits: (self.bits << 9u64) & !FILE_A }
    }

    /// One step north-west.
    pub fn shift_nw(&self) -> (r: Self)
        ensures
            r@ == sh(self@, Dir::Nw),
            forall|s: u64|
                s < 64 ==> (has_sq(r@, s) <==> s >= 7 && s % 8 != 7 && has_sq(
                    self@,
                    (s - 7) as u64,
                )),
    {
        proof {
            lemma_sh_nw_sem(self.bits);
        }
        BitBoard { bits: (self.bits << 7u64) & !FILE_H }
    }

    /// One step south-east.
    pub fn shift_se(&self) -> (r: Self)
        ensures
            r@ == sh(self@, Dir::Se),
            forall|s: u64|
                s < 64 ==> (has_sq(r@, s) <==> s + 7 < 64 && s % 8 != 0 && has_sq(
                    self@,
                    (s + 7) as u64,
                )),
    {
        proof {
            lemma_sh_se_sem(self.bits);
        }
        BitBoard { bits: (self.bits >> 7u64) & !FILE_A }
    }

    /// One step south-west.
    pub fn shift_sw(&self) -> (r: Self)
        ensures
            r@ == sh(self@, Dir::Sw),
            forall|s: u64|
                s < 64 ==> (has_sq(r@, s) <==> s + 9 < 64 && s % 8 != 7 && has_sq(
                    self@,
                    (s + 9) as u64,
                )),
    {
        proof {
            lemma_sh_sw_sem(self.bits);
        }
        BitBoard { bits: (self.bits >> 9u64) & !FILE_H }
    }

    /// `amount` steps north; eight or more push every square off the board.
    pub fn shift_n_by(&self, amount: u8) -> (r: Self)
        ensures
            r@ == sh_n_by(self@, amount),
    {
        if amount >= 8 {
            BitBoard { bits: 0 }
        } else {
            BitBoard { bits: self.bits << ((8 * amount) as u64) }
        }
    }

    /// `amount` steps south; eight or more push every square off the board.
    pub fn shift_s_by(&self, amount: u8) -> (r: Self)
        ensures
            r@ == sh_s_by(self@, amount),
    {
        if amount >= 8 {
            BitBoard { bits: 0 }
        } else {
            BitBoard { bits: self.bits >> ((8 * amount) as u64) }
        }
    }

    /// `amount` steps east: the raw word moves `amount` bits left, and the
    /// `amount` westernmost files — which only wraparound from the rank
    /// below could populate — are cleared afterwards, generalizing the
    /// single-step rule that clears file A.
    pub fn shift_e_by(&self, amount: u8) -> (r: Self)
        requires
            amount <= 8,
        ensures
            r@ == (self@ << (amount as u64)) & !west_files(amount as nat),
    {
        let mask = Self::from_west_files(amount);
        BitBoard { bits: (self.bits << (amount as u64)) & !mask.bits }
    }

    /// `amount` steps west: the raw word moves `amount` bits right, and the
    /// `amount` easternmost files — which only wraparound from the rank
    /// above could populate — are cleared afterwards, generalizing the
    /// single-step rule that clears file H.
    pub fn shift_w_by(&self, amount: u8) -> (r: Self)
        requires
            amount <= 8,
        ensures
            r@ == (self@ >> (amount as u64)) & !east_files(amount as nat),
    {
        let mask = Self::from_east_files(amount);
        BitBoard { bits: (self.bits >> (amount as u64)) & !mask.bits }
    }

    /// Mirrors the board across its horizontal midline: rank 1 trades places
    /// with rank 8, rank 2 with rank 7, and so on; files are unchanged.
    pub fn flip_vertical(&self) -> (r: Self)
        ensures
            forall|s: u64|
                s < 64 ==> (has_sq(r@, s) <==> has_sq(self@, ((s % 8) + 8 * (7 - s / 8)) as u64)),
    {
        let w = self.bits;
        let r = (w << 56u64) | ((w << 40u64) & 0x00FF_0000_0000_0000u64) | ((w << 24u64)
            & 0x0000_FF00_0000_0000u64) | ((w << 8u64) & 0x0000_00FF_0000_0000u64) | ((w >> 8u64)
            & 0x0000_0000_FF00_0000u64) | ((w >> 24u64) & 0x0000_0000_00FF_0000u64) | ((w >> 40u64)
            & 0x0000_0000_0000_FF00u64) | (w >> 56u64);
        proof {
            lemma_flip_vertical_sem(w, r);
        }
        BitBoard { bits: r }
    }
    /// The northward occluded fill: every square reachable from a member
    /// square by repeated single steps north through squares of `empty`,
    /// the member squares themselves included. Computed by Kogge-Stone
    /// doubling: three rounds of step sizes 1, 2 and 4 ranks.
    pub fn fill_n_occluded(self, empty: Self) -> (r: Self)
        ensures
            r@ == fill(self@, empty@, Dir::N),
    {
        let s = self.bits;
        let e = empty.bits;
        let g1 = s | (e & (s << 8u64));
        let e1 = e & (e << 8u64);
        let g2 = g1 | (e1 & (g1 << 16u64));
        let e2 = e1 & (e1 << 16u64);
        let g3 = g2 | (e2 & (g2 << 32u64));
        proof {
            lemma_fill_n_kogge(s, e, g1, e1, g2, e2, g3);
        }
        BitBoard { bits: g3 }
    }

    /// The southward occluded fill; see [`Self::fill_n_occluded`].
    pub fn fill_s_occluded(self, empty: Self) -> (r: Self)
        ensures
            r@ == fill(self@, empty@, Dir::S),
    {
        let s = self.bits;
        let e = empty.bits;
        let g1 = s | (e & (s >> 8u64));
        let e1 = e & (e >> 8u64);
        let g2 = g1 | (e1 & (g1 >> 16u64));
        let e2 = e1 & (e1 >> 16u64);
        let g3 = g2 | (e2 & (g2 >> 32u64));
        proof {
            lemma_fill_s_kogge(s, e, g1, e1, g2, e2, g3);
        }
        BitBoard { bits: g3 }
    }

    /// The eastward occluded fill; the empty mask is first cleared of file A,
    /// where a wrapped bit would enter. See [`Self::fill_n_occluded`].
    pub fn fill_e_occluded(self, empty: Self) -> (r: Self)
        ensures
            r@ == fill(self@, empty@, Dir::E),
    {
        let s = self.bits;
        let e0 = empty.bits & !FILE_A;
        let g1 = s | (e0 & (s << 1u64));
        let e1 = e0 & (e0 << 1u64);
        let g2 = g1 | (e1 & (g1 << 2u64));
        let e2 = e1 & (e1 << 2u64);
        let g3 = g2 | (e2 & (g2 << 4u64));
        proof {
            lemma_fill_e_kogge(s, empty.bits, e0, g1, e1, g2, e2, g3);
        }
        BitBoard { bits: g3 }
    }

    /// The westward occluded fill; the empty mask is first cleared of file H.
    /// See [`Self::fill_n_occluded`].
    pub fn fill_w_occluded(self, empty: Self) -> (r: Self)
        ensures
            r@ == fill(self@, empty@, Dir::W),
    {
        let s = self.bits;
        let e0 = empty.bits & !FILE_H;
        let g1 = s | (e0 & (s >> 1u64));
        let e1 = e0 & (e0 >> 1u64);
        let g2 = g1 | (e1 & (g1 >> 2u64));
        let e2 = e1 & (e1 >> 2u64);
        let g3 = g2 | (e2 & (g2 >> 4u64));
        proof {
            lemma_fill_w_kogge(s, empty.bits, e0, g1, e1, g2, e2, g3);
        }
        BitBoard { bits: g3 }
    }

    /// The north-eastward occluded fill; the empty mask is first cleared of
    /// file A. See [`Self::fill_n_occluded`].
    pub fn fill_ne_occluded(self, empty: Self) -> (r: Self)
        ensures
            r@ == fill(self@, empty@, Dir::Ne),
    {
        let s = self.bits;
        let e0 = empty.bits & !FILE_A;
        let g1 = s | (e0 & (s << 9u64));
        let e1 = e0 & (e0 << 9u64);
        let g2 = g1 | (e1 & (g1 << 18u64));
        let e2 = e1 & (e1 << 18u64);
        let g3 = g2 | (e2 & (g2 << 36u64));
        proof {
            lemma_fill_ne_kogge(s, empty.bits, e0, g1, e1, g2, e2, g3);
        }
        BitBoard { bits: g3 }
    }

    /// The north-westward occluded fill; the empty mask is first cleared of
    /// file H. See [`Self::fill_n_occluded`].
    pub fn fill_nw_occluded(self, empty: Self) -> (r: Self)
        ensures
            r@ == fill(self@, empty@, Dir::Nw),
    {
        let s = self.bits;
        let e0 = empty.bits & !FILE_H;
        let g1 = s | (e0 & (s << 7u64));
        let e1 = e0 & (e0 << 7u64);
        let g2 = g1 | (e1 & (g1 << 14u64));
        let e2 = e1 & (e1 << 14u64);
        let g3 = g2 | (e2 & (g2 << 28u64));
        proof {
            lemma_fill_nw_kogge(s, empty.bits, e0, g1, e1, g2, e2, g3);
        }
        BitBoard { bits: g3 }
    }

    /// The south-eastward occluded fill; the empty mask is first cleared of
    /// file A. See [`Self::fill_n_occluded`].
    pub fn fill_se_occluded(self, empty: Self) -> (r: Self)
        ensures
            r@ == fill(self@, empty@, Dir::Se),
    {
        let s = self.bits;
        let e0 = empty.bits & !FILE_A;
        let g1 = s | (e0 & (s >> 7u64));
        let e1 = e0 & (e0 >> 7u64);
        let g2 = g1 | (e1 & (g1 >> 14u64));
        let e2 = e1 & (e1 >> 14u64);
        let g3 = g2 | (e2 & (g2 >> 28u64));
        proof {
            lemma_fill_se_kogge(s, empty.bits, e0, g1, e1, g2, e2, g3);
        }
        BitBoard { bits: g3 }
    }

    /// The south-westward occluded fill; the empty mask is first cleared of
    /// file H. See [`Self::fill_n_occluded`].
    pub fn fill_sw_occluded(self, empty: Self) -> (r: Self)
        ensures
            r@ == fill(self@, empty@, Dir::Sw),
    {
        let s = self.bits;
        let e0 = empty.bits & !FILE_H;
        let g1 = s | (e0 & (s >> 9u64));
        let e1 = e0 & (e0 >> 9u64);
        let g2 = g1 | (e1 & (g1 >> 18u64));
        let e2 = e1 & (e1 >> 18u64);
        let g3 = g2 | (e2 & (g2 >> 36u64));
        proof {
            lemma_fill_sw_kogge(s, empty.bits, e0, g1, e1, g2, e2, g3);
        }
        BitBoard { bits: g3 }
    }

    /// Sliding attack north: the occluded fill advanced one more step, so the
    /// result lands on (and includes) the first blocking square, if any.
    pub fn attack_n_occluded(&self, empty: Self) -> (r: Self)
        ensures
            r@ == sh(fill(self@, empty@, Dir::N), Dir::N),
    {
        self.fill_n_occluded(empty).shift_n()
    }

    /// Sliding attack south; see [`Self::attack_n_occluded`].
    pub fn attack_s_occluded(&self, empty: Self) -> (r: Self)
        ensures
            r@ == sh(fill(self@, empty@, Dir::S), Dir::S),
    {
        self.fill_s_occluded(empty).shift_s()
    }

    /// Sliding attack east; see [`Self::attack_n_occluded`].
    pub fn attack_e_occluded(&self, empty: Self) -> (r: Self)
        ensures
            r@ == sh(fill(self@, empty@, Dir::E), Dir::E),
    {
        self.fill_e_occluded(empty).shift_e()
    }

    /// Sliding attack west; see [`Self::attack_n_occluded`].
    pub fn attack_w_occluded(&self, empty: Self) -> (r: Self)
        ensures
            r@ == sh(fill(self@, empty@, Dir::W), Dir::W),
    {
        self.fill_w_occluded(empty).shift_w()
    }

    /// Sliding attack north-east; see [`Self::attack_n_occluded`].
    pub fn attack_ne_occluded(&self, empty: Self) -> (r: Self)
        ensures
            r@ == sh(fill(self@, empty@, Dir::Ne), Dir::Ne),
    {
        self.fill_ne_occluded(empty).shift_ne()
    }

    /// Sliding attack north-west; see [`Self::attack_n_occluded`].
    pub fn attack_nw_occluded(&self, empty: Self) -> (r: Self)
        ensures
            r@ == sh(fill(self@, empty@, Dir::Nw), Dir::Nw),
    {
        self.fill_nw_occluded(empty).shift_nw()
    }

    /// Sliding attack south-east; see [`Self::attack_n_occluded`].
    pub fn attack_se_occluded(&self, empty: Self) -> (r: Self)
        ensures
            r@ == sh(fill(self@, empty@, Dir::Se), Dir::Se),
    {
        self.fill_se_occluded(empty).shift_se()
    }

    /// Sliding attack south-west; see [`Self::attack_n_occluded`].
    pub fn attack_sw_occluded(&self, empty: Self) -> (r: Self)
        ensures
            r@ == sh(fill(self@, empty@, Dir::Sw), Dir::Sw),
    {
        self.fill_sw_occluded(empty).shift_sw()
    }

    /// A fresh iterator over this set's member squares, in increasing index
    /// order. The iterator works on its own copy; the set is unchanged.
    pub fn iter(&self) -> (r: BitBoardIterator)
        ensures
            r@ == self@,
    {
        BitBoardIterator::new(self)
    }

    /// Renders the set as an 8x8 text grid: one line per rank, rank 8 first,
    /// files A through H left to right, `1` for a member square and `.`
    /// otherwise, each cell followed by a space, each line by a newline.
    pub fn render(&self) -> (r: String)
        ensures
            r@.len() == 136,
            forall|i: int| 0 <= i < 136 ==> r@[i] == grid_char(self@, i),
    {
        let mut out = String::new();
        let mut row: u8 = 0;
        while row < 8
            invariant
                row <= 8,
                out@.len() == row * 17,
                forall|i: int| 0 <= i < out@.len() ==> out@[i] == grid_char(self@, i),
            decreases 8 - row,
        {
            let mut col: u8 = 0;
            while col < 8
                invariant
                    row < 8,
                    col <= 8,
                    out@.len() == row * 17 + 2 * col,
                    forall|i: int| 0 <= i < out@.len() ==> out@[i] == grid_char(self@, i),
                decreases 8 - col,
            {
                let ghost prev = out@;
                let ghost base = out@.len() as int;
                let pos = Position::from_file_rank(File::new(col), Rank::new(7 - row));
                if self.is_piece_at(pos) {
                    out.append("1 ");
                } else {
                    out.append(". ");
                }
                proof {
                    reveal_strlit("1 ");
                    reveal_strlit(". ");
                    assert(base / 17 == row as int && base % 17 == 2 * (col as int))
                        by (nonlinear_arith)
                        requires
                            base == row * 17 + 2 * col,
                            0 <= row < 8,
                            0 <= col < 8,
                    ;
                    assert(out@[base] == grid_char(self@, base));
                    assert(out@[base + 1] == grid_char(self@, base + 1));
                    assert forall|i: int| 0 <= i < out@.len() implies out@[i] == grid_char(
                        self@,
                        i,
                    ) by {
                        if i < base {
                            assert(out@[i] == prev[i]);
                        }
                    }
                }
                col = col + 1;
            }
            let ghost prev = out@;
            let ghost base = out@.len() as int;
            out.append("\n");
            proof {
                reveal_strlit("\n");
                assert(base / 17 == row as int && base % 17 == 16) by (nonlinear_arith)
                    requires
                        base == row * 17 + 16,
                        0 <= row < 8,
                ;
                assert(out@[base] == grid_char(self@, base));
                assert forall|i: int| 0 <= i < out@.len() implies out@[i] == grid_char(
                    self@,
                    i,
                ) by {
                    if i < base {
                        assert(out@[i] == prev[i]);
                    }
                }
            }
            row = row + 1;
        }
        out
    }
}

/// A forward, finite, non-restartable iterator over the member squares of a
/// [`BitBoard`], yielding them in strictly increasing index order. It
/// consumes a private copy of the word and never mutates the source set.
pub struct BitBoardIterator {
    bits: u64,
}

impl View for BitBoardIterator {
    type V = u64;

    closed spec fn view(&self) -> u64 {
        self.bits
    }
}

impl BitBoardIterator {
    pub fn new(bb: &BitBoard) -> (r: Self)
        ensures
            r@ == bb@,
    {
        BitBoardIterator { bits: bb.bits }
    }

    /// Yields the lowest remaining member square and removes it from the
    /// remaining set; `None` once the set is exhausted.
    pub fn next(&mut self) -> (r: Option<Position>)
        ensures
            (r is Some) == (old(self)@ != 0),
            r is None ==> final(self)@ == 0,
            r is Some ==> r->0@ < 64 && has_sq(old(self)@, r->0@),
            r is Some ==> forall|q: u64| q < r->0@ ==> !has_sq(old(self)@, q),
            r is Some ==> final(self)@ == (old(self)@ & !(1u64 << r->0@)),
    {
        if self.bits == 0 {
            None
        } else {
            let w = self.bits;
            let tz: u32 = w.trailing_zeros();
            proof {
                vstd::std_specs::bits::axiom_u64_trailing_zeros(w);
                let t = tz as u64;
                assert(w & (1u64 << t) != 0u64) by (bit_vector)
                    requires
                        t < 64 && (w >> t) & 1u64 == 1u64,
                ;
                assert forall|q: u64| q < t implies !has_sq(w, q) by {
                    assert((w >> q) & 1u64 == 0u64);
                    assert(w & (1u64 << q) == 0u64) by (bit_vector)
                        requires
                            q < 64 && (w >> q) & 1u64 == 0u64,
                    ;
                }
            }
            let p = tz as u8;
            self.bits = w & !(1u64 << (p as u64));
            Some(Position::new(p))
        }
    }
}

proof fn lemma_fill_s_kogge(s: u64, e: u64, g1: u64, e1: u64, g2: u64, e2: u64, g3: u64)
    requires
        g1 == s | (e & (s >> 8u64)),
        e1 == e & (e >> 8u64),
        g2 == g1 | (e1 & (g1 >> 16u64)),
        e2 == e1 & (e1 >> 16u64),
        g3 == g2 | (e2 & (g2 >> 32u64)),
    ensures
        g3 == fill(s, e, Dir::S),
{
    let t1: u64 = s | (e & sh(s, Dir::S));
    let t2: u64 = t1 | (e & sh(t1, Dir::S));
    let t3: u64 = t2 | (e & sh(t2, Dir::S));
    let t4: u64 = t3 | (e & sh(t3, Dir::S));
    let t5: u64 = t4 | (e & sh(t4, Dir::S));
    let t6: u64 = t5 | (e & sh(t5, Dir::S));
    let t7: u64 = t6 | (e & sh(t6, Dir::S));
    assert(fill(s, e, Dir::S) == t7) by {
        reveal_with_fuel(fill_rec, 8);
    }
    assert(g3 == t7) by (bit_vector)
        requires
            g1 == s | (e & (s >> 8u64)),
            e1 == e & (e >> 8u64),
            g2 == g1 | (e1 & (g1 >> 16u64)),
            e2 == e1 & (e1 >> 16u64),
            g3 == g2 | (e2 & (g2 >> 32u64)),
            t1 == s | (e & (s >> 8u64)),
            t2 == t1 | (e & (t1 >> 8u64)),
            t3 == t2 | (e & (t2 >> 8u64)),
            t4 == t3 | (e & (t3 >> 8u64)),
            t5 == t4 | (e & (t4 >> 8u64)),
            t6 == t5 | (e & (t5 >> 8u64)),
            t7 == t6 | (e & (t6 >> 8u64)),
    ;
}

proof fn lemma_fill_e_kogge(s: u64, e: u64, e0: u64, g1: u64, e1: u64, g2: u64, e2: u64, g3: u64)
    requires
        e0 == e & !FILE_A,
        g1 == s | (e0 & (s << 1u64)),
        e1 == e0 & (e0 << 1u64),
        g2 == g1 | (e1 & (g1 << 2u64)),
        e2 == e1 & (e1 << 2u64),
        g3 == g2 | (e2 & (g2 << 4u64)),
    ensures
        g3 == fill(s, e, Dir::E),
{
    let t1: u64 = s | (e & sh(s, Dir::E));
    let t2: u64 = t1 | (e & sh(t1, Dir::E));
    let t3: u64 = t2 | (e & sh(t2, Dir::E));
    let t4: u64 = t3 | (e & sh(t3, Dir::E));
    let t5: u64 = t4 | (e & sh(t4, Dir::E));
    let t6: u64 = t5 | (e & sh(t5, Dir::E));
    let t7: u64 = t6 | (e & sh(t6, Dir::E));
    assert(fill(s, e, Dir::E) == t7) by {
        reveal_with_fuel(fill_rec, 8);
    }
    assert(g3 == t7) by (bit_vector)
        requires
            e0 == e & !FILE_A,
            g1 == s | (e0 & (s << 1u64)),
            e1 == e0 & (e0 << 1u64),
            g2 == g1 | (e1 & (g1 << 2u64)),
            e2 == e1 & (e1 << 2u64),
            g3 == g2 | (e2 & (g2 << 4u64)),
            t1 == s | (e & ((s << 1u64) & !FILE_A)),
            t2 == t1 | (e & ((t1 << 1u64) & !FILE_A)),
            t3 == t2 | (e & ((t2 << 1u64) & !FILE_A)),
            t4 == t3 | (e & ((t3 << 1u64) & !FILE_A)),
            t5 == t4 | (e & ((t4 << 1u64) & !FILE_A)),
            t6 == t5 | (e & ((t5 << 1u64) & !FILE_A)),
            t7 == t6 | (e & ((t6 << 1u64) & !FILE_A)),
    ;
}

proof fn lemma_fill_w_kogge(s: u64, e: u64, e0: u64, g1: u64, e1: u64, g2: u64, e2: u64, g3: u64)
    requires
        e0 == e & !FILE_H,
        g1 == s | (e0 & (s >> 1u64)),
        e1 == e0 & (e0 >> 1u64),
        g2 == g1 | (e1 & (g1 >> 2u64)),
        e2 == e1 & (e1 >> 2u64),
        g3 == g2 | (e2 & (g2 >> 4u64)),
    ensures
        g3 == fill(s, e, Dir::W),
{
    let t1: u64 = s | (e & sh(s, Dir::W));
    let t2: u64 = t1 | (e & sh(t1, Dir::W));
    let t3: u64 = t2 | (e & sh(t2, Dir::W));
    let t4: u64 = t3 | (e & sh(t3, Dir::W));
    let t5: u64 = t4 | (e & sh(t4, Dir::W));
    let t6: u64 = t5 | (e & sh(t5, Dir::W));
    let t7: u64 = t6 | (e & sh(t6, Dir::W));
    assert(fill(s, e, Dir::W) == t7) by {
        reveal_with_fuel(fill_rec, 8);
    }
    assert(g3 == t7) by (bit_vector)
        requires
            e0 == e & !FILE_H,
            g1 == s | (e0 & (s >> 1u64)),
            e1 == e0 & (e0 >> 1u64),
            g2 == g1 | (e1 & (g1 >> 2u64)),
            e2 == e1 & (e1 >> 2u64),
            g3 == g2 | (e2 & (g2 >> 4u64)),
            t1 == s | (e & ((s >> 1u64) & !FILE_H)),
            t2 == t1 | (e & ((t1 >> 1u64) & !FILE_H)),
            t3 == t2 | (e & ((t2 >> 1u64) & !FILE_H)),
            t4 == t3 | (e & ((t3 >> 1u64) & !FILE_H)),
            t5 == t4 | (e & ((t4 >> 1u64) & !FILE_H)),
            t6 == t5 | (e & ((t5 >> 1u64) & !FILE_H)),
            t7 == t6 | (e & ((t6 >> 1u64) & !FILE_H)),
    ;
}

proof fn lemma_fill_ne_kogge(s: u64, e: u64, e0: u64, g1: u64, e1: u64, g2: u64, e2: u64, g3: u64)
    requires
        e0 == e & !FILE_A,
        g1 == s | (e0 & (s << 9u64)),
        e1 == e0 & (e0 << 9u64),
        g2 == g1 | (e1 & (g1 << 18u64)),
        e2 == e1 & (e1 << 18u64),
        g3 == g2 | (e2 & (g2 << 36u64)),
    ensures
        g3 == fill(s, e, Dir::Ne),
{
    let t1: u64 = s | (e & sh(s, Dir::Ne));
    let t2: u64 = t1 | (e & sh(t1, Dir::Ne));
    let t3: u64 = t2 | (e & sh(t2, Dir::Ne));
    let t4: u64 = t3 | (e & sh(t3, Dir::Ne));
    let t5: u64 = t4 | (e & sh(t4, Dir::Ne));
    let t6: u64 = t5 | (e & sh(t5, Dir::Ne));
    let t7: u64 = t6 | (e & sh(t6, Dir::Ne));
    assert(fill(s, e, Dir::Ne) == t7) by {
        reveal_with_fuel(fill_rec, 8);
    }
    assert(g3 == t7) by (bit_vector)
        requires
            e0 == e & !FILE_A,
            g1 == s | (e0 & (s << 9u64)),
            e1 == e0 & (e0 << 9u64),
            g2 == g1 | (e1 & (g1 << 18u64)),
            e2 == e1 & (e1 << 18u64),
            g3 == g2 | (e2 & (g2 << 36u64)),
            t1 == s | (e & ((s << 9u64) & !FILE_A)),
            t2 == t1 | (e & ((t1 << 9u64) & !FILE_A)),
            t3 == t2 | (e & ((t2 << 9u64) & !FILE_A)),
            t4 == t3 | (e & ((t3 << 9u64) & !FILE_A)),
            t5 == t4 | (e & ((t4 << 9u64) & !FILE_A)),
            t6 == t5 | (e & ((t5 << 9u64) & !FILE_A)),
            t7 == t6 | (e & ((t6 << 9u64) & !FILE_A)),
    ;
}

proof fn lemma_fill_nw_kogge(s: u64, e: u64, e0: u64, g1: u64, e1: u64, g2: u64, e2: u64, g3: u64)
    requires
        e0 == e & !FILE_H,
        g1 == s | (e0 & (s << 7u64)),
        e1 == e0 & (e0 << 7u64),
        g2 == g1 | (e1 & (g1 << 14u64)),
        e2 == e1 & (e1 << 14u64),
        g3 == g2 | (e2 & (g2 << 28u64)),
    ensures
        g3 == fill(s, e, Dir::Nw),
{
    let t1: u64 = s | (e & sh(s, Dir::Nw));
    let t2: u64 = t1 | (e & sh(t1, Dir::Nw));
    let t3: u64 = t2 | (e & sh(t2, Dir::Nw));
    let t4: u64 = t3 | (e & sh(t3, Dir::Nw));
    let t5: u64 = t4 | (e & sh(t4, Dir::Nw));
    let t6: u64 = t5 | (e & sh(t5, Dir::Nw));
    let t7: u64 = t6 | (e & sh(t6, Dir::Nw));
    assert(fill(s, e, Dir::Nw) == t7) by {
        reveal_with_fuel(fill_rec, 8);
    }
    assert(g3 == t7) by (bit_vector)
        requires
            e0 == e & !FILE_H,
            g1 == s | (e0 & (s << 7u64)),
            e1 == e0 & (e0 << 7u64),
            g2 == g1 | (e1 & (g1 << 14u64)),
            e2 == e1 & (e1 << 14u64),
            g3 == g2 | (e2 & (g2 << 28u64)),
            t1 == s | (e & ((s << 7u64) & !FILE_H)),
            t2 == t1 | (e & ((t1 << 7u64) & !FILE_H)),
            t3 == t2 | (e & ((t2 << 7u64) & !FILE_H)),
            t4 == t3 | (e & ((t3 << 7u64) & !FILE_H)),
            t5 == t4 | (e & ((t4 << 7u64) & !FILE_H)),
            t6 == t5 | (e & ((t5 << 7u64) & !FILE_H)),
            t7 == t6 | (e & ((t6 << 7u64) & !FILE_H)),
    ;
}

proof fn lemma_fill_se_kogge(s: u64, e: u64, e0: u64, g1: u64, e1: u64, g2: u64, e2: u64, g3: u64)
    requires
        e0 == e & !FILE_A,
        g1 == s | (e0 & (s >> 7u64)),
        e1 == e0 & (e0 >> 7u64),
        g2 == g1 | (e1 & (g1 >> 14u64)),
        e2 == e1 & (e1 >> 14u64),
        g3 == g2 | (e2 & (g2 >> 28u64)),
    ensures
        g3 == fill(s, e, Dir::Se),
{
    let t1: u64 = s | (e & sh(s, Dir::Se));
    let t2: u64 = t1 | (e & sh(t1, Dir::Se));
    let t3: u64 = t2 | (e & sh(t2, Dir::Se));
    let t4: u64 = t3 | (e & sh(t3, Dir::Se));
    let t5: u64 = t4 | (e & sh(t4, Dir::Se));
    let t6: u64 = t5 | (e & sh(t5, Dir::Se));
    let t7: u64 = t6 | (e & sh(t6, Dir::Se));
    assert(fill(s, e, Dir::Se) == t7) by {
        reveal_with_fuel(fill_rec, 8);
    }
    assert(g3 == t7) by (bit_vector)
        requires
            e0 == e & !FILE_A,
            g1 == s | (e0 & (s >> 7u64)),
            e1 == e0 & (e0 >> 7u64),
            g2 == g1 | (e1 & (g1 >> 14u64)),
            e2 == e1 & (e1 >> 14u64),
            g3 == g2 | (e2 & (g2 >> 28u64)),
            t1 == s | (e & ((s >> 7u64) & !FILE_A)),
            t2 == t1 | (e & ((t1 >> 7u64) & !FILE_A)),
            t3 == t2 | (e & ((t2 >> 7u64) & !FILE_A)),
            t4 == t3 | (e & ((t3 >> 7u64) & !FILE_A)),
            t5 == t4 | (e & ((t4 >> 7u64) & !FILE_A)),
            t6 == t5 | (e & ((t5 >> 7u64) & !FILE_A)),
            t7 == t6 | (e & ((t6 >> 7u64) & !FILE_A)),
    ;
}

proof fn lemma_fill_sw_kogge(s: u64, e: u64, e0: u64, g1: u64, e1: u64, g2: u64, e2: u64, g3: u64)
    requires
        e0 == e & !FILE_H,
        g1 == s | (e0 & (s >> 9u64)),
        e1 == e0 & (e0 >> 9u64),
        g2 == g1 | (e1 & (g1 >> 18u64)),
        e2 == e1 & (e1 >> 18u64),
        g3 == g2 | (e2 & (g2 >> 36u64)),
    ensures
        g3 == fill(s, e, Dir::Sw),
{
    let t1: u64 = s | (e & sh(s, Dir::Sw));
    let t2: u64 = t1 | (e & sh(t1, Dir::Sw));
    let t3: u64 = t2 | (e & sh(t2, Dir::Sw));
    let t4: u64 = t3 | (e & sh(t3, Dir::Sw));
    let t5: u64 = t4 | (e & sh(t4, Dir::Sw));
    let t6: u64 = t5 | (e & sh(t5, Dir::Sw));
    let t7: u64 = t6 | (e & sh(t6, Dir::Sw));
    assert(fill(s, e, Dir::Sw) == t7) by {
        reveal_with_fuel(fill_rec, 8);
    }
    assert(g3 == t7) by (bit_vector)
        requires
            e0 == e & !FILE_H,
            g1 == s | (e0 & (s >> 9u64)),
            e1 == e0 & (e0 >> 9u64),
            g2 == g1 | (e1 & (g1 >> 18u64)),
            e2 == e1 & (e1 >> 18u64),
            g3 == g2 | (e2 & (g2 >> 36u64)),
            t1 == s | (e & ((s >> 9u64) & !FILE_H)),
            t2 == t1 | (e & ((t1 >> 9u64) & !FILE_H)),
            t3 == t2 | (e & ((t2 >> 9u64) & !FILE_H)),
            t4 == t3 | (e & ((t3 >> 9u64) & !FILE_H)),
            t5 == t4 | (e & ((t4 >> 9u64) & !FILE_H)),
            t6 == t5 | (e & ((t5 >> 9u64) & !FILE_H)),
            t7 == t6 | (e & ((t6 >> 9u64) & !FILE_H)),
    ;
}

proof fn lemma_fill_n_kogge(s: u64, e: u64, g1: u64, e1: u64, g2: u64, e2: u64, g3: u64)
    requires
        g1 == s | (e & (s << 8u64)),
        e1 == e & (e << 8u64),
        g2 == g1 | (e1 & (g1 << 16u64)),
        e2 == e1 & (e1 << 16u64),
        g3 == g2 | (e2 & (g2 << 32u64)),
    ensures
        g3 == fill(s, e, Dir::N),
{
    let t1: u64 = s | (e & sh(s, Dir::N));
    let t2: u64 = t1 | (e & sh(t1, Dir::N));
    let t3: u64 = t2 | (e & sh(t2, Dir::N));
    let t4: u64 = t3 | (e & sh(t3, Dir::N));
    let t5: u64 = t4 | (e & sh(t4, Dir::N));
    let t6: u64 = t5 | (e & sh(t5, Dir::N));
    let t7: u64 = t6 | (e & sh(t6, Dir::N));
    assert(fill(s, e, Dir::N) == t7) by {
        reveal_with_fuel(fill_rec, 8);
    }
    assert(g3 == t7) by (bit_vector)
        requires
            g1 == s | (e & (s << 8u64)),
            e1 == e & (e << 8u64),
            g2 == g1 | (e1 & (g1 << 16u64)),
            e2 == e1 & (e1 << 16u64),
            g3 == g2 | (e2 & (g2 << 32u64)),
            t1 == s | (e & (s << 8u64)),
            t2 == t1 | (e & (t1 << 8u64)),
            t3 == t2 | (e & (t2 << 8u64)),
            t4 == t3 | (e & (t3 << 8u64)),
            t5 == t4 | (e & (t4 << 8u64)),
            t6 == t5 | (e & (t5 << 8u64)),
            t7 == t6 | (e & (t6 << 8u64)),
    ;
}

pub(crate) proof fn lemma_sh_n_sem(w: u64)
    ensures
        forall|s: u64|
            s < 64 ==> (has_sq(w << 8u64, s) <==> s >= 8 && has_sq(w, (s - 8) as u64)),
{
    assert forall|s: u64|
        s < 64 implies (has_sq(w << 8u64, s) <==> s >= 8 && has_sq(w, (s - 8) as u64)) by {
        assert((w << 8u64) & (1u64 << s) != 0u64 <==> s >= 8 && w & (1u64 << ((s - 8) as u64))
            != 0u64) by (bit_vector)
            requires
                s < 64,
        ;
    }
}

pub(crate) proof fn lemma_sh_s_sem(w: u64)
    ensures
        forall|s: u64|
            s < 64 ==> (has_sq(w >> 8u64, s) <==> s + 8 < 64 && has_sq(w, (s + 8) as u64)),
{
    assert forall|s: u64|
        s < 64 implies (has_sq(w >> 8u64, s) <==> s + 8 < 64 && has_sq(w, (s + 8) as u64)) by {
        assert((w >> 8u64) & (1u64 << s) != 0u64 <==> s + 8 < 64 && w & (1u64 << ((s + 8) as u64))
            != 0u64) by (bit_vector)
            requires
                s < 64,
        ;
    }
}

pub(crate) proof fn lemma_sh_e_sem(w: u64)
    ensures
        forall|s: u64|
            s < 64 ==> (has_sq((w << 1u64) & !FILE_A, s) <==> s % 8 != 0 && has_sq(
                w,
                (s - 1) as u64,
            )),
{
    assert forall|s: u64|
        s < 64 implies (has_sq((w << 1u64) & !FILE_A, s) <==> s % 8 != 0 && has_sq(
        w,
        (s - 1) as u64,
    )) by {
        assert(((w << 1u64) & !FILE_A) & (1u64 << s) != 0u64 <==> s % 8 != 0 && w & (1u64 << ((s
            - 1) as u64)) != 0u64) by (bit_vector)
            requires
                s < 64,
        ;
    }
}

pub(crate) proof fn lemma_sh_w_sem(w: u64)
    ensures
        forall|s: u64|
            s < 64 ==> (has_sq((w >> 1u64) & !FILE_H, s) <==> s % 8 != 7 && has_sq(
                w,
                (s + 1) as u64,
            )),
{
    assert forall|s: u64|
        s < 64 implies (has_sq((w >> 1u64) & !FILE_H, s) <==> s % 8 != 7 && has_sq(
        w,
        (s + 1) as u64,
    )) by {
        assert(((w >> 1u64) & !FILE_H) & (1u64 << s) != 0u64 <==> s % 8 != 7 && w & (1u64 << ((s
            + 1) as u64)) != 0u64) by (bit_vector)
            requires
                s < 64,
        ;
    }
}

pub(crate) proof fn lemma_sh_ne_sem(w: u64)
    ensures
        forall|s: u64|
            s < 64 ==> (has_sq((w << 9u64) & !FILE_A, s) <==> s >= 9 && s % 8 != 0 && has_sq(
                w,
                (s - 9) as u64,
            )),
{
    assert forall|s: u64|
        s < 64 implies (has_sq((w << 9u64) & !FILE_A, s) <==> s >= 9 && s % 8 != 0 && has_sq(
        w,
        (s - 9) as u64,
    )) by {
        assert(((w << 9u64) & !FILE_A) & (1u64 << s) != 0u64 <==> s >= 9 && s % 8 != 0 && w & (1u64
            << ((s - 9) as u64)) != 0u64) by (bit_vector)
            requires
                s < 64,
        ;
    }
}

pub(crate) proof fn lemma_sh_nw_sem(w: u64)
    ensures
        forall|s: u64|
            s < 64 ==> (has_sq((w << 7u64) & !FILE_H, s) <==> s >= 7 && s % 8 != 7 && has_sq(
                w,
                (s - 7) as u64,
            )),
{
    assert forall|s: u64|
        s < 64 implies (has_sq((w << 7u64) & !FILE_H, s) <==> s >= 7 && s % 8 != 7 && has_sq(
        w,
        (s - 7) as u64,
    )) by {
        assert(((w << 7u64) & !FILE_H) & (1u64 << s) != 0u64 <==> s >= 7 && s % 8 != 7 && w & (1u64
            << ((s - 7) as u64)) != 0u64) by (bit_vector)
            requires
                s < 64,
        ;
    }
}

pub(crate) proof fn lemma_sh_se_sem(w: u64)
    ensures
        forall|s: u64|
            s < 64 ==> (has_sq((w >> 7u64) & !FILE_A, s) <==> s + 7 < 64 && s % 8 != 0 && has_sq(
                w,
                (s + 7) as u64,
            )),
{
    assert forall|s: u64|
        s < 64 implies (has_sq((w >> 7u64) & !FILE_A, s) <==> s + 7 < 64 && s % 8 != 0 && has_sq(
        w,
        (s + 7) as u64,
    )) by {
        assert(((w >> 7u64) & !FILE_A) & (1u64 << s) != 0u64 <==> s + 7 < 64 && s % 8 != 0 && w & (
        1u64 << ((s + 7) as u64)) != 0u64) by (bit_vector)
            requires
                s < 64,
        ;
    }
}

pub(crate) proof fn lemma_sh_sw_sem(w: u64)
    ensures
        forall|s: u64|
            s < 64 ==> (has_sq((w >> 9u64) & !FILE_H, s) <==> s + 9 < 64 && s % 8 != 7 && has_sq(
                w,
                (s + 9) as u64,
            )),
{
    assert forall|s: u64|
        s < 64 implies (has_sq((w >> 9u64) & !FILE_H, s) <==> s + 9 < 64 && s % 8 != 7 && has_sq(
        w,
        (s + 9) as u64,
    )) by {
        assert(((w >> 9u64) & !FILE_H) & (1u64 << s) != 0u64 <==> s + 9 < 64 && s % 8 != 7 && w & (
        1u64 << ((s + 9) as u64)) != 0u64) by (bit_vector)
            requires
                s < 64,
        ;
    }
}

proof fn lemma_flip_vertical_sem(w: u64, r: u64)
    requires
        r == (w << 56u64) | ((w << 40u64) & 0x00FF_0000_0000_0000u64) | ((w << 24u64)
            & 0x0000_FF00_0000_0000u64) | ((w << 8u64) & 0x0000_00FF_0000_0000u64) | ((w >> 8u64)
            & 0x0000_0000_FF00_0000u64) | ((w >> 24u64) & 0x0000_0000_00FF_0000u64) | ((w >> 40u64)
            & 0x0000_0000_0000_FF00u64) | (w >> 56u64),
    ensures
        forall|s: u64|
            s < 64 ==> (has_sq(r, s) <==> has_sq(w, ((s % 8) + 8 * (7 - s / 8)) as u64)),
{
    assert forall|s: u64|
        s < 64 implies (has_sq(r, s) <==> has_sq(w, ((s % 8) + 8 * (7 - s / 8)) as u64)) by {
        assert(r & (1u64 << s) != 0u64 <==> w & (1u64 << (((s % 8) + 8 * (7 - s / 8)) as u64))
            != 0u64) by (bit_vector)
            requires
                s < 64,
                r == (w << 56u64) | ((w << 40u64) & 0x00FF_0000_0000_0000u64) | ((w << 24u64)
                    & 0x0000_FF00_0000_0000u64) | ((w << 8u64) & 0x0000_00FF_0000_0000u64) | ((w
                    >> 8u64) & 0x0000_0000_FF00_0000u64) | ((w >> 24u64)
                    & 0x0000_0000_00FF_0000u64) | ((w >> 40u64) & 0x0000_0000_0000_FF00u64) | (w
                    >> 56u64),
        ;
    }
}

} // verus!
