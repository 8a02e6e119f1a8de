//! General facts about the square-set model, proved once and for all: what a
//! single-square set contains, and how occluded fill behaves at its extremes.

use vstd::prelude::*;

use crate::bits::{fill, fill_rec, has_sq, reach, sh, sh_iter, step_ok, step_origin, Dir,
    FULL_BOARD};
use crate::bitboard::{lemma_sh_e_sem, lemma_sh_n_sem, lemma_sh_ne_sem, lemma_sh_nw_sem,
    lemma_sh_s_sem, lemma_sh_se_sem, lemma_sh_sw_sem, lemma_sh_w_sem};

verus! {

/// A single-square set contains exactly its own square: `t` is a member of
/// the set built from square `s` iff `t == s`.
pub proof fn lemma_square_set_membership(s: u64, t: u64)
    requires
        s < 64,
        t < 64,
    ensures
        has_sq(1u64 << s, t) <==> t == s,
{
    assert((1u64 << s) & (1u64 << t) != 0u64 <==> t == s) by (bit_vector)
        requires
            s < 64 && t < 64,
    ;
}

/// Round trip from a square through a set and back: the set built from
/// square `s` is non-empty, has `s` as its least member, and removing `s`
/// leaves it empty — so iterating it yields exactly `s`, once.
pub proof fn lemma_single_square_round_trip(s: u64)
    requires
        s < 64,
    ensures
        1u64 << s != 0u64,
        has_sq(1u64 << s, s),
        forall|q: u64| q < s ==> !has_sq(1u64 << s, q),
        (1u64 << s) & !(1u64 << s) == 0u64,
{
    assert(1u64 << s != 0u64 && (1u64 << s) & (1u64 << s) != 0u64 && (1u64 << s) & !(1u64 << s)
        == 0u64) by (bit_vector)
        requires
            s < 64,
    ;
    assert forall|q: u64| q < s implies !has_sq(1u64 << s, q) by {
        assert((1u64 << s) & (1u64 << q) == 0u64) by (bit_vector)
            requires
                q < s < 64,
        ;
    }
}

/// Occluded fill is inclusive of its origin: whatever the empty mask, the
/// fill contains every square of its source set.
pub proof fn lemma_fill_contains_source(src: u64, empty: u64, d: Dir)
    ensures
        fill(src, empty, d) & src == src,
        forall|s: u64| s < 64 && has_sq(src, s) ==> has_sq(fill(src, empty, d), s),
{
    lemma_fill_rec_contains_source(src, empty, d, 7);
    let f = fill(src, empty, d);
    assert forall|s: u64| s < 64 && has_sq(src, s) implies has_sq(f, s) by {
        assert(f & src == src ==> (src & (1u64 << s) != 0u64 ==> f & (1u64 << s) != 0u64))
            by (bit_vector);
    }
}

proof fn lemma_fill_rec_contains_source(src: u64, empty: u64, d: Dir, k: nat)
    ensures
        fill_rec(src, empty, d, k) & src == src,
    decreases k,
{
    if k == 0 {
        assert(src & src == src) by (bit_vector);
    } else {
        lemma_fill_rec_contains_source(src, empty, d, (k - 1) as nat);
        let g = fill_rec(src, empty, d, (k - 1) as nat);
        let x = empty & sh(g, d);
        assert(g & src == src ==> (g | x) & src == src) by (bit_vector);
    }
}

/// With no empty squares the fill cannot take a single step: it is exactly
/// its source.
pub proof fn lemma_fill_blocked(src: u64, d: Dir)
    ensures
        fill(src, 0u64, d) == src,
{
    lemma_fill_rec_blocked(src, d, 7);
}

proof fn lemma_fill_rec_blocked(src: u64, d: Dir, k: nat)
    ensures
        fill_rec(src, 0u64, d, k) == src,
    decreases k,
{
    if k != 0 {
        lemma_fill_rec_blocked(src, d, (k - 1) as nat);
        let g = fill_rec(src, 0u64, d, (k - 1) as nat);
        let x = sh(g, d);
        assert(g | (0u64 & x) == g) by (bit_vector);
    }
}

/// One-step shift semantics, square by square: `q` lies in the shifted set
/// iff its origin — the square one step away against `d` — lies on the
/// board and in `w`.
pub proof fn lemma_shift_membership(w: u64, d: Dir)
    ensures
        forall|q: u64|
            q < 64 ==> (has_sq(sh(w, d), q) <==> step_ok(q, d) && has_sq(w, step_origin(q, d))),
{
    assert forall|q: u64|
        q < 64 implies (has_sq(sh(w, d), q) <==> step_ok(q, d) && has_sq(
        w,
        step_origin(q, d),
    )) by {
        match d {
            Dir::N => lemma_sh_n_sem(w),
            Dir::S => lemma_sh_s_sem(w),
            Dir::E => lemma_sh_e_sem(w),
            Dir::W => lemma_sh_w_sem(w),
            Dir::Ne => lemma_sh_ne_sem(w),
            Dir::Nw => lemma_sh_nw_sem(w),
            Dir::Se => lemma_sh_se_sem(w),
            Dir::Sw => lemma_sh_sw_sem(w),
        }
    }
}

/// Occluded fill is exactly directional reachability: square `q` lies in
/// `fill(src, empty, d)` iff it can be reached from a square of `src` by at
/// most seven single steps in `d`, every step landing on a square of
/// `empty`.
pub proof fn lemma_fill_is_reachability(src: u64, empty: u64, d: Dir, q: u64)
    requires
        q < 64,
    ensures
        has_sq(fill(src, empty, d), q) <==> reach(src, empty, d, q, 7),
{
    lemma_fill_rec_membership(src, empty, d, q, 7);
}

proof fn lemma_fill_rec_membership(src: u64, empty: u64, d: Dir, q: u64, k: nat)
    requires
        q < 64,
    ensures
        has_sq(fill_rec(src, empty, d, k), q) <==> reach(src, empty, d, q, k),
    decreases k,
{
    if k != 0 {
        let g = fill_rec(src, empty, d, (k - 1) as nat);
        let x = sh(g, d);
        lemma_fill_rec_membership(src, empty, d, q, (k - 1) as nat);
        assert((g | (empty & x)) & (1u64 << q) != 0u64 <==> (g & (1u64 << q) != 0u64 || (empty & (
        1u64 << q) != 0u64 && x & (1u64 << q) != 0u64))) by (bit_vector);
        lemma_shift_membership(g, d);
        if step_ok(q, d) {
            lemma_fill_rec_membership(src, empty, d, step_origin(q, d), (k - 1) as nat);
        }
    }
}

/// Extraction ascends: once the least member `p` of a set has been removed,
/// every member still remaining is greater than `p` — so repeatedly taking
/// the least member yields squares in strictly increasing order.
pub proof fn lemma_iteration_ascends(w: u64, p: u64, q: u64)
    requires
        p < 64,
        q < 64,
        has_sq(w, p),
        forall|j: u64| j < p ==> !has_sq(w, j),
        has_sq(w & !(1u64 << p), q),
    ensures
        q > p,
{
    assert((w & !(1u64 << p)) & (1u64 << q) != 0u64 ==> (w & (1u64 << q) != 0u64 && q != p))
        by (bit_vector);
    assert(has_sq(w, q));
}

/// With every square empty the fill propagates all the way to the board
/// edge: it is the union of the source with its first seven iterated shifts
/// in the fill's direction.
pub proof fn lemma_fill_saturates(src: u64, d: Dir)
    ensures
        fill(src, FULL_BOARD, d) == src | sh_iter(src, d, 1) | sh_iter(src, d, 2) | sh_iter(
            src,
            d,
            3,
        ) | sh_iter(src, d, 4) | sh_iter(src, d, 5) | sh_iter(src, d, 6) | sh_iter(src, d, 7),
{
    let u1: u64 = sh(src, d);
    let u2: u64 = sh(u1, d);
    let u3: u64 = sh(u2, d);
    let u4: u64 = sh(u3, d);
    let u5: u64 = sh(u4, d);
    let u6: u64 = sh(u5, d);
    let u7: u64 = sh(u6, d);
    assert(sh_iter(src, d, 1) == u1 && sh_iter(src, d, 2) == u2 && sh_iter(src, d, 3) == u3
        && sh_iter(src, d, 4) == u4 && sh_iter(src, d, 5) == u5 && sh_iter(src, d, 6) == u6
        && sh_iter(src, d, 7) == u7) by {
        reveal_with_fuel(sh_iter, 8);
    }
    let t1: u64 = src | (FULL_BOARD & sh(src, d));
    let t2: u64 = t1 | (FULL_BOARD & sh(t1, d));
    let t3: u64 = t2 | (FULL_BOARD & sh(t2, d));
    let t4: u64 = t3 | (FULL_BOARD & sh(t3, d));
    let t5: u64 = t4 | (FULL_BOARD & sh(t4, d));
    let t6: u64 = t5 | (FULL_BOARD & sh(t5, d));
    let t7: u64 = t6 | (FULL_BOARD & sh(t6, d));
    assert(fill(src, FULL_BOARD, d) == t7) by {
        reveal_with_fuel(fill_rec, 8);
    }
    match d {
        Dir::N => {
            assert(t7 == src | u1 | u2 | u3 | u4 | u5 | u6 | u7) by (bit_vector)
                requires
                    u1 == src << 8u64,
                    u2 == u1 << 8u64,
                    u3 == u2 << 8u64,
                    u4 == u3 << 8u64,
                    u5 == u4 << 8u64,
                    u6 == u5 << 8u64,
                    u7 == u6 << 8u64,
                    t1 == src | (FULL_BOARD & (src << 8u64)),
                    t2 == t1 | (FULL_BOARD & (t1 << 8u64)),
                    t3 == t2 | (FULL_BOARD & (t2 << 8u64)),
                    t4 == t3 | (FULL_BOARD & (t3 << 8u64)),
                    t5 == t4 | (FULL_BOARD & (t4 << 8u64)),
                    t6 == t5 | (FULL_BOARD & (t5 << 8u64)),
                    t7 == t6 | (FULL_BOARD & (t6 << 8u64)),
            ;
        },
        Dir::S => {
            assert(t7 == src | u1 | u2 | u3 | u4 | u5 | u6 | u7) by (bit_vector)
                requires
                    u1 == src >> 8u64,
                    u2 == u1 >> 8u64,
                    u3 == u2 >> 8u64,
                    u4 == u3 >> 8u64,
                    u5 == u4 >> 8u64,
                    u6 == u5 >> 8u64,
                    u7 == u6 >> 8u64,
                    t1 == src | (FULL_BOARD & (src >> 8u64)),
                    t2 == t1 | (FULL_BOARD & (t1 >> 8u64)),
                    t3 == t2 | (FULL_BOARD & (t2 >> 8u64)),
                    t4 == t3 | (FULL_BOARD & (t3 >> 8u64)),
                    t5 == t4 | (FULL_BOARD & (t4 >> 8u64)),
                    t6 == t5 | (FULL_BOARD & (t5 >> 8u64)),
                    t7 == t6 | (FULL_BOARD & (t6 >> 8u64)),
            ;
        },
        Dir::E => {
            assert(t7 == src | u1 | u2 | u3 | u4 | u5 | u6 | u7) by (bit_vector)
                requires
                    u1 == (src << 1u64) & !crate::bits::FILE_A,
                    u2 == (u1 << 1u64) & !crate::bits::FILE_A,
                    u3 == (u2 << 1u64) & !crate::bits::FILE_A,
                    u4 == (u3 << 1u64) & !crate::bits::FILE_A,
                    u5 == (u4 << 1u64) & !crate::bits::FILE_A,
                    u6 == (u5 << 1u64) & !crate::bits::FILE_A,
                    u7 == (u6 << 1u64) & !crate::bits::FILE_A,
                    t1 == src | (FULL_BOARD & ((src << 1u64) & !crate::bits::FILE_A)),
                    t2 == t1 | (FULL_BOARD & ((t1 << 1u64) & !crate::bits::FILE_A)),
                    t3 == t2 | (FULL_BOARD & ((t2 << 1u64) & !crate::bits::FILE_A)),
                    t4 == t3 | (FULL_BOARD & ((t3 << 1u64) & !crate::bits::FILE_A)),
                    t5 == t4 | (FULL_BOARD & ((t4 << 1u64) & !crate::bits::FILE_A)),
                    t6 == t5 | (FULL_BOARD & ((t5 << 1u64) & !crate::bits::FILE_A)),
                    t7 == t6 | (FULL_BOARD & ((t6 << 1u64) & !crate::bits::FILE_A)),
            ;
        },
        Dir::W => {
            assert(t7 == src | u1 | u2 | u3 | u4 | u5 | u6 | u7) by (bit_vector)
                requires
                    u1 == (src >> 1u64) & !crate::bits::FILE_H,
                    u2 == (u1 >> 1u64) & !crate::bits::FILE_H,
                    u3 == (u2 >> 1u64) & !crate::bits::FILE_H,
                    u4 == (u3 >> 1u64) & !crate::bits::FILE_H,
                    u5 == (u4 >> 1u64) & !crate::bits::FILE_H,
                    u6 == (u5 >> 1u64) & !crate::bits::FILE_H,
                    u7 == (u6 >> 1u64) & !crate::bits::FILE_H,
                    t1 == src | (FULL_BOARD & ((src >> 1u64) & !crate::bits::FILE_H)),
                    t2 == t1 | (FULL_BOARD & ((t1 >> 1u64) & !crate::bits::FILE_H)),
                    t3 == t2 | (FULL_BOARD & ((t2 >> 1u64) & !crate::bits::FILE_H)),
                    t4 == t3 | (FULL_BOARD & ((t3 >> 1u64) & !crate::bits::FILE_H)),
                    t5 == t4 | (FULL_BOARD & ((t4 >> 1u64) & !crate::bits::FILE_H)),
                    t6 == t5 | (FULL_BOARD & ((t5 >> 1u64) & !crate::bits::FILE_H)),
                    t7 == t6 | (FULL_BOARD & ((t6 >> 1u64) & !crate::bits::FILE_H)),
            ;
        },
        Dir::Ne => {
            assert(t7 == src | u1 | u2 | u3 | u4 | u5 | u6 | u7) by (bit_vector)
                requires
                    u1 == (src << 9u64) & !crate::bits::FILE_A,
                    u2 == (u1 << 9u64) & !crate::bits::FILE_A,
                    u3 == (u2 << 9u64) & !crate::bits::FILE_A,
                    u4 == (u3 << 9u64) & !crate::bits::FILE_A,
                    u5 == (u4 << 9u64) & !crate::bits::FILE_A,
                    u6 == (u5 << 9u64) & !crate::bits::FILE_A,
                    u7 == (u6 << 9u64) & !crate::bits::FILE_A,
                    t1 == src | (FULL_BOARD & ((src << 9u64) & !crate::bits::FILE_A)),
                    t2 == t1 | (FULL_BOARD & ((t1 << 9u64) & !crate::bits::FILE_A)),
                    t3 == t2 | (FULL_BOARD & ((t2 << 9u64) & !crate::bits::FILE_A)),
                    t4 == t3 | (FULL_BOARD & ((t3 << 9u64) & !crate::bits::FILE_A)),
                    t5 == t4 | (FULL_BOARD & ((t4 << 9u64) & !crate::bits::FILE_A)),
                    t6 == t5 | (FULL_BOARD & ((t5 << 9u64) & !crate::bits::FILE_A)),
                    t7 == t6 | (FULL_BOARD & ((t6 << 9u64) & !crate::bits::FILE_A)),
            ;
        },
        Dir::Nw => {
            assert(t7 == src | u1 | u2 | u3 | u4 | u5 | u6 | u7) by (bit_vector)
                requires
                    u1 == (src << 7u64) & !crate::bits::FILE_H,
                    u2 == (u1 << 7u64) & !crate::bits::FILE_H,
                    u3 == (u2 << 7u64) & !crate::bits::FILE_H,
                    u4 == (u3 << 7u64) & !crate::bits::FILE_H,
                    u5 == (u4 << 7u64) & !crate::bits::FILE_H,
                    u6 == (u5 << 7u64) & !crate::bits::FILE_H,
                    u7 == (u6 << 7u64) & !crate::bits::FILE_H,
                    t1 == src | (FULL_BOARD & ((src << 7u64) & !crate::bits::FILE_H)),
                    t2 == t1 | (FULL_BOARD & ((t1 << 7u64) & !crate::bits::FILE_H)),
                    t3 == t2 | (FULL_BOARD & ((t2 << 7u64) & !crate::bits::FILE_H)),
                    t4 == t3 | (FULL_BOARD & ((t3 << 7u64) & !crate::bits::FILE_H)),
                    t5 == t4 | (FULL_BOARD & ((t4 << 7u64) & !crate::bits::FILE_H)),
                    t6 == t5 | (FULL_BOARD & ((t5 << 7u64) & !crate::bits::FILE_H)),
                    t7 == t6 | (FULL_BOARD & ((t6 << 7u64) & !crate::bits::FILE_H)),
            ;
        },
        Dir::Se => {
            assert(t7 == src | u1 | u2 | u3 | u4 | u5 | u6 | u7) by (bit_vector)
                requires
                    u1 == (src >> 7u64) & !crate::bits::FILE_A,
                    u2 == (u1 >> 7u64) & !crate::bits::FILE_A,
                    u3 == (u2 >> 7u64) & !crate::bits::FILE_A,
                    u4 == (u3 >> 7u64) & !crate::bits::FILE_A,
                    u5 == (u4 >> 7u64) & !crate::bits::FILE_A,
                    u6 == (u5 >> 7u64) & !crate::bits::FILE_A,
                    u7 == (u6 >> 7u64) & !crate::bits::FILE_A,
                    t1 == src | (FULL_BOARD & ((src >> 7u64) & !crate::bits::FILE_A)),
                    t2 == t1 | (FULL_BOARD & ((t1 >> 7u64) & !crate::bits::FILE_A)),
                    t3 == t2 | (FULL_BOARD & ((t2 >> 7u64) & !crate::bits::FILE_A)),
                    t4 == t3 | (FULL_BOARD & ((t3 >> 7u64) & !crate::bits::FILE_A)),
                    t5 == t4 | (FULL_BOARD & ((t4 >> 7u64) & !crate::bits::FILE_A)),
                    t6 == t5 | (FULL_BOARD & ((t5 >> 7u64) & !crate::bits::FILE_A)),
                    t7 == t6 | (FULL_BOARD & ((t6 >> 7u64) & !crate::bits::FILE_A)),
            ;
        },
        Dir::Sw => {
            assert(t7 == src | u1 | u2 | u3 | u4 | u5 | u6 | u7) by (bit_vector)
                requires
                    u1 == (src >> 9u64) & !crate::bits::FILE_H,
                    u2 == (u1 >> 9u64) & !crate::bits::FILE_H,
                    u3 == (u2 >> 9u64) & !crate::bits::FILE_H,
                    u4 == (u3 >> 9u64) & !crate::bits::FILE_H,
                    u5 == (u4 >> 9u64) & !crate::bits::FILE_H,
                    u6 == (u5 >> 9u64) & !crate::bits::FILE_H,
                    u7 == (u6 >> 9u64) & !crate::bits::FILE_H,
                    t1 == src | (FULL_BOARD & ((src >> 9u64) & !crate::bits::FILE_H)),
                    t2 == t1 | (FULL_BOARD & ((t1 >> 9u64) & !crate::bits::FILE_H)),
                    t3 == t2 | (FULL_BOARD & ((t2 >> 9u64) & !crate::bits::FILE_H)),
                    t4 == t3 | (FULL_BOARD & ((t3 >> 9u64) & !crate::bits::FILE_H)),
                    t5 == t4 | (FULL_BOARD & ((t4 >> 9u64) & !crate::bits::FILE_H)),
                    t6 == t5 | (FULL_BOARD & ((t5 >> 9u64) & !crate::bits::FILE_H)),
                    t7 == t6 | (FULL_BOARD & ((t6 >> 9u64) & !crate::bits::FILE_H)),
            ;
        },
    }
}

} // verus!
