use bitboard::{BitBoard, File, Position, Rank};

const FILE_A_MASK: u64 = 0x0101010101010101;
const FILE_D_MASK: u64 = 0x0808080808080808;
const FILE_H_MASK: u64 = 0x8080808080808080;
const FULL: u64 = 0xFFFF_FFFF_FFFF_FFFF;

#[test]
fn single_square_membership() {
    for s in 0u8..64 {
        let b = BitBoard::from_position(Position::new(s));
        assert!(!b.empty());
        for t in 0u8..64 {
            assert_eq!(b.is_piece_at(Position::new(t)), s == t);
        }
    }
}

#[test]
fn shift_full_north_by_eight_is_empty() {
    assert!(BitBoard::new(FULL).shift_n_by(8).empty());
}

#[test]
fn shift_full_south_by_eight_is_empty() {
    assert!(BitBoard::new(FULL).shift_s_by(8).empty());
}

#[test]
fn shift_full_east_leaks_nothing_into_file_a() {
    let shifted = BitBoard::new(FULL).shift_e();
    assert!(shifted.and(BitBoard::from_file(File::new(0))).empty());
}

#[test]
fn shift_full_west_leaks_nothing_into_file_h() {
    let shifted = BitBoard::new(FULL).shift_w();
    assert!(shifted.and(BitBoard::from_file(File::new(7))).empty());
}

#[test]
fn file_masks_eight_files_cover_the_board() {
    assert_eq!(BitBoard::from_east_files(8), BitBoard::new(FULL));
    assert_eq!(BitBoard::from_west_files(8), BitBoard::new(FULL));
}

#[test]
fn file_masks_zero_files_are_empty() {
    assert!(BitBoard::from_east_files(0).empty());
    assert!(BitBoard::from_west_files(0).empty());
}

#[test]
fn file_masks_partial() {
    assert_eq!(BitBoard::from_east_files(1), BitBoard::new(FILE_H_MASK));
    assert_eq!(BitBoard::from_west_files(1), BitBoard::new(FILE_A_MASK));
    assert_eq!(BitBoard::from_east_files(3), BitBoard::new(0xE0E0E0E0E0E0E0E0));
    assert_eq!(BitBoard::from_west_files(2), BitBoard::new(0x0303030303030303));
}

#[test]
fn round_trip_single_square() {
    for s in 0u8..64 {
        let b = BitBoard::from_position(Position::new(s));
        let mut it = b.iter();
        assert_eq!(it.next().unwrap().get(), s);
        assert!(it.next().is_none());
    }
}

#[test]
fn fill_always_contains_source() {
    let src = BitBoard::new(0x8100000000000081);
    let empty = BitBoard::new(0x00FF00FF00FF00FF);
    let fills = [
        src.fill_n_occluded(empty),
        src.fill_s_occluded(empty),
        src.fill_e_occluded(empty),
        src.fill_w_occluded(empty),
        src.fill_ne_occluded(empty),
        src.fill_nw_occluded(empty),
        src.fill_se_occluded(empty),
        src.fill_sw_occluded(empty),
    ];
    for f in fills {
        assert_eq!(f.and(src), src);
    }
}

#[test]
fn fill_open_board_reaches_the_edge() {
    let all = BitBoard::new(FULL);
    let d1 = BitBoard::from_position(Position::new(3));
    assert_eq!(d1.fill_n_occluded(all), BitBoard::new(FILE_D_MASK));
    let d8 = BitBoard::from_position(Position::new(59));
    assert_eq!(d8.fill_s_occluded(all), BitBoard::new(FILE_D_MASK));
    let a1 = BitBoard::from_position(Position::new(0));
    assert_eq!(a1.fill_e_occluded(all), BitBoard::new(0xFF));
    let h1 = BitBoard::from_position(Position::new(7));
    assert_eq!(h1.fill_w_occluded(all), BitBoard::new(0xFF));
    assert_eq!(a1.fill_ne_occluded(all), BitBoard::new(0x8040201008040201));
    assert_eq!(h1.fill_nw_occluded(all), BitBoard::new(0x0102040810204080));
}

#[test]
fn fill_with_no_empty_squares_is_the_source() {
    let src = BitBoard::new(0x1234_5678_9ABC_DEF0);
    let none = BitBoard::new(0);
    assert_eq!(src.fill_n_occluded(none), src);
    assert_eq!(src.fill_s_occluded(none), src);
    assert_eq!(src.fill_e_occluded(none), src);
    assert_eq!(src.fill_w_occluded(none), src);
    assert_eq!(src.fill_ne_occluded(none), src);
    assert_eq!(src.fill_nw_occluded(none), src);
    assert_eq!(src.fill_se_occluded(none), src);
    assert_eq!(src.fill_sw_occluded(none), src);
}

#[test]
fn attack_north_up_an_open_file() {
    let d1 = BitBoard::from_position(Position::new(3));
    let empty = BitBoard::new(!(1u64 << 3));
    let attacks = d1.attack_n_occluded(empty);
    assert_eq!(attacks, BitBoard::new(0x0808080808080800));
    for idx in [11u8, 19, 27, 35, 43, 51, 59] {
        assert!(attacks.is_piece_at(Position::new(idx)));
    }
}

#[test]
fn attack_north_stops_on_the_first_blocker() {
    let d1 = BitBoard::from_position(Position::new(3));
    let empty = BitBoard::new(!((1u64 << 3) | (1u64 << 35)));
    let attacks = d1.attack_n_occluded(empty);
    assert_eq!(attacks, BitBoard::new(0x0000000808080800));
}

#[test]
fn iteration_yields_increasing_squares() {
    let b = BitBoard::new((1u64 << 0) | (1u64 << 9) | (1u64 << 63));
    let mut it = b.iter();
    assert_eq!(it.next().unwrap().get(), 0);
    assert_eq!(it.next().unwrap().get(), 9);
    assert_eq!(it.next().unwrap().get(), 63);
    assert!(it.next().is_none());
}

#[test]
fn iteration_of_the_empty_set_ends_at_once() {
    let mut it = BitBoard::new(0).iter();
    assert!(it.next().is_none());
}

#[test]
fn render_eight_by_eight_grid() {
    let b = BitBoard::new(0xF0FF);
    let expected = ". . . . . . . . \n. . . . . . . . \n. . . . . . . . \n. . . . . . . . \n\
                    . . . . . . . . \n. . . . . . . . \n. . . . 1 1 1 1 \n1 1 1 1 1 1 1 1 \n";
    assert_eq!(b.render(), expected);
}

#[test]
fn render_empty_board() {
    let b = BitBoard::new(0);
    let line = ". . . . . . . . \n";
    let expected: String = line.repeat(8);
    assert_eq!(b.render(), expected);
}

#[test]
fn algebra_operations() {
    let a = BitBoard::new(0xF0F0);
    let b = BitBoard::new(0x0FF0);
    assert_eq!(a.and(b), BitBoard::new(0x00F0));
    assert_eq!(a.or(b), BitBoard::new(0xFFF0));
    assert_eq!(a.xor(b), BitBoard::new(0xFF00));
    assert_eq!(a.not(), BitBoard::new(!0xF0F0u64));
    assert_eq!(a.shl(4), BitBoard::new(0xF0F00));
    assert_eq!(a.shr(4), BitBoard::new(0x0F0F));
}

#[test]
fn compound_assignment_operations() {
    let mut a = BitBoard::new(0xF0F0);
    a.and_assign(BitBoard::new(0x0FF0));
    assert_eq!(a, BitBoard::new(0x00F0));
    a.or_assign(BitBoard::new(0x0F00));
    assert_eq!(a, BitBoard::new(0x0FF0));
    a.xor_assign(BitBoard::new(0x00FF));
    assert_eq!(a, BitBoard::new(0x0F0F));
    a.shl_assign(8);
    assert_eq!(a, BitBoard::new(0x0F0F00));
    a.shr_assign(16);
    assert_eq!(a, BitBoard::new(0x0F));
}

#[test]
fn single_step_shifts_from_a_central_square() {
    let d4 = BitBoard::from_position(Position::new(27));
    assert_eq!(d4.shift_n(), BitBoard::new(1u64 << 35));
    assert_eq!(d4.shift_s(), BitBoard::new(1u64 << 19));
    assert_eq!(d4.shift_e(), BitBoard::new(1u64 << 28));
    assert_eq!(d4.shift_w(), BitBoard::new(1u64 << 26));
    assert_eq!(d4.shift_ne(), BitBoard::new(1u64 << 36));
    assert_eq!(d4.shift_nw(), BitBoard::new(1u64 << 34));
    assert_eq!(d4.shift_se(), BitBoard::new(1u64 << 20));
    assert_eq!(d4.shift_sw(), BitBoard::new(1u64 << 18));
}

#[test]
fn single_step_shifts_fall_off_the_edges() {
    let h1 = BitBoard::from_position(Position::new(7));
    assert!(h1.shift_e().empty());
    assert!(h1.shift_ne().empty());
    assert!(h1.shift_se().empty());
    assert!(h1.shift_s().empty());
    let a8 = BitBoard::from_position(Position::new(56));
    assert!(a8.shift_w().empty());
    assert!(a8.shift_nw().empty());
    assert!(a8.shift_sw().empty());
    assert!(a8.shift_n().empty());
}

#[test]
fn multi_step_shifts_match_repeated_single_steps() {
    let b = BitBoard::new(0x0123_4567_89AB_CDEF);
    assert_eq!(b.shift_n_by(1), b.shift_n());
    assert_eq!(b.shift_s_by(1), b.shift_s());
    assert_eq!(b.shift_e_by(1), b.shift_e());
    assert_eq!(b.shift_w_by(1), b.shift_w());
    assert_eq!(b.shift_n_by(2), b.shift_n().shift_n());
    assert_eq!(b.shift_s_by(2), b.shift_s().shift_s());
    assert_eq!(b.shift_e_by(2), b.shift_e().shift_e());
    assert_eq!(b.shift_w_by(2), b.shift_w().shift_w());
    assert_eq!(b.shift_n_by(0), b);
    assert_eq!(b.shift_e_by(0), b);
}

#[test]
fn multi_step_east_shift_does_not_wrap() {
    let g1 = BitBoard::from_position(Position::new(6));
    assert!(g1.shift_e_by(2).empty());
    let f1 = BitBoard::from_position(Position::new(5));
    assert_eq!(f1.shift_e_by(2), BitBoard::from_position(Position::new(7)));
    let b2 = BitBoard::from_position(Position::new(9));
    assert!(b2.shift_w_by(2).empty());
}

#[test]
fn flip_vertical_swaps_ranks() {
    let b = BitBoard::new(0xF0FF);
    assert_eq!(b.flip_vertical(), BitBoard::new(0xFFF0_0000_0000_0000));
    assert_eq!(b.flip_vertical().flip_vertical(), b);
}

#[test]
fn rank_and_file_masks() {
    assert_eq!(BitBoard::from_rank(Rank::new(0)), BitBoard::new(0xFF));
    assert_eq!(BitBoard::from_rank(Rank::new(7)), BitBoard::new(0xFF00_0000_0000_0000));
    assert_eq!(BitBoard::from_file(File::new(0)), BitBoard::new(FILE_A_MASK));
    assert_eq!(BitBoard::from_file(File::new(3)), BitBoard::new(FILE_D_MASK));
}

#[test]
fn emptiness() {
    assert!(BitBoard::new(0).empty());
    assert!(!BitBoard::new(1).empty());
    assert!(!BitBoard::new(FULL).empty());
}
