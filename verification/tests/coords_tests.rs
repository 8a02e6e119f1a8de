use bitboard::{File, Position, Rank};

#[test]
fn file_holds_its_value() {
    for f in 0u8..8 {
        assert_eq!(File::new(f).get(), f);
    }
}

#[test]
fn file_letters() {
    let letters = ['A', 'B', 'C', 'D', 'E', 'F', 'G', 'H'];
    for f in 0u8..8 {
        assert_eq!(File::new(f).letter(), letters[f as usize]);
    }
}

#[test]
fn rank_holds_its_value() {
    for r in 0u8..8 {
        assert_eq!(Rank::new(r).get(), r);
        assert_eq!(Rank::new(r).number(), r + 1);
    }
}

#[test]
fn position_holds_its_value() {
    for p in 0u8..64 {
        assert_eq!(Position::new(p).get(), p);
    }
}

#[test]
fn position_from_file_and_rank() {
    let d1 = Position::from_file_rank(File::new(3), Rank::new(0));
    assert_eq!(d1.get(), 3);
    let h8 = Position::from_file_rank(File::new(7), Rank::new(7));
    assert_eq!(h8.get(), 63);
    for r in 0u8..8 {
        for f in 0u8..8 {
            let p = Position::from_file_rank(File::new(f), Rank::new(r));
            assert_eq!(p.get(), r * 8 + f);
            assert_eq!(p.file().get(), f);
            assert_eq!(p.rank().get(), r);
        }
    }
}
