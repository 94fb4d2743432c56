use linkus::bitboard::Bitboard;
use linkus::square::Square;

#[test]
fn new_and_to_int_round_trip() {
    assert_eq!(Bitboard::new(0).to_int(), 0);
    assert_eq!(Bitboard::new(u64::MAX).to_int(), u64::MAX);
    assert_eq!(Bitboard::new(0x8100000000000081).to_int(), 0x8100000000000081);
}

#[test]
fn empty_is_empty() {
    assert!(Bitboard::empty().is_empty());
    assert_eq!(Bitboard::empty().to_int(), 0);
    assert!(!Bitboard::new(1).is_empty());
}

#[test]
fn from_square_sets_one_bit() {
    assert_eq!(Bitboard::from_square(Square::new(0)).to_int(), 1);
    assert_eq!(Bitboard::from_square(Square::new(63)).to_int(), 1u64 << 63);
    assert_eq!(Bitboard::from_square(Square::new(36)).to_int(), 1u64 << 36);
}

#[test]
fn get_set_pop_bit() {
    let mut bb = Bitboard::empty();
    assert_eq!(bb.get_bit(17), 0);
    bb.set_bit(17);
    assert_eq!(bb.get_bit(17), 1);
    assert_eq!(bb.to_int(), 1u64 << 17);
    bb.set_bit(17);
    assert_eq!(bb.to_int(), 1u64 << 17);
    bb.pop_bit(17);
    assert_eq!(bb.get_bit(17), 0);
    assert!(bb.is_empty());
    bb.pop_bit(17);
    assert!(bb.is_empty());
}

#[test]
fn set_and_pop_by_square() {
    let mut bb = Bitboard::empty();
    bb.set_bit_by_square(Square::new(44));
    assert_eq!(bb.get_bit_by_square(Square::new(44)), 1);
    bb.pop_bit_by_square(Square::new(44));
    assert_eq!(bb.get_bit_by_square(Square::new(44)), 0);
}

#[test]
fn move_bit_relocates_only_when_possible() {
    let mut bb = Bitboard::new(1u64 << 10);
    bb.move_bit(10, 20);
    assert_eq!(bb.to_int(), 1u64 << 20);

    // source clear: no-op
    let mut bb = Bitboard::new(1u64 << 20);
    bb.move_bit(10, 30);
    assert_eq!(bb.to_int(), 1u64 << 20);

    // target already set: no-op
    let mut bb = Bitboard::new((1u64 << 10) | (1u64 << 20));
    bb.move_bit(10, 20);
    assert_eq!(bb.to_int(), (1u64 << 10) | (1u64 << 20));
}

#[test]
fn move_bit_by_square_matches_move_bit() {
    let mut a = Bitboard::new(1u64 << 52);
    a.move_bit_by_square(Square::new(52), Square::new(36));
    assert_eq!(a.to_int(), 1u64 << 36);
}

#[test]
fn count_bits_counts() {
    assert_eq!(Bitboard::empty().count_bits(), 0);
    assert_eq!(Bitboard::new(u64::MAX).count_bits(), 64);
    assert_eq!(Bitboard::new(0x8100000000000081).count_bits(), 4);
    assert_eq!(Bitboard::new(1).count_bits(), 1);
    assert_eq!(Bitboard::new(1u64 << 63).count_bits(), 1);
}

#[test]
fn lsb_of_empty_is_none() {
    assert!(Bitboard::empty().get_lsb_index().is_none());
    assert!(Bitboard::empty().get_lsb_square().is_none());
}

#[test]
fn lsb_finds_lowest_set_square() {
    assert_eq!(Bitboard::new(1).get_lsb_index(), Some(0));
    assert_eq!(Bitboard::new(1u64 << 63).get_lsb_index(), Some(63));
    assert_eq!(Bitboard::new((1u64 << 40) | (1u64 << 7)).get_lsb_index(), Some(7));
    assert_eq!(
        Bitboard::new((1u64 << 40) | (1u64 << 7)).get_lsb_square().unwrap().to_int(),
        7
    );
}

#[test]
fn extraction_walks_squares_in_ascending_order() {
    let mut bb = Bitboard::new((1u64 << 3) | (1u64 << 17) | (1u64 << 59));
    let mut seen = Vec::new();
    while let Some(sq) = bb.get_lsb_square() {
        seen.push(sq.to_int());
        bb.pop_bit_by_square(sq);
    }
    assert_eq!(seen, vec![3, 17, 59]);
}
