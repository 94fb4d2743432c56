use linkus::board::Board;
use linkus::color::Color;
use linkus::move_tables::gen_tables;
use linkus::piece::Piece;
use linkus::piece_move::Move;
use linkus::piece_move::SpecialMove;
use linkus::square::Square;

fn same_position(a: &Board, b: &Board) -> bool {
    for i in 0..12 {
        if a.get_bitboard(i).to_int() != b.get_bitboard(i).to_int() {
            return false;
        }
    }
    a.get_to_move().to_index() == b.get_to_move().to_index()
        && a.is_in_check() == b.is_in_check()
        && a.get_move_list().len() == b.get_move_list().len()
}

#[test]
fn a_double_push_moves_the_pawn_two_squares() {
    let t = gen_tables();
    let mut b = Board::start();
    let e2e4 = Move::new(Square::new(52), Square::new(36), SpecialMove::DoublePush);
    assert!(b.make_move(&t, e2e4));
    assert_eq!(
        b.get_bitboard(5).to_int(),
        (0x00FF000000000000 & !(1u64 << 52)) | (1u64 << 36)
    );
    assert!(matches!(b.get_to_move(), Color::BLACK));
    assert!(!b.is_in_check());
}

#[test]
fn a_capture_removes_the_captured_piece() {
    let t = gen_tables();
    // white rook a1, black pawn a7
    let mut b = Board::new("4k3/p7/8/8/8/8/8/R3K3 w - - 0 1").unwrap();
    let rxa7 = Move::new(Square::new(56), Square::new(8), SpecialMove::Capture);
    assert!(b.make_move(&t, rxa7));
    assert_eq!(b.get_bitboard(2).to_int(), 1u64 << 8);
    assert_eq!(b.get_bitboard(11).to_int(), 0);
}

#[test]
fn kingside_castling_relocates_king_and_rook() {
    let t = gen_tables();
    let mut b = Board::new("r3k2r/8/8/8/8/8/8/R3K2R w KQkq - 0 1").unwrap();
    let castle = Move::new(Square::new(60), Square::new(62), SpecialMove::KingsideCastle);
    assert!(b.make_move(&t, castle));
    assert_eq!(b.get_bitboard(0).to_int(), 1u64 << 62); // king on g1
    assert_eq!(b.get_bitboard(2).to_int(), (1u64 << 56) | (1u64 << 61)); // rooks a1, f1
    // white may not castle again: gen for white after a black reply shows none
    let reply = Move::new(Square::new(4), Square::new(12), SpecialMove::Quiet);
    assert!(b.make_move(&t, reply));
    b.gen_moves(&t);
    let moves = b.get_move_list().into_vec();
    assert!(!moves.iter().any(|m| matches!(
        m.get_special(),
        SpecialMove::KingsideCastle | SpecialMove::QueensideCastle
    )));
}

#[test]
fn queenside_castling_relocates_king_and_rook() {
    let t = gen_tables();
    let mut b = Board::new("r3k2r/8/8/8/8/8/8/R3K2R w KQkq - 0 1").unwrap();
    let castle = Move::new(Square::new(60), Square::new(58), SpecialMove::QueensideCastle);
    assert!(b.make_move(&t, castle));
    assert_eq!(b.get_bitboard(0).to_int(), 1u64 << 58); // king on c1
    assert_eq!(b.get_bitboard(2).to_int(), (1u64 << 59) | (1u64 << 63)); // rooks d1, h1
}

#[test]
fn en_passant_removes_the_passed_pawn() {
    let t = gen_tables();
    let mut b = Board::new("k7/8/8/8/3p4/8/4P3/K7 w - - 0 1").unwrap();
    let e2e4 = Move::new(Square::new(52), Square::new(36), SpecialMove::DoublePush);
    assert!(b.make_move(&t, e2e4));
    let dxe3 = Move::new(Square::new(35), Square::new(44), SpecialMove::EnPassant);
    assert!(b.make_move(&t, dxe3));
    // the black pawn stands on e3, the white pawn is gone
    assert_eq!(b.get_bitboard(11).to_int(), 1u64 << 44);
    assert_eq!(b.get_bitboard(5).to_int(), 0);
}

#[test]
fn promotion_replaces_the_pawn_with_the_chosen_piece() {
    let t = gen_tables();
    let mut b = Board::new("k7/4P3/8/8/8/8/8/K7 w - - 0 1").unwrap();
    let promote = Move::new(
        Square::new(12),
        Square::new(4),
        SpecialMove::Promotion(Piece::Rook),
    );
    assert!(b.make_move(&t, promote));
    assert_eq!(b.get_bitboard(5).to_int(), 0); // no pawn left
    assert_eq!(b.get_bitboard(2).to_int(), 1u64 << 4); // a rook on e8
}

#[test]
fn promotion_capture_removes_both_pieces() {
    let t = gen_tables();
    let mut b = Board::new("3r3k/4P3/8/8/8/8/8/K7 w - - 0 1").unwrap();
    let promote = Move::new(
        Square::new(12),
        Square::new(3),
        SpecialMove::PromotionCapture(Piece::Queen),
    );
    assert!(b.make_move(&t, promote));
    assert_eq!(b.get_bitboard(5).to_int(), 0); // pawn gone
    assert_eq!(b.get_bitboard(8).to_int(), 0); // black rook gone
    assert_eq!(b.get_bitboard(1).to_int(), 1u64 << 3); // white queen on d8
}

#[test]
fn an_illegal_move_reports_false_and_the_snapshot_restores() {
    let t = gen_tables();
    // white king a1, black queen b2: walking into the queen is illegal
    let mut b = Board::new("k7/8/8/8/8/8/1q6/K7 w - - 0 1").unwrap();
    let snapshot = b.snapshot();
    let into_check = Move::new(Square::new(56), Square::new(48), SpecialMove::Quiet);
    assert!(!b.make_move(&t, into_check));
    // the board was left mutated, as the copy-make protocol says
    assert!(!same_position(&snapshot, &b));
    // restoring from the snapshot gives back the position, bit for bit
    b = snapshot.snapshot();
    let again = Board::new("k7/8/8/8/8/8/1q6/K7 w - - 0 1").unwrap();
    assert!(same_position(&b, &again));
}

#[test]
fn apply_and_restore_round_trips_bit_identically() {
    let t = gen_tables();
    let mut b = Board::start();
    b.gen_moves(&t);
    let snapshot = b.snapshot();
    for mv in b.get_move_list().into_vec() {
        b.make_move(&t, mv);
        b = snapshot.snapshot();
        assert!(same_position(&snapshot, &b));
        for i in 0..12 {
            assert_eq!(b.get_bitboard(i).to_int(), snapshot.get_bitboard(i).to_int());
        }
    }
}

#[test]
fn a_move_that_gives_check_sets_the_check_flag() {
    let t = gen_tables();
    // white rook e4, black king e8: rook to e-file already... move rook
    // from a4 to e4 gives check along the e-file
    let mut b = Board::new("4k3/8/8/8/R7/8/8/K7 w - - 0 1").unwrap();
    let ra4e4 = Move::new(Square::new(32), Square::new(36), SpecialMove::Quiet);
    assert!(b.make_move(&t, ra4e4));
    assert!(b.is_in_check());
    assert!(matches!(b.get_to_move(), Color::BLACK));
}
