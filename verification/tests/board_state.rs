use linkus::board::Board;
use linkus::board::FenParseError;
use linkus::board::STARTPOS;
use linkus::color::Color;
use linkus::move_tables::gen_tables;
use linkus::square::Square;

#[test]
fn parsing_the_start_string_matches_the_built_in_start() {
    let parsed = Board::new(STARTPOS).unwrap();
    let built = Board::start();
    for i in 0..12 {
        assert_eq!(
            parsed.get_bitboard(i).to_int(),
            built.get_bitboard(i).to_int(),
            "bitset {} differs",
            i
        );
    }
    assert!(matches!(parsed.get_to_move(), Color::WHITE));
    assert!(!parsed.is_in_check());
}

#[test]
fn start_position_bitsets() {
    let b = Board::start();
    assert_eq!(b.get_bitboard(0).to_int(), 1u64 << 60); // white king on e1
    assert_eq!(b.get_bitboard(5).to_int(), 0x00FF000000000000); // white pawns
    assert_eq!(b.get_bitboard(6).to_int(), 1u64 << 4); // black king on e8
    assert_eq!(b.get_bitboard(11).to_int(), 0xFF00); // black pawns
    assert_eq!(b.get_all_pieces().to_int(), 0xFFFF00000000FFFF);
    assert_eq!(b.get_white_pieces().to_int(), 0xFFFF000000000000);
    assert_eq!(b.get_black_pieces().to_int(), 0x000000000000FFFF);
}

#[test]
fn fen_side_castling_and_en_passant_fields() {
    let b = Board::new("k7/8/8/8/8/8/8/7K b - - 0 1").unwrap();
    assert!(matches!(b.get_to_move(), Color::BLACK));

    let b = Board::new("rnbqkbnr/pppppppp/8/8/4P3/8/PPPP1PPP/RNBQKBNR b KQkq e3 0 1");
    assert!(b.is_ok());
}

#[test]
fn fen_errors_name_the_field_at_fault() {
    // a character that is no piece, digit or separator
    assert!(matches!(
        Board::new("x7/8/8/8/8/8/8/7K w - - 0 1"),
        Err(FenParseError::InvalidPosition)
    ));
    // both kings must be on the board, exactly once each
    assert!(matches!(
        Board::new("8/8/8/8/8/8/8/8 w - - 0 1"),
        Err(FenParseError::InvalidPosition)
    ));
    assert!(matches!(
        Board::new("kk6/8/8/8/8/8/8/7K w - - 0 1"),
        Err(FenParseError::InvalidPosition)
    ));
    assert!(matches!(
        Board::new("k7/8/8/8/8/8/8/7K x - - 0 1"),
        Err(FenParseError::SideToMove)
    ));
    assert!(matches!(
        Board::new("k7/8/8/8/8/8/8/7K w Kx - 0 1"),
        Err(FenParseError::Castling)
    ));
    assert!(matches!(
        Board::new("k7/8/8/8/8/8/8/7K w - e9 0 1"),
        Err(FenParseError::EnPassant)
    ));
    assert!(matches!(
        Board::new("k7/8/8/8/8/8/8/7K w - - zz 1"),
        Err(FenParseError::HalfMove)
    ));
    assert!(matches!(
        Board::new("k7/8/8/8/8/8/8/7K w - - 300 1"),
        Err(FenParseError::HalfMove)
    ));
    assert!(matches!(
        Board::new("k7/8/8/8/8/8/8/7K w - - 0 0"),
        Err(FenParseError::Ply)
    ));
    assert!(matches!(
        Board::new("k7/8/8/8/8/8/8/7K w - - 0 zz"),
        Err(FenParseError::Ply)
    ));
    // missing fields are rejected, not a crash
    assert!(Board::new("k7/8/8/8/8/8/8/7K w -").is_err());
    assert!(Board::new("").is_err());
}

#[test]
fn attack_queries_on_the_start_position() {
    let t = gen_tables();
    let b = Board::start();
    // f3 is covered by the e2 and g2 pawns and the g1 knight
    assert!(b.is_attacked(&t, Square::new(45), Some(Color::WHITE)));
    // f6 is covered by Black
    assert!(b.is_attacked(&t, Square::new(21), Some(Color::BLACK)));
    // e4 is attacked by nobody
    assert!(!b.is_attacked(&t, Square::new(36), None));
    // d6 is attacked by black pawns, so by "either color" too
    assert!(b.is_attacked(&t, Square::new(19), None));
    assert!(!b.is_attacked(&t, Square::new(19), Some(Color::WHITE)));
}

#[test]
fn attacked_set_matches_single_square_queries() {
    let t = gen_tables();
    let b = Board::start();
    let attacked = b.get_attacked(&t, Some(Color::WHITE));
    for sq in 0..64u8 {
        let single = b.is_attacked(&t, Square::new(sq), Some(Color::WHITE));
        assert_eq!(attacked.get_bit(sq) == 1, single);
    }
}

#[test]
fn piece_lookup_and_removal() {
    let mut b = Board::start();
    // e1 holds the white king, bitset 0
    assert_eq!(b.get_bitboard_index_at_square(Square::new(60)), Some(0));
    // e2 holds a white pawn, bitset 5
    assert_eq!(b.get_bitboard_index_at_square(Square::new(52)), Some(5));
    // e8 holds the black king, bitset 6
    assert_eq!(b.get_bitboard_index_at_square(Square::new(4)), Some(6));
    // e4 is empty
    assert_eq!(b.get_bitboard_index_at_square(Square::new(36)), None);

    b.del_piece(Square::new(52));
    assert_eq!(b.get_bitboard_index_at_square(Square::new(52)), None);
    assert_eq!(b.get_bitboard(5).to_int(), 0x00FF000000000000 & !(1u64 << 52));
    // deleting from an empty square changes nothing
    b.del_piece(Square::new(36));
    assert_eq!(b.get_bitboard(5).to_int(), 0x00FF000000000000 & !(1u64 << 52));
}
