use linkus::piece::Piece;
use linkus::piece_move::Move;
use linkus::piece_move::MoveList;
use linkus::piece_move::SpecialMove;
use linkus::square::Square;

fn all_tags() -> Vec<SpecialMove> {
    vec![
        SpecialMove::Quiet,
        SpecialMove::DoublePush,
        SpecialMove::KingsideCastle,
        SpecialMove::QueensideCastle,
        SpecialMove::Capture,
        SpecialMove::EnPassant,
        SpecialMove::Promotion(Piece::Knight),
        SpecialMove::Promotion(Piece::Bishop),
        SpecialMove::Promotion(Piece::Rook),
        SpecialMove::Promotion(Piece::Queen),
        SpecialMove::PromotionCapture(Piece::Knight),
        SpecialMove::PromotionCapture(Piece::Bishop),
        SpecialMove::PromotionCapture(Piece::Rook),
        SpecialMove::PromotionCapture(Piece::Queen),
    ]
}

#[test]
fn encoding_round_trips_every_tag() {
    for tag in all_tags() {
        let mv = Move::new(Square::new(52), Square::new(36), tag);
        assert_eq!(mv.get_origin().to_int(), 52);
        assert_eq!(mv.get_target().to_int(), 36);
        assert_eq!(mv.get_special(), tag);
    }
}

#[test]
fn encoding_round_trips_every_square_pair_for_quiet_moves() {
    for origin in 0..64u8 {
        for target in 0..64u8 {
            let mv = Move::new(Square::new(origin), Square::new(target), SpecialMove::Quiet);
            assert_eq!(mv.get_origin().to_int(), origin);
            assert_eq!(mv.get_target().to_int(), target);
            assert_eq!(mv.get_special(), SpecialMove::Quiet);
        }
    }
}

#[test]
fn null_move_decodes_to_zero_squares() {
    let mv = Move::none();
    assert_eq!(mv.get_origin().to_int(), 0);
    assert_eq!(mv.get_target().to_int(), 0);
    assert_eq!(mv.get_special(), SpecialMove::Quiet);
}

#[test]
fn move_list_push_take_peek() {
    let a = Move::new(Square::new(52), Square::new(36), SpecialMove::DoublePush);
    let b = Move::new(Square::new(57), Square::new(42), SpecialMove::Quiet);
    let mut list = MoveList::empty();
    assert!(list.peek().is_none());
    assert!(list.take().is_none());
    assert_eq!(list.len(), 0);

    list.add(a);
    list.add(b);
    assert_eq!(list.len(), 2);

    // peek returns the last move without removing it
    let peeked = list.peek().unwrap();
    assert_eq!(peeked.get_origin().to_int(), 57);
    assert_eq!(list.len(), 2);

    let taken = list.take().unwrap();
    assert_eq!(taken.get_origin().to_int(), 57);
    assert_eq!(list.len(), 1);
    let last = list.peek().unwrap();
    assert_eq!(last.get_origin().to_int(), 52);
}

#[test]
fn into_vec_preserves_insertion_order() {
    let a = Move::new(Square::new(52), Square::new(44), SpecialMove::Quiet);
    let b = Move::new(Square::new(52), Square::new(36), SpecialMove::DoublePush);
    let mut list = MoveList::empty();
    list.add(a);
    list.add(b);
    let v = list.into_vec();
    assert_eq!(v.len(), 2);
    assert_eq!(v[0].get_target().to_int(), 44);
    assert_eq!(v[1].get_target().to_int(), 36);
    // the list itself is untouched
    assert_eq!(list.len(), 2);
}
