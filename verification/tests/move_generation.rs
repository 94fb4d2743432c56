use linkus::board::Board;
use linkus::move_tables::gen_tables;
use linkus::piece::Piece;
use linkus::piece_move::Move;
use linkus::piece_move::SpecialMove;
use linkus::square::Square;

fn moves_of(board: &mut Board) -> Vec<Move> {
    let t = gen_tables();
    board.gen_moves(&t);
    board.get_move_list().into_vec()
}

#[test]
fn the_start_position_has_twenty_moves_and_no_captures() {
    let mut b = Board::start();
    let moves = moves_of(&mut b);
    assert_eq!(moves.len(), 20);

    let mut single_pushes = 0;
    let mut double_pushes = 0;
    let mut knight_moves = 0;
    for mv in &moves {
        match mv.get_special() {
            SpecialMove::Quiet => {
                // from a pawn square or a knight square
                let origin = mv.get_origin().to_int();
                if (48..56).contains(&origin) {
                    single_pushes += 1;
                } else {
                    assert!(origin == 57 || origin == 62);
                    knight_moves += 1;
                }
            }
            SpecialMove::DoublePush => double_pushes += 1,
            other => panic!("unexpected move kind at the start: {:?}", other),
        }
    }
    assert_eq!(single_pushes, 8);
    assert_eq!(double_pushes, 8);
    assert_eq!(knight_moves, 4);
}

#[test]
fn kings_and_sliders_move_and_capture() {
    // white: king e1, rook a1, bishop c4; black: king e8, pawn a7
    let mut b = Board::new("4k3/p7/8/8/2B5/8/8/R3K3 w - - 0 1").unwrap();
    let moves = moves_of(&mut b);
    // the bishop on c4 can capture the pawn on a6? no: a6 is empty; it
    // captures nothing but reaches a6 and f7; check a few targets exist
    let has = |o: u8, t: u8, s: SpecialMove| {
        moves.iter().any(|m| {
            m.get_origin().to_int() == o && m.get_target().to_int() == t && m.get_special() == s
        })
    };
    // rook a1 up the a-file to a7 captures the pawn (a1=56, a7=8)
    assert!(has(56, 8, SpecialMove::Capture));
    // rook a1 to a2 quietly (48)
    assert!(has(56, 48, SpecialMove::Quiet));
    // king e1 to d2 (51)
    assert!(has(60, 51, SpecialMove::Quiet));
    // bishop c4 (34) to f7 (13)
    assert!(has(34, 13, SpecialMove::Quiet));
    // the rook may not jump over the pawn to a8
    assert!(!moves.iter().any(|m| m.get_origin().to_int() == 56 && m.get_target().to_int() == 0));
}

#[test]
fn pawn_promotions_are_expanded_four_ways() {
    let mut b = Board::new("k7/4P3/8/8/8/8/8/K7 w - - 0 1").unwrap();
    let moves = moves_of(&mut b);
    let promos: Vec<&Move> = moves
        .iter()
        .filter(|m| matches!(m.get_special(), SpecialMove::Promotion(_)))
        .collect();
    assert_eq!(promos.len(), 4);
    for p in [Piece::Queen, Piece::Rook, Piece::Bishop, Piece::Knight] {
        assert!(moves.iter().any(|m| m.get_special() == SpecialMove::Promotion(p)
            && m.get_origin().to_int() == 12
            && m.get_target().to_int() == 4));
    }
    // never a plain quiet push onto the last rank
    assert!(!moves
        .iter()
        .any(|m| m.get_origin().to_int() == 12 && m.get_special() == SpecialMove::Quiet));
}

#[test]
fn promotion_captures_are_expanded_four_ways() {
    // white pawn e7, black rook d8, kings far away
    let mut b = Board::new("3r3k/4P3/8/8/8/8/8/K7 w - - 0 1").unwrap();
    let moves = moves_of(&mut b);
    let promo_caps: Vec<&Move> = moves
        .iter()
        .filter(|m| matches!(m.get_special(), SpecialMove::PromotionCapture(_)))
        .collect();
    assert_eq!(promo_caps.len(), 4);
    for m in promo_caps {
        assert_eq!(m.get_origin().to_int(), 12);
        assert_eq!(m.get_target().to_int(), 3);
    }
}

#[test]
fn en_passant_is_offered_after_a_double_push() {
    let t = gen_tables();
    // white pawn e2, black pawn d4; white double-pushes e2e4
    let mut b = Board::new("k7/8/8/8/3p4/8/4P3/K7 w - - 0 1").unwrap();
    b.gen_moves(&t);
    let e2e4 = Move::new(Square::new(52), Square::new(36), SpecialMove::DoublePush);
    assert!(b.make_move(&t, e2e4));
    // black to move: d4 pawn may capture en passant on e3 (44)
    b.gen_moves(&t);
    let moves = b.get_move_list().into_vec();
    assert!(moves.iter().any(|m| m.get_special() == SpecialMove::EnPassant
        && m.get_origin().to_int() == 35
        && m.get_target().to_int() == 44));
}

#[test]
fn castling_moves_require_rights_empty_path_and_safety() {
    let mut b = Board::new("r3k2r/8/8/8/8/8/8/R3K2R w KQkq - 0 1").unwrap();
    let moves = moves_of(&mut b);
    assert!(moves.iter().any(|m| m.get_special() == SpecialMove::KingsideCastle
        && m.get_origin().to_int() == 60
        && m.get_target().to_int() == 62));
    assert!(moves.iter().any(|m| m.get_special() == SpecialMove::QueensideCastle
        && m.get_origin().to_int() == 60
        && m.get_target().to_int() == 58));

    // without the rights no castle move is offered
    let mut b = Board::new("r3k2r/8/8/8/8/8/8/R3K2R w kq - 0 1").unwrap();
    let moves = moves_of(&mut b);
    assert!(!moves.iter().any(|m| matches!(
        m.get_special(),
        SpecialMove::KingsideCastle | SpecialMove::QueensideCastle
    )));

    // a piece between king and rook blocks the castle
    let mut b = Board::new("r3k2r/8/8/8/8/8/8/R3KB1R w KQkq - 0 1").unwrap();
    let moves = moves_of(&mut b);
    assert!(!moves.iter().any(|m| m.get_special() == SpecialMove::KingsideCastle));
    assert!(moves.iter().any(|m| m.get_special() == SpecialMove::QueensideCastle));

    // the king's first step may not pass through an attacked square:
    // a black rook on f8 covers f1
    let mut b = Board::new("r4r2/8/8/8/8/8/8/k3K2R w K - 0 1").unwrap();
    let moves = moves_of(&mut b);
    assert!(!moves.iter().any(|m| m.get_special() == SpecialMove::KingsideCastle));
}

#[test]
fn the_en_passant_offer_expires_after_one_move() {
    let t = gen_tables();
    let mut b = Board::new("k7/8/8/8/3p4/8/4P3/K7 w - - 0 1").unwrap();
    let e2e4 = Move::new(Square::new(52), Square::new(36), SpecialMove::DoublePush);
    assert!(b.make_move(&t, e2e4));
    // black declines the capture with a quiet king move
    let ka8b8 = Move::new(Square::new(0), Square::new(1), SpecialMove::Quiet);
    assert!(b.make_move(&t, ka8b8));
    let ka1b1 = Move::new(Square::new(56), Square::new(57), SpecialMove::Quiet);
    assert!(b.make_move(&t, ka1b1));
    // the double push is two plies old: no en-passant move is offered
    b.gen_moves(&t);
    let moves = b.get_move_list().into_vec();
    assert!(!moves.iter().any(|m| m.get_special() == SpecialMove::EnPassant));
}
