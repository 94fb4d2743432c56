use linkus::board::Board;
use linkus::color::Color;
use linkus::evaluate::eval;
use linkus::move_tables::gen_tables;
use linkus::negamax::negamax;
use linkus::negamax::negamax_driver;
use linkus::negamax::negamax_plain;
use linkus::negamax::negamax_plain_driver;
use linkus::negamax::CHECKMATE_SCORE;
use linkus::parse::parse_move;
use linkus::parse::parse_position;
use linkus::perft::perft_driver;

#[test]
fn perft_counts_from_the_start_position() {
    let t = gen_tables();
    let mut b = Board::start();
    assert_eq!(perft_driver(&mut b, &t, 0), 1);
    assert_eq!(perft_driver(&mut b, &t, 1), 20);
    assert_eq!(perft_driver(&mut b, &t, 2), 400);
    assert_eq!(perft_driver(&mut b, &t, 3), 8902);
}

#[test]
fn perft_depth_four_from_the_start_position() {
    let t = gen_tables();
    let mut b = Board::start();
    assert_eq!(perft_driver(&mut b, &t, 4), 197281);
}

#[test]
fn evaluation_is_zero_sum_between_the_sides() {
    let b = Board::start();
    let w = eval(&b, Color::WHITE);
    let bl = eval(&b, Color::BLACK);
    assert_eq!(w, -bl);
    assert!(w.abs() < 10000000);
}

#[test]
fn evaluation_counts_material() {
    // a white rook against a lone king is a large plus for White
    let up_a_rook = Board::new("4k3/8/8/8/8/8/8/R3K3 w - - 0 1").unwrap();
    assert!(eval(&up_a_rook, Color::WHITE) > 400);
    assert!(eval(&up_a_rook, Color::BLACK) < -400);
}

#[test]
fn a_checkmated_side_scores_as_checkmate() {
    let t = gen_tables();
    // the fastest mate: White is checkmated with the queen on h4
    let mut b = parse_position(&t, "position startpos moves f2f3 e7e5 g2g4 d8h4").unwrap();
    assert!(b.is_in_check());
    assert!(matches!(b.get_to_move(), Color::WHITE));
    assert_eq!(negamax_driver(&mut b, &t, -10000000, 10000000, 1), CHECKMATE_SCORE);
    assert_eq!(negamax_plain_driver(&mut b, &t, 1), CHECKMATE_SCORE);
    assert_eq!(negamax_driver(&mut b, &t, -10000000, 10000000, 3), CHECKMATE_SCORE);
}

#[test]
fn a_stalemated_side_scores_exactly_zero() {
    let t = gen_tables();
    // Black to move has no legal move and is not in check
    let mut b = Board::new("7k/5Q2/6K1/8/8/8/8/8 b - - 0 1").unwrap();
    assert_eq!(negamax_driver(&mut b, &t, -10000000, 10000000, 1), 0);
    assert_eq!(negamax_plain_driver(&mut b, &t, 1), 0);
    assert_eq!(negamax_driver(&mut b, &t, -10000000, 10000000, 2), 0);
}

#[test]
fn alpha_beta_and_plain_negamax_agree() {
    let t = gen_tables();
    let fens = [
        "rnbqkbnr/pppppppp/8/8/8/8/PPPPPPPP/RNBQKBNR w KQkq - 0 1",
        "r1bqkbnr/pppp1ppp/2n5/4p3/2B1P3/5N2/PPPP1PPP/RNBQK2R b KQkq - 3 3",
        "4k3/8/8/3p4/8/8/3P4/4K3 w - - 0 1",
        "7k/5Q2/6K1/8/8/8/8/8 w - - 0 1",
    ];
    for fen in fens {
        for depth in 1..=3u8 {
            let mut a = Board::new(fen).unwrap();
            let mut p = Board::new(fen).unwrap();
            let score_ab = negamax_driver(&mut a, &t, -10000000, 10000000, depth);
            let score_pl = negamax_plain_driver(&mut p, &t, depth);
            assert_eq!(score_ab, score_pl, "scores differ on {} at depth {}", fen, depth);

            let mut a = Board::new(fen).unwrap();
            let mut p = Board::new(fen).unwrap();
            let mv_ab = negamax(&mut a, &t, depth);
            let mv_pl = negamax_plain(&mut p, &t, depth);
            assert_eq!(
                mv_ab.get_origin().to_int(),
                mv_pl.get_origin().to_int(),
                "best-move origins differ on {} at depth {}",
                fen,
                depth
            );
            assert_eq!(mv_ab.get_target().to_int(), mv_pl.get_target().to_int());
            assert_eq!(mv_ab.get_special(), mv_pl.get_special());
        }
    }
}

#[test]
fn the_root_search_returns_a_generated_move() {
    let t = gen_tables();
    let mut b = Board::start();
    let mv = negamax(&mut b, &t, 2);
    b.gen_moves(&t);
    let moves = b.get_move_list().into_vec();
    assert!(moves.iter().any(|m| {
        m.get_origin().to_int() == mv.get_origin().to_int()
            && m.get_target().to_int() == mv.get_target().to_int()
            && m.get_special() == mv.get_special()
    }));
}

#[test]
fn the_search_takes_a_hanging_queen() {
    let t = gen_tables();
    // a black queen stands undefended on d5; white rook d1 takes it
    let mut b = Board::new("4k3/8/8/3q4/8/8/8/3RK3 w - - 0 1").unwrap();
    let mv = negamax(&mut b, &t, 2);
    assert_eq!(mv.get_origin().to_int(), 59);
    assert_eq!(mv.get_target().to_int(), 27);
}

#[test]
fn parse_move_finds_moves_from_coordinates() {
    let t = gen_tables();
    let mut b = Board::start();
    let mv = parse_move(&mut b, &t, "e2e4").unwrap();
    assert_eq!(mv.get_origin().to_int(), 52);
    assert_eq!(mv.get_target().to_int(), 36);
    // a move no piece can make is rejected
    assert!(parse_move(&mut b, &t, "e3e4").is_none());
    // short or malformed strings are rejected, never a crash
    assert!(parse_move(&mut b, &t, "e2").is_none());
    assert!(parse_move(&mut b, &t, "zzzz").is_none());
}

#[test]
fn parse_move_respects_the_promotion_letter() {
    let t = gen_tables();
    let mut b = Board::new("k7/4P3/8/8/8/8/8/K7 w - - 0 1").unwrap();
    let q = parse_move(&mut b, &t, "e7e8q").unwrap();
    assert!(matches!(
        q.get_special(),
        linkus::piece_move::SpecialMove::Promotion(linkus::piece::Piece::Queen)
    ));
    let n = parse_move(&mut b, &t, "e7e8n").unwrap();
    assert!(matches!(
        n.get_special(),
        linkus::piece_move::SpecialMove::Promotion(linkus::piece::Piece::Knight)
    ));
    // a promotion without its letter does not match
    assert!(parse_move(&mut b, &t, "e7e8").is_none());
}

#[test]
fn parse_position_loads_startpos_fen_and_moves() {
    let t = gen_tables();
    let b = parse_position(&t, "position startpos").unwrap();
    assert_eq!(b.get_all_pieces().to_int(), 0xFFFF00000000FFFF);

    let b = parse_position(&t, "position fen 4k3/8/8/8/8/8/8/R3K3 w - - 0 1").unwrap();
    assert_eq!(b.get_bitboard(2).to_int(), 1u64 << 56);

    let b = parse_position(&t, "position startpos moves e2e4 e7e5").unwrap();
    assert_eq!(
        b.get_bitboard(5).to_int(),
        (0x00FF000000000000 & !(1u64 << 52)) | (1u64 << 36)
    );
    assert_eq!(b.get_bitboard(11).to_int(), (0xFF00 & !(1u64 << 12)) | (1u64 << 28));
    assert!(matches!(b.get_to_move(), Color::WHITE));

    assert!(parse_position(&t, "position nonsense").is_none());
    assert!(parse_position(&t, "position startpos moves e3e4").is_none());
}

#[test]
fn perft_counts_from_a_castling_heavy_position() {
    let t = gen_tables();
    // both sides may castle either way; many captures and pins
    let mut b = Board::new(
        "r3k2r/p1ppqpb1/bn2pnp1/3PN3/1p2P3/2N2Q1p/PPPBBPPP/R3K2R w KQkq - 0 1",
    )
    .unwrap();
    assert_eq!(perft_driver(&mut b, &t, 1), 48);
    assert_eq!(perft_driver(&mut b, &t, 2), 2039);
}

#[test]
fn perft_counts_from_an_en_passant_pin_position() {
    let t = gen_tables();
    // the en-passant capture here would expose the white king to the rook
    let mut b = Board::new("8/2p5/3p4/KP5r/1R3p1k/8/4P1P1/8 w - - 0 1").unwrap();
    assert_eq!(perft_driver(&mut b, &t, 1), 14);
    assert_eq!(perft_driver(&mut b, &t, 2), 191);
    assert_eq!(perft_driver(&mut b, &t, 3), 2812);
    assert_eq!(perft_driver(&mut b, &t, 4), 43238);
}
