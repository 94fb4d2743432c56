use linkus::bitboard::Bitboard;
use linkus::move_tables::gen_tables;
use linkus::sliding_attacks::get_bishop_rays;
use linkus::sliding_attacks::get_queen_rays;
use linkus::sliding_attacks::get_rook_rays;
use linkus::square::Square;

fn bits(squares: &[u8]) -> u64 {
    let mut b = 0u64;
    for s in squares {
        b |= 1u64 << s;
    }
    b
}

#[test]
fn knight_table_in_the_corner_and_center() {
    let t = gen_tables();
    // a knight on a1 (56) reaches b3 (41) and c2 (50) only
    assert_eq!(t.knight_attacks[56], bits(&[41, 50]));
    // a knight on h1 (63) reaches g3 (46) and f2 (53) only
    assert_eq!(t.knight_attacks[63], bits(&[46, 53]));
    // a knight on e4 (36) reaches all eight squares
    assert_eq!(t.knight_attacks[36], bits(&[19, 21, 26, 30, 42, 46, 51, 53]));
}

#[test]
fn king_table_in_the_corner_and_center() {
    let t = gen_tables();
    // a king on a8 (0) reaches b8, a7 and b7
    assert_eq!(t.king_attacks[0], bits(&[1, 8, 9]));
    // a king on e4 (36) reaches all eight neighbours
    assert_eq!(t.king_attacks[36], bits(&[27, 28, 29, 35, 37, 43, 44, 45]));
}

#[test]
fn pawn_tables_push_and_attack_without_wraparound() {
    let t = gen_tables();
    // a white pawn on e2 (52) pushes to e3 (44), double-pushes to e4 (36),
    // and attacks d3 (43) and f3 (45)
    assert_eq!(t.pawn_pushes[0][52], bits(&[44]));
    assert_eq!(t.pawn_double_pushes[0][52], bits(&[36]));
    assert_eq!(t.pawn_attacks[0][52], bits(&[43, 45]));
    // a white pawn on a2 (48) attacks b3 (41) only: no wrap to the h-file
    assert_eq!(t.pawn_attacks[0][48], bits(&[41]));
    // a black pawn on e7 (12) pushes to e6 (20), double-pushes to e5 (28),
    // and attacks d6 (19) and f6 (21)
    assert_eq!(t.pawn_pushes[1][12], bits(&[20]));
    assert_eq!(t.pawn_double_pushes[1][12], bits(&[28]));
    assert_eq!(t.pawn_attacks[1][12], bits(&[19, 21]));
    // double pushes exist only on the starting ranks
    assert_eq!(t.pawn_double_pushes[0][44], 0);
    assert_eq!(t.pawn_double_pushes[1][20], 0);
}

#[test]
fn rook_rays_on_an_empty_board() {
    let rays = get_rook_rays(Square::new(56), Bitboard::empty());
    // from a1: the whole a-file up and the whole first rank right
    assert_eq!(
        rays.to_int(),
        bits(&[0, 8, 16, 24, 32, 40, 48, 57, 58, 59, 60, 61, 62, 63])
    );
}

#[test]
fn rook_rays_stop_at_the_first_blocker_and_keep_it() {
    // blocker on a4 (32): the north ray from a1 is a2, a3, a4 and no more
    let rays = get_rook_rays(Square::new(56), Bitboard::new(1u64 << 32));
    assert_eq!(
        rays.to_int(),
        bits(&[32, 40, 48, 57, 58, 59, 60, 61, 62, 63])
    );
}

#[test]
fn bishop_rays_with_blockers() {
    // bishop on e4 (36), blockers on c6 (18) and g2 (54)
    let blockers = Bitboard::new(bits(&[18, 54]));
    let rays = get_bishop_rays(Square::new(36), blockers);
    // NW: d5 (27), c6 (18, included); NE: f5 (29), g6 (22), h7 (15);
    // SW: d3 (43), c2 (50), b1 (57); SE: f3 (45), g2 (54, included)
    assert_eq!(rays.to_int(), bits(&[27, 18, 29, 22, 15, 43, 50, 57, 45, 54]));
}

#[test]
fn queen_rays_are_the_union_of_rook_and_bishop_rays() {
    let occ = Bitboard::new(bits(&[18, 54, 32, 39]));
    let q = get_queen_rays(Square::new(36), occ).to_int();
    let r = get_rook_rays(Square::new(36), occ).to_int();
    let b = get_bishop_rays(Square::new(36), occ).to_int();
    assert_eq!(q, r | b);
}

#[test]
fn rays_never_hold_their_own_square_nor_wrap_around() {
    for sq in 0..64u8 {
        for occ in [0u64, 0xFFFF00000000FFFF, 0x55AA55AA55AA55AA] {
            let o = Bitboard::new(occ);
            let rook = get_rook_rays(Square::new(sq), o).to_int();
            let bishop = get_bishop_rays(Square::new(sq), o).to_int();
            let queen = get_queen_rays(Square::new(sq), o).to_int();
            assert_eq!(rook & (1u64 << sq), 0);
            assert_eq!(bishop & (1u64 << sq), 0);
            assert_eq!(queen & (1u64 << sq), 0);
            // every rook-ray square shares the origin's file or rank
            for j in 0..64u8 {
                if rook & (1u64 << j) != 0 {
                    assert!(j % 8 == sq % 8 || j / 8 == sq / 8);
                }
                if bishop & (1u64 << j) != 0 {
                    let df = (j % 8) as i32 - (sq % 8) as i32;
                    let dr = (j / 8) as i32 - (sq / 8) as i32;
                    assert!(df.abs() == dr.abs() && df != 0);
                }
            }
        }
    }
}
