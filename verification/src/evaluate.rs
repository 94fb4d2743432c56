//! A static evaluation of a position: material plus piece-square bonuses,
//! positive when White stands better. The weights are the evaluator's own
//! business; what the search relies on is that the score is a pure
//! function of the position and stays strictly inside the checkmate
//! scores.

use vstd::prelude::*;
use crate::bitboard::Bitboard;
use crate::bitboard::squares_of;
use crate::bitboard::lemma_pop_lsb;
use crate::bitboard::lemma_lsb_props;
use crate::bitboard::popcount;
use crate::board::Board;
use crate::board::lemma_board_view;
use crate::color::Color;
use crate::square::Square;

verus! {

/// The material value of each bitset index, negative for Black's pieces.
pub open spec fn piece_value_of(i: int) -> int {
    if i == 0 {
        10000
    } else if i == 1 {
        1000
    } else if i == 2 {
        500
    } else if i == 3 {
        350
    } else if i == 4 {
        300
    } else if i == 5 {
        100
    } else if i == 6 {
        -10000
    } else if i == 7 {
        -1000
    } else if i == 8 {
        -500
    } else if i == 9 {
        -350
    } else if i == 10 {
        -300
    } else {
        -100
    }
}

/// The pawn piece-square table, from White's side.
pub open spec fn pst_pawn_values() -> Seq<i32> {
    seq![
        90i32, 90, 90, 90, 90, 90, 90, 90, 30, 30, 30, 40, 40, 30, 30, 30, 20, 20, 20, 30, 30, 30,
        20, 20, 10, 10, 10, 20, 20, 10, 10, 10, 0, 0, 10, 20, 20, 5, 5, 5, 0, 0, 0, 5, 5, 0, 0, 0,
        0, 0, 0, (-10i32), (-10i32), 0, 0, 0, 0, 0, 0, 0, 0, 0, 0, 0,
    ]
}

/// The knight piece-square table.
pub open spec fn pst_knight_values() -> Seq<i32> {
    seq![
        (-5i32), 0, 0, 0, 0, 0, 0, (-5i32), (-5i32), 0, 0, 10, 10, 0, 0, (-5i32), (-5i32), 5, 20, 20, 20, 20, 5, (-5i32), (-5i32),
        10, 20, 30, 30, 20, 10, (-5i32), (-5i32), 10, 20, 30, 30, 20, 10, (-5i32), (-5i32), 5, 20, 10, 10, 20, 5, (-5i32),
        (-5i32), 0, 0, 0, 0, 0, 0, (-5i32), (-5i32), (-10i32), 0, 0, 0, 0, (-10i32), (-5i32),
    ]
}

/// The bishop piece-square table.
pub open spec fn pst_bishop_values() -> Seq<i32> {
    seq![
        0i32, 0, 0, 0, 0, 0, 0, 0, 0, 0, 0, 0, 0, 0, 0, 0, 0, 0, 0, 10, 10, 0, 0, 0, 0, 0, 10, 20,
        20, 10, 0, 0, 0, 0, 10, 20, 20, 10, 0, 0, 0, 10, 0, 0, 0, 0, 10, 0, 0, 30, 0, 0, 0, 0, 30,
        0, 0, 0, (-10i32), 0, 0, (-10i32), 0, 0,
    ]
}

/// The rook piece-square table.
pub open spec fn pst_rook_values() -> Seq<i32> {
    seq![
        50i32, 50, 50, 50, 50, 50, 50, 50, 50, 50, 50, 50, 50, 50, 50, 50, 0, 0, 10, 20, 20, 10, 0,
        0, 0, 0, 10, 20, 20, 10, 0, 0, 0, 0, 10, 20, 20, 10, 0, 0, 0, 0, 10, 20, 20, 10, 0, 0, 0,
        0, 10, 20, 20, 10, 0, 0, 0, 0, 0, 20, 20, 0, 0, 0,
    ]
}

/// The king piece-square table.
pub open spec fn pst_king_values() -> Seq<i32> {
    seq![
        0i32, 0, 0, 0, 0, 0, 0, 0, 0, 0, 5, 5, 5, 5, 0, 0, 0, 5, 5, 10, 10, 5, 5, 0, 0, 5, 10, 20,
        20, 10, 5, 0, 0, 5, 10, 20, 20, 10, 5, 0, 0, 0, 5, 10, 10, 5, 0, 0, 0, 5, 5, (-5i32), (-5i32), 0, 5,
        0, 0, 0, 5, 0, (-15i32), 0, 10, 0,
    ]
}

/// The piece-square bonus a piece of bitset index `i` earns on square
/// `sq`: White's tables read directly, Black's mirrored and negated, and
/// queens earn none.
pub open spec fn pst_bonus(i: int, sq: u8) -> int
    recommends
        sq < 64,
{
    if i == 0 {
        pst_king_values()[sq as int] as int
    } else if i == 2 {
        pst_rook_values()[sq as int] as int
    } else if i == 3 {
        pst_bishop_values()[sq as int] as int
    } else if i == 4 {
        pst_knight_values()[sq as int] as int
    } else if i == 5 {
        pst_pawn_values()[sq as int] as int
    } else if i == 6 {
        -(pst_king_values()[63 - sq as int] as int)
    } else if i == 8 {
        -(pst_rook_values()[63 - sq as int] as int)
    } else if i == 9 {
        -(pst_bishop_values()[63 - sq as int] as int)
    } else if i == 10 {
        -(pst_knight_values()[63 - sq as int] as int)
    } else if i == 11 {
        -(pst_pawn_values()[63 - sq as int] as int)
    } else {
        0
    }
}

/// The summed piece-square bonuses of bitset `i` over a square list.
pub open spec fn pst_sum(i: int, ts: Seq<u8>) -> int
    decreases ts.len(),
{
    if ts.len() == 0 {
        0
    } else {
        pst_bonus(i, ts[0]) + pst_sum(i, ts.drop_first())
    }
}

/// The material and piece-square score of bitsets `i` and beyond.
pub open spec fn eval_sum(bbs: Seq<u64>, i: int) -> int
    decreases 12 - i,
{
    if i < 0 || i >= 12 {
        0
    } else {
        piece_value_of(i) * popcount(bbs[i]) + pst_sum(i, squares_of(bbs[i])) + eval_sum(bbs, i + 1)
    }
}

/// The score of a position from White's side: a pure function of the
/// twelve bitsets alone.
pub open spec fn spec_eval_white(bbs: Seq<u64>) -> int {
    eval_sum(bbs, 0)
}

/// The score of a position from the given color's perspective: White's
/// score, negated for Black. Zero-sum by construction.
pub open spec fn spec_eval(bbs: Seq<u64>, color: Color) -> int {
    match color {
        Color::WHITE => spec_eval_white(bbs),
        Color::BLACK => -spec_eval_white(bbs),
    }
}

/// Every piece-square bonus lies between -100 and 100.
proof fn lemma_pst_bonus_bound(i: int, sq: u8)
    requires
        sq < 64,
    ensures
        -100 <= pst_bonus(i, sq) <= 100,
{
    assert(forall|j: int| 0 <= j < 64 ==> -100 <= #[trigger] pst_pawn_values()[j] <= 100);
    assert(forall|j: int| 0 <= j < 64 ==> -100 <= #[trigger] pst_knight_values()[j] <= 100);
    assert(forall|j: int| 0 <= j < 64 ==> -100 <= #[trigger] pst_bishop_values()[j] <= 100);
    assert(forall|j: int| 0 <= j < 64 ==> -100 <= #[trigger] pst_rook_values()[j] <= 100);
    assert(forall|j: int| 0 <= j < 64 ==> -100 <= #[trigger] pst_king_values()[j] <= 100);
}

proof fn lemma_pst_sum_bound(i: int, ts: Seq<u8>)
    requires
        forall|k: int| 0 <= k < ts.len() ==> (#[trigger] ts[k]) < 64,
    ensures
        -100 * ts.len() <= pst_sum(i, ts) <= 100 * ts.len(),
    decreases ts.len(),
{
    if ts.len() != 0 {
        lemma_pst_bonus_bound(i, ts[0]);
        assert(forall|k: int| 0 <= k < ts.drop_first().len() ==> (#[trigger] ts.drop_first()[k])
            < 64);
        lemma_pst_sum_bound(i, ts.drop_first());
    }
}

proof fn lemma_eval_sum_bound(bbs: Seq<u64>, i: int)
    requires
        0 <= i <= 12,
    ensures
        -646400 * (12 - i) <= eval_sum(bbs, i) <= 646400 * (12 - i),
    decreases 12 - i,
{
    if 0 <= i < 12 {
        crate::bitboard::lemma_popcount_bound(bbs[i]);
        crate::bitboard::lemma_squares_of_len(bbs[i]);
        crate::bitboard::lemma_squares_of_bounds(bbs[i]);
        lemma_pst_sum_bound(i, squares_of(bbs[i]));
        lemma_eval_sum_bound(bbs, i + 1);
        assert(-640000 <= piece_value_of(i) * popcount(bbs[i]) <= 640000) by (nonlinear_arith)
            requires
                -10000 <= piece_value_of(i) <= 10000 && 0 <= popcount(bbs[i]) <= 64,
        ;
    }
}

/// The evaluation stays strictly inside the checkmate scores.
pub proof fn lemma_spec_eval_bounds(bbs: Seq<u64>, color: Color)
    ensures
        -10000000 < spec_eval(bbs, color) < 10000000,
{
    lemma_eval_sum_bound(bbs, 0);
}

/// The material value of the piece stored at a bitset index, negative for
/// Black's pieces.
fn piece_value(i: usize) -> (r: i32)
    requires
        i < 12,
    ensures
        -10000 <= r <= 10000,
        r == piece_value_of(i as int),
{
    match i {
        0 => 10000,
        1 => 1000,
        2 => 500,
        3 => 350,
        4 => 300,
        5 => 100,
        6 => -10000,
        7 => -1000,
        8 => -500,
        9 => -350,
        10 => -300,
        _ => -100,
    }
}

fn pst_pawn() -> (r: Vec<i32>)
    ensures
        r@.len() == 64,
        r@ == pst_pawn_values(),
        forall|j: int| 0 <= j < 64 ==> -100 <= #[trigger] r@[j] <= 100,
{
    let r = vec![
        90i32, 90, 90, 90, 90, 90, 90, 90, 30, 30, 30, 40, 40, 30, 30, 30, 20, 20, 20, 30, 30, 30,
        20, 20, 10, 10, 10, 20, 20, 10, 10, 10, 0, 0, 10, 20, 20, 5, 5, 5, 0, 0, 0, 5, 5, 0, 0, 0,
        0, 0, 0, -10, -10, 0, 0, 0, 0, 0, 0, 0, 0, 0, 0, 0,
    ];
    assert(r@ =~= pst_pawn_values());
    assert(forall|j: int| 0 <= j < 64 ==> -100 <= #[trigger] r@[j] <= 100) by {
        assert(r@.len() == 64);
    }
    r
}

fn pst_knight() -> (r: Vec<i32>)
    ensures
        r@.len() == 64,
        r@ == pst_knight_values(),
        forall|j: int| 0 <= j < 64 ==> -100 <= #[trigger] r@[j] <= 100,
{
    let r = vec![
        (-5i32), 0, 0, 0, 0, 0, 0, -5, -5, 0, 0, 10, 10, 0, 0, -5, -5, 5, 20, 20, 20, 20, 5, -5, -5,
        10, 20, 30, 30, 20, 10, -5, -5, 10, 20, 30, 30, 20, 10, -5, -5, 5, 20, 10, 10, 20, 5, -5,
        -5, 0, 0, 0, 0, 0, 0, -5, -5, -10, 0, 0, 0, 0, -10, -5,
    ];
    assert(r@ =~= pst_knight_values());
    assert(forall|j: int| 0 <= j < 64 ==> -100 <= #[trigger] r@[j] <= 100) by {
        assert(r@.len() == 64);
    }
    r
}

fn pst_bishop() -> (r: Vec<i32>)
    ensures
        r@.len() == 64,
        r@ == pst_bishop_values(),
        forall|j: int| 0 <= j < 64 ==> -100 <= #[trigger] r@[j] <= 100,
{
    let r = vec![
        0i32, 0, 0, 0, 0, 0, 0, 0, 0, 0, 0, 0, 0, 0, 0, 0, 0, 0, 0, 10, 10, 0, 0, 0, 0, 0, 10, 20,
        20, 10, 0, 0, 0, 0, 10, 20, 20, 10, 0, 0, 0, 10, 0, 0, 0, 0, 10, 0, 0, 30, 0, 0, 0, 0, 30,
        0, 0, 0, -10, 0, 0, -10, 0, 0,
    ];
    assert(r@ =~= pst_bishop_values());
    assert(forall|j: int| 0 <= j < 64 ==> -100 <= #[trigger] r@[j] <= 100) by {
        assert(r@.len() == 64);
    }
    r
}

fn pst_rook() -> (r: Vec<i32>)
    ensures
        r@.len() == 64,
        r@ == pst_rook_values(),
        forall|j: int| 0 <= j < 64 ==> -100 <= #[trigger] r@[j] <= 100,
{
    let r = vec![
        50i32, 50, 50, 50, 50, 50, 50, 50, 50, 50, 50, 50, 50, 50, 50, 50, 0, 0, 10, 20, 20, 10, 0,
        0, 0, 0, 10, 20, 20, 10, 0, 0, 0, 0, 10, 20, 20, 10, 0, 0, 0, 0, 10, 20, 20, 10, 0, 0, 0,
        0, 10, 20, 20, 10, 0, 0, 0, 0, 0, 20, 20, 0, 0, 0,
    ];
    assert(r@ =~= pst_rook_values());
    assert(forall|j: int| 0 <= j < 64 ==> -100 <= #[trigger] r@[j] <= 100) by {
        assert(r@.len() == 64);
    }
    r
}

fn pst_king() -> (r: Vec<i32>)
    ensures
        r@.len() == 64,
        r@ == pst_king_values(),
        forall|j: int| 0 <= j < 64 ==> -100 <= #[trigger] r@[j] <= 100,
{
    let r = vec![
        0i32, 0, 0, 0, 0, 0, 0, 0, 0, 0, 5, 5, 5, 5, 0, 0, 0, 5, 5, 10, 10, 5, 5, 0, 0, 5, 10, 20,
        20, 10, 5, 0, 0, 5, 10, 20, 20, 10, 5, 0, 0, 0, 5, 10, 10, 5, 0, 0, 0, 5, 5, -5, -5, 0, 5,
        0, 0, 0, 5, 0, -15, 0, 10, 0,
    ];
    assert(r@ =~= pst_king_values());
    assert(forall|j: int| 0 <= j < 64 ==> -100 <= #[trigger] r@[j] <= 100) by {
        assert(r@.len() == 64);
    }
    r
}

/// Score a position from the given color's perspective: material value
/// plus a piece-square bonus per occupied square, with Black's squares
/// mirrored. Deterministic, side-effect free, and strictly inside the
/// checkmate scores.
pub fn eval(board: &Board, color: Color) -> (r: i32)
    requires
        board@.wf(),
    ensures
        -10000000 < r < 10000000,
        r == spec_eval(board@.bbs, color),
{
    proof {
        lemma_board_view(board);
    }
    let pk = pst_king();
    let pr = pst_rook();
    let pb = pst_bishop();
    let pn = pst_knight();
    let pp = pst_pawn();
    let mut score: i32 = 0;
    let mut i: usize = 0;
    while i < 12
        invariant
            board@.wf(),
            board@.bbs == board.bitboards@,
            i <= 12,
            -646400 * (i as int) <= score <= 646400 * (i as int),
            score as int == eval_sum(board@.bbs, 0) - eval_sum(board@.bbs, i as int),
            pk@ == pst_king_values() && pr@ == pst_rook_values() && pb@ == pst_bishop_values()
                && pn@ == pst_knight_values() && pp@ == pst_pawn_values(),
            pk@.len() == 64 && pr@.len() == 64 && pb@.len() == 64 && pn@.len() == 64 && pp@.len()
                == 64,
            forall|j: int| 0 <= j < 64 ==> -100 <= #[trigger] pk@[j] <= 100,
            forall|j: int| 0 <= j < 64 ==> -100 <= #[trigger] pr@[j] <= 100,
            forall|j: int| 0 <= j < 64 ==> -100 <= #[trigger] pb@[j] <= 100,
            forall|j: int| 0 <= j < 64 ==> -100 <= #[trigger] pn@[j] <= 100,
            forall|j: int| 0 <= j < 64 ==> -100 <= #[trigger] pp@[j] <= 100,
        decreases 12 - i,
    {
        let mut bb = Bitboard::new(board.bitboards[i]);
        let cnt = bb.count_bits();
        let pv = piece_value(i);
        proof {
            assert(-640000 <= pv * (cnt as i32) <= 640000) by (nonlinear_arith)
                requires
                    -10000 <= pv <= 10000 && 0 <= cnt <= 64,
            ;
        }
        let material = pv * (cnt as i32);
        score = score + material;
        let ghost total = popcount(bb@);
        let ghost target = eval_sum(board@.bbs, 0) - eval_sum(board@.bbs, i as int + 1);
        proof {
            crate::bitboard::lemma_popcount_bound(bb@);
        }
        while !bb.is_empty()
            invariant
                i < 12,
                board@.wf(),
                popcount(bb@) <= total <= 64,
                -646400 * (i as int) - 640000 - 100 * (total - popcount(bb@)) <= score <= 646400 * (
                i as int) + 640000 + 100 * (total - popcount(bb@)),
                target == eval_sum(board@.bbs, 0) - eval_sum(board@.bbs, i as int + 1),
                score as int + pst_sum(i as int, squares_of(bb@)) == target,
                pk@ == pst_king_values() && pr@ == pst_rook_values() && pb@ == pst_bishop_values()
                    && pn@ == pst_knight_values() && pp@ == pst_pawn_values(),
                pk@.len() == 64 && pr@.len() == 64 && pb@.len() == 64 && pn@.len() == 64
                    && pp@.len() == 64,
                forall|j: int| 0 <= j < 64 ==> -100 <= #[trigger] pk@[j] <= 100,
                forall|j: int| 0 <= j < 64 ==> -100 <= #[trigger] pr@[j] <= 100,
                forall|j: int| 0 <= j < 64 ==> -100 <= #[trigger] pb@[j] <= 100,
                forall|j: int| 0 <= j < 64 ==> -100 <= #[trigger] pn@[j] <= 100,
                forall|j: int| 0 <= j < 64 ==> -100 <= #[trigger] pp@[j] <= 100,
            decreases bb@,
        {
            proof {
                lemma_lsb_props(bb@);
                lemma_pop_lsb(bb@);
                crate::bitboard::lemma_clear_bit_decreases(
                    bb@,
                    crate::bitboard::lsb_index(bb@) as u64,
                );
            }
            let square = match bb.get_lsb_square() {
                Some(sq) => sq,
                None => {
                    proof {
                        assert(false);
                    }
                    Square::new(0)
                },
            };
            let sq = square.to_index();
            let ghost bbrest = bb@ & !(1u64 << (sq as u64));
            proof {
                assert(squares_of(bb@) =~= seq![sq as u8] + squares_of(bbrest));
                assert((seq![sq as u8] + squares_of(bbrest)).drop_first() =~= squares_of(bbrest));
            }
            let delta: i32 = match i {
                0 => pk[sq],
                2 => pr[sq],
                3 => pb[sq],
                4 => pn[sq],
                5 => pp[sq],
                6 => -pk[63 - sq],
                8 => -pr[63 - sq],
                9 => -pb[63 - sq],
                10 => -pn[63 - sq],
                11 => -pp[63 - sq],
                _ => 0,
            };
            proof {
                assert(delta as int == pst_bonus(i as int, sq as u8));
            }
            score = score + delta;
            bb.pop_bit_by_square(square);
        }
        proof {
            assert(pst_sum(i as int, squares_of(0u64)) == 0);
        }
        i = i + 1;
    }
    proof {
        assert(eval_sum(board@.bbs, 12) == 0);
        assert(score as int == spec_eval_white(board@.bbs));
    }
    match color {
        Color::WHITE => score,
        Color::BLACK => -score,
    }
}

} // verus!
